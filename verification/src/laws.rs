//! What holds of every frame, whatever the scene.

use crate::frame::{extracted, SkinState};
use crate::index::{byte_offset_counts_matrices, byte_offset_of, SkinIndex};
use crate::layout::{
    alignment_padding, frame_matrices, instance_start, last_start, lemma_last_start_in_buffer,
    lemma_pack_next, matrices_agree, packed_matrices, packed_offsets, zero_matrices,
};
use crate::matrix::{lemma_same_as_zero, same_matrix, zero_words, JointMatrix};
use crate::skin::{pair_matrix, pair_resolves, SkinInstance, MAX_JOINTS};
use bevy_ecs::entity::Entity;
use vstd::prelude::*;

verus! {

/// The number of joint matrices of all the meshes that pack.
pub open spec fn packed_joint_count(instances: Seq<SkinInstance>) -> nat
    decreases instances.len(),
{
    if instances.len() == 0 {
        0
    } else if instances.last().packs() {
        packed_joint_count(instances.drop_last()) + instances.last().joint_count()
    } else {
        packed_joint_count(instances.drop_last())
    }
}

/// With uniform buffers the packed buffer is a whole number of blocks of four
/// matrices.
pub proof fn lemma_uniform_length_aligned(instances: Seq<SkinInstance>)
    ensures
        packed_matrices(instances, true).len() % 4 == 0,
    decreases instances.len(),
{
    if instances.len() > 0 {
        lemma_uniform_length_aligned(instances.drop_last());
    }
}

/// With uniform buffers every mesh starts at a multiple of four matrices, so
/// any two starts are a multiple of four matrices apart, and the byte offset
/// of each start is a multiple of 256.
pub proof fn uniform_starts_are_aligned(instances: Seq<SkinInstance>, i: int, next: int)
    requires
        0 <= i <= next <= instances.len(),
    ensures
        instance_start(instances, i, true) % 4 == 0,
        (instance_start(instances, next, true) - instance_start(instances, i, true)) % 4 == 0,
        byte_offset_of(instance_start(instances, i, true)) % 256 == 0,
{
    lemma_uniform_length_aligned(instances.take(i));
    lemma_uniform_length_aligned(instances.take(next));
    byte_offset_counts_matrices(instance_start(instances, i, true));
}

/// With uniform buffers every offset in the table is a multiple of 256
/// bytes.
pub proof fn uniform_offsets_are_aligned(instances: Seq<SkinInstance>, entity: Entity)
    requires
        packed_offsets(instances, true).dom().contains(entity),
    ensures
        packed_offsets(instances, true)[entity].byte_offset % 256 == 0,
    decreases instances.len(),
{
    if instances.len() > 0 {
        let before = instances.drop_last();
        if instances.last().packs() && instances.last().entity == entity {
            assert(before =~= instances.take(instances.len() - 1));
            uniform_starts_are_aligned(instances, instances.len() - 1, instances.len() - 1);
        } else {
            uniform_offsets_are_aligned(before, entity);
        }
    }
}

/// Whatever the mode, the buffer of a frame ends at least [`MAX_JOINTS`]
/// matrices after the start of the last mesh that packs, so that a full
/// binding can be read there; and it is no longer than that asks for.
pub proof fn tail_leaves_full_binding(instances: Seq<SkinInstance>, uniform: bool)
    ensures
        last_start(instances, uniform) <= packed_matrices(instances, uniform).len(),
        frame_matrices(instances, uniform).len() - last_start(instances, uniform) >= MAX_JOINTS,
        frame_matrices(instances, uniform).len() == packed_matrices(instances, uniform).len()
            || frame_matrices(instances, uniform).len() == last_start(instances, uniform)
            + MAX_JOINTS,
{
    lemma_last_start_in_buffer(instances, uniform);
}

/// With storage buffers nothing is put between the meshes: each starts where
/// the joint matrices of the meshes before it end, and the packed buffer is
/// as long as the sum of their joint counts.
pub proof fn storage_packing_has_no_gaps(instances: Seq<SkinInstance>, i: int)
    requires
        0 <= i <= instances.len(),
    ensures
        instance_start(instances, i, false) == packed_joint_count(instances.take(i)),
        packed_matrices(instances, false).len() == packed_joint_count(instances),
{
    lemma_storage_length(instances.take(i));
    lemma_storage_length(instances);
}

/// The length of the packed buffer with storage buffers.
pub proof fn lemma_storage_length(instances: Seq<SkinInstance>)
    ensures
        packed_matrices(instances, false).len() == packed_joint_count(instances),
    decreases instances.len(),
{
    if instances.len() > 0 {
        lemma_storage_length(instances.drop_last());
    }
}

/// A mesh that packs takes as many matrices as it has joints to pack, and
/// with uniform buffers the padding to the next multiple of four besides.
pub proof fn packed_instance_length(instances: Seq<SkinInstance>, i: int, uniform: bool)
    requires
        0 <= i < instances.len(),
        instances[i].packs(),
    ensures
        instances[i].matrices().len() == instances[i].joint_count(),
        !uniform ==> instance_start(instances, i + 1, uniform) == instance_start(
            instances,
            i,
            uniform,
        ) + instances[i].joint_count(),
        uniform ==> instance_start(instances, i + 1, uniform) == instance_start(
            instances,
            i,
            uniform,
        ) + instances[i].joint_count() + alignment_padding(instances[i].joint_count()),
{
    lemma_pack_next(instances, i, uniform);
    if uniform {
        lemma_uniform_length_aligned(instances.take(i));
    }
}

/// Of a mesh with more than [`MAX_JOINTS`] joints that packs, exactly
/// [`MAX_JOINTS`] matrices are appended, however many joints it has.
pub proof fn long_skin_is_truncated(instances: Seq<SkinInstance>, i: int, uniform: bool)
    requires
        0 <= i < instances.len(),
        instances[i].packs(),
        instances[i].joints@.len() > MAX_JOINTS,
    ensures
        instances[i].matrices().len() == MAX_JOINTS,
        instance_start(instances, i + 1, uniform) == instance_start(instances, i, uniform)
            + MAX_JOINTS,
{
    packed_instance_length(instances, i, uniform);
}

/// If one of the joints that are to be packed for a mesh does not resolve,
/// the mesh adds nothing: no matrix to the buffer and no entry to the
/// table.
pub proof fn unresolved_joint_drops_instance(
    instances: Seq<SkinInstance>,
    i: int,
    joint: int,
    uniform: bool,
)
    requires
        0 <= i < instances.len(),
        0 <= joint < instances[i].joint_count(),
        instances[i].joints@[joint] is None,
    ensures
        !instances[i].packs(),
        packed_matrices(instances.take(i + 1), uniform) == packed_matrices(
            instances.take(i),
            uniform,
        ),
        packed_offsets(instances.take(i + 1), uniform) == packed_offsets(
            instances.take(i),
            uniform,
        ),
{
    assert(!pair_resolves(
        instances[i].joints@,
        instances[i].inverse_bindposes->0@,
        joint,
    ));
    lemma_pack_next(instances, i, uniform);
}

/// A mesh whose bind poses are not loaded, or that is not visible, adds
/// nothing either.
pub proof fn unloaded_skin_drops_instance(instances: Seq<SkinInstance>, i: int, uniform: bool)
    requires
        0 <= i < instances.len(),
        instances[i].inverse_bindposes is None || !instances[i].visible,
    ensures
        packed_matrices(instances.take(i + 1), uniform) == packed_matrices(
            instances.take(i),
            uniform,
        ),
        packed_offsets(instances.take(i + 1), uniform) == packed_offsets(
            instances.take(i),
            uniform,
        ),
{
    lemma_pack_next(instances, i, uniform);
}

/// A scene in which no mesh packs, an empty scene among them, gives an empty
/// table and a buffer of exactly [`MAX_JOINTS`] zero matrices.
pub proof fn empty_scene_is_one_binding(
    instances: Seq<SkinInstance>,
    uniform: bool,
    buffer: Seq<JointMatrix>,
)
    requires
        forall|i: int| 0 <= i < instances.len() ==> !(#[trigger] instances[i]).packs(),
        matrices_agree(buffer, frame_matrices(instances, uniform)),
    ensures
        packed_offsets(instances, uniform) == Map::<Entity, SkinIndex>::empty(),
        frame_matrices(instances, uniform) == zero_matrices(MAX_JOINTS as nat),
        buffer.len() == MAX_JOINTS,
        forall|i: int| 0 <= i < buffer.len() ==> (#[trigger] buffer[i])@ == zero_words(),
{
    lemma_nothing_packs(instances, uniform);
    assert(frame_matrices(instances, uniform) =~= zero_matrices(MAX_JOINTS as nat));
    assert forall|i: int| 0 <= i < buffer.len() implies (#[trigger] buffer[i])@
        == zero_words() by {
        assert(same_matrix(buffer[0 + i]@, frame_matrices(instances, uniform)[i]));
        lemma_same_as_zero(buffer[i]@);
    }
}

/// Where no mesh packs, nothing is packed.
pub proof fn lemma_nothing_packs(instances: Seq<SkinInstance>, uniform: bool)
    requires
        forall|i: int| 0 <= i < instances.len() ==> !(#[trigger] instances[i]).packs(),
    ensures
        packed_matrices(instances, uniform) == Seq::<Seq<u32>>::empty(),
        packed_offsets(instances, uniform) == Map::<Entity, SkinIndex>::empty(),
        last_start(instances, uniform) == 0,
    decreases instances.len(),
{
    if instances.len() > 0 {
        assert(!instances[instances.len() - 1].packs());
        lemma_nothing_packs(instances.drop_last(), uniform);
    }
}

/// What was packed for the first meshes stays where it is when more meshes
/// are packed after them.
pub proof fn lemma_packed_prefix(instances: Seq<SkinInstance>, n: int, m: int, uniform: bool)
    requires
        0 <= n <= m <= instances.len(),
    ensures
        packed_matrices(instances.take(n), uniform).len() <= packed_matrices(
            instances.take(m),
            uniform,
        ).len(),
        forall|k: int|
            0 <= k < packed_matrices(instances.take(n), uniform).len() ==> packed_matrices(
                instances.take(m),
                uniform,
            )[k] == #[trigger] packed_matrices(instances.take(n), uniform)[k],
    decreases m - n,
{
    if n < m {
        lemma_packed_prefix(instances, n, m - 1, uniform);
        lemma_pack_next(instances, m - 1, uniform);
    }
}

/// No mesh that packs starts after the last start, so a full binding of
/// [`MAX_JOINTS`] matrices can be read from the start of every mesh in the
/// table without leaving the buffer.
pub proof fn every_binding_is_in_bounds(instances: Seq<SkinInstance>, i: int, uniform: bool)
    requires
        0 <= i < instances.len(),
        instances[i].packs(),
    ensures
        instance_start(instances, i, uniform) <= last_start(instances, uniform),
        instance_start(instances, i, uniform) + MAX_JOINTS <= frame_matrices(
            instances,
            uniform,
        ).len(),
    decreases instances.len(),
{
    let before = instances.drop_last();
    let last = instances.len() - 1;
    assert(before =~= instances.take(last));
    if instances[last].packs() {
        lemma_packed_prefix(instances, i, last, uniform);
    } else {
        assert(before[i] == instances[i]);
        assert(before.take(i) =~= instances.take(i));
        every_binding_is_in_bounds(before, i, uniform);
    }
    lemma_last_start_in_buffer(instances, uniform);
}

/// The joint matrices of a mesh that packs stand in the frame's buffer from
/// the mesh's start on, in joint order.
pub proof fn packed_instance_is_at_its_start(
    instances: Seq<SkinInstance>,
    i: int,
    joint: int,
    uniform: bool,
)
    requires
        0 <= i < instances.len(),
        instances[i].packs(),
        0 <= joint < instances[i].joint_count(),
    ensures
        instance_start(instances, i, uniform) + joint < frame_matrices(instances, uniform).len(),
        frame_matrices(instances, uniform)[instance_start(instances, i, uniform) + joint]
            == pair_matrix(instances[i].joints@, instances[i].inverse_bindposes->0@, joint),
{
    lemma_pack_next(instances, i, uniform);
    lemma_packed_prefix(instances, i + 1, instances.len() as int, uniform);
    assert(instances.take(instances.len() as int) =~= instances);
    let start = instance_start(instances, i, uniform);
    let upto = packed_matrices(instances.take(i + 1), uniform);
    assert(upto[start + joint] == instances[i].matrices()[joint]);
    assert(packed_matrices(instances, uniform)[start + joint] == upto[start + joint]);
}

/// The table has an entry for an entity exactly if some mesh of that entity
/// packs.
pub proof fn table_lists_the_meshes_that_pack(
    instances: Seq<SkinInstance>,
    entity: Entity,
    uniform: bool,
)
    ensures
        packed_offsets(instances, uniform).dom().contains(entity) <==> exists|i: int|
            0 <= i < instances.len() && (#[trigger] instances[i]).packs() && instances[i].entity
                == entity,
    decreases instances.len(),
{
    if instances.len() > 0 {
        let before = instances.drop_last();
        let last = instances.len() - 1;
        table_lists_the_meshes_that_pack(before, entity, uniform);
        if packed_offsets(instances, uniform).dom().contains(entity) {
            if instances[last].packs() && instances[last].entity == entity {
            } else {
                let i = choose|i: int|
                    0 <= i < before.len() && (#[trigger] before[i]).packs() && before[i].entity
                        == entity;
                assert(instances[i].packs() && instances[i].entity == entity);
            }
        }
        if exists|i: int|
            0 <= i < instances.len() && (#[trigger] instances[i]).packs() && instances[i].entity
                == entity {
            let i = choose|i: int|
                0 <= i < instances.len() && (#[trigger] instances[i]).packs()
                    && instances[i].entity == entity;
            if i < last {
                assert(before[i].packs() && before[i].entity == entity);
            }
        }
    }
}

/// The entry of a mesh that packs gives the mesh's start, unless a later mesh
/// of the same entity packs too.
pub proof fn table_points_to_the_start(instances: Seq<SkinInstance>, i: int, uniform: bool)
    requires
        0 <= i < instances.len(),
        instances[i].packs(),
        forall|k: int|
            i < k < instances.len() && (#[trigger] instances[k]).packs() ==> instances[k].entity
                != instances[i].entity,
    ensures
        packed_offsets(instances, uniform).dom().contains(instances[i].entity),
        packed_offsets(instances, uniform)[instances[i].entity] == SkinIndex::at(
            instance_start(instances, i, uniform),
        ),
    decreases instances.len(),
{
    let before = instances.drop_last();
    let last = instances.len() - 1;
    if i == last {
        assert(before =~= instances.take(i));
    } else {
        assert(before[i] == instances[i]);
        assert forall|k: int|
            i < k < before.len() && (#[trigger] before[k]).packs() implies before[k].entity
            != before[i].entity by {
            assert(instances[k].packs());
        }
        table_points_to_the_start(before, i, uniform);
        assert(before.take(i) =~= instances.take(i));
        if instances[last].packs() {
            assert(instances[last].entity != instances[i].entity);
        }
    }
}

/// After any number of frames the previous table and buffer are exactly what
/// the current ones were after the frame before: they hold what that frame's
/// scene packed, and nothing of an earlier frame.
///
/// `states[k]` is the state before frame `k`, and `states[k + 1]` the state
/// after it.
pub proof fn previous_frame_is_last_current(
    states: Seq<SkinState>,
    scenes: Seq<Seq<SkinInstance>>,
    modes: Seq<bool>,
    frames: int,
)
    requires
        states.len() == scenes.len() + 1,
        modes.len() == scenes.len(),
        forall|k: int|
            0 <= k < scenes.len() ==> extracted(
                #[trigger] states[k],
                states[k + 1],
                scenes[k],
                modes[k],
            ),
        1 <= frames <= scenes.len(),
    ensures
        states[frames].prev_offsets == states[frames - 1].current_offsets,
        states[frames].prev_matrices == states[frames - 1].current_matrices,
        frames >= 2 ==> states[frames].prev_offsets == packed_offsets(
            scenes[frames - 2],
            modes[frames - 2],
        ),
        frames >= 2 ==> matrices_agree(
            states[frames].prev_matrices,
            frame_matrices(scenes[frames - 2], modes[frames - 2]),
        ),
{
    assert(extracted(
        states[frames - 1],
        states[frames - 1 + 1],
        scenes[frames - 1],
        modes[frames - 1],
    ));
    if frames >= 2 {
        assert(extracted(
            states[frames - 2],
            states[frames - 2 + 1],
            scenes[frames - 2],
            modes[frames - 2],
        ));
    }
}

} // verus!
