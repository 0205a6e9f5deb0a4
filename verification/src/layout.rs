//! What a frame's joint buffer and offset table hold, as a function of the
//! scene.

use crate::index::SkinIndex;
use crate::matrix::{same_matrix, zero_words, JointMatrix};
use crate::skin::{SkinInstance, MAX_JOINTS};
use bevy_ecs::entity::Entity;
use vstd::prelude::*;

verus! {

/// `count` zero matrices.
pub open spec fn zero_matrices(count: nat) -> Seq<Seq<u32>> {
    Seq::new(count, |i: int| zero_words())
}

/// The number of zero matrices that bring a buffer of `len` matrices to the
/// next multiple of four, which is 256 bytes.
pub open spec fn alignment_padding(len: nat) -> nat {
    ((4 - len % 4) % 4) as nat
}

/// The number of zero matrices that a buffer of `len` matrices needs at its
/// end so that a full binding of [`MAX_JOINTS`] matrices can be read from
/// `last_start` on.
pub open spec fn tail_padding(len: nat, last_start: nat) -> nat {
    if len - last_start >= MAX_JOINTS {
        0
    } else {
        (MAX_JOINTS - (len - last_start)) as nat
    }
}

/// What a mesh that packs adds to a buffer of `start` matrices: its joint
/// matrices and, with uniform buffers, the padding up to the next offset
/// that can be bound.
pub open spec fn instance_block(instance: SkinInstance, start: nat, uniform: bool) -> Seq<
    Seq<u32>,
> {
    if uniform {
        instance.matrices() + zero_matrices(
            alignment_padding(start + instance.matrices().len()),
        )
    } else {
        instance.matrices()
    }
}

/// The buffer after the given meshes were packed in order, before the
/// padding at its end.
pub open spec fn packed_matrices(instances: Seq<SkinInstance>, uniform: bool) -> Seq<Seq<u32>>
    decreases instances.len(),
{
    if instances.len() == 0 {
        Seq::empty()
    } else {
        let before = packed_matrices(instances.drop_last(), uniform);
        if instances.last().packs() {
            before + instance_block(instances.last(), before.len(), uniform)
        } else {
            before
        }
    }
}

/// The position in the buffer at which mesh `i` starts, if it packs.
pub open spec fn instance_start(instances: Seq<SkinInstance>, i: int, uniform: bool) -> nat {
    packed_matrices(instances.take(i), uniform).len()
}

/// The offset table after the given meshes were packed in order: one entry
/// for each mesh that packs, which says where it starts.
pub open spec fn packed_offsets(instances: Seq<SkinInstance>, uniform: bool) -> Map<
    Entity,
    SkinIndex,
>
    decreases instances.len(),
{
    if instances.len() == 0 {
        Map::empty()
    } else {
        let before = packed_offsets(instances.drop_last(), uniform);
        if instances.last().packs() {
            before.insert(
                instances.last().entity,
                SkinIndex::at(packed_matrices(instances.drop_last(), uniform).len()),
            )
        } else {
            before
        }
    }
}

/// The position at which the last mesh that packs starts, and 0 if none does.
pub open spec fn last_start(instances: Seq<SkinInstance>, uniform: bool) -> nat
    decreases instances.len(),
{
    if instances.len() == 0 {
        0
    } else if instances.last().packs() {
        packed_matrices(instances.drop_last(), uniform).len()
    } else {
        last_start(instances.drop_last(), uniform)
    }
}

/// The joint buffer of a frame: the meshes packed in order, then zero
/// matrices until a full binding can be read from the last start on.
pub open spec fn frame_matrices(instances: Seq<SkinInstance>, uniform: bool) -> Seq<Seq<u32>> {
    let packed = packed_matrices(instances, uniform);
    packed + zero_matrices(tail_padding(packed.len(), last_start(instances, uniform)))
}

/// `after` is `before` with matrices added at its end that agree with
/// `block` one by one.
pub open spec fn appended(
    before: Seq<JointMatrix>,
    after: Seq<JointMatrix>,
    block: Seq<Seq<u32>>,
) -> bool {
    &&& after.len() == before.len() + block.len()
    &&& forall|i: int| 0 <= i < before.len() ==> #[trigger] after[i] == before[i]
    &&& forall|k: int|
        0 <= k < block.len() ==> same_matrix((#[trigger] after[before.len() + k])@, block[k])
}

/// The buffer holds the expected matrices, one by one.
pub open spec fn matrices_agree(buffer: Seq<JointMatrix>, expected: Seq<Seq<u32>>) -> bool {
    appended(Seq::empty(), buffer, expected)
}

/// Adding one block after another adds both in order.
pub proof fn lemma_appended_twice(
    a: Seq<JointMatrix>,
    b: Seq<JointMatrix>,
    c: Seq<JointMatrix>,
    first: Seq<Seq<u32>>,
    second: Seq<Seq<u32>>,
)
    requires
        appended(a, b, first),
        appended(b, c, second),
    ensures
        appended(a, c, first + second),
{
    assert forall|i: int| 0 <= i < a.len() implies #[trigger] c[i] == a[i] by {
        assert(c[i] == b[i]);
    }
    assert forall|k: int| 0 <= k < (first + second).len() implies same_matrix(
        (#[trigger] c[a.len() + k])@,
        (first + second)[k],
    ) by {
        if k < first.len() {
            assert(c[a.len() + k] == b[a.len() + k]);
        } else {
            assert(c[b.len() + (k - first.len())] == c[a.len() + k]);
        }
    }
}

/// Packing one more mesh, spelled out.
pub proof fn lemma_pack_next(instances: Seq<SkinInstance>, i: int, uniform: bool)
    requires
        0 <= i < instances.len(),
    ensures
        instances[i].packs() ==> packed_matrices(instances.take(i + 1), uniform)
            == packed_matrices(instances.take(i), uniform) + instance_block(
            instances[i],
            instance_start(instances, i, uniform),
            uniform,
        ),
        instances[i].packs() ==> packed_offsets(instances.take(i + 1), uniform) == packed_offsets(
            instances.take(i),
            uniform,
        ).insert(instances[i].entity, SkinIndex::at(instance_start(instances, i, uniform))),
        instances[i].packs() ==> last_start(instances.take(i + 1), uniform) == instance_start(
            instances,
            i,
            uniform,
        ),
        !instances[i].packs() ==> packed_matrices(instances.take(i + 1), uniform)
            == packed_matrices(instances.take(i), uniform),
        !instances[i].packs() ==> packed_offsets(instances.take(i + 1), uniform)
            == packed_offsets(instances.take(i), uniform),
        !instances[i].packs() ==> last_start(instances.take(i + 1), uniform) == last_start(
            instances.take(i),
            uniform,
        ),
{
    assert(instances.take(i + 1).drop_last() =~= instances.take(i));
    assert(instances.take(i + 1).last() == instances[i]);
}

/// The last start lies inside the packed buffer.
pub proof fn lemma_last_start_in_buffer(instances: Seq<SkinInstance>, uniform: bool)
    ensures
        last_start(instances, uniform) <= packed_matrices(instances, uniform).len(),
    decreases instances.len(),
{
    if instances.len() > 0 {
        lemma_last_start_in_buffer(instances.drop_last(), uniform);
    }
}

} // verus!
