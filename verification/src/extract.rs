//! Packing the joint matrices of a frame.

use crate::buffer::{JointBuffer, SkinUniforms};
use crate::frame::{extracted, skin_state};
use crate::index::{SkinIndex, SkinIndexMap, SkinIndices};
use crate::layout::{
    alignment_padding, appended, instance_block, instance_start, last_start,
    lemma_appended_twice, lemma_last_start_in_buffer, lemma_pack_next, matrices_agree,
    packed_matrices, packed_offsets, tail_padding, zero_matrices,
};
use crate::matrix::{joint_matrix, zero_matrix, zero_words, JointMatrix, JointTransform};
use crate::skin::{
    clamped_joints, lemma_resolved_matrices, pair_matrix, resolved_matrices, SkinInstance,
    MAX_JOINTS,
};
use vstd::prelude::*;

verus! {

/// `after` is `before` with `count` zero matrices added at its end.
pub open spec fn zero_padded(
    before: Seq<JointMatrix>,
    after: Seq<JointMatrix>,
    count: nat,
) -> bool {
    &&& after.len() == before.len() + count
    &&& forall|i: int| 0 <= i < before.len() ==> #[trigger] after[i] == before[i]
    &&& forall|i: int| before.len() <= i < after.len() ==> (#[trigger] after[i])@ == zero_words()
}

/// Zero matrices at the end are a block of zero matrices.
pub proof fn lemma_zero_padded_appended(
    before: Seq<JointMatrix>,
    after: Seq<JointMatrix>,
    count: nat,
)
    requires
        zero_padded(before, after, count),
    ensures
        appended(before, after, zero_matrices(count)),
{
}

/// Appends the matrix of each joint of a skin that is to be packed and can be
/// paired with its bind pose, in joint order, and returns how many were
/// appended. A joint that cannot be paired is passed over, so the count falls
/// short of the number of joints to be packed exactly when some pair does not
/// resolve.
pub fn append_joint_matrices(
    buffer: &mut JointBuffer,
    joints: &Vec<Option<JointTransform>>,
    bindposes: &Vec<JointMatrix>,
) -> (count: usize)
    ensures
        final(buffer).is_uniform() == old(buffer).is_uniform(),
        appended(
            old(buffer)@,
            final(buffer)@,
            resolved_matrices(joints@, bindposes@, clamped_joints(joints@.len())),
        ),
        count == resolved_matrices(joints@, bindposes@, clamped_joints(joints@.len())).len(),
{
    let ghost before = buffer@;
    let limit: usize = if joints.len() <= MAX_JOINTS {
        joints.len()
    } else {
        MAX_JOINTS
    };
    let mut count: usize = 0;
    let mut j: usize = 0;
    while j < limit
        invariant
            limit == clamped_joints(joints@.len()),
            j <= limit,
            count <= j,
            buffer.is_uniform() == old(buffer).is_uniform(),
            before == old(buffer)@,
            appended(before, buffer@, resolved_matrices(joints@, bindposes@, j as nat)),
            count == resolved_matrices(joints@, bindposes@, j as nat).len(),
        decreases limit - j,
    {
        let ghost held = buffer@;
        if j < bindposes.len() {
            match &joints[j] {
                Some(joint) => {
                    let product = joint_matrix(joint, &bindposes[j]);
                    buffer.raw_push(product);
                    count += 1;
                    proof {
                        let pushed = seq![pair_matrix(joints@, bindposes@, j as int)];
                        assert(appended(held, buffer@, pushed));
                        lemma_appended_twice(
                            before,
                            held,
                            buffer@,
                            resolved_matrices(joints@, bindposes@, j as nat),
                            pushed,
                        );
                        assert(resolved_matrices(joints@, bindposes@, j as nat) + pushed
                            =~= resolved_matrices(joints@, bindposes@, (j + 1) as nat));
                    }
                },
                None => {},
            }
        }
        j += 1;
    }
    count
}

/// Pads the buffer with zero matrices until its length is a multiple of
/// four matrices, which is the 256 bytes that a dynamic offset must be
/// aligned to.
pub fn pad_to_alignment(buffer: &mut JointBuffer)
    ensures
        final(buffer).is_uniform() == old(buffer).is_uniform(),
        zero_padded(old(buffer)@, final(buffer)@, alignment_padding(old(buffer)@.len())),
{
    let ghost before = buffer@;
    while buffer.raw_len() % 4 != 0
        invariant
            buffer.is_uniform() == old(buffer).is_uniform(),
            before == old(buffer)@,
            buffer@.len() + alignment_padding(buffer@.len()) == before.len() + alignment_padding(
                before.len(),
            ),
            zero_padded(before, buffer@, (buffer@.len() - before.len()) as nat),
        decreases alignment_padding(buffer@.len()),
    {
        let ghost held = buffer@;
        buffer.raw_push(zero_matrix());
        assert forall|i: int| 0 <= i < before.len() implies #[trigger] buffer@[i] == before[i] by {
            assert(held[i] == before[i]);
        }
        assert forall|i: int| before.len() <= i < buffer@.len() implies (#[trigger] buffer@[i])@
            == zero_words() by {
            if i < held.len() {
                assert(buffer@[i] == held[i]);
            }
        }
    }
}

/// Pads the buffer with zero matrices until a full binding of
/// [`MAX_JOINTS`] matrices can be read from `last_start` on.
pub fn pad_tail(buffer: &mut JointBuffer, last_start: usize)
    requires
        last_start <= old(buffer)@.len(),
    ensures
        final(buffer).is_uniform() == old(buffer).is_uniform(),
        zero_padded(
            old(buffer)@,
            final(buffer)@,
            tail_padding(old(buffer)@.len(), last_start as nat),
        ),
{
    let ghost before = buffer@;
    while buffer.raw_len() - last_start < MAX_JOINTS
        invariant
            buffer.is_uniform() == old(buffer).is_uniform(),
            before == old(buffer)@,
            last_start <= before.len() <= buffer@.len(),
            buffer@.len() + tail_padding(buffer@.len(), last_start as nat) == before.len()
                + tail_padding(before.len(), last_start as nat),
            zero_padded(before, buffer@, (buffer@.len() - before.len()) as nat),
        decreases tail_padding(buffer@.len(), last_start as nat),
    {
        let ghost held = buffer@;
        buffer.raw_push(zero_matrix());
        assert forall|i: int| 0 <= i < before.len() implies #[trigger] buffer@[i] == before[i] by {
            assert(held[i] == before[i]);
        }
        assert forall|i: int| before.len() <= i < buffer@.len() implies (#[trigger] buffer@[i])@
            == zero_words() by {
            if i < held.len() {
                assert(buffer@[i] == held[i]);
            }
        }
    }
}

/// Packs one mesh at the end of the buffer and enters its start in the
/// table, and returns that start. A mesh that is not visible, whose bind
/// poses are not loaded or for which a joint does not resolve leaves buffer
/// and table as they were: whatever was appended for it is taken back.
pub fn pack_skin(
    table: &mut SkinIndexMap,
    buffer: &mut JointBuffer,
    instance: &SkinInstance,
    uniform: bool,
) -> (start: Option<usize>)
    ensures
        final(buffer).is_uniform() == old(buffer).is_uniform(),
        instance.packs() ==> start is Some && start->0 == old(buffer)@.len(),
        instance.packs() ==> appended(
            old(buffer)@,
            final(buffer)@,
            instance_block(*instance, old(buffer)@.len(), uniform),
        ),
        instance.packs() ==> final(table)@ == old(table)@.insert(
            instance.entity,
            SkinIndex::at(old(buffer)@.len()),
        ),
        !instance.packs() ==> start is None,
        !instance.packs() ==> final(buffer)@ == old(buffer)@,
        !instance.packs() ==> final(table)@ == old(table)@,
{
    if !instance.visible {
        return None;
    }
    match &instance.inverse_bindposes {
        None => None,
        Some(bindposes) => {
            let start: usize = buffer.raw_len();
            let limit: usize = if instance.joints.len() <= MAX_JOINTS {
                instance.joints.len()
            } else {
                MAX_JOINTS
            };
            let count: usize = append_joint_matrices(buffer, &instance.joints, bindposes);
            proof {
                lemma_resolved_matrices(instance.joints@, bindposes@, limit as nat);
            }
            if count != limit {
                buffer.raw_truncate(start);
                assert(buffer@ =~= old(buffer)@);
                return None;
            }
            let ghost matrices = buffer@;
            if uniform {
                pad_to_alignment(buffer);
                proof {
                    lemma_zero_padded_appended(
                        matrices,
                        buffer@,
                        alignment_padding(matrices.len()),
                    );
                    lemma_appended_twice(
                        old(buffer)@,
                        matrices,
                        buffer@,
                        instance.matrices(),
                        zero_matrices(alignment_padding(matrices.len())),
                    );
                }
            }
            table.raw_insert(instance.entity, SkinIndex::new(start));
            Some(start)
        },
    }
}

/// Packs the joint matrices of a frame.
///
/// The buffers and the tables swap roles, so that what was current becomes
/// the previous frame's. The current buffer and table are then emptied and
/// filled anew: every mesh that packs is appended in the order given and
/// entered in the table with its start; with uniform buffers each start is
/// aligned to four matrices; and the buffer ends with enough zero matrices
/// that [`MAX_JOINTS`] matrices can be read from the last start on.
pub fn extract_skins(
    skin_indices: &mut SkinIndices,
    uniform: &mut SkinUniforms,
    instances: &Vec<SkinInstance>,
    skins_use_uniform_buffers: bool,
)
    ensures
        extracted(
            skin_state(*old(skin_indices), *old(uniform)),
            skin_state(*final(skin_indices), *final(uniform)),
            instances@,
            skins_use_uniform_buffers,
        ),
        final(uniform).prev_buffer.is_uniform() == old(uniform).current_buffer.is_uniform(),
        final(uniform).current_buffer.is_uniform() == old(uniform).prev_buffer.is_uniform(),
{
    // Swap buffers. The previous frame's buffer is kept for the purposes of
    // motion vector computation.
    std::mem::swap(&mut skin_indices.current, &mut skin_indices.prev);
    std::mem::swap(&mut uniform.current_buffer, &mut uniform.prev_buffer);
    skin_indices.current.raw_clear();
    uniform.current_buffer.raw_clear();

    let mut last: usize = 0;
    let mut i: usize = 0;
    assert(instances@.take(0) =~= Seq::<SkinInstance>::empty());
    while i < instances.len()
        invariant
            i <= instances@.len(),
            skin_indices.prev@ == old(skin_indices).current@,
            uniform.prev_buffer@ == old(uniform).current_buffer@,
            uniform.prev_buffer.is_uniform() == old(uniform).current_buffer.is_uniform(),
            uniform.current_buffer.is_uniform() == old(uniform).prev_buffer.is_uniform(),
            skin_indices.current@ == packed_offsets(
                instances@.take(i as int),
                skins_use_uniform_buffers,
            ),
            matrices_agree(
                uniform.current_buffer@,
                packed_matrices(instances@.take(i as int), skins_use_uniform_buffers),
            ),
            last == last_start(instances@.take(i as int), skins_use_uniform_buffers),
        decreases instances@.len() - i,
    {
        let ghost held = uniform.current_buffer@;
        let start = pack_skin(
            &mut skin_indices.current,
            &mut uniform.current_buffer,
            &instances[i],
            skins_use_uniform_buffers,
        );
        proof {
            lemma_pack_next(instances@, i as int, skins_use_uniform_buffers);
            lemma_last_start_in_buffer(instances@.take(i as int), skins_use_uniform_buffers);
            if instances@[i as int].packs() {
                lemma_appended_twice(
                    Seq::empty(),
                    held,
                    uniform.current_buffer@,
                    packed_matrices(instances@.take(i as int), skins_use_uniform_buffers),
                    instance_block(
                        instances@[i as int],
                        instance_start(instances@, i as int, skins_use_uniform_buffers),
                        skins_use_uniform_buffers,
                    ),
                );
            }
        }
        match start {
            Some(start) => {
                if start > last {
                    last = start;
                }
            },
            None => {},
        }
        i += 1;
    }
    assert(instances@.take(i as int) =~= instances@);

    // Pad out the buffer to ensure that there's enough space for bindings.
    let ghost packed = uniform.current_buffer@;
    proof {
        lemma_last_start_in_buffer(instances@, skins_use_uniform_buffers);
    }
    pad_tail(&mut uniform.current_buffer, last);
    proof {
        lemma_zero_padded_appended(
            packed,
            uniform.current_buffer@,
            tail_padding(packed.len(), last as nat),
        );
        lemma_appended_twice(
            Seq::empty(),
            packed,
            uniform.current_buffer@,
            packed_matrices(instances@, skins_use_uniform_buffers),
            zero_matrices(tail_padding(packed.len(), last as nat)),
        );
    }
}

} // verus!
