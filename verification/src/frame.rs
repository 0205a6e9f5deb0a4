//! The state that one frame hands to the next.

use crate::buffer::SkinUniforms;
use crate::index::{SkinIndex, SkinIndices};
use crate::layout::{frame_matrices, matrices_agree, packed_offsets};
use crate::matrix::JointMatrix;
use crate::skin::SkinInstance;
use bevy_ecs::entity::Entity;
use vstd::prelude::*;

verus! {

/// What the two tables and the two buffers hold.
pub struct SkinState {
    /// The offsets of the current frame.
    pub current_offsets: Map<Entity, SkinIndex>,
    /// The offsets of the previous frame.
    pub prev_offsets: Map<Entity, SkinIndex>,
    /// The joint matrices of the current frame.
    pub current_matrices: Seq<JointMatrix>,
    /// The joint matrices of the previous frame.
    pub prev_matrices: Seq<JointMatrix>,
}

/// The state held by the given tables and buffers.
pub open spec fn skin_state(indices: SkinIndices, uniforms: SkinUniforms) -> SkinState {
    SkinState {
        current_offsets: indices.current@,
        prev_offsets: indices.prev@,
        current_matrices: uniforms.current_buffer@,
        prev_matrices: uniforms.prev_buffer@,
    }
}

/// One frame's extraction leads from `before` to `after`: what was current is
/// now previous, unchanged, and what is current now was packed from the
/// frame's meshes alone.
pub open spec fn extracted(
    before: SkinState,
    after: SkinState,
    instances: Seq<SkinInstance>,
    uniform: bool,
) -> bool {
    &&& after.prev_offsets == before.current_offsets
    &&& after.prev_matrices == before.current_matrices
    &&& after.current_offsets == packed_offsets(instances, uniform)
    &&& matrices_agree(after.current_matrices, frame_matrices(instances, uniform))
}

} // verus!
