//! The two joint buffers.

use crate::matrix::JointMatrix;
use bevy_render::render_resource::{BufferUsages, RawBufferVec};
use vstd::prelude::*;

verus! {

/// A buffer of joint matrices: one `RawBufferVec` of `bevy_render`, which
/// keeps the matrices in system memory until they are written to the GPU.
#[verifier::external_body]
pub struct JointBuffer {
    /// The buffer itself, for what is left to the caller: to reserve room on
    /// the GPU, to write the matrices there and to bind the result.
    pub raw: RawBufferVec<JointMatrix>,
}

/// The matrices that a buffer holds in system memory, in order.
pub uninterp spec fn buffer_values(buffer: JointBuffer) -> Seq<JointMatrix>;

/// Whether a buffer was made to be bound as a uniform buffer, and not as a
/// storage buffer.
pub uninterp spec fn buffer_is_uniform(buffer: JointBuffer) -> bool;

impl View for JointBuffer {
    type V = Seq<JointMatrix>;

    open spec fn view(&self) -> Seq<JointMatrix> {
        buffer_values(*self)
    }
}

impl JointBuffer {
    /// Whether the buffer is bound as a uniform buffer.
    pub open spec fn is_uniform(&self) -> bool {
        buffer_is_uniform(*self)
    }

    /// Calls `RawBufferVec::new` with `BufferUsages::UNIFORM`: the buffer
    /// holds no matrix yet.
    #[verifier::external_body]
    pub(crate) fn raw_uniform() -> (buffer: JointBuffer)
        ensures
            buffer_values(buffer) == Seq::<JointMatrix>::empty(),
            buffer_is_uniform(buffer),
    {
        JointBuffer { raw: RawBufferVec::new(BufferUsages::UNIFORM) }
    }

    /// Calls `RawBufferVec::new` with `BufferUsages::STORAGE`: the buffer
    /// holds no matrix yet.
    #[verifier::external_body]
    pub(crate) fn raw_storage() -> (buffer: JointBuffer)
        ensures
            buffer_values(buffer) == Seq::<JointMatrix>::empty(),
            !buffer_is_uniform(buffer),
    {
        JointBuffer { raw: RawBufferVec::new(BufferUsages::STORAGE) }
    }

    /// Calls `RawBufferVec::set_label`, which names the buffer for the GPU's
    /// debugging tools and leaves the matrices and the usage alone.
    #[verifier::external_body]
    pub(crate) fn raw_set_label(&mut self, label: &str)
        ensures
            buffer_values(*final(self)) == buffer_values(*old(self)),
            buffer_is_uniform(*final(self)) == buffer_is_uniform(*old(self)),
    {
        self.raw.set_label(Some(label));
    }

    /// Calls `RawBufferVec::len`: the number of matrices pushed.
    #[verifier::external_body]
    pub(crate) fn raw_len(&self) -> (len: usize)
        ensures
            len == buffer_values(*self).len(),
    {
        self.raw.len()
    }

    /// Calls `RawBufferVec::is_empty`.
    #[verifier::external_body]
    pub(crate) fn raw_is_empty(&self) -> (empty: bool)
        ensures
            empty == (buffer_values(*self).len() == 0),
    {
        self.raw.is_empty()
    }

    /// Calls `RawBufferVec::push`, which adds the matrix at the end.
    #[verifier::external_body]
    pub(crate) fn raw_push(&mut self, value: JointMatrix)
        ensures
            buffer_values(*final(self)) == buffer_values(*old(self)).push(value),
            buffer_is_uniform(*final(self)) == buffer_is_uniform(*old(self)),
    {
        self.raw.push(value);
    }

    /// Calls `RawBufferVec::truncate`, which keeps the first `len` matrices
    /// and does nothing where the buffer holds no more than that.
    #[verifier::external_body]
    pub(crate) fn raw_truncate(&mut self, len: usize)
        ensures
            len <= buffer_values(*old(self)).len() ==> buffer_values(*final(self))
                == buffer_values(*old(self)).take(len as int),
            len > buffer_values(*old(self)).len() ==> buffer_values(*final(self))
                == buffer_values(*old(self)),
            buffer_is_uniform(*final(self)) == buffer_is_uniform(*old(self)),
    {
        self.raw.truncate(len);
    }

    /// Calls `RawBufferVec::clear`, which removes all matrices.
    #[verifier::external_body]
    pub(crate) fn raw_clear(&mut self)
        ensures
            buffer_values(*final(self)) == Seq::<JointMatrix>::empty(),
            buffer_is_uniform(*final(self)) == buffer_is_uniform(*old(self)),
    {
        self.raw.clear();
    }

    /// The number of matrices in the buffer.
    pub fn len(&self) -> (len: usize)
        ensures
            len == self@.len(),
    {
        self.raw_len()
    }

    /// An empty buffer with the given debugging label, to be bound as a
    /// uniform buffer if `uniform` is set and as a storage buffer otherwise.
    pub fn new(uniform: bool, label: &str) -> (buffer: JointBuffer)
        ensures
            buffer@ == Seq::<JointMatrix>::empty(),
            buffer.is_uniform() == uniform,
    {
        let mut buffer = if uniform {
            JointBuffer::raw_uniform()
        } else {
            JointBuffer::raw_storage()
        };
        buffer.raw_set_label(label);
        buffer
    }
}

/// The buffers containing joint matrices for all skinned meshes.
///
/// This is double-buffered: the joint matrices of each mesh for the previous
/// frame are stored in addition to those for the current frame, for motion
/// vector calculation. Every frame the buffers swap roles and the buffer
/// from two frames ago is overwritten with the data for the current frame.
pub struct SkinUniforms {
    /// Stores all the joint matrices for skinned meshes in the current frame.
    pub current_buffer: JointBuffer,
    /// Stores all the joint matrices for skinned meshes in the previous frame.
    pub prev_buffer: JointBuffer,
}

impl SkinUniforms {
    /// Two empty buffers. Where skinning must use uniform buffers both are
    /// made to be bound as such, otherwise as storage buffers.
    pub fn new(skins_use_uniform_buffers: bool) -> (uniforms: SkinUniforms)
        ensures
            uniforms.current_buffer@ == Seq::<JointMatrix>::empty(),
            uniforms.prev_buffer@ == Seq::<JointMatrix>::empty(),
            uniforms.current_buffer.is_uniform() == skins_use_uniform_buffers,
            uniforms.prev_buffer.is_uniform() == skins_use_uniform_buffers,
    {
        SkinUniforms {
            current_buffer: JointBuffer::new(
                skins_use_uniform_buffers,
                "SkinUniforms::current_buffer",
            ),
            prev_buffer: JointBuffer::new(skins_use_uniform_buffers, "SkinUniforms::prev_buffer"),
        }
    }
}

} // verus!
