//! What has to be written to the GPU after a frame was packed.

use crate::buffer::SkinUniforms;
use vstd::prelude::*;

verus! {

/// Decides the upload of a frame: `None` where the current buffer is empty
/// and nothing is to be done, and otherwise the number of matrices that the
/// GPU buffer must have room for, all of which are then to be written.
///
/// The previous buffer is never written again: it was written in the frame
/// in which it was current, and the data is still on the GPU.
pub fn prepare_skins(uniform: &SkinUniforms) -> (capacity: Option<usize>)
    ensures
        uniform.current_buffer@.len() == 0 ==> capacity is None,
        uniform.current_buffer@.len() > 0 ==> capacity is Some && capacity->0
            == uniform.current_buffer@.len(),
{
    if uniform.current_buffer.raw_is_empty() {
        return None;
    }
    Some(uniform.current_buffer.raw_len())
}

} // verus!
