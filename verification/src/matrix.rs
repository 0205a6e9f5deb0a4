//! Joint matrices as the 32-bit words that the GPU reads.

use bevy_math::{Affine3A, Mat4};
use vstd::prelude::*;

verus! {

/// A 4x4 matrix in column-major order. Each word is the bit pattern of a
/// 32-bit float, so one matrix fills 64 bytes of the joint buffer.
pub type JointMatrix = [u32; 16];

/// The world transform of a joint: the columns of a 3x3 matrix followed by a
/// translation, each word the bit pattern of a 32-bit float.
pub type JointTransform = [u32; 12];

/// Size of one joint matrix in bytes.
pub const MATRIX_SIZE: u32 = 64;

/// The words of the matrix whose sixteen entries are all `0.0`.
pub open spec fn zero_words() -> Seq<u32> {
    Seq::new(16, |k: int| 0u32)
}

/// Whether a word is the bit pattern of a NaN: all exponent bits set and a
/// mantissa that is not zero.
pub open spec fn is_nan_word(word: u32) -> bool {
    word & 0x7f80_0000 == 0x7f80_0000 && word & 0x007f_ffff != 0
}

/// Two words stand for the same float: they are equal, or both are NaNs, whose
/// sign and payload are left open.
pub open spec fn same_float(a: u32, b: u32) -> bool {
    a == b || (is_nan_word(a) && is_nan_word(b))
}

/// Two matrices agree entry by entry.
pub open spec fn same_matrix(a: Seq<u32>, b: Seq<u32>) -> bool {
    &&& a.len() == b.len()
    &&& forall|k: int| 0 <= k < a.len() ==> same_float(#[trigger] a[k], b[k])
}

/// The product of a joint's world transform and an inverse bind pose, as
/// `glam` computes it: the transform is widened to a 4x4 matrix with the last
/// row `0 0 0 1` and multiplied from the left.
pub uninterp spec fn joint_times_bindpose(joint: Seq<u32>, bindpose: Seq<u32>) -> Seq<u32>;

/// Multiplies a joint's world transform with an inverse bind pose.
///
/// Calls `Affine3A * Mat4` of `glam`, as `bevy_math` exports it. The product
/// is taken on trust: it has sixteen words and agrees with
/// [`joint_times_bindpose`] entry by entry. Float multiplication and addition
/// round the same way everywhere, but which NaN an invalid operation yields
/// depends on the machine, so NaN entries agree only in being NaN.
#[verifier::external_body]
pub(crate) fn joint_matrix(joint: &JointTransform, bindpose: &JointMatrix) -> (product: JointMatrix)
    ensures
        same_matrix(product@, joint_times_bindpose(joint@, bindpose@)),
{
    let affine = Affine3A::from_cols_array(&bytemuck::cast(*joint));
    bytemuck::cast(affine * bytemuck::cast::<JointMatrix, Mat4>(*bindpose))
}

/// The zero matrix, with which the joint buffer is padded.
pub fn zero_matrix() -> (zero: JointMatrix)
    ensures
        zero@ == zero_words(),
{
    let zero: JointMatrix = [0u32; 16];
    assert(zero@ =~= zero_words());
    zero
}

/// Zero is no NaN, so a matrix that agrees with the zero matrix is the zero
/// matrix.
pub proof fn lemma_same_as_zero(a: Seq<u32>)
    requires
        same_matrix(a, zero_words()),
    ensures
        a == zero_words(),
{
    assert(!is_nan_word(0u32)) by (bit_vector);
    assert(a =~= zero_words());
}

} // verus!
