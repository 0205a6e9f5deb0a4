//! Joint-matrix packing for skinned meshes.
//!
//! Every frame the joint matrices of all visible skinned meshes are packed
//! into one buffer that is uploaded to the GPU, and the buffer of the frame
//! before is kept for motion vectors. The packing rules, the table of offsets
//! and the hand-over between the two frames are verified here; reading the
//! scene and talking to the GPU is left to the caller.
//!
//! # Layout of a frame
//!
//! [`extract_skins`] appends, for each mesh that packs, one matrix per joint,
//! up to [`MAX_JOINTS`], and records where the mesh starts. The shader binds
//! the buffer at that start and reads it as an array of [`MAX_JOINTS`]
//! matrices, of which only the mesh's own are meaningful. So a mesh takes no
//! more room than it has joints; where uniform buffers are used each start is
//! aligned to 256 bytes, as a dynamic offset must be; and the buffer ends with
//! zero matrices so that the last binding is full. [`layout`] says what the
//! buffer and the table hold, and [`laws`] what follows from that.
//!
//! # What rests on other crates
//!
//! The buffers are `RawBufferVec`s and the tables `MainEntityHashMap`s of
//! `bevy_render`, and a joint matrix is the product that `glam` computes.
//! What their methods do is stated in [`buffer`], [`index`] and [`matrix`]
//! and taken on trust; everything else is proved from it.

pub mod batching;
pub mod buffer;
pub mod capability;
pub mod extract;
pub mod frame;
pub mod index;
pub mod laws;
pub mod layout;
pub mod matrix;
pub mod prepare;
pub mod skin;

pub use batching::{no_automatic_skin_batching, BatchingCandidate};
pub use buffer::{JointBuffer, SkinUniforms};
pub use capability::{skins_use_uniform_buffers, SkinCapability};
pub use extract::extract_skins;
pub use index::{SkinIndex, SkinIndexMap, SkinIndices};
pub use matrix::{JointMatrix, JointTransform};
pub use prepare::prepare_skins;
pub use skin::{SkinInstance, MAX_JOINTS};
