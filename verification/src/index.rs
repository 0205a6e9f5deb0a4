//! Where each skinned mesh finds its joints in the joint buffer.

use crate::matrix::MATRIX_SIZE;
use bevy_ecs::entity::Entity;
use bevy_render::sync_world::{MainEntity, MainEntityHashMap};
use vstd::prelude::*;

verus! {

/// The identity of an entity of the main world. Nothing is known of it but
/// that equal entities are the same key.
#[verifier::external_type_specification]
#[verifier::external_body]
pub struct ExEntity(Entity);

/// The location of the first joint matrix of a mesh in the joint buffer.
#[derive(Clone, Copy, Debug, PartialEq, Eq, Structural)]
pub struct SkinIndex {
    /// The byte offset of the first joint matrix.
    pub byte_offset: u32,
}

/// The byte offset of the matrix at position `start`, as far as 32 bits hold
/// it: offsets wrap at 4 GiB.
pub open spec fn byte_offset_of(start: nat) -> u32 {
    ((start * MATRIX_SIZE) % 0x1_0000_0000) as u32
}

impl SkinIndex {
    /// The index that stands for the matrix at position `start`.
    pub open spec fn at(start: nat) -> SkinIndex {
        SkinIndex { byte_offset: byte_offset_of(start) }
    }

    /// Index of the matrix at position `start` of the joint buffer, counted
    /// in bytes.
    pub fn new(start: usize) -> (index: SkinIndex)
        ensures
            index == SkinIndex::at(start as nat),
    {
        // 4 GiB hold 0x400_0000 matrices, so the offset of the start and that
        // of its remainder are the same 32 bits.
        let low: u32 = (start % 0x400_0000) as u32;
        assert(low * 64 == (start * 64) % 0x1_0000_0000) by (nonlinear_arith)
            requires
                low == start % 0x400_0000,
        ;
        SkinIndex { byte_offset: low * MATRIX_SIZE }
    }

    /// Returns this skin index in elements (not bytes).
    ///
    /// Each element is a 4x4 matrix.
    pub fn index(&self) -> (elements: u32)
        ensures
            elements == self.byte_offset / MATRIX_SIZE,
    {
        self.byte_offset / MATRIX_SIZE
    }
}

/// A byte offset is always a whole number of matrices, and as long as the
/// buffer stays below 4 GiB it is exactly 64 bytes for each matrix before the
/// start, so that the start can be read back from it. A start at a multiple
/// of four matrices has a byte offset that is a multiple of 256.
pub proof fn byte_offset_counts_matrices(start: nat)
    ensures
        byte_offset_of(start) % MATRIX_SIZE == 0,
        start < 0x400_0000 ==> byte_offset_of(start) == start * MATRIX_SIZE,
        start < 0x400_0000 ==> byte_offset_of(start) / MATRIX_SIZE == start,
        start % 4 == 0 ==> byte_offset_of(start) % 256 == 0,
{
    let bytes = start * 64;
    assert(byte_offset_of(start) == bytes % 0x1_0000_0000);
    assert((bytes % 0x1_0000_0000) % 64 == 0) by (nonlinear_arith)
        requires
            bytes == start * 64,
    ;
    if start % 4 == 0 {
        assert((bytes % 0x1_0000_0000) % 256 == 0) by (nonlinear_arith)
            requires
                bytes == start * 64,
                start % 4 == 0,
        ;
    }
}

/// A table from entities to skin indices: one `MainEntityHashMap` of
/// `bevy_render`, which is a `hashbrown` map keyed by the entity.
#[verifier::external_body]
pub struct SkinIndexMap {
    /// The map itself, for the code that looks up where a mesh's joints are.
    pub raw: MainEntityHashMap<SkinIndex>,
}

/// The entries of a table.
pub uninterp spec fn index_entries(table: SkinIndexMap) -> Map<Entity, SkinIndex>;

impl View for SkinIndexMap {
    type V = Map<Entity, SkinIndex>;

    open spec fn view(&self) -> Map<Entity, SkinIndex> {
        index_entries(*self)
    }
}

impl SkinIndexMap {
    /// Calls `Default::default` of the map, which gives a map without
    /// entries.
    #[verifier::external_body]
    pub(crate) fn raw_default() -> (table: SkinIndexMap)
        ensures
            index_entries(table) == (Map::<Entity, SkinIndex>::empty()),
    {
        SkinIndexMap { raw: MainEntityHashMap::default() }
    }

    /// Calls `clear` of the map, which removes every entry.
    #[verifier::external_body]
    pub(crate) fn raw_clear(&mut self)
        ensures
            index_entries(*final(self)) == (Map::<Entity, SkinIndex>::empty()),
    {
        self.raw.clear();
    }

    /// Calls `insert` of the map: afterwards the entity has this index,
    /// whether it had one before or not, and no other entry has changed.
    #[verifier::external_body]
    pub(crate) fn raw_insert(&mut self, entity: Entity, index: SkinIndex)
        ensures
            index_entries(*final(self)) == index_entries(*old(self)).insert(entity, index),
    {
        self.raw.insert(MainEntity::from(entity), index);
    }
}

/// Maps each skinned mesh to the applicable offset within the joint buffers.
///
/// Both the current frame's offsets and the previous frame's offsets are
/// kept, for the purposes of motion vector calculation.
pub struct SkinIndices {
    /// Maps each skinned mesh to the applicable offset within the current
    /// buffer.
    pub current: SkinIndexMap,
    /// Maps each skinned mesh to the applicable offset within the previous
    /// buffer.
    pub prev: SkinIndexMap,
}

impl Default for SkinIndices {
    fn default() -> (indices: SkinIndices)
        ensures
            indices.current@ == (Map::<Entity, SkinIndex>::empty()),
            indices.prev@ == (Map::<Entity, SkinIndex>::empty()),
    {
        SkinIndices { current: SkinIndexMap::raw_default(), prev: SkinIndexMap::raw_default() }
    }
}

} // verus!
