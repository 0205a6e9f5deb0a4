use bevy_ecs::entity::Entity;
use skin_uniforms::batching::{no_automatic_skin_batching, BatchingCandidate};
use skin_uniforms::capability::{skins_use_uniform_buffers, SkinCapability};
use skin_uniforms::index::{SkinIndex, SkinIndices};

#[test]
fn skin_index_counts_bytes() {
    assert_eq!(SkinIndex::new(0).byte_offset, 0);
    assert_eq!(SkinIndex::new(3).byte_offset, 192);
    assert_eq!(SkinIndex::new(256).byte_offset, 16384);
    assert_eq!(SkinIndex::new(0x3ff_ffff).byte_offset, 0xffff_ffc0);
}

#[test]
fn skin_index_reads_back_in_elements() {
    assert_eq!(SkinIndex::new(0).index(), 0);
    assert_eq!(SkinIndex::new(3).index(), 3);
    assert_eq!(SkinIndex::new(0x3ff_ffff).index(), 0x3ff_ffff);
    assert_eq!(SkinIndex { byte_offset: 256 }.index(), 4);
    assert_eq!(SkinIndex { byte_offset: 100 }.index(), 1);
}

#[test]
fn skin_index_wraps_at_four_gibibytes() {
    assert_eq!(SkinIndex::new(0x400_0000).byte_offset, 0);
    assert_eq!(SkinIndex::new(0x400_0001).byte_offset, 64);
    assert_eq!(SkinIndex::new(0x400_0001).index(), 1);
    assert_eq!(SkinIndex::new(0x400_0000), SkinIndex::new(0));
}

#[test]
fn default_indices_are_empty() {
    let indices = SkinIndices::default();
    assert!(indices.current.raw.is_empty());
    assert!(indices.prev.raw.is_empty());
}

#[test]
fn first_detection_decides() {
    let mut lacking = SkinCapability::new();
    assert!(skins_use_uniform_buffers(&mut lacking, 0));
    let mut supported = SkinCapability::new();
    assert!(!skins_use_uniform_buffers(&mut supported, 8));
    let mut one = SkinCapability::default();
    assert!(!skins_use_uniform_buffers(&mut one, 1));
}

#[test]
fn later_detections_repeat_the_first() {
    let mut lacking = SkinCapability::new();
    assert!(skins_use_uniform_buffers(&mut lacking, 0));
    assert!(skins_use_uniform_buffers(&mut lacking, 0));
    assert!(skins_use_uniform_buffers(&mut lacking, 8));
    assert!(skins_use_uniform_buffers(&mut lacking, u32::MAX));
    let mut supported = SkinCapability::new();
    assert!(!skins_use_uniform_buffers(&mut supported, 4));
    assert!(!skins_use_uniform_buffers(&mut supported, 0));
    assert!(!skins_use_uniform_buffers(&mut supported, 4));
}

fn candidate(entity: u32, skinned: bool, no_automatic_batching: bool) -> BatchingCandidate {
    BatchingCandidate { entity: Entity::from_raw(entity), skinned, no_automatic_batching }
}

#[test]
fn uniform_buffers_exempt_skinned_meshes_from_batching() {
    let candidates = vec![
        candidate(1, true, false),
        candidate(2, false, false),
        candidate(3, true, true),
        candidate(4, true, false),
        candidate(5, false, true),
    ];
    let exempt = no_automatic_skin_batching(&candidates, true);
    assert_eq!(exempt, vec![Entity::from_raw(1), Entity::from_raw(4)]);
}

#[test]
fn storage_buffers_exempt_nothing() {
    let candidates = vec![candidate(1, true, false), candidate(2, true, false)];
    assert!(no_automatic_skin_batching(&candidates, false).is_empty());
    assert!(no_automatic_skin_batching(&Vec::new(), true).is_empty());
}
