use bevy_ecs::entity::Entity;
use bevy_math::{Affine3A, Mat4, Quat, Vec3};
use bevy_render::sync_world::MainEntity;
use skin_uniforms::buffer::SkinUniforms;
use skin_uniforms::extract::{
    append_joint_matrices, extract_skins, pack_skin, pad_tail, pad_to_alignment,
};
use skin_uniforms::index::{SkinIndex, SkinIndices};
use skin_uniforms::matrix::{zero_matrix, JointMatrix, JointTransform, MATRIX_SIZE};
use skin_uniforms::prepare::prepare_skins;
use skin_uniforms::skin::{SkinInstance, MAX_JOINTS};

fn joint_words(affine: Affine3A) -> JointTransform {
    affine.to_cols_array().map(f32::to_bits)
}

fn matrix_words(matrix: Mat4) -> JointMatrix {
    matrix.to_cols_array().map(f32::to_bits)
}

fn joint(n: usize) -> Affine3A {
    Affine3A::from_rotation_translation(
        Quat::from_rotation_y(0.25 * n as f32),
        Vec3::new(n as f32, 2.0, -1.5),
    )
}

fn bindpose(n: usize) -> Mat4 {
    Mat4::from_scale_rotation_translation(
        Vec3::new(1.0, 2.0, 0.5),
        Quat::from_rotation_x(0.5),
        Vec3::new(0.0, n as f32, 1.0),
    )
}

fn product(n: usize) -> JointMatrix {
    matrix_words(joint(n) * bindpose(n))
}

fn skin(entity: u32, joints: usize) -> SkinInstance {
    SkinInstance {
        entity: Entity::from_raw(entity),
        visible: true,
        inverse_bindposes: Some((0..joints).map(|n| matrix_words(bindpose(n))).collect()),
        joints: (0..joints).map(|n| Some(joint_words(joint(n)))).collect(),
    }
}

fn offset(indices: &SkinIndices, entity: u32) -> Option<u32> {
    indices
        .current
        .raw
        .get(&MainEntity::from(Entity::from_raw(entity)))
        .map(|index| index.byte_offset)
}

fn prev_offset(indices: &SkinIndices, entity: u32) -> Option<u32> {
    indices
        .prev
        .raw
        .get(&MainEntity::from(Entity::from_raw(entity)))
        .map(|index| index.byte_offset)
}

fn extract(instances: &Vec<SkinInstance>, uniform: bool) -> (SkinIndices, SkinUniforms) {
    let mut indices = SkinIndices::default();
    let mut uniforms = SkinUniforms::new(uniform);
    extract_skins(&mut indices, &mut uniforms, instances, uniform);
    (indices, uniforms)
}

#[test]
fn three_joints_are_padded_to_four_with_uniform_buffers() {
    let instances = vec![skin(1, 3), skin(2, 1)];
    let (indices, uniforms) = extract(&instances, true);
    let values = uniforms.current_buffer.raw.values();
    assert_eq!(offset(&indices, 1), Some(0));
    assert_eq!(values[0], product(0));
    assert_eq!(values[1], product(1));
    assert_eq!(values[2], product(2));
    assert_eq!(values[3], [0u32; 16]);
    assert_eq!(offset(&indices, 2), Some(4 * 64));
    assert_eq!(values[4], product(0));
    for i in 5..values.len() {
        assert_eq!(values[i], [0u32; 16]);
    }
    assert_eq!(values.len(), 4 + MAX_JOINTS);
    assert_eq!(indices.current.raw.len(), 2);
}

#[test]
fn single_skin_of_three_joints_fills_one_binding() {
    let instances = vec![skin(1, 3)];
    let (indices, uniforms) = extract(&instances, true);
    let values = uniforms.current_buffer.raw.values();
    assert_eq!(values.len(), MAX_JOINTS);
    assert_eq!(offset(&indices, 1), Some(0));
    assert_eq!(values[2], product(2));
    assert_eq!(values[3], [0u32; 16]);
    assert_eq!(values[255], [0u32; 16]);
}

#[test]
fn three_hundred_joints_are_cut_to_max_joints() {
    let instances = vec![skin(7, 300), skin(8, 2)];
    let (indices, uniforms) = extract(&instances, false);
    let values = uniforms.current_buffer.raw.values();
    assert_eq!(offset(&indices, 7), Some(0));
    assert_eq!(offset(&indices, 8), Some(256 * 64));
    for n in 0..256 {
        assert_eq!(values[n], product(n));
    }
    assert_eq!(values[256], product(0));
    assert_eq!(values[257], product(1));
    assert_eq!(values.len(), 256 + MAX_JOINTS);
}

#[test]
fn three_hundred_joints_alone_need_no_padding() {
    let instances = vec![skin(7, 300)];
    let (_, storage) = extract(&instances, false);
    assert_eq!(storage.current_buffer.raw.len(), 256);
    let (_, uniform) = extract(&instances, true);
    assert_eq!(uniform.current_buffer.raw.len(), 256);
    assert_eq!(uniform.current_buffer.raw.values()[255], product(255));
}

#[test]
fn exactly_max_joints_are_all_packed() {
    let instances = vec![skin(7, 256)];
    let (indices, uniforms) = extract(&instances, true);
    assert_eq!(uniforms.current_buffer.raw.len(), 256);
    assert_eq!(offset(&indices, 7), Some(0));
}

#[test]
fn joint_past_max_joints_is_never_looked_up() {
    let mut long = skin(7, 300);
    long.joints[280] = None;
    let (indices, uniforms) = extract(&vec![long], false);
    assert_eq!(offset(&indices, 7), Some(0));
    assert_eq!(uniforms.current_buffer.raw.len(), 256);
    assert_eq!(uniforms.current_buffer.raw.values()[255], product(255));
}

#[test]
fn unresolved_joint_of_a_long_skin_drops_it() {
    let mut long = skin(7, 300);
    long.joints[5] = None;
    let (indices, uniforms) = extract(&vec![long], false);
    assert_eq!(offset(&indices, 7), None);
    assert_eq!(uniforms.current_buffer.raw.len(), MAX_JOINTS);
    assert_eq!(uniforms.current_buffer.raw.values()[0], [0u32; 16]);
}

#[test]
fn unloaded_bindposes_skip_the_mesh_until_they_load() {
    let mut c = skin(3, 2);
    c.inverse_bindposes = None;
    let mut indices = SkinIndices::default();
    let mut uniforms = SkinUniforms::new(true);
    extract_skins(&mut indices, &mut uniforms, &vec![skin(1, 1), c], true);
    assert_eq!(offset(&indices, 3), None);
    assert_eq!(offset(&indices, 1), Some(0));
    assert_eq!(indices.current.raw.len(), 1);
    assert_eq!(uniforms.current_buffer.raw.len(), MAX_JOINTS);

    extract_skins(&mut indices, &mut uniforms, &vec![skin(1, 1), skin(3, 2)], true);
    assert_eq!(offset(&indices, 3), Some(4 * 64));
    assert_eq!(prev_offset(&indices, 3), None);
    assert_eq!(uniforms.current_buffer.raw.values()[4], product(0));
    assert_eq!(uniforms.current_buffer.raw.values()[5], product(1));
    assert_eq!(uniforms.current_buffer.raw.len(), 4 + MAX_JOINTS);
}

#[test]
fn empty_scene_is_one_block_of_zero_matrices() {
    let (indices, uniforms) = extract(&Vec::new(), true);
    let values = uniforms.current_buffer.raw.values();
    assert_eq!(values.len(), MAX_JOINTS);
    assert!(values.iter().all(|matrix| *matrix == [0u32; 16]));
    assert!(indices.current.raw.is_empty());
    assert_eq!(prepare_skins(&uniforms), Some(MAX_JOINTS));

    let (_, storage) = extract(&Vec::new(), false);
    assert_eq!(storage.current_buffer.raw.len(), MAX_JOINTS);
}

#[test]
fn invisible_mesh_is_skipped() {
    let mut hidden = skin(4, 3);
    hidden.visible = false;
    let (indices, uniforms) = extract(&vec![hidden, skin(5, 2)], false);
    assert_eq!(offset(&indices, 4), None);
    assert_eq!(offset(&indices, 5), Some(0));
    assert_eq!(uniforms.current_buffer.raw.values()[0], product(0));
    assert_eq!(uniforms.current_buffer.raw.len(), MAX_JOINTS);
}

#[test]
fn unresolved_joint_takes_back_the_whole_mesh() {
    let mut broken = skin(2, 4);
    broken.joints[1] = None;
    let (indices, uniforms) = extract(&vec![skin(1, 3), broken, skin(3, 2)], false);
    let values = uniforms.current_buffer.raw.values();
    assert_eq!(offset(&indices, 1), Some(0));
    assert_eq!(offset(&indices, 2), None);
    assert_eq!(offset(&indices, 3), Some(3 * 64));
    assert_eq!(values[2], product(2));
    assert_eq!(values[3], product(0));
    assert_eq!(values[4], product(1));
    assert_eq!(values[5], [0u32; 16]);
    assert_eq!(values.len(), 3 + MAX_JOINTS);
    assert_eq!(indices.current.raw.len(), 2);
}

#[test]
fn last_joint_unresolved_drops_the_mesh_too() {
    let mut broken = skin(2, 4);
    broken.joints[3] = None;
    let (indices, uniforms) = extract(&vec![broken], true);
    assert_eq!(offset(&indices, 2), None);
    assert_eq!(uniforms.current_buffer.raw.len(), MAX_JOINTS);
    assert_eq!(uniforms.current_buffer.raw.values()[0], [0u32; 16]);
}

#[test]
fn too_few_bindposes_drop_the_mesh() {
    let mut short = skin(2, 4);
    short.inverse_bindposes = Some(vec![matrix_words(bindpose(0)), matrix_words(bindpose(1))]);
    let (indices, uniforms) = extract(&vec![short, skin(3, 1)], false);
    assert_eq!(offset(&indices, 2), None);
    assert_eq!(offset(&indices, 3), Some(0));
    assert_eq!(uniforms.current_buffer.raw.values()[0], product(0));
    assert_eq!(uniforms.current_buffer.raw.values()[1], [0u32; 16]);
}

#[test]
fn spare_bindposes_are_left_out() {
    let mut spare = skin(2, 2);
    spare.inverse_bindposes = Some((0..5).map(|n| matrix_words(bindpose(n))).collect());
    let (indices, uniforms) = extract(&vec![spare], false);
    assert_eq!(offset(&indices, 2), Some(0));
    assert_eq!(uniforms.current_buffer.raw.values()[1], product(1));
    assert_eq!(uniforms.current_buffer.raw.values()[2], [0u32; 16]);
    assert_eq!(uniforms.current_buffer.raw.len(), MAX_JOINTS);
}

#[test]
fn mesh_without_joints_still_gets_an_entry() {
    let (indices, uniforms) = extract(&vec![skin(1, 2), skin(2, 0), skin(3, 1)], false);
    assert_eq!(offset(&indices, 1), Some(0));
    assert_eq!(offset(&indices, 2), Some(2 * 64));
    assert_eq!(offset(&indices, 3), Some(2 * 64));
    assert_eq!(uniforms.current_buffer.raw.len(), 2 + MAX_JOINTS);
}

#[test]
fn storage_buffers_pack_without_gaps() {
    let instances = vec![skin(1, 3), skin(2, 5), skin(3, 1)];
    let (indices, uniforms) = extract(&instances, false);
    let values = uniforms.current_buffer.raw.values();
    assert_eq!(offset(&indices, 1), Some(0));
    assert_eq!(offset(&indices, 2), Some(3 * 64));
    assert_eq!(offset(&indices, 3), Some(8 * 64));
    assert_eq!(values[3], product(0));
    assert_eq!(values[7], product(4));
    assert_eq!(values[8], product(0));
    assert_eq!(values[9], [0u32; 16]);
    assert_eq!(values.len(), 8 + MAX_JOINTS);
}

#[test]
fn uniform_buffers_align_every_start() {
    let instances = vec![skin(1, 3), skin(2, 5), skin(3, 4), skin(4, 1)];
    let (indices, uniforms) = extract(&instances, true);
    let values = uniforms.current_buffer.raw.values();
    let starts = [0u32, 4, 12, 16];
    for (n, start) in starts.iter().enumerate() {
        let byte_offset = offset(&indices, n as u32 + 1).unwrap();
        assert_eq!(byte_offset, start * 64);
        assert_eq!(byte_offset % 256, 0);
    }
    assert_eq!(values[4], product(0));
    assert_eq!(values[8], product(4));
    assert_eq!(values[9], [0u32; 16]);
    assert_eq!(values[11], [0u32; 16]);
    assert_eq!(values[12], product(0));
    assert_eq!(values[15], product(3));
    assert_eq!(values[16], product(0));
    assert_eq!(values[17], [0u32; 16]);
    assert_eq!(values.len(), 16 + MAX_JOINTS);
}

#[test]
fn later_mesh_of_the_same_entity_wins_the_entry() {
    let (indices, uniforms) = extract(&vec![skin(1, 3), skin(1, 2)], false);
    assert_eq!(offset(&indices, 1), Some(3 * 64));
    assert_eq!(indices.current.raw.len(), 1);
    assert_eq!(uniforms.current_buffer.raw.len(), 3 + MAX_JOINTS);
}

#[test]
fn previous_frame_is_what_was_current() {
    let mut indices = SkinIndices::default();
    let mut uniforms = SkinUniforms::new(false);
    let frames = vec![
        vec![skin(1, 3)],
        vec![skin(2, 2), skin(1, 1)],
        vec![skin(3, 4)],
        Vec::new(),
    ];
    let mut last_values: Vec<JointMatrix> = Vec::new();
    let mut last_offsets: Vec<(u32, Option<u32>)> = (1..4).map(|e| (e, None)).collect();
    for frame in &frames {
        extract_skins(&mut indices, &mut uniforms, frame, false);
        assert_eq!(uniforms.prev_buffer.raw.values(), &last_values);
        for (entity, expected) in &last_offsets {
            assert_eq!(prev_offset(&indices, *entity), *expected);
        }
        last_values = uniforms.current_buffer.raw.values().clone();
        last_offsets = (1..4).map(|e| (e, offset(&indices, e))).collect();
    }
    assert_eq!(uniforms.prev_buffer.raw.values()[3], product(3));
    assert_eq!(uniforms.prev_buffer.raw.len(), 4 + MAX_JOINTS - 4);
    assert_eq!(prev_offset(&indices, 3), Some(0));
    assert_eq!(prev_offset(&indices, 1), None);
    assert!(indices.current.raw.is_empty());
}

#[test]
fn second_frame_starts_from_an_empty_buffer() {
    let mut indices = SkinIndices::default();
    let mut uniforms = SkinUniforms::new(true);
    extract_skins(&mut indices, &mut uniforms, &vec![skin(1, 9), skin(2, 9)], true);
    extract_skins(&mut indices, &mut uniforms, &vec![skin(3, 1)], true);
    extract_skins(&mut indices, &mut uniforms, &vec![skin(4, 2)], true);
    assert_eq!(uniforms.current_buffer.raw.len(), MAX_JOINTS);
    assert_eq!(uniforms.current_buffer.raw.values()[1], product(1));
    assert_eq!(uniforms.current_buffer.raw.values()[2], [0u32; 16]);
    assert_eq!(offset(&indices, 4), Some(0));
    assert_eq!(offset(&indices, 1), None);
    assert_eq!(offset(&indices, 3), None);
    assert_eq!(prev_offset(&indices, 3), Some(0));
    assert_eq!(uniforms.prev_buffer.raw.values()[0], product(0));
    assert_eq!(uniforms.prev_buffer.raw.values()[1], [0u32; 16]);
}

#[test]
fn joint_matrix_is_transform_times_bindpose() {
    let instance = SkinInstance {
        entity: Entity::from_raw(9),
        visible: true,
        inverse_bindposes: Some(vec![matrix_words(Mat4::from_scale(Vec3::new(2.0, 3.0, 4.0)))]),
        joints: vec![Some(joint_words(Affine3A::from_translation(Vec3::new(1.0, 2.0, 3.0))))],
    };
    let (_, uniforms) = extract(&vec![instance], false);
    let expected: [f32; 16] = [
        2.0, 0.0, 0.0, 0.0, 0.0, 3.0, 0.0, 0.0, 0.0, 0.0, 4.0, 0.0, 1.0, 2.0, 3.0, 1.0,
    ];
    assert_eq!(uniforms.current_buffer.raw.values()[0], expected.map(f32::to_bits));
    assert_eq!(uniforms.current_buffer.raw.values()[0][12], 0x3f80_0000);
    assert_eq!(uniforms.current_buffer.raw.values()[0][13], 0x4000_0000);
}

#[test]
fn invalid_product_is_a_nan() {
    let instance = SkinInstance {
        entity: Entity::from_raw(9),
        visible: true,
        inverse_bindposes: Some(vec![matrix_words(Mat4::ZERO)]),
        joints: vec![Some(joint_words(Affine3A::from_scale(Vec3::splat(f32::INFINITY))))],
    };
    let (_, uniforms) = extract(&vec![instance], false);
    let word = uniforms.current_buffer.raw.values()[0][0];
    assert_eq!(word & 0x7f80_0000, 0x7f80_0000);
    assert_ne!(word & 0x007f_ffff, 0);
}

#[test]
fn append_counts_the_pairs_that_resolve() {
    let mut uniforms = SkinUniforms::new(false);
    let joints = vec![Some(joint_words(joint(0))), None, Some(joint_words(joint(2)))];
    let bindposes: Vec<JointMatrix> = (0..3).map(|n| matrix_words(bindpose(n))).collect();
    let count = append_joint_matrices(&mut uniforms.current_buffer, &joints, &bindposes);
    assert_eq!(count, 2);
    assert_eq!(uniforms.current_buffer.raw.len(), 2);
    assert_eq!(uniforms.current_buffer.raw.values()[0], product(0));
    assert_eq!(uniforms.current_buffer.raw.values()[1], product(2));

    let all: Vec<Option<JointTransform>> = (0..3).map(|n| Some(joint_words(joint(n)))).collect();
    let count = append_joint_matrices(&mut uniforms.current_buffer, &all, &bindposes);
    assert_eq!(count, 3);
    assert_eq!(uniforms.current_buffer.raw.len(), 5);
    assert_eq!(uniforms.current_buffer.raw.values()[3], product(1));
}

#[test]
fn pack_skin_returns_the_start() {
    let mut indices = SkinIndices::default();
    let mut uniforms = SkinUniforms::new(true);
    let first = pack_skin(&mut indices.current, &mut uniforms.current_buffer, &skin(1, 5), true);
    assert_eq!(first, Some(0));
    assert_eq!(uniforms.current_buffer.raw.len(), 8);
    let mut broken = skin(2, 2);
    broken.joints[0] = None;
    let second = pack_skin(&mut indices.current, &mut uniforms.current_buffer, &broken, true);
    assert_eq!(second, None);
    assert_eq!(uniforms.current_buffer.raw.len(), 8);
    let third = pack_skin(&mut indices.current, &mut uniforms.current_buffer, &skin(3, 4), true);
    assert_eq!(third, Some(8));
    assert_eq!(uniforms.current_buffer.raw.len(), 12);
    assert_eq!(offset(&indices, 3), Some(8 * 64));
    assert_eq!(offset(&indices, 2), None);
}

#[test]
fn padding_steps_fill_with_zero_matrices() {
    let mut uniforms = SkinUniforms::new(true);
    pad_to_alignment(&mut uniforms.current_buffer);
    assert_eq!(uniforms.current_buffer.raw.len(), 0);
    uniforms.current_buffer.raw.push(product(1));
    pad_to_alignment(&mut uniforms.current_buffer);
    assert_eq!(uniforms.current_buffer.raw.len(), 4);
    assert_eq!(uniforms.current_buffer.raw.values()[0], product(1));
    assert_eq!(uniforms.current_buffer.raw.values()[3], zero_matrix());
    pad_to_alignment(&mut uniforms.current_buffer);
    assert_eq!(uniforms.current_buffer.raw.len(), 4);
    pad_tail(&mut uniforms.current_buffer, 4);
    assert_eq!(uniforms.current_buffer.raw.len(), 4 + MAX_JOINTS);
    pad_tail(&mut uniforms.current_buffer, 0);
    assert_eq!(uniforms.current_buffer.raw.len(), 4 + MAX_JOINTS);
    pad_tail(&mut uniforms.current_buffer, 10);
    assert_eq!(uniforms.current_buffer.len(), 10 + MAX_JOINTS);
    assert_eq!(uniforms.current_buffer.raw.values()[265], [0u32; 16]);
}

#[test]
fn new_uniforms_are_empty_and_labelled() {
    let uniforms = SkinUniforms::new(true);
    assert!(uniforms.current_buffer.raw.is_empty());
    assert!(uniforms.prev_buffer.raw.is_empty());
    assert_eq!(uniforms.current_buffer.raw.get_label(), Some("SkinUniforms::current_buffer"));
    assert_eq!(uniforms.prev_buffer.raw.get_label(), Some("SkinUniforms::prev_buffer"));
    assert_eq!(prepare_skins(&uniforms), None);
    let storage = SkinUniforms::new(false);
    assert!(storage.current_buffer.raw.is_empty());
    assert_eq!(storage.prev_buffer.raw.get_label(), Some("SkinUniforms::prev_buffer"));
}

#[test]
fn prepare_asks_for_room_for_every_matrix() {
    let (_, uniforms) = extract(&vec![skin(1, 3), skin(2, 300)], true);
    assert_eq!(prepare_skins(&uniforms), Some(4 + 256));
    assert_eq!(uniforms.current_buffer.raw.len(), 260);
    assert!(uniforms.prev_buffer.raw.is_empty());
}

#[test]
fn matrix_is_sixty_four_bytes() {
    assert_eq!(MATRIX_SIZE, 64);
    assert_eq!(core::mem::size_of::<JointMatrix>(), 64);
    assert_eq!(core::mem::size_of::<Mat4>(), 64);
    assert_eq!(zero_matrix(), matrix_words(Mat4::ZERO));
    assert_eq!(MAX_JOINTS, 256);
    assert_eq!(SkinIndex::new(1).byte_offset, MATRIX_SIZE);
}
