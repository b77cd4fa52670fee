use boat::asset::{PreparedAsset, PreparedMaterial, PreparedTexture, PrimitiveTopology};
use boat::geometry::{
    head_instance_programs, head_transform_refs, placed_head, prepared_geometry, ship_seeds,
    IndexFormat, ResourceId, SharedResourceId, ShipPose, HEAD_INSTANCE_COUNT, HEAD_PLANE_OFFSET,
    HEAD_TRANSFORM_STATE_BYTES, HEAD_WORLD_TRANSLATIONS, HELMET_INDICES, HELMET_SCALE,
    HELMET_TRANSFORM_REFS, HELMET_TRANSFORM_REFS_U32, HELMET_VERTICES, SHIP_PATHS, SHIP_SCALE,
    TRANSFORM_VALUE_BYTES,
};
use boat::model::source_parameters;

fn asset() -> PreparedAsset {
    PreparedAsset {
        name: "Ship",
        vertices: &[0; 96],
        indices: &[0; 24],
        vertex_count: 4,
        index_count: 6,
        vertex_stride: 24,
        material: PreparedMaterial {
            base_color: PreparedTexture::none(),
            metallic_roughness: PreparedTexture::none(),
            emissive: PreparedTexture::none(),
            occlusion: PreparedTexture::none(),
            normal: PreparedTexture::none(),
            parameters: source_parameters(None, 1),
        },
        sampled_material: false,
        helmet_program: true,
        primitives: &[],
        retained_topology: Some(PrimitiveTopology::TriangleList),
        retained_double_sided: false,
    }
}

fn number(bits: u32) -> f32 {
    f32::from_bits(bits)
}

#[test]
fn four_heads_share_geometry_and_reference_retained_gpu_state() {
    let primitive = prepared_geometry(&asset());
    let refs = head_transform_refs(SharedResourceId(21), 7);
    assert_eq!(refs.reference_count, 4);
    assert_eq!(refs.states.state_count, 4);
    assert_eq!(refs.states.generation, 7);
    assert_eq!(primitive.vertices.resource, ResourceId(HELMET_VERTICES));
    assert_eq!(primitive.indices.unwrap().resource, ResourceId(HELMET_INDICES));
    assert_eq!(HELMET_TRANSFORM_REFS_U32.len(), 16);
    let programs = head_instance_programs();
    assert!(programs.iter().all(|program| {
        let initial = program.initial;
        initial.translation.iter().all(|bits| number(*bits).is_finite())
            && initial.rotation.iter().all(|bits| number(*bits).is_finite())
            && initial.scale.iter().all(|bits| number(*bits).is_finite())
    }));
    assert!(number(programs[0].angular_velocity_z) < 0.0);
    assert!(number(programs[1].angular_velocity_z) > 0.0);
    assert_eq!(number(programs[2].scale_half_period_seconds), 0.5);
    assert_eq!(number(programs[3].angular_velocity_z), 0.0);
    assert_eq!(number(programs[3].scale_half_period_seconds), 0.0);
    let offset = number(HEAD_PLANE_OFFSET);
    assert_eq!(
        HEAD_WORLD_TRANSLATIONS.map(|place| place.map(number)),
        [
            [-offset, offset, 0.0],
            [offset, offset, 0.0],
            [-offset, -offset, 0.0],
            [offset, -offset, 0.0],
        ]
    );
    for (program, translation) in programs.iter().zip(HEAD_WORLD_TRANSLATIONS) {
        assert_eq!(program.initial.translation, translation);
        assert_eq!(number(translation[2]), 0.0);
    }
}

#[test]
fn no_std_consumer_uses_resource_relative_ranges() {
    let asset = asset();
    let primitive = prepared_geometry(&asset);
    assert!(primitive.vertex_count > 3);
    assert!(primitive.index_count > 3);
    assert_eq!(primitive.index_format, Some(IndexFormat::Uint32));
    assert_eq!(primitive.vertices.byte_length, asset.vertices.len() as u64);
    assert_eq!(primitive.indices.unwrap().byte_length, asset.indices.len() as u64);
}

#[test]
fn geometry_starts_its_resource() {
    let primitive = prepared_geometry(&asset());
    assert_eq!(primitive.topology, PrimitiveTopology::TriangleList);
    assert_eq!(primitive.vertices.offset, 0);
    assert_eq!(primitive.vertices.revision, 1);
    assert_eq!(primitive.vertex_stride, 24);
}

#[test]
fn bit_patterns_are_those_of_the_numbers() {
    assert_eq!(HEAD_PLANE_OFFSET, 1.6f32.to_bits());
    assert_eq!(HELMET_SCALE, 0.9f32.to_bits());
    assert_eq!(SHIP_SCALE, 0.65f32.to_bits());
    let programs = head_instance_programs();
    assert_eq!(number(programs[0].angular_velocity_z), -std::f32::consts::FRAC_PI_2);
    assert_eq!(number(programs[1].angular_velocity_z), std::f32::consts::FRAC_PI_2);
}

#[test]
fn references_name_every_state_once() {
    let ids: Vec<u32> = HELMET_TRANSFORM_REFS_U32
        .chunks_exact(4)
        .map(|word| u32::from_le_bytes([word[0], word[1], word[2], word[3]]))
        .collect();
    assert_eq!(ids, [0, 1, 2, 3]);
    let refs = head_transform_refs(SharedResourceId(9), 1);
    assert_eq!(refs.states.resource, SharedResourceId(9));
    assert_eq!(refs.states.byte_length, HEAD_TRANSFORM_STATE_BYTES);
    assert_eq!(
        HEAD_TRANSFORM_STATE_BYTES,
        HEAD_INSTANCE_COUNT as u64 * TRANSFORM_VALUE_BYTES as u64
    );
    assert_eq!(refs.states.state_stride, TRANSFORM_VALUE_BYTES);
    assert_eq!(refs.references.resource, ResourceId(HELMET_TRANSFORM_REFS));
    assert_eq!(refs.references.byte_length, 16);
}

#[test]
fn heads_are_placed_unrotated_at_one_scale() {
    let head = placed_head(2.5f32.to_bits(), (-1.0f32).to_bits());
    assert_eq!(head.translation.map(number), [2.5, -1.0, 0.0]);
    assert_eq!(head.rotation.map(number), [0.0, 0.0, 0.0, 1.0]);
    assert_eq!(head.scale.map(number), [0.9; 3]);
    assert_eq!((head.translation_pad, head.scale_pad), (0, 0));
}

#[test]
fn lanes_end_where_they_start() {
    let numbers = SHIP_PATHS.map(|lane| lane.map(|control| control.map(number)));
    assert_eq!(
        numbers[0],
        [[-20.0, 0.0, -12.0], [-7.0, 0.0, -26.0], [13.0, 0.0, -24.0], [-20.0, 0.0, -12.0]]
    );
    assert_eq!(
        numbers[1],
        [[21.0, 0.0, -10.0], [29.0, 0.0, 5.0], [21.0, 0.0, 20.0], [21.0, 0.0, -10.0]]
    );
    assert_eq!(
        numbers[2],
        [[7.0, 0.0, 23.0], [-9.0, 0.0, 30.0], [-25.0, 0.0, 17.0], [7.0, 0.0, 23.0]]
    );
}

#[test]
fn ships_carry_their_slot_in_the_flags() {
    let pose = |x: f32| ShipPose {
        translation: [x, 0.0, -x].map(f32::to_bits),
        rotation: [0.0, 0.6, 0.0, 0.8f32].map(f32::to_bits),
    };
    let poses = [pose(1.0), pose(2.0), pose(3.0)];
    let seeds = ship_seeds(&poses);
    for (slot, seed) in seeds.iter().enumerate() {
        assert_eq!(seed.translation, poses[slot].translation);
        assert_eq!(seed.previous_translation, poses[slot].translation);
        assert_eq!(seed.rotation, poses[slot].rotation);
        assert_eq!(seed.scale.map(number), [0.65; 3]);
        assert_eq!(number(seed.local_radius), 3.0);
        assert_eq!(seed.draw_group, 0);
        assert_eq!(seed.flags, (slot as u32) << 16);
    }
}
