use boat::asset::{PreparedAsset, PreparedTexture, PrimitiveTopology};
use boat::mesh::{bake_model, MeshBuilder, PreparedGeometry, SourcePrimitive, SourceTangents};
use boat::model::{
    prepared_asset, source_parameters, BakedBuffers, BakedTextures, ENABLE_SAMPLED_MATERIAL,
};

fn bits<const N: usize>(values: &[[f32; N]]) -> Vec<[u32; N]> {
    values.iter().map(|value| value.map(f32::to_bits)).collect()
}

/// A square of two triangles, in the plane of a height.
fn square(height: f32, mirrored: bool) -> SourcePrimitive {
    let corner = if mirrored {
        [0.0, 1.0, 0.0, -1.0f32]
    } else {
        [1.0, 0.0, 0.0, 1.0]
    };
    let plain = [1.0, 0.0, 0.0, 1.0f32];
    SourcePrimitive {
        topology: PrimitiveTopology::TriangleList,
        positions: bits(&[
            [0.0, 0.0, height],
            [1.0, 0.0, height],
            [1.0, 1.0, height],
            [0.0, 1.0, height],
        ]),
        normals: bits(&[[0.0, 0.0, 1.0]; 4]),
        uvs: Some(bits(&[[0.0, 0.0], [1.0, 0.0], [1.0, 1.0], [0.0, 1.0]])),
        tangents: SourceTangents::Corners(bits(&[plain, plain, plain, corner, corner, corner])),
        indices: vec![0, 1, 2, 0, 2, 3],
        double_sided: mirrored,
    }
}

fn finish(builder: MeshBuilder) -> PreparedGeometry {
    let positions = builder.positions().to_vec();
    builder.finish(&positions).unwrap()
}

fn at_rest(geometry: PreparedGeometry) -> BakedBuffers {
    BakedBuffers {
        vertices: geometry.vertices.leak(),
        indices: geometry.indices.leak(),
        vertex_stride: geometry.vertex_stride,
        primitives: geometry.primitives.leak(),
    }
}

fn textures(base_color: Option<PreparedTexture>) -> BakedTextures {
    BakedTextures {
        base_color,
        metallic_roughness: None,
        emissive: None,
        occlusion: None,
        normal: None,
    }
}

fn entry(slot: usize, name: &'static str, base_color: Option<PreparedTexture>) -> PreparedAsset {
    let textures = textures(base_color);
    let model = [square(0.0, false), square(1.0, true), square(2.0, false)];
    let builder = match bake_model(&model, textures.sampled()) {
        Ok(builder) => builder,
        Err(defect) => panic!("{defect:?}"),
    };
    let buffers = at_rest(finish(builder));
    prepared_asset(slot, name, &buffers, &textures, source_parameters(None, 1))
}

fn assets() -> [PreparedAsset; 2] {
    let image = PreparedTexture { name: "Ship.base-color.png", bytes: &[1, 2, 3] };
    [entry(0, "Ship", Some(image)), entry(1, "Buoy", None)]
}

#[test]
fn prepared_primitives_keep_source_ranges_and_topology() {
    for asset in assets() {
        assert_eq!(
            asset.sampled_material,
            ENABLE_SAMPLED_MATERIAL && !asset.material.base_color.bytes.is_empty()
        );
        assert_eq!(
            asset.vertex_stride,
            if asset.sampled_material { 48 } else { 24 }
        );
        assert!(!asset.primitives.is_empty());
        for primitive in asset.primitives {
            assert!(primitive.first_vertex < asset.vertex_count);
            assert!(primitive.vertex_count > 0);
            assert!(primitive.first_vertex + primitive.vertex_count <= asset.vertex_count);
            assert!(primitive.first_index < asset.index_count);
            assert!(primitive.index_count > 0);
            assert!(primitive.first_index + primitive.index_count <= asset.index_count);
        }
    }
}

#[test]
fn image_free_assets_keep_position_normal_layout() {
    for asset in assets().iter().filter(|asset| asset.name != "Ship") {
        assert!(asset.material.base_color.bytes.is_empty());
        assert_eq!(asset.vertex_stride, 24);
        assert!(asset.vertices.len().is_multiple_of(24));
    }
}

#[test]
fn entries_count_vertices_and_indices() {
    let [ship, buoy] = assets();
    // The second square has a seam along its diagonal.
    assert_eq!((ship.vertex_count, ship.index_count), (4 + 6 + 4, 18));
    assert_eq!((buoy.vertex_count, buoy.index_count), (12, 18));
    assert_eq!(ship.vertices.len(), 14 * 48);
    assert_eq!(buoy.vertices.len(), 12 * 24);
    let ranges: Vec<(u32, u32, u32, u32)> = ship
        .primitives
        .iter()
        .map(|p| (p.first_vertex, p.vertex_count, p.first_index, p.index_count))
        .collect();
    assert_eq!(ranges, [(0, 4, 0, 6), (4, 6, 6, 6), (10, 4, 12, 6)]);
    assert!(ship.helmet_program);
    assert!(!buoy.helmet_program);
    assert_eq!(ship.retained_topology, Some(PrimitiveTopology::TriangleList));
    assert!(ship.retained_double_sided);
    assert_eq!(ship.material.base_color.name, "Ship.base-color.png");
    assert_eq!(ship.material.normal.name, "");
}

#[test]
fn mixed_primitives_have_no_common_topology() {
    let mut fan = square(0.0, false);
    fan.topology = PrimitiveTopology::TriangleFan;
    let model = [square(0.0, false), fan];
    let builder = match bake_model(&model, false) {
        Ok(builder) => builder,
        Err(defect) => panic!("{defect:?}"),
    };
    let buffers = at_rest(finish(builder));
    let asset =
        prepared_asset(2, "Mixed", &buffers, &textures(None), source_parameters(None, 1));
    assert_eq!(asset.retained_topology, None);
    assert!(!asset.retained_double_sided);
    assert_eq!(asset.primitives[1].topology, PrimitiveTopology::TriangleFan);
}
