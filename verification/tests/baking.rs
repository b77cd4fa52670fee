use boat::asset::PrimitiveTopology;
use boat::mesh::{
    bake_model, bake_primitive, implicit_indices, triangles, MeshBuilder, ModelDefect,
    PrimitiveDefect, SourcePrimitive, SourceTangents,
};
use boat::seam::VertexMesh;

fn triangle() -> SourcePrimitive {
    SourcePrimitive {
        topology: PrimitiveTopology::TriangleList,
        positions: vec![[1, 2, 3], [4, 5, 6], [7, 8, 9]],
        normals: vec![[10, 11, 12], [13, 14, 15], [16, 17, 18]],
        uvs: Some(vec![[19, 20], [21, 22], [23, 24]]),
        tangents: SourceTangents::Vertices(vec![
            [25, 26, 27, 28],
            [29, 30, 31, 32],
            [33, 34, 35, 36],
        ]),
        indices: vec![2, 0, 1],
        double_sided: false,
    }
}

fn defect(primitive: &SourcePrimitive, sampled: bool) -> Option<PrimitiveDefect> {
    bake_primitive(primitive, sampled).err()
}

fn words(bytes: &[u8]) -> Vec<u32> {
    bytes
        .chunks_exact(4)
        .map(|word| u32::from_le_bytes([word[0], word[1], word[2], word[3]]))
        .collect()
}

#[test]
fn topologies_form_their_triangles() {
    let indices = [5, 6, 7, 8, 9, 10, 11];
    assert_eq!(
        triangles(PrimitiveTopology::TriangleList, &indices),
        [[5, 6, 7], [8, 9, 10]]
    );
    assert_eq!(
        triangles(PrimitiveTopology::TriangleStrip, &indices),
        [[5, 6, 7], [7, 6, 8], [7, 8, 9], [9, 8, 10], [9, 10, 11]]
    );
    assert_eq!(
        triangles(PrimitiveTopology::TriangleFan, &indices),
        [[5, 6, 7], [5, 7, 8], [5, 8, 9], [5, 9, 10], [5, 10, 11]]
    );
    for topology in [
        PrimitiveTopology::PointList,
        PrimitiveTopology::LineList,
        PrimitiveTopology::LineLoop,
        PrimitiveTopology::LineStrip,
    ] {
        assert!(triangles(topology, &indices).is_empty());
    }
    assert!(triangles(PrimitiveTopology::TriangleStrip, &[1, 2]).is_empty());
    assert!(triangles(PrimitiveTopology::TriangleFan, &[1]).is_empty());
    assert!(triangles(PrimitiveTopology::TriangleFan, &[]).is_empty());
}

#[test]
fn primitives_without_indices_use_each_vertex_once() {
    assert_eq!(implicit_indices(4), [0, 1, 2, 3]);
    assert!(implicit_indices(0).is_empty());
}

#[test]
fn authored_tangents_are_kept() {
    let mesh = bake_primitive(&triangle(), true).ok().unwrap();
    assert_eq!(mesh.positions, triangle().positions);
    assert_eq!(mesh.tangents[1], [29, 30, 31, 32]);
    assert_eq!(mesh.indices, [2, 0, 1]);
}

#[test]
fn the_plain_layout_drops_uvs_and_tangents() {
    let mut bare = triangle();
    bare.uvs = None;
    let mesh = bake_primitive(&bare, false).ok().unwrap();
    assert_eq!(mesh.normals, triangle().normals);
    assert!(mesh.uvs.is_empty());
    assert!(mesh.tangents.is_empty());
}

#[test]
fn every_defect_is_named() {
    let mut primitive = triangle();
    primitive.uvs = None;
    assert_eq!(defect(&primitive, true), Some(PrimitiveDefect::UvsMissing));
    assert_eq!(defect(&primitive, false), None);

    let mut primitive = triangle();
    primitive.normals.pop();
    assert_eq!(defect(&primitive, false), Some(PrimitiveDefect::NormalCount));

    let mut primitive = triangle();
    primitive.uvs = Some(vec![[0, 0]]);
    assert_eq!(defect(&primitive, false), Some(PrimitiveDefect::UvCount));

    let mut primitive = triangle();
    primitive.tangents = SourceTangents::Vertices(Vec::new());
    assert_eq!(defect(&primitive, true), Some(PrimitiveDefect::TangentCount));
    assert_eq!(defect(&primitive, false), None);

    let corners = || SourceTangents::Corners(vec![[0; 4]; 3]);
    let mut primitive = triangle();
    primitive.tangents = corners();
    assert_eq!(defect(&primitive, true), None);
    primitive.topology = PrimitiveTopology::TriangleStrip;
    assert_eq!(defect(&primitive, true), Some(PrimitiveDefect::TangentTopology));

    let mut primitive = triangle();
    primitive.tangents = corners();
    primitive.indices = vec![0, 1];
    assert_eq!(defect(&primitive, true), Some(PrimitiveDefect::FaceIndices));

    let mut primitive = triangle();
    primitive.tangents = SourceTangents::Corners(Vec::new());
    assert_eq!(defect(&primitive, true), Some(PrimitiveDefect::TangentCount));

    let mut primitive = triangle();
    primitive.tangents = corners();
    primitive.indices = vec![0, 1, 3];
    assert_eq!(defect(&primitive, true), Some(PrimitiveDefect::IndexRange));
}

#[test]
fn appended_primitives_follow_each_other() {
    let builder = bake_model(&[triangle(), triangle()], true).ok().unwrap();
    let positions = builder.positions().to_vec();
    let geometry = builder.finish(&positions).unwrap();
    assert_eq!(geometry.vertex_stride, 48);
    assert_eq!(words(&geometry.indices), [2, 0, 1, 5, 3, 4]);
    let second = geometry.primitives[1];
    assert_eq!((second.first_vertex, second.vertex_count), (3, 3));
    assert_eq!((second.first_index, second.index_count), (3, 3));
    assert!(!second.double_sided);
}

#[test]
fn vertex_records_hold_the_layout() {
    let builder = bake_model(&[triangle()], true).ok().unwrap();
    let moved = [[91, 92, 93], [94, 95, 96], [97, 98, 99]];
    let geometry = builder.finish(&moved).unwrap();
    let record = words(&geometry.vertices[48..96]);
    assert_eq!(record, [94, 95, 96, 13, 14, 15, 21, 22, 29, 30, 31, 32]);
    assert_eq!(geometry.vertices.len(), 144);

    let builder = bake_model(&[triangle()], false).ok().unwrap();
    let geometry = builder.finish(&moved).unwrap();
    assert_eq!(geometry.vertex_stride, 24);
    assert_eq!(words(&geometry.vertices[48..72]), [97, 98, 99, 16, 17, 18]);
}

#[test]
fn empty_meshes_are_not_finished() {
    assert!(MeshBuilder::new(true).finish(&[]).is_none());
    let mut points = triangle();
    points.topology = PrimitiveTopology::PointList;
    points.indices = Vec::new();
    let builder = bake_model(&[points], false).ok().unwrap();
    let positions = builder.positions().to_vec();
    assert!(builder.finish(&positions).is_none());
}

#[test]
fn the_first_defect_of_a_model_is_named() {
    let mut broken = triangle();
    broken.normals.pop();
    let model = [triangle(), broken, triangle()];
    assert_eq!(
        bake_model(&model, true).err(),
        Some(ModelDefect { primitive: 1, defect: PrimitiveDefect::NormalCount })
    );
    // An index that leaves the index type once the primitive is moved.
    let mut far = triangle();
    far.indices = vec![0, 1, u32::MAX];
    assert_eq!(bake_model(&[triangle(), far], false).err().unwrap().defect, PrimitiveDefect::Limit);
}

#[test]
fn a_mesh_that_does_not_fit_changes_nothing() {
    let mut builder = MeshBuilder::new(false);
    let mesh = VertexMesh {
        positions: vec![[0; 3]],
        normals: vec![[0; 3]],
        uvs: Vec::new(),
        tangents: Vec::new(),
        indices: vec![0],
    };
    assert!(builder.append(&mesh, PrimitiveTopology::PointList, false));
    let far = VertexMesh {
        positions: vec![[1; 3]],
        normals: vec![[1; 3]],
        uvs: Vec::new(),
        tangents: Vec::new(),
        indices: vec![u32::MAX],
    };
    assert!(!builder.append(&far, PrimitiveTopology::PointList, false));
    assert_eq!(builder.positions(), [[0; 3]]);
}
