use boat::seam::{split_tangent_seams, VertexMesh};

/// Corner tangents as the tangent generator computes them.
struct Faces<'a> {
    positions: &'a [[f32; 3]],
    normals: &'a [[f32; 3]],
    uvs: &'a [[f32; 2]],
    indices: &'a [u32],
    corners: &'a mut [[f32; 4]],
}

impl bevy_mikktspace::Geometry for Faces<'_> {
    fn num_faces(&self) -> usize {
        self.indices.len() / 3
    }
    fn num_vertices_of_face(&self, _face: usize) -> usize {
        3
    }
    fn position(&self, face: usize, vertex: usize) -> [f32; 3] {
        self.positions[self.indices[face * 3 + vertex] as usize]
    }
    fn normal(&self, face: usize, vertex: usize) -> [f32; 3] {
        self.normals[self.indices[face * 3 + vertex] as usize]
    }
    fn tex_coord(&self, face: usize, vertex: usize) -> [f32; 2] {
        self.uvs[self.indices[face * 3 + vertex] as usize]
    }
    fn set_tangent_encoded(&mut self, tangent: [f32; 4], face: usize, vertex: usize) {
        self.corners[face * 3 + vertex] = tangent;
    }
}

fn bits<const N: usize>(values: &[[f32; N]]) -> Vec<[u32; N]> {
    values.iter().map(|value| value.map(f32::to_bits)).collect()
}

fn split(
    positions: &[[f32; 3]],
    normals: &[[f32; 3]],
    uvs: &[[f32; 2]],
    indices: &[u32],
    corners: &[[f32; 4]],
) -> VertexMesh {
    split_tangent_seams(&bits(positions), &bits(normals), &bits(uvs), indices, &bits(corners))
        .unwrap()
}

#[test]
fn mirrored_uv_tangent_seam_splits_shared_vertex_without_changing_winding() {
    let positions = vec![
        [0.0, 0.0, 0.0],
        [1.0, 0.0, 0.0],
        [0.0, 1.0, 0.0],
        [-1.0, 0.0, 0.0],
        [0.0, -1.0, 0.0],
    ];
    let original_positions = bits(&positions);
    let normals = vec![[0.0, 0.0, 1.0]; 5];
    let uvs = vec![[0.0, 0.0], [1.0, 0.0], [0.0, 1.0], [1.0, 0.0], [0.0, -1.0]];
    let original_indices = [0u32, 1, 2, 0, 3, 4];
    let mut corners = vec![[0.0; 4]; original_indices.len()];
    assert!(bevy_mikktspace::generate_tangents(&mut Faces {
        positions: &positions,
        normals: &normals,
        uvs: &uvs,
        indices: &original_indices,
        corners: &mut corners,
    }));
    let mesh = split(&positions, &normals, &uvs, &original_indices, &corners);
    let (positions, tangents, indices) = (mesh.positions, mesh.tangents, mesh.indices);
    assert_ne!(indices[0], indices[3]);
    assert_eq!(
        f32::from_bits(tangents[indices[0] as usize][3]),
        -f32::from_bits(tangents[indices[3] as usize][3])
    );
    for (actual, original) in indices.into_iter().zip(original_indices) {
        assert_eq!(
            positions[actual as usize],
            original_positions[original as usize]
        );
    }
}

const X: [f32; 4] = [1.0, 0.0, 0.0, 1.0];
const Y: [f32; 4] = [0.0, 1.0, 0.0, 1.0];
const Z: [f32; 4] = [0.0, 0.0, 1.0, -1.0];

#[test]
fn copies_are_made_in_the_order_of_the_corners() {
    let positions = [[0.0f32; 3], [1.0; 3], [2.0; 3], [3.0; 3]];
    let normals = [[4.0f32; 3], [5.0; 3], [6.0; 3], [7.0; 3]];
    let uvs = [[8.0f32; 2], [9.0; 2], [10.0; 2], [11.0; 2]];
    let indices = [0, 1, 2, 0, 2, 1, 2, 1, 0];
    let corners = [X, X, X, Y, X, Y, Z, X, Y];
    let mesh = split(&positions, &normals, &uvs, &indices, &corners);
    assert_eq!(mesh.indices, [0, 1, 2, 4, 2, 5, 6, 1, 4]);
    let sources = [0usize, 1, 2, 3, 0, 1, 2];
    assert_eq!(
        mesh.positions,
        sources.map(|source| positions[source].map(f32::to_bits))
    );
    assert_eq!(mesh.normals, sources.map(|source| normals[source].map(f32::to_bits)));
    assert_eq!(mesh.uvs, sources.map(|source| uvs[source].map(f32::to_bits)));
    // The last vertex is named by no corner.
    assert_eq!(
        mesh.tangents,
        [X, X, X, [0.0; 4], Y, Y, Z].map(|tangent| tangent.map(f32::to_bits))
    );
}

#[test]
fn vertices_without_a_seam_stay() {
    let positions = [[0.0f32; 3], [1.0; 3], [2.0; 3]];
    let indices = [0, 1, 2, 2, 1, 0];
    let corners = [X, Y, Z, Z, Y, X];
    let mesh = split(&positions, &positions, &[[0.0; 2]; 3], &indices, &corners);
    assert_eq!(mesh.indices, indices);
    assert_eq!(mesh.positions.len(), 3);
}

#[test]
fn corners_share_a_vertex_exactly_where_they_are_the_same() {
    let positions = [[0.0f32; 3], [1.0; 3]];
    let indices = [0, 1, 0, 1, 0, 1, 0, 1, 1];
    // Zeros of either sign are different bit patterns.
    let corners = [X, X, Y, Y, X, Z, [1.0, -0.0, 0.0, 1.0], X, Z];
    let mesh = split(&positions, &positions, &[[0.0; 2]; 2], &indices, &corners);
    for j in 0..indices.len() {
        for k in 0..indices.len() {
            let same = indices[j] == indices[k]
                && corners[j].map(f32::to_bits) == corners[k].map(f32::to_bits);
            assert_eq!(mesh.indices[j] == mesh.indices[k], same, "{j} {k}");
        }
        let vertex = mesh.indices[j] as usize;
        assert_eq!(mesh.tangents[vertex], corners[j].map(f32::to_bits));
    }
}

#[test]
fn a_mesh_without_corners_keeps_its_vertices() {
    let positions = [[0.0f32; 3], [1.0; 3]];
    let mesh = split(&positions, &positions, &[[0.0; 2]; 2], &[], &[]);
    assert!(mesh.indices.is_empty());
    assert_eq!(mesh.tangents, [[0; 4]; 2]);
}
