//! Baking source primitives into one retained mesh.
//!
//! Every primitive of a model is appended to one vertex and one index buffer.
//! A material with a base color map selects the sampled vertex layout, which
//! adds texture coordinates and tangents to position and normal.
use crate::asset::{PreparedPrimitive, PrimitiveTopology};
use crate::bits::push_word;
#[allow(unused_imports)]
use crate::bits::{lemma_words_bytes, word_at, words_bytes};
use crate::seam::{split_tangent_seams, VertexMesh};
#[allow(unused_imports)]
use crate::seam::{
    indexable, lemma_corners_find_their_tangents, lemma_splitting_keeps_attributes, views4, Corners,
};
use vstd::prelude::*;
use vstd::slice::slice_to_vec;

verus! {

/// The size of a vertex record with position and normal.
pub const PLAIN_STRIDE: usize = 24;

/// The size of a vertex record that adds texture coordinates and a tangent.
pub const SAMPLED_STRIDE: usize = 48;

/// The corners of the triangle that a topology forms at a place, in the order
/// that keeps its winding.
pub open spec fn triangle(topology: PrimitiveTopology, indices: Seq<u32>, place: int) -> Seq<u32> {
    match topology {
        PrimitiveTopology::TriangleList => seq![
            indices[3 * place],
            indices[3 * place + 1],
            indices[3 * place + 2],
        ],
        PrimitiveTopology::TriangleStrip => if place % 2 == 0 {
            seq![indices[place], indices[place + 1], indices[place + 2]]
        } else {
            seq![indices[place + 1], indices[place], indices[place + 2]]
        },
        _ => seq![indices[0], indices[place + 1], indices[place + 2]],
    }
}

/// The number of whole triangles that indices form.
pub open spec fn triangle_count(topology: PrimitiveTopology, count: int) -> int {
    match topology {
        PrimitiveTopology::TriangleList => count / 3,
        PrimitiveTopology::TriangleStrip | PrimitiveTopology::TriangleFan => if count < 3 {
            0
        } else {
            count - 2
        },
        _ => 0,
    }
}

/// The triangles that indices form, in order.  Points and lines form none.
pub fn triangles(topology: PrimitiveTopology, indices: &[u32]) -> (corners: Vec<[u32; 3]>)
    ensures
        corners@.len() == triangle_count(topology, indices@.len() as int),
        topology == PrimitiveTopology::TriangleList ==> 3 * corners@.len() <= indices@.len() < 3
            * corners@.len() + 3,
        forall|place: int|
            0 <= place < corners@.len() ==> (#[trigger] corners@[place])@ == triangle(
                topology,
                indices@,
                place,
            ),
{
    let length: usize = indices.len();
    let count: usize = match topology {
        PrimitiveTopology::TriangleList => length / 3,
        PrimitiveTopology::TriangleStrip | PrimitiveTopology::TriangleFan => if length < 3 {
            0
        } else {
            length - 2
        },
        _ => 0,
    };
    let mut corners: Vec<[u32; 3]> = Vec::new();
    let mut place: usize = 0;
    while place < count
        invariant
            length == indices@.len(),
            count == triangle_count(topology, length as int),
            place <= count,
            corners@.len() == place,
            forall|p: int|
                0 <= p < place ==> (#[trigger] corners@[p])@ == triangle(topology, indices@, p),
        decreases count - place,
    {
        let corner: [u32; 3] = match topology {
            PrimitiveTopology::TriangleList => [
                indices[3 * place],
                indices[3 * place + 1],
                indices[3 * place + 2],
            ],
            PrimitiveTopology::TriangleStrip => if place % 2 == 0 {
                [indices[place], indices[place + 1], indices[place + 2]]
            } else {
                [indices[place + 1], indices[place], indices[place + 2]]
            },
            _ => [indices[0], indices[place + 1], indices[place + 2]],
        };
        assert(corner@ =~= triangle(topology, indices@, place as int));
        corners.push(corner);
        place += 1;
    }
    corners
}

/// The tangents that a source gives: one for each vertex, or one for each
/// corner of each face.
pub enum SourceTangents {
    Vertices(Vec<[u32; 4]>),
    Corners(Vec<[u32; 4]>),
}

/// A primitive as a source model gives it.
pub struct SourcePrimitive {
    pub topology: PrimitiveTopology,
    pub positions: Vec<[u32; 3]>,
    pub normals: Vec<[u32; 3]>,
    /// The texture coordinates, where the source has them.
    pub uvs: Option<Vec<[u32; 2]>>,
    pub tangents: SourceTangents,
    pub indices: Vec<u32>,
    pub double_sided: bool,
}

/// Why a primitive cannot be baked.
#[derive(Clone, Copy, Debug, PartialEq, Eq, Structural)]
pub enum PrimitiveDefect {
    /// A sampled material needs texture coordinates.
    UvsMissing,
    NormalCount,
    UvCount,
    /// Only triangle lists have their tangents generated.
    TangentTopology,
    /// A triangle list ends within a triangle.
    FaceIndices,
    TangentCount,
    /// An index names no vertex.
    IndexRange,
    /// The vertices or indices no longer fit the index type.
    Limit,
}

/// The indices of a primitive that has none: each vertex once, in order.
pub fn implicit_indices(count: usize) -> (indices: Vec<u32>)
    requires
        count <= 0x1_0000_0000,
    ensures
        indices@ == Seq::new(count as nat, |i: int| i as u32),
{
    let mut indices: Vec<u32> = Vec::new();
    let mut i: usize = 0;
    while i < count
        invariant
            i <= count,
            count <= 0x1_0000_0000,
            indices@ == Seq::new(i as nat, |i: int| i as u32),
        decreases count - i,
    {
        indices.push(i as u32);
        i += 1;
        assert(indices@ =~= Seq::new(i as nat, |i: int| i as u32));
    }
    indices
}

impl SourcePrimitive {
    /// The corners that tangents were generated for.
    pub open spec fn corners(self) -> Corners
        recommends
            self.tangents is Corners,
    {
        Corners { indices: self.indices@, tangents: self.tangents->Corners_0@ }
    }

    /// What keeps the primitive from being baked.
    pub open spec fn defect(self, sampled: bool) -> Option<PrimitiveDefect> {
        let size = self.positions@.len();
        if sampled && self.uvs is None {
            Some(PrimitiveDefect::UvsMissing)
        } else if self.normals@.len() != size {
            Some(PrimitiveDefect::NormalCount)
        } else if self.uvs is Some && self.uvs->Some_0@.len() != size {
            Some(PrimitiveDefect::UvCount)
        } else if !sampled {
            None
        } else {
            match self.tangents {
                SourceTangents::Vertices(tangents) => if tangents@.len() != size {
                    Some(PrimitiveDefect::TangentCount)
                } else {
                    None
                },
                SourceTangents::Corners(tangents) => if self.topology
                    != PrimitiveTopology::TriangleList {
                    Some(PrimitiveDefect::TangentTopology)
                } else if self.indices@.len() % 3 != 0 {
                    Some(PrimitiveDefect::FaceIndices)
                } else if tangents@.len() != self.indices@.len() {
                    Some(PrimitiveDefect::TangentCount)
                } else if !self.corners().wf(size as int) {
                    Some(PrimitiveDefect::IndexRange)
                } else if !indexable(size as int, self.corners()) {
                    Some(PrimitiveDefect::Limit)
                } else {
                    None
                },
            }
        }
    }

    /// Whether a mesh is the primitive, baked.
    pub open spec fn bakes_to(self, sampled: bool, mesh: VertexMesh) -> bool {
        if !sampled {
            &&& mesh.positions@ == self.positions@
            &&& mesh.normals@ == self.normals@
            &&& mesh.uvs@.len() == 0
            &&& mesh.tangents@.len() == 0
            &&& mesh.indices@ == self.indices@
        } else {
            match self.tangents {
                SourceTangents::Vertices(tangents) => {
                    &&& mesh.positions@ == self.positions@
                    &&& mesh.normals@ == self.normals@
                    &&& mesh.uvs@ == self.uvs->Some_0@
                    &&& mesh.tangents@ == tangents@
                    &&& mesh.indices@ == self.indices@
                },
                SourceTangents::Corners(_) => mesh.splits(
                    self.positions@,
                    self.normals@,
                    self.uvs->Some_0@,
                    self.corners(),
                ),
            }
        }
    }
}

/// Whether every index names one of `size` vertices.
pub(crate) fn indices_in_range(indices: &[u32], size: usize) -> (inside: bool)
    ensures
        inside == forall|k: int| 0 <= k < indices@.len() ==> #[trigger] indices@[k] < size,
{
    let mut k: usize = 0;
    while k < indices.len()
        invariant
            k <= indices@.len(),
            forall|j: int| 0 <= j < k ==> #[trigger] indices@[j] < size,
        decreases indices@.len() - k,
    {
        if indices[k] as usize >= size {
            return false;
        }
        k += 1;
    }
    true
}

/// Bake a primitive: keep the attributes that the vertex layout holds, and
/// split its vertices where the tangents of their corners differ.
pub fn bake_primitive(primitive: &SourcePrimitive, sampled: bool) -> (baked: Result<
    VertexMesh,
    PrimitiveDefect,
>)
    ensures
        match primitive.defect(sampled) {
            Some(defect) => baked matches Err(found) && found == defect,
            None => baked matches Ok(mesh) && primitive.bakes_to(sampled, mesh),
        },
{
    let size: usize = primitive.positions.len();
    if sampled && primitive.uvs.is_none() {
        return Err(PrimitiveDefect::UvsMissing);
    }
    if primitive.normals.len() != size {
        return Err(PrimitiveDefect::NormalCount);
    }
    let empty: Vec<[u32; 2]> = Vec::new();
    let uvs = match &primitive.uvs {
        None => &empty,
        Some(uvs) => {
            if uvs.len() != size {
                return Err(PrimitiveDefect::UvCount);
            }
            uvs
        },
    };
    if !sampled {
        return Ok(
            VertexMesh {
                positions: slice_to_vec(primitive.positions.as_slice()),
                normals: slice_to_vec(primitive.normals.as_slice()),
                uvs: Vec::new(),
                tangents: Vec::new(),
                indices: slice_to_vec(primitive.indices.as_slice()),
            },
        );
    }
    match &primitive.tangents {
        SourceTangents::Vertices(tangents) => {
            if tangents.len() != size {
                return Err(PrimitiveDefect::TangentCount);
            }
            Ok(
                VertexMesh {
                    positions: slice_to_vec(primitive.positions.as_slice()),
                    normals: slice_to_vec(primitive.normals.as_slice()),
                    uvs: slice_to_vec(uvs.as_slice()),
                    tangents: slice_to_vec(tangents.as_slice()),
                    indices: slice_to_vec(primitive.indices.as_slice()),
                },
            )
        },
        SourceTangents::Corners(tangents) => {
            if primitive.topology != PrimitiveTopology::TriangleList {
                return Err(PrimitiveDefect::TangentTopology);
            }
            if primitive.indices.len() % 3 != 0 {
                return Err(PrimitiveDefect::FaceIndices);
            }
            if tangents.len() != primitive.indices.len() {
                return Err(PrimitiveDefect::TangentCount);
            }
            if !indices_in_range(&primitive.indices, size) {
                return Err(PrimitiveDefect::IndexRange);
            }
            match split_tangent_seams(
                &primitive.positions,
                &primitive.normals,
                uvs,
                &primitive.indices,
                tangents,
            ) {
                Some(mesh) => Ok(mesh),
                None => Err(PrimitiveDefect::Limit),
            }
        },
    }
}

/// The buffers of a mesh under construction.
#[verifier::ext_equal]
pub struct MeshModel {
    pub positions: Seq<[u32; 3]>,
    pub normals: Seq<[u32; 3]>,
    pub uvs: Seq<[u32; 2]>,
    pub tangents: Seq<[u32; 4]>,
    pub indices: Seq<u32>,
    pub primitives: Seq<PreparedPrimitive>,
}

impl MeshModel {
    pub open spec fn empty() -> MeshModel {
        MeshModel {
            positions: Seq::empty(),
            normals: Seq::empty(),
            uvs: Seq::empty(),
            tangents: Seq::empty(),
            indices: Seq::empty(),
            primitives: Seq::empty(),
        }
    }

    /// Whether another mesh can be appended with every range and index still
    /// fitting the index type.
    pub open spec fn admits(self, mesh: VertexMesh) -> bool {
        &&& self.positions.len() + mesh.positions@.len() <= u32::MAX
        &&& self.indices.len() + mesh.indices@.len() <= u32::MAX
        &&& forall|k: int|
            0 <= k < mesh.indices@.len() ==> self.positions.len() + #[trigger] mesh.indices@[k]
                <= u32::MAX
    }

    /// The ranges of a mesh that is appended.
    pub open spec fn range(
        self,
        mesh: VertexMesh,
        topology: PrimitiveTopology,
        double_sided: bool,
    ) -> PreparedPrimitive {
        PreparedPrimitive {
            topology,
            first_vertex: self.positions.len() as u32,
            vertex_count: mesh.positions@.len() as u32,
            first_index: self.indices.len() as u32,
            index_count: mesh.indices@.len() as u32,
            double_sided,
        }
    }

    /// The buffers with a mesh appended: its vertices follow the ones before,
    /// and its indices move along with them.
    pub open spec fn append(
        self,
        mesh: VertexMesh,
        topology: PrimitiveTopology,
        double_sided: bool,
    ) -> MeshModel {
        MeshModel {
            positions: self.positions + mesh.positions@,
            normals: self.normals + mesh.normals@,
            uvs: self.uvs + mesh.uvs@,
            tangents: self.tangents + mesh.tangents@,
            indices: self.indices + mesh.indices@.map_values(
                |index: u32| (index + self.positions.len()) as u32,
            ),
            primitives: self.primitives.push(self.range(mesh, topology, double_sided)),
        }
    }

    /// The end of the vertices of the first primitives.
    pub open spec fn vertex_end(self, count: int) -> int {
        if count == 0 {
            0
        } else {
            self.primitives[count - 1].first_vertex + self.primitives[count - 1].vertex_count
        }
    }

    /// The end of the indices of the first primitives.
    pub open spec fn index_end(self, count: int) -> int {
        if count == 0 {
            0
        } else {
            self.primitives[count - 1].first_index + self.primitives[count - 1].index_count
        }
    }

    /// The primitives' ranges tile both buffers: each begins where the one
    /// before ends, and the last ends with the buffer.
    pub open spec fn tiled(self) -> bool {
        let count = self.primitives.len() as int;
        &&& forall|p: int|
            0 <= p < count ==> (#[trigger] self.primitives[p]).first_vertex == self.vertex_end(p)
                && self.primitives[p].first_index == self.index_end(p)
        &&& self.vertex_end(count) == self.positions.len()
        &&& self.index_end(count) == self.indices.len()
    }

    /// Every index of a primitive names one of the primitive's own vertices.
    pub open spec fn indices_stay_inside(self) -> bool {
        forall|p: int, k: int|
            #![trigger self.primitives[p], self.indices[k]]
            0 <= p < self.primitives.len() && self.primitives[p].first_index <= k
                < self.primitives[p].first_index + self.primitives[p].index_count
                ==> self.primitives[p].first_vertex <= self.indices[k]
                < self.primitives[p].first_vertex + self.primitives[p].vertex_count
    }

    /// Every vertex has the attributes of the layout.
    pub open spec fn layout(self, sampled: bool) -> bool {
        let size = self.positions.len();
        &&& self.normals.len() == size
        &&& sampled ==> self.uvs.len() == size && self.tangents.len() == size
    }

    /// The components of a vertex, in the order of the layout, with a position
    /// of its own.
    pub open spec fn record(self, positions: Seq<[u32; 3]>, sampled: bool, vertex: int) -> Seq<u32> {
        let plain = positions[vertex]@ + self.normals[vertex]@;
        if sampled {
            plain + self.uvs[vertex]@ + self.tangents[vertex]@
        } else {
            plain
        }
    }

    /// The components of the first vertices, one record after another.
    pub open spec fn records(
        self,
        positions: Seq<[u32; 3]>,
        sampled: bool,
        count: int,
    ) -> Seq<u32>
        decreases count,
    {
        if count <= 0 {
            Seq::empty()
        } else {
            self.records(positions, sampled, count - 1) + self.record(
                positions,
                sampled,
                count - 1,
            )
        }
    }
}

/// The size of a vertex record.
pub open spec fn stride(sampled: bool) -> int {
    if sampled {
        SAMPLED_STRIDE as int
    } else {
        PLAIN_STRIDE as int
    }
}

/// A mesh with the attributes of a layout for every vertex.
pub open spec fn has_layout(mesh: VertexMesh, sampled: bool) -> bool {
    &&& mesh.normals@.len() == mesh.positions@.len()
    &&& sampled ==> mesh.uvs@.len() == mesh.positions@.len() && mesh.tangents@.len()
        == mesh.positions@.len()
}

/// A primitive that was baked has the attributes of the layout.
pub proof fn lemma_baked_primitives_have_the_layout(
    primitive: SourcePrimitive,
    sampled: bool,
    mesh: VertexMesh,
)
    requires
        primitive.defect(sampled) is None,
        primitive.bakes_to(sampled, mesh),
    ensures
        has_layout(mesh, sampled),
{
    if sampled && primitive.tangents is Corners {
        assert(views4(mesh.tangents@).len() == mesh.tangents@.len());
    }
}

/// Baking changes nothing that a corner reads: through its index it finds the
/// position, normal and texture coordinates that the source gave it, and the
/// tangent that was generated for it.
pub proof fn lemma_baking_keeps_corners(primitive: SourcePrimitive, mesh: VertexMesh, k: int)
    requires
        primitive.defect(true) is None,
        primitive.tangents is Corners,
        primitive.bakes_to(true, mesh),
        0 <= k < primitive.indices@.len(),
    ensures
        mesh.indices@.len() == primitive.indices@.len(),
        mesh.indices@[k] < mesh.positions@.len(),
        mesh.positions@[mesh.indices@[k] as int] == primitive.positions@[primitive.indices@[k] as int],
        mesh.normals@[mesh.indices@[k] as int] == primitive.normals@[primitive.indices@[k] as int],
        mesh.uvs@[mesh.indices@[k] as int]
            == primitive.uvs->Some_0@[primitive.indices@[k] as int],
        mesh.tangents@[mesh.indices@[k] as int]@ == primitive.tangents->Corners_0@[k]@,
{
    let corners = primitive.corners();
    let size = primitive.positions@.len() as int;
    assert(mesh.indices@[k] == corners.vertex(size, k));
    lemma_splitting_keeps_attributes(corners, primitive.positions@, k);
    lemma_splitting_keeps_attributes(corners, primitive.normals@, k);
    lemma_splitting_keeps_attributes(corners, primitive.uvs->Some_0@, k);
    lemma_corners_find_their_tangents(corners, size, k);
    assert(views4(mesh.tangents@)[mesh.indices@[k] as int]
        == mesh.tangents@[mesh.indices@[k] as int]@);
}

/// Appending keeps the ranges tiled, and the indices inside them where the
/// appended mesh's own indices name its vertices.
pub proof fn lemma_appending_keeps_ranges(
    model: MeshModel,
    mesh: VertexMesh,
    topology: PrimitiveTopology,
    double_sided: bool,
)
    requires
        model.tiled(),
        model.admits(mesh),
    ensures
        model.append(mesh, topology, double_sided).tiled(),
        model.indices_stay_inside() && (forall|k: int|
            0 <= k < mesh.indices@.len() ==> #[trigger] mesh.indices@[k] < mesh.positions@.len())
            ==> model.append(mesh, topology, double_sided).indices_stay_inside(),
{
    let next = model.append(mesh, topology, double_sided);
    let count = model.primitives.len() as int;
    assert forall|p: int| 0 <= p <= count implies next.vertex_end(p) == model.vertex_end(p)
        && next.index_end(p) == model.index_end(p) by {}
    assert forall|p: int| 0 <= p < next.primitives.len() implies (
    #[trigger] next.primitives[p]).first_vertex == next.vertex_end(p)
        && next.primitives[p].first_index == next.index_end(p) by {
        if p < count {
            assert(next.primitives[p] == model.primitives[p]);
        }
    }
    if model.indices_stay_inside() && (forall|k: int|
        0 <= k < mesh.indices@.len() ==> #[trigger] mesh.indices@[k] < mesh.positions@.len()) {
        assert forall|p: int, k: int|
            #![trigger next.primitives[p], next.indices[k]]
            0 <= p < next.primitives.len() && next.primitives[p].first_index <= k
                < next.primitives[p].first_index + next.primitives[p].index_count implies next.primitives[p].first_vertex
            <= next.indices[k] < next.primitives[p].first_vertex
            + next.primitives[p].vertex_count by {
            if p < count {
                assert(next.primitives[p] == model.primitives[p]);
                lemma_ranges_end_inside(model, p + 1);
                assert(model.index_end(p + 1) <= model.indices.len());
                assert(next.indices[k] == model.indices[k]);
            } else {
                let local = k - model.indices.len();
                assert(mesh.indices@[local] < mesh.positions@.len());
            }
        }
    }
}

/// In tiled buffers every primitive's range lies inside them.
proof fn lemma_ranges_end_inside(model: MeshModel, count: int)
    requires
        model.tiled(),
        0 <= count <= model.primitives.len(),
    ensures
        model.index_end(count) <= model.indices.len(),
        model.vertex_end(count) <= model.positions.len(),
    decreases model.primitives.len() - count,
{
    if count < model.primitives.len() {
        lemma_ranges_end_inside(model, count + 1);
        assert(model.primitives[count].first_vertex == model.vertex_end(count));
    }
}

/// Every primitive's range lies inside the buffers.
pub proof fn lemma_ranges_lie_inside(model: MeshModel, p: int)
    requires
        model.tiled(),
        0 <= p < model.primitives.len(),
    ensures
        model.primitives[p].first_vertex + model.primitives[p].vertex_count
            <= model.positions.len(),
        model.primitives[p].first_index + model.primitives[p].index_count <= model.indices.len(),
{
    lemma_ranges_end_inside(model, p + 1);
}

/// A mesh under construction.
pub struct MeshBuilder {
    sampled: bool,
    mesh: VertexMesh,
    primitives: Vec<PreparedPrimitive>,
}

impl View for MeshBuilder {
    type V = MeshModel;

    closed spec fn view(&self) -> MeshModel {
        MeshModel {
            positions: self.mesh.positions@,
            normals: self.mesh.normals@,
            uvs: self.mesh.uvs@,
            tangents: self.mesh.tangents@,
            indices: self.mesh.indices@,
            primitives: self.primitives@,
        }
    }
}

/// A baked mesh: its buffers in the device's byte order and its primitives.
pub struct PreparedGeometry {
    pub vertices: Vec<u8>,
    pub indices: Vec<u8>,
    pub vertex_stride: usize,
    pub primitives: Vec<PreparedPrimitive>,
}

/// Whether a mesh is the finished form of buffers: the records of its vertices
/// and its indices in the device's byte order, and its primitives.
pub open spec fn finished(
    prepared: PreparedGeometry,
    model: MeshModel,
    positions: Seq<[u32; 3]>,
    sampled: bool,
) -> bool {
    &&& prepared.vertex_stride == stride(sampled)
    &&& prepared.vertices@ == words_bytes(
        model.records(positions, sampled, positions.len() as int),
    )
    &&& prepared.indices@ == words_bytes(model.indices)
    &&& prepared.primitives@ == model.primitives
}

/// Append a slice to a vector.
fn extend<T: Copy>(target: &mut Vec<T>, source: &[T])
    ensures
        final(target)@ == old(target)@ + source@,
{
    let ghost before = target@;
    let mut i: usize = 0;
    assert(target@ =~= before + source@.take(0));
    while i < source.len()
        invariant
            i <= source@.len(),
            target@ == before + source@.take(i as int),
        decreases source@.len() - i,
    {
        target.push(source[i]);
        i += 1;
        assert(target@ =~= before + source@.take(i as int));
    }
    assert(source@.take(i as int) =~= source@);
}

/// Append the bytes of a few components.
fn push_words(image: &mut Vec<u8>, words: &[u32])
    ensures
        final(image)@ == old(image)@ + words_bytes(words@),
{
    let ghost before = image@;
    let mut i: usize = 0;
    assert(image@ =~= before + words_bytes(words@.take(0)));
    while i < words.len()
        invariant
            i <= words@.len(),
            image@ == before + words_bytes(words@.take(i as int)),
        decreases words@.len() - i,
    {
        push_word(image, words[i]);
        assert(words@.take(i + 1).drop_last() =~= words@.take(i as int));
        i += 1;
        assert(image@ =~= before + words_bytes(words@.take(i as int)));
    }
    assert(words@.take(i as int) =~= words@);
}

/// The bytes of components come one after another.
proof fn lemma_words_bytes_add(left: Seq<u32>, right: Seq<u32>)
    ensures
        words_bytes(left + right) == words_bytes(left) + words_bytes(right),
    decreases right.len(),
{
    if right.len() == 0 {
        assert(left + right =~= left);
        assert(words_bytes(left) + words_bytes(right) =~= words_bytes(left));
    } else {
        lemma_words_bytes_add(left, right.drop_last());
        assert((left + right).drop_last() =~= left + right.drop_last());
        assert(words_bytes(left + right) =~= words_bytes(left) + words_bytes(right));
    }
}

impl MeshBuilder {
    /// Whether the mesh uses the sampled layout.
    pub closed spec fn sampled(self) -> bool {
        self.sampled
    }

    pub closed spec fn wf(self) -> bool {
        self@.layout(self.sampled)
    }

    pub proof fn lemma_wf(self)
        ensures
            self.wf() == self@.layout(self.sampled()),
    {
    }

    /// A mesh without vertices.
    pub fn new(sampled: bool) -> (builder: MeshBuilder)
        ensures
            builder.wf(),
            builder.sampled() == sampled,
            builder@ == MeshModel::empty(),
    {
        let builder = MeshBuilder {
            sampled,
            mesh: VertexMesh {
                positions: Vec::new(),
                normals: Vec::new(),
                uvs: Vec::new(),
                tangents: Vec::new(),
                indices: Vec::new(),
            },
            primitives: Vec::new(),
        };
        assert(builder@ =~= MeshModel::empty());
        builder
    }

    /// The positions of every vertex so far.
    pub fn positions(&self) -> (positions: &[[u32; 3]])
        ensures
            positions@ == self@.positions,
    {
        self.mesh.positions.as_slice()
    }

    /// Whether a mesh can be appended.
    fn fits(&self, mesh: &VertexMesh) -> (fits: bool)
        ensures
            fits == self@.admits(*mesh),
    {
        let base: usize = self.mesh.positions.len();
        let first: usize = self.mesh.indices.len();
        if base > 0xffff_ffff || mesh.positions.len() > 0xffff_ffff - base {
            return false;
        }
        if first > 0xffff_ffff || mesh.indices.len() > 0xffff_ffff - first {
            return false;
        }
        let mut k: usize = 0;
        while k < mesh.indices.len()
            invariant
                k <= mesh.indices@.len(),
                base == self@.positions.len(),
                base <= 0xffff_ffff,
                forall|j: int|
                    0 <= j < k ==> base + #[trigger] mesh.indices@[j] <= u32::MAX,
            decreases mesh.indices@.len() - k,
        {
            if mesh.indices[k] > 0xffff_ffff - base as u32 {
                assert(self@.positions.len() + mesh.indices@[k as int] > u32::MAX);
                return false;
            }
            k += 1;
        }
        true
    }

    /// Append a baked primitive, unless it no longer fits the index type.
    pub fn append(
        &mut self,
        mesh: &VertexMesh,
        topology: PrimitiveTopology,
        double_sided: bool,
    ) -> (appended: bool)
        requires
            old(self).wf(),
            has_layout(*mesh, old(self).sampled()),
        ensures
            final(self).wf(),
            final(self).sampled() == old(self).sampled(),
            appended == old(self)@.admits(*mesh),
            final(self)@ == if appended {
                old(self)@.append(*mesh, topology, double_sided)
            } else {
                old(self)@
            },
    {
        if !self.fits(mesh) {
            return false;
        }
        let ghost before = self@;
        let base: u32 = self.mesh.positions.len() as u32;
        let primitive = PreparedPrimitive {
            topology,
            first_vertex: base,
            vertex_count: mesh.positions.len() as u32,
            first_index: self.mesh.indices.len() as u32,
            index_count: mesh.indices.len() as u32,
            double_sided,
        };
        extend(&mut self.mesh.positions, &mesh.positions);
        extend(&mut self.mesh.normals, &mesh.normals);
        extend(&mut self.mesh.uvs, &mesh.uvs);
        extend(&mut self.mesh.tangents, &mesh.tangents);
        let ghost moved = mesh.indices@.map_values(
            |index: u32| (index + before.positions.len()) as u32,
        );
        let mut k: usize = 0;
        assert(self.mesh.indices@ =~= before.indices + moved.take(0));
        while k < mesh.indices.len()
            invariant
                k <= mesh.indices@.len(),
                base == before.positions.len(),
                before.admits(*mesh),
                moved == mesh.indices@.map_values(
                    |index: u32| (index + before.positions.len()) as u32,
                ),
                self.sampled == old(self).sampled,
                self.mesh.positions@ == before.positions + mesh.positions@,
                self.mesh.normals@ == before.normals + mesh.normals@,
                self.mesh.uvs@ == before.uvs + mesh.uvs@,
                self.mesh.tangents@ == before.tangents + mesh.tangents@,
                self.primitives@ == before.primitives,
                self.mesh.indices@ == before.indices + moved.take(k as int),
            decreases mesh.indices@.len() - k,
        {
            self.mesh.indices.push(mesh.indices[k] + base);
            k += 1;
            assert(self.mesh.indices@ =~= before.indices + moved.take(k as int));
        }
        assert(moved.take(k as int) =~= moved);
        self.primitives.push(primitive);
        assert(self@ =~= before.append(*mesh, topology, double_sided));
        true
    }

    /// The finished buffers, with each position replaced by its own; nothing
    /// where there is no vertex or no index.
    pub fn finish(self, positions: &[[u32; 3]]) -> (geometry: Option<PreparedGeometry>)
        requires
            self.wf(),
            positions@.len() == self@.positions.len(),
        ensures
            geometry is Some <==> self@.positions.len() > 0 && self@.indices.len() > 0,
            geometry matches Some(prepared) ==> finished(
                prepared,
                self@,
                positions@,
                self.sampled(),
            ),
            geometry matches Some(prepared) ==> {
                &&& prepared.vertex_stride == stride(self.sampled())
                &&& prepared.vertices@ == words_bytes(
                    self@.records(positions@, self.sampled(), positions@.len() as int),
                )
                &&& prepared.indices@ == words_bytes(self@.indices)
                &&& prepared.primitives@ == self@.primitives
            },
    {
        if self.mesh.positions.len() == 0 || self.mesh.indices.len() == 0 {
            return None;
        }
        let ghost model = self@;
        let mut vertices: Vec<u8> = Vec::new();
        let mut vertex: usize = 0;
        assert(vertices@ =~= words_bytes(model.records(positions@, self.sampled, 0)));
        while vertex < positions.len()
            invariant
                vertex <= positions@.len(),
                model == self@,
                model.layout(self.sampled),
                positions@.len() == model.positions.len(),
                vertices@ == words_bytes(
                    model.records(positions@, self.sampled, vertex as int),
                ),
            decreases positions@.len() - vertex,
        {
            let ghost done = model.records(positions@, self.sampled, vertex as int);
            let ghost plain = positions@[vertex as int]@ + model.normals[vertex as int]@;
            let position = positions[vertex];
            let normal = self.mesh.normals[vertex];
            push_words(&mut vertices, &position);
            push_words(&mut vertices, &normal);
            proof {
                lemma_words_bytes_add(done, position@);
                lemma_words_bytes_add(done + position@, normal@);
                assert(done + position@ + normal@ =~= done + plain);
            }
            if self.sampled {
                let uv = self.mesh.uvs[vertex];
                let tangent = self.mesh.tangents[vertex];
                push_words(&mut vertices, &uv);
                push_words(&mut vertices, &tangent);
                proof {
                    lemma_words_bytes_add(done + plain, uv@);
                    lemma_words_bytes_add(done + plain + uv@, tangent@);
                    assert(done + plain + uv@ + tangent@ =~= done + (plain + uv@ + tangent@));
                }
            }
            vertex += 1;
        }
        let mut indices: Vec<u8> = Vec::new();
        push_words(&mut indices, &self.mesh.indices);
        assert(indices@ =~= words_bytes(model.indices));
        Some(
            PreparedGeometry {
                vertices,
                indices,
                vertex_stride: if self.sampled {
                    SAMPLED_STRIDE
                } else {
                    PLAIN_STRIDE
                },
                primitives: self.primitives,
            },
        )
    }
}

/// The buffers once the first baked primitives of a model were appended.
pub open spec fn assembled(
    primitives: Seq<SourcePrimitive>,
    meshes: Seq<VertexMesh>,
    count: int,
) -> MeshModel
    decreases count,
{
    if count <= 0 {
        MeshModel::empty()
    } else {
        assembled(primitives, meshes, count - 1).append(
            meshes[count - 1],
            primitives[count - 1].topology,
            primitives[count - 1].double_sided,
        )
    }
}

/// Whether meshes are the first primitives of a model, baked, each of which
/// fits after the ones before.
pub open spec fn bake_of(
    primitives: Seq<SourcePrimitive>,
    sampled: bool,
    meshes: Seq<VertexMesh>,
) -> bool {
    &&& meshes.len() <= primitives.len()
    &&& forall|p: int|
        0 <= p < meshes.len() ==> {
            &&& primitives[p].defect(sampled) is None
            &&& primitives[p].bakes_to(sampled, #[trigger] meshes[p])
            &&& assembled(primitives, meshes, p).admits(meshes[p])
        }
}

/// A primitive that keeps a model from being baked.
#[derive(Clone, Copy, Debug, PartialEq, Eq, Structural)]
pub struct ModelDefect {
    pub primitive: usize,
    pub defect: PrimitiveDefect,
}

/// Whether a defect is the first of a model: the primitives before it were
/// baked, and it either has the defect or no longer fits after them.
pub open spec fn first_defect(
    primitives: Seq<SourcePrimitive>,
    sampled: bool,
    meshes: Seq<VertexMesh>,
    found: ModelDefect,
) -> bool {
    let primitive = primitives[found.primitive as int];
    &&& found.primitive < primitives.len()
    &&& meshes.len() == found.primitive
    &&& bake_of(primitives, sampled, meshes)
    &&& match primitive.defect(sampled) {
        Some(defect) => found.defect == defect,
        None => {
            &&& found.defect == PrimitiveDefect::Limit
            &&& exists|mesh: VertexMesh|
                primitive.bakes_to(sampled, mesh) && !(#[trigger] assembled(
                    primitives,
                    meshes,
                    meshes.len() as int,
                ).admits(mesh))
        },
    }
}

/// More meshes at the end change nothing for the ones before.
proof fn lemma_assembled_prefix(
    primitives: Seq<SourcePrimitive>,
    meshes: Seq<VertexMesh>,
    mesh: VertexMesh,
    count: int,
)
    requires
        0 <= count <= meshes.len(),
    ensures
        assembled(primitives, meshes.push(mesh), count) == assembled(primitives, meshes, count),
    decreases count,
{
    if count > 0 {
        lemma_assembled_prefix(primitives, meshes, mesh, count - 1);
    }
}

/// Another primitive that was baked and fits extends a bake.
#[verifier::spinoff_prover]
#[verifier::rlimit(40)]
proof fn lemma_bake_grows(
    primitives: Seq<SourcePrimitive>,
    sampled: bool,
    meshes: Seq<VertexMesh>,
    mesh: VertexMesh,
)
    requires
        bake_of(primitives, sampled, meshes),
        meshes.len() < primitives.len(),
        primitives[meshes.len() as int].defect(sampled) is None,
        primitives[meshes.len() as int].bakes_to(sampled, mesh),
        assembled(primitives, meshes, meshes.len() as int).admits(mesh),
    ensures
        bake_of(primitives, sampled, meshes.push(mesh)),
        assembled(primitives, meshes.push(mesh), (meshes.len() + 1) as int) == assembled(
            primitives,
            meshes,
            meshes.len() as int,
        ).append(
            mesh,
            primitives[meshes.len() as int].topology,
            primitives[meshes.len() as int].double_sided,
        ),
{
    let next = meshes.push(mesh);
    assert forall|q: int| 0 <= q < next.len() implies {
        &&& primitives[q].defect(sampled) is None
        &&& primitives[q].bakes_to(sampled, #[trigger] next[q])
        &&& assembled(primitives, next, q).admits(next[q])
    } by {
        lemma_assembled_prefix(primitives, meshes, mesh, q);
        if q < meshes.len() {
            assert(next[q] == meshes[q]);
        }
    }
    lemma_assembled_prefix(primitives, meshes, mesh, meshes.len() as int);
}

/// Bake every primitive of a model into one mesh, or name the first that
/// cannot be.
pub fn bake_model(primitives: &[SourcePrimitive], sampled: bool) -> (baked: Result<
    MeshBuilder,
    ModelDefect,
>)
    ensures
        match baked {
            Ok(builder) => {
                &&& builder.wf()
                &&& builder.sampled() == sampled
                &&& builder@.tiled()
                &&& exists|meshes: Seq<VertexMesh>|
                    {
                        &&& meshes.len() == primitives@.len()
                        &&& #[trigger] bake_of(primitives@, sampled, meshes)
                        &&& builder@ == assembled(primitives@, meshes, meshes.len() as int)
                    }
            },
            Err(found) => exists|meshes: Seq<VertexMesh>|
                #[trigger] first_defect(primitives@, sampled, meshes, found),
        },
{
    let mut builder = MeshBuilder::new(sampled);
    let ghost mut meshes: Seq<VertexMesh> = Seq::empty();
    let mut p: usize = 0;
    while p < primitives.len()
        invariant
            p <= primitives@.len(),
            builder.wf(),
            builder.sampled() == sampled,
            builder@.tiled(),
            meshes.len() == p,
            bake_of(primitives@, sampled, meshes),
            builder@ == assembled(primitives@, meshes, p as int),
        decreases primitives@.len() - p,
    {
        let primitive = &primitives[p];
        let mesh = match bake_primitive(primitive, sampled) {
            Ok(mesh) => mesh,
            Err(defect) => {
                let found = ModelDefect { primitive: p, defect };
                assert(first_defect(primitives@, sampled, meshes, found));
                return Err(found);
            },
        };
        proof {
            lemma_baked_primitives_have_the_layout(*primitive, sampled, mesh);
        }
        let ghost before = builder@;
        if !builder.append(&mesh, primitive.topology, primitive.double_sided) {
            let found = ModelDefect { primitive: p, defect: PrimitiveDefect::Limit };
            assert(primitive.bakes_to(sampled, mesh) && !assembled(
                primitives@,
                meshes,
                meshes.len() as int,
            ).admits(mesh));
            assert(first_defect(primitives@, sampled, meshes, found));
            return Err(found);
        }
        proof {
            lemma_appending_keeps_ranges(
                before,
                mesh,
                primitive.topology,
                primitive.double_sided,
            );
            lemma_bake_grows(primitives@, sampled, meshes, mesh);
            meshes = meshes.push(mesh);
        }
        p += 1;
    }
    Ok(builder)
}

/// Whether every index of a primitive names one of its vertices.
pub open spec fn indices_name_vertices(primitive: SourcePrimitive) -> bool {
    forall|k: int|
        0 <= k < primitive.indices@.len() ==> #[trigger] primitive.indices@[k]
            < primitive.positions@.len()
}

/// In a baked model the ranges of the primitives tile both buffers, and where
/// the source's indices name vertices of their own primitive, so do the baked
/// ones.
pub proof fn lemma_baked_ranges(
    primitives: Seq<SourcePrimitive>,
    sampled: bool,
    meshes: Seq<VertexMesh>,
    count: int,
)
    requires
        bake_of(primitives, sampled, meshes),
        0 <= count <= meshes.len(),
        forall|p: int| 0 <= p < count ==> indices_name_vertices(#[trigger] primitives[p]),
    ensures
        assembled(primitives, meshes, count).tiled(),
        assembled(primitives, meshes, count).indices_stay_inside(),
    decreases count,
{
    if count > 0 {
        let p = count - 1;
        lemma_baked_ranges(primitives, sampled, meshes, p);
        let (primitive, mesh) = (primitives[p], meshes[p]);
        assert(primitive.bakes_to(sampled, mesh));
        assert(indices_name_vertices(primitive));
        assert forall|k: int| 0 <= k < mesh.indices@.len() implies #[trigger] mesh.indices@[k]
            < mesh.positions@.len() by {
            if sampled && primitive.tangents is Corners {
                lemma_baking_keeps_corners(primitive, mesh, k);
            } else {
                assert(primitive.indices@[k] < primitive.positions@.len());
            }
        }
        lemma_appending_keeps_ranges(
            assembled(primitives, meshes, p),
            mesh,
            primitive.topology,
            primitive.double_sided,
        );
    }
}

/// The size of a number of vertex records.
pub proof fn lemma_stride(sampled: bool, count: int)
    ensures
        stride(sampled) * count == if sampled {
            48 * count
        } else {
            24 * count
        },
        stride(sampled) / 4 * count == if sampled {
            12 * count
        } else {
            6 * count
        },
{
    let size = stride(sampled);
    let width = stride(sampled) / 4;
    if sampled {
        assert(size * count == 48 * count) by (nonlinear_arith)
            requires
                size == 48,
        ;
        assert(width * count == 12 * count) by (nonlinear_arith)
            requires
                width == 12,
        ;
    } else {
        assert(size * count == 24 * count) by (nonlinear_arith)
            requires
                size == 24,
        ;
        assert(width * count == 6 * count) by (nonlinear_arith)
            requires
                width == 6,
        ;
    }
}

/// The number of components of a number of vertices.
pub proof fn lemma_records_length(
    model: MeshModel,
    positions: Seq<[u32; 3]>,
    sampled: bool,
    count: int,
)
    requires
        0 <= count,
    ensures
        4 * model.records(positions, sampled, count).len() == stride(sampled) * count,
    decreases count,
{
    if count > 0 {
        lemma_records_length(model, positions, sampled, count - 1);
        assert(model.record(positions, sampled, count - 1).len() == stride(sampled) / 4);
        lemma_stride(sampled, count - 1);
    }
    lemma_stride(sampled, count);
}

/// A component of a vertex stands at its place among all components.
proof fn lemma_record_place(
    model: MeshModel,
    positions: Seq<[u32; 3]>,
    sampled: bool,
    count: int,
    vertex: int,
    component: int,
)
    requires
        0 <= vertex < count,
        0 <= component < stride(sampled) / 4,
    ensures
        0 <= stride(sampled) / 4 * vertex + component < model.records(
            positions,
            sampled,
            count,
        ).len(),
        model.records(positions, sampled, count)[stride(sampled) / 4 * vertex + component]
            == model.record(positions, sampled, vertex)[component],
    decreases count,
{
    let width = stride(sampled) / 4;
    lemma_records_length(model, positions, sampled, count - 1);
    lemma_stride(sampled, count - 1);
    lemma_stride(sampled, vertex);
    assert(model.records(positions, sampled, count - 1).len() == width * (count - 1));
    assert(model.record(positions, sampled, count - 1).len() == width);
    if vertex < count - 1 {
        lemma_record_place(model, positions, sampled, count - 1, vertex, component);
    }
}

/// A finished vertex buffer holds, at the stride of its layout, each vertex's
/// position and normal, and in the sampled layout its texture coordinates and
/// tangent: a component that is read back is the one that went in.
pub proof fn lemma_components_are_read_back(
    model: MeshModel,
    positions: Seq<[u32; 3]>,
    sampled: bool,
    vertex: int,
    component: int,
)
    requires
        model.layout(sampled),
        positions.len() == model.positions.len(),
        0 <= vertex < positions.len(),
        0 <= component < stride(sampled) / 4,
    ensures
        ({
            let bytes = words_bytes(model.records(positions, sampled, positions.len() as int));
            let offset = stride(sampled) * vertex + 4 * component;
            &&& bytes.len() == stride(sampled) * positions.len()
            &&& 0 <= offset
            &&& offset + 4 <= bytes.len()
            &&& word_at(bytes, offset) == model.record(positions, sampled, vertex)[component]
        }),
{
    let count = positions.len() as int;
    let words = model.records(positions, sampled, count);
    let place = stride(sampled) / 4 * vertex + component;
    lemma_records_length(model, positions, sampled, count);
    lemma_record_place(model, positions, sampled, count, vertex, component);
    lemma_stride(sampled, count);
    lemma_stride(sampled, vertex);
    lemma_words_bytes(words);
    let bytes = words_bytes(words);
    let offset = stride(sampled) * vertex + 4 * component;
    assert(bytes.len() == stride(sampled) * count);
    assert(offset == 4 * place);
    assert(word_at(bytes, 4 * place) == words[place]);
}

/// A triangle list forms all of its whole triangles and nothing else: the
/// corners one after another are the indices, up to at most two that are left
/// over.
pub proof fn lemma_lists_form_all_whole_triangles(indices: Seq<u32>, place: int, corner: int)
    requires
        0 <= place < triangle_count(PrimitiveTopology::TriangleList, indices.len() as int),
        0 <= corner < 3,
    ensures
        triangle(PrimitiveTopology::TriangleList, indices, place).len() == 3,
        0 <= 3 * place + corner < indices.len(),
        triangle(PrimitiveTopology::TriangleList, indices, place)[corner] == indices[3 * place
            + corner],
{
}

/// At most two indices of a triangle list are left over, and none where their
/// number is a multiple of three.
pub proof fn lemma_lists_leave_no_triangle_out(count: int)
    requires
        0 <= count,
    ensures
        ({
            let whole = triangle_count(PrimitiveTopology::TriangleList, count);
            &&& 0 <= whole
            &&& 3 * whole <= count < 3 * whole + 3
            &&& count % 3 == 0 ==> 3 * whole == count
        }),
{
}

/// A strip or a fan forms a triangle for every index after the first two.  The
/// triangle that an index completes ends with it.  In a strip it begins with
/// the two indices before, in turn as they are and exchanged, so that all
/// triangles wind one way; in a fan with the first index and the one before.
pub proof fn lemma_strips_and_fans_go_on_with_every_index(indices: Seq<u32>, last: int)
    requires
        2 <= last < indices.len(),
    ensures
        triangle_count(PrimitiveTopology::TriangleStrip, indices.len() as int) == indices.len() - 2,
        triangle_count(PrimitiveTopology::TriangleFan, indices.len() as int) == indices.len() - 2,
        last % 2 == 0 ==> triangle(PrimitiveTopology::TriangleStrip, indices, last - 2) == seq![
            indices[last - 2],
            indices[last - 1],
            indices[last],
        ],
        last % 2 == 1 ==> triangle(PrimitiveTopology::TriangleStrip, indices, last - 2) == seq![
            indices[last - 1],
            indices[last - 2],
            indices[last],
        ],
        triangle(PrimitiveTopology::TriangleFan, indices, last - 2) == seq![
            indices[0],
            indices[last - 1],
            indices[last],
        ],
{
}

/// Points and lines form no triangle, and neither do fewer than three indices.
pub proof fn lemma_nothing_else_forms_triangles(topology: PrimitiveTopology, count: int)
    requires
        0 <= count,
    ensures
        count < 3 ==> triangle_count(topology, count) == 0,
        topology != PrimitiveTopology::TriangleList && topology != PrimitiveTopology::TriangleStrip
            && topology != PrimitiveTopology::TriangleFan ==> triangle_count(topology, count) == 0,
{
}

/// A mesh can be appended exactly where the vertices, the indices and every
/// moved index can still be counted by a word.
pub proof fn lemma_words_are_the_limit(model: MeshModel, mesh: VertexMesh)
    ensures
        model.admits(mesh) <==> {
            &&& model.positions.len() + mesh.positions@.len() <= 0xffff_ffff
            &&& model.indices.len() + mesh.indices@.len() <= 0xffff_ffff
            &&& forall|k: int|
                0 <= k < mesh.indices@.len() ==> model.positions.len()
                    + #[trigger] mesh.indices@[k] <= 0xffff_ffff
        },
{
}

/// Whether a vertex of the buffers has all the attributes of a mesh's vertex.
pub open spec fn vertex_holds(
    model: MeshModel,
    place: int,
    mesh: VertexMesh,
    vertex: int,
    sampled: bool,
) -> bool {
    &&& model.positions[place] == mesh.positions@[vertex]
    &&& model.normals[place] == mesh.normals@[vertex]
    &&& sampled ==> model.uvs[place] == mesh.uvs@[vertex]
    &&& sampled ==> model.tangents[place] == mesh.tangents@[vertex]
}

/// Whether the part of the buffers in a range is a mesh: its vertices follow
/// each other from the range's first one on, with all their attributes, and its
/// indices from the range's first one on, moved along with the vertices.
pub open spec fn range_holds(
    model: MeshModel,
    range: PreparedPrimitive,
    mesh: VertexMesh,
    sampled: bool,
) -> bool {
    &&& range.vertex_count == mesh.positions@.len()
    &&& range.index_count == mesh.indices@.len()
    &&& range.first_vertex + range.vertex_count <= model.positions.len()
    &&& range.first_index + range.index_count <= model.indices.len()
    &&& model.layout(sampled)
    &&& forall|v: int|
        0 <= v < mesh.positions@.len() ==> #[trigger] vertex_holds(
            model,
            range.first_vertex + v,
            mesh,
            v,
            sampled,
        )
    &&& forall|k: int|
        0 <= k < mesh.indices@.len() ==> model.indices[range.first_index + k]
            == range.first_vertex + #[trigger] mesh.indices@[k]
}

/// Appending leaves the ranges before as they are.
proof fn lemma_ranges_stay(
    model: MeshModel,
    range: PreparedPrimitive,
    mesh: VertexMesh,
    sampled: bool,
    appended: VertexMesh,
    topology: PrimitiveTopology,
    double_sided: bool,
)
    requires
        range_holds(model, range, mesh, sampled),
        has_layout(appended, sampled),
    ensures
        range_holds(model.append(appended, topology, double_sided), range, mesh, sampled),
{
    let next = model.append(appended, topology, double_sided);
    assert forall|v: int| 0 <= v < mesh.positions@.len() implies #[trigger] vertex_holds(
        next,
        range.first_vertex + v,
        mesh,
        v,
        sampled,
    ) by {
        assert(vertex_holds(model, range.first_vertex + v, mesh, v, sampled));
    }
    assert forall|k: int| 0 <= k < mesh.indices@.len() implies next.indices[range.first_index + k]
        == range.first_vertex + #[trigger] mesh.indices@[k] by {
        assert(next.indices[range.first_index + k] == model.indices[range.first_index + k]);
    }
}

/// An appended mesh is held by its range.
proof fn lemma_range_of_appended(
    model: MeshModel,
    mesh: VertexMesh,
    sampled: bool,
    topology: PrimitiveTopology,
    double_sided: bool,
)
    requires
        model.layout(sampled),
        has_layout(mesh, sampled),
        model.admits(mesh),
    ensures
        range_holds(
            model.append(mesh, topology, double_sided),
            model.range(mesh, topology, double_sided),
            mesh,
            sampled,
        ),
{
    let next = model.append(mesh, topology, double_sided);
    let range = model.range(mesh, topology, double_sided);
    assert forall|k: int| 0 <= k < mesh.indices@.len() implies next.indices[range.first_index + k]
        == range.first_vertex + #[trigger] mesh.indices@[k] by {
        assert(model.positions.len() + mesh.indices@[k] <= u32::MAX);
    }
}

/// Every primitive of a baked model has a range of its own, in order and
/// without gaps, with its topology and its cull policy; and the range holds its
/// mesh: whatever the primitive is, its indices are its own, each moved by the
/// range's first vertex.
pub proof fn lemma_ranges_hold_their_meshes(
    primitives: Seq<SourcePrimitive>,
    sampled: bool,
    meshes: Seq<VertexMesh>,
    count: int,
    p: int,
)
    requires
        bake_of(primitives, sampled, meshes),
        0 <= p < count <= meshes.len(),
    ensures
        ({
            let model = assembled(primitives, meshes, count);
            let range = model.primitives[p];
            &&& model.primitives.len() == count
            &&& range.topology == primitives[p].topology
            &&& range.double_sided == primitives[p].double_sided
            &&& p == 0 ==> range.first_vertex == 0 && range.first_index == 0
            &&& p > 0 ==> {
                let before = model.primitives[p - 1];
                &&& range.first_vertex == before.first_vertex + before.vertex_count
                &&& range.first_index == before.first_index + before.index_count
            }
            &&& p == count - 1 ==> {
                &&& range.first_vertex + range.vertex_count == model.positions.len()
                &&& range.first_index + range.index_count == model.indices.len()
            }
            &&& range.vertex_count == meshes[p].positions@.len()
            &&& range.index_count == meshes[p].indices@.len()
            &&& forall|k: int|
                0 <= k < meshes[p].indices@.len() ==> model.indices[range.first_index + k]
                    == range.first_vertex + #[trigger] meshes[p].indices@[k]
            &&& range_holds(model, range, meshes[p], sampled)
        }),
    decreases count,
{
    let last = count - 1;
    let before = assembled(primitives, meshes, last);
    let (primitive, mesh) = (primitives[last], meshes[last]);
    lemma_assembled_layout(primitives, sampled, meshes, last);
    assert(primitive.bakes_to(sampled, mesh));
    lemma_baked_primitives_have_the_layout(primitive, sampled, mesh);
    if p < last {
        lemma_ranges_hold_their_meshes(primitives, sampled, meshes, last, p);
        lemma_ranges_stay(
            before,
            before.primitives[p],
            meshes[p],
            sampled,
            mesh,
            primitive.topology,
            primitive.double_sided,
        );
    } else {
        if last > 0 {
            lemma_ranges_hold_their_meshes(primitives, sampled, meshes, last, last - 1);
        }
        lemma_range_of_appended(
            before,
            mesh,
            sampled,
            primitive.topology,
            primitive.double_sided,
        );
    }
}

/// Every vertex of a baked model has the attributes of the layout.
proof fn lemma_assembled_layout(
    primitives: Seq<SourcePrimitive>,
    sampled: bool,
    meshes: Seq<VertexMesh>,
    count: int,
)
    requires
        bake_of(primitives, sampled, meshes),
        0 <= count <= meshes.len(),
    ensures
        assembled(primitives, meshes, count).layout(sampled),
        assembled(primitives, meshes, count).primitives.len() == count,
    decreases count,
{
    if count > 0 {
        lemma_assembled_layout(primitives, sampled, meshes, count - 1);
        assert(primitives[count - 1].bakes_to(sampled, meshes[count - 1]));
        lemma_baked_primitives_have_the_layout(
            primitives[count - 1],
            sampled,
            meshes[count - 1],
        );
    }
}

/// A corner of a baked primitive finds, through its own mesh, what the source
/// gave it.
proof fn lemma_corner_of_mesh(
    primitive: SourcePrimitive,
    sampled: bool,
    mesh: VertexMesh,
    k: int,
)
    requires
        primitive.defect(sampled) is None,
        primitive.bakes_to(sampled, mesh),
        indices_name_vertices(primitive),
        0 <= k < primitive.indices@.len(),
    ensures
        ({
            let vertex = mesh.indices@[k] as int;
            let source = primitive.indices@[k] as int;
            &&& mesh.indices@.len() == primitive.indices@.len()
            &&& vertex < mesh.positions@.len()
            &&& mesh.positions@[vertex]@ == primitive.positions@[source]@
            &&& mesh.normals@[vertex]@ == primitive.normals@[source]@
            &&& sampled ==> mesh.uvs@[vertex]@ == primitive.uvs->Some_0@[source]@
            &&& sampled && primitive.tangents is Vertices ==> mesh.tangents@[vertex]@
                == primitive.tangents->Vertices_0@[source]@
            &&& sampled && primitive.tangents is Corners ==> mesh.tangents@[vertex]@
                == primitive.tangents->Corners_0@[k]@
        }),
{
    assert(primitive.indices@[k] < primitive.positions@.len());
    if sampled && primitive.tangents is Corners {
        lemma_baking_keeps_corners(primitive, mesh, k);
    }
}

/// Through the finished buffers every corner of every primitive reads what its
/// source gave it: its normal, and in the sampled layout its texture
/// coordinates and its tangent, beside the final position of its vertex, which
/// is the source's where the positions are kept.
pub proof fn lemma_corners_read_what_their_source_gave(
    primitives: Seq<SourcePrimitive>,
    sampled: bool,
    meshes: Seq<VertexMesh>,
    positions: Seq<[u32; 3]>,
    p: int,
    k: int,
)
    requires
        bake_of(primitives, sampled, meshes),
        meshes.len() == primitives.len(),
        positions.len() == assembled(primitives, meshes, meshes.len() as int).positions.len(),
        0 <= p < primitives.len(),
        indices_name_vertices(primitives[p]),
        0 <= k < primitives[p].indices@.len(),
    ensures
        ({
            let model = assembled(primitives, meshes, meshes.len() as int);
            let vertices = words_bytes(
                model.records(positions, sampled, positions.len() as int),
            );
            let indices = words_bytes(model.indices);
            let primitive = primitives[p];
            let source = primitive.indices@[k] as int;
            let index = word_at(indices, 4 * (model.primitives[p].first_index + k)) as int;
            let at = if sampled {
                48 * index
            } else {
                24 * index
            };
            &&& model.primitives[p].index_count == primitive.indices@.len()
            &&& index < positions.len()
            &&& model.positions[index]@ == primitive.positions@[source]@
            &&& forall|c: int|
                0 <= c < 3 ==> word_at(vertices, at + 4 * c) == #[trigger] positions[index]@[c]
            &&& forall|c: int|
                0 <= c < 3 ==> word_at(vertices, at + 12 + 4 * c)
                    == #[trigger] primitive.normals@[source]@[c]
            &&& sampled ==> forall|c: int|
                0 <= c < 2 ==> word_at(vertices, at + 24 + 4 * c)
                    == #[trigger] primitive.uvs->Some_0@[source]@[c]
            &&& sampled ==> (primitive.tangents matches SourceTangents::Vertices(tangents)
                ==> forall|c: int|
                0 <= c < 4 ==> word_at(vertices, at + 32 + 4 * c)
                    == #[trigger] tangents@[source]@[c])
            &&& sampled ==> (primitive.tangents matches SourceTangents::Corners(tangents)
                ==> forall|c: int|
                0 <= c < 4 ==> word_at(vertices, at + 32 + 4 * c) == #[trigger] tangents@[k]@[c])
        }),
{
    let count = meshes.len() as int;
    let model = assembled(primitives, meshes, count);
    let (primitive, mesh) = (primitives[p], meshes[p]);
    let range = model.primitives[p];
    lemma_ranges_hold_their_meshes(primitives, sampled, meshes, count, p);
    assert(primitive.bakes_to(sampled, mesh));
    lemma_corner_of_mesh(primitive, sampled, mesh, k);
    let vertex = mesh.indices@[k] as int;
    let index = range.first_vertex + vertex;
    assert(model.indices[range.first_index + k] == range.first_vertex + mesh.indices@[k]);
    lemma_words_bytes(model.indices);
    assert(word_at(words_bytes(model.indices), 4 * (range.first_index + k))
        == model.indices[range.first_index + k]);
    assert(vertex_holds(model, index, mesh, vertex, sampled));
    let vertices = words_bytes(model.records(positions, sampled, positions.len() as int));
    let at = if sampled {
        48 * index
    } else {
        24 * index
    };
    let record = model.record(positions, sampled, index);
    let width = if sampled {
        12int
    } else {
        6int
    };
    lemma_stride(sampled, index);
    assert forall|c: int| 0 <= c < width implies word_at(vertices, at + 4 * c)
        == #[trigger] record[c] by {
        lemma_components_are_read_back(model, positions, sampled, index, c);
    }
    assert forall|c: int| 0 <= c < 3 implies word_at(vertices, at + 4 * c)
        == #[trigger] positions[index]@[c] by {
        assert(record[c] == positions[index]@[c]);
    }
    let source = primitive.indices@[k] as int;
    assert forall|c: int| 0 <= c < 3 implies word_at(vertices, at + 12 + 4 * c)
        == #[trigger] primitive.normals@[source]@[c] by {
        assert(record[3 + c] == model.normals[index]@[c]);
        assert(at + 12 + 4 * c == at + 4 * (3 + c));
    }
    if sampled {
        assert forall|c: int| 0 <= c < 2 implies word_at(vertices, at + 24 + 4 * c)
            == #[trigger] primitive.uvs->Some_0@[source]@[c] by {
            assert(record[6 + c] == model.uvs[index]@[c]);
            assert(at + 24 + 4 * c == at + 4 * (6 + c));
        }
        assert forall|c: int| 0 <= c < 4 implies word_at(vertices, at + 32 + 4 * c)
            == #[trigger] mesh.tangents@[vertex]@[c] by {
            assert(record[8 + c] == model.tangents[index]@[c]);
            assert(at + 32 + 4 * c == at + 4 * (8 + c));
        }
        match primitive.tangents {
            SourceTangents::Vertices(tangents) => {
                assert forall|c: int| 0 <= c < 4 implies word_at(vertices, at + 32 + 4 * c)
                    == #[trigger] tangents@[source]@[c] by {
                    assert(mesh.tangents@[vertex]@[c] == tangents@[source]@[c]);
                }
            },
            SourceTangents::Corners(tangents) => {
                assert forall|c: int| 0 <= c < 4 implies word_at(vertices, at + 32 + 4 * c)
                    == #[trigger] tangents@[k]@[c] by {
                    assert(mesh.tangents@[vertex]@[c] == tangents@[k]@[c]);
                }
            },
        }
    }
}

/// Baking adds vertices at the end only: those of the source keep their places,
/// their positions and their normals, and where the material is sampled their
/// texture coordinates.
pub proof fn lemma_baking_keeps_vertices(
    primitive: SourcePrimitive,
    sampled: bool,
    mesh: VertexMesh,
    v: int,
)
    requires
        primitive.defect(sampled) is None,
        primitive.bakes_to(sampled, mesh),
        0 <= v < primitive.positions@.len(),
    ensures
        mesh.positions@.len() >= primitive.positions@.len(),
        mesh.positions@[v]@ == primitive.positions@[v]@,
        mesh.normals@[v]@ == primitive.normals@[v]@,
        sampled ==> mesh.uvs@[v]@ == primitive.uvs->Some_0@[v]@,
        !sampled || primitive.tangents is Vertices ==> {
            &&& mesh.positions@.len() == primitive.positions@.len()
            &&& mesh.indices@ == primitive.indices@
        },
{
}

/// A primitive is baked exactly where each vertex has its normal and, if there
/// are any, its texture coordinates; and for a sampled material, where there
/// are texture coordinates, and tangents for each vertex, or for each corner of
/// a whole triangle list that can be split.
pub proof fn lemma_what_can_be_baked(primitive: SourcePrimitive, sampled: bool)
    ensures
        primitive.defect(sampled) is None <==> {
            let size = primitive.positions@.len();
            &&& primitive.normals@.len() == size
            &&& primitive.uvs matches Some(uvs) ==> uvs@.len() == size
            &&& sampled ==> primitive.uvs is Some
            &&& sampled ==> match primitive.tangents {
                SourceTangents::Vertices(tangents) => tangents@.len() == size,
                SourceTangents::Corners(tangents) => {
                    &&& primitive.topology == PrimitiveTopology::TriangleList
                    &&& primitive.indices@.len() % 3 == 0
                    &&& tangents@.len() == primitive.indices@.len()
                    &&& indices_name_vertices(primitive)
                    &&& indexable(
                        size as int,
                        (Corners { indices: primitive.indices@, tangents: tangents@ }),
                    )
                },
            }
        },
        primitive.defect(sampled) == Some(PrimitiveDefect::UvsMissing) <==> sampled
            && primitive.uvs is None,
        primitive.defect(sampled) == Some(PrimitiveDefect::NormalCount) ==>
            primitive.normals@.len() != primitive.positions@.len(),
        primitive.defect(sampled) == Some(PrimitiveDefect::UvCount) ==> primitive.uvs is Some
            && primitive.uvs->Some_0@.len() != primitive.positions@.len(),
        primitive.defect(sampled) == Some(PrimitiveDefect::TangentTopology) ==> sampled
            && primitive.tangents is Corners && primitive.topology
            != PrimitiveTopology::TriangleList,
        primitive.defect(sampled) == Some(PrimitiveDefect::FaceIndices) ==> sampled
            && primitive.indices@.len() % 3 != 0,
        primitive.defect(sampled) == Some(PrimitiveDefect::IndexRange) ==> sampled
            && !indices_name_vertices(primitive),
        primitive.defect(sampled) == Some(PrimitiveDefect::TangentCount) ==> sampled
            && match primitive.tangents {
            SourceTangents::Vertices(tangents) => tangents@.len() != primitive.positions@.len(),
            SourceTangents::Corners(tangents) => tangents@.len() != primitive.indices@.len(),
        },
        primitive.defect(sampled) == Some(PrimitiveDefect::Limit) ==> sampled
            && primitive.tangents is Corners && !indexable(
            primitive.positions@.len() as int,
            (Corners {
                indices: primitive.indices@,
                tangents: primitive.tangents->Corners_0@,
            }),
        ),
{
}

/// The first defect of a model is that of the first primitive that cannot be
/// baked or no longer fits: those before it have none, and it is told by its own
/// defect, or as the one that reached the limit.
pub proof fn lemma_the_first_defect_is_told(
    primitives: Seq<SourcePrimitive>,
    sampled: bool,
    meshes: Seq<VertexMesh>,
    found: ModelDefect,
    p: int,
)
    requires
        first_defect(primitives, sampled, meshes, found),
        0 <= p < found.primitive,
    ensures
        found.primitive < primitives.len(),
        primitives[p].defect(sampled) is None,
        primitives[found.primitive as int].defect(sampled) == Some(found.defect) || (
        primitives[found.primitive as int].defect(sampled) is None && found.defect
            == PrimitiveDefect::Limit),
{
    assert(primitives[p].bakes_to(sampled, meshes[p]));
}

/// A layout gives each vertex its normal, and in the sampled one its texture
/// coordinates and its tangent; a record has 24 bytes, or 48 in the sampled
/// layout.
pub proof fn lemma_layouts(model: MeshModel, mesh: VertexMesh, sampled: bool)
    ensures
        model.layout(sampled) <==> {
            &&& model.normals.len() == model.positions.len()
            &&& sampled ==> model.uvs.len() == model.positions.len()
            &&& sampled ==> model.tangents.len() == model.positions.len()
        },
        has_layout(mesh, sampled) <==> {
            &&& mesh.normals@.len() == mesh.positions@.len()
            &&& sampled ==> mesh.uvs@.len() == mesh.positions@.len()
            &&& sampled ==> mesh.tangents@.len() == mesh.positions@.len()
        },
        stride(true) == 48,
        stride(false) == 24,
        MeshModel::empty().positions.len() == 0,
        MeshModel::empty().indices.len() == 0,
        MeshModel::empty().primitives.len() == 0,
{
}

/// Through a finished mesh every corner of every primitive reads what its
/// source gave it, wherever the final positions are, and the primitives' ranges
/// count all vertices and all indices of the buffers.
pub proof fn lemma_finished_corners_read_what_their_source_gave(
    primitives: Seq<SourcePrimitive>,
    sampled: bool,
    meshes: Seq<VertexMesh>,
    positions: Seq<[u32; 3]>,
    prepared: PreparedGeometry,
    p: int,
    k: int,
)
    requires
        bake_of(primitives, sampled, meshes),
        meshes.len() == primitives.len(),
        positions.len() == assembled(primitives, meshes, meshes.len() as int).positions.len(),
        finished(
            prepared,
            assembled(primitives, meshes, meshes.len() as int),
            positions,
            sampled,
        ),
        0 <= p < primitives.len(),
        indices_name_vertices(primitives[p]),
        0 <= k < primitives[p].indices@.len(),
    ensures
        ({
            let primitive = primitives[p];
            let source = primitive.indices@[k] as int;
            let range = prepared.primitives@[p];
            let index = word_at(prepared.indices@, 4 * (range.first_index + k)) as int;
            let at = prepared.vertex_stride * index;
            &&& prepared.vertex_stride == if sampled {
                48int
            } else {
                24int
            }
            &&& prepared.primitives@.len() == primitives.len()
            &&& prepared.vertices@.len() == prepared.vertex_stride * positions.len()
            &&& range.topology == primitive.topology
            &&& range.double_sided == primitive.double_sided
            &&& range.index_count == primitive.indices@.len()
            &&& range.first_vertex <= index < range.first_vertex + range.vertex_count
            &&& index < positions.len()
            &&& forall|c: int|
                0 <= c < 3 ==> word_at(prepared.vertices@, at + 4 * c)
                    == #[trigger] positions[index]@[c]
            &&& forall|c: int|
                0 <= c < 3 ==> word_at(prepared.vertices@, at + 12 + 4 * c)
                    == #[trigger] primitive.normals@[source]@[c]
        }),
{
    let count = meshes.len() as int;
    let model = assembled(primitives, meshes, count);
    lemma_corners_read_what_their_source_gave(primitives, sampled, meshes, positions, p, k);
    lemma_ranges_hold_their_meshes(primitives, sampled, meshes, count, p);
    lemma_corner_of_mesh(primitives[p], sampled, meshes[p], k);
    lemma_words_bytes(model.indices);
    let range = model.primitives[p];
    assert(word_at(words_bytes(model.indices), 4 * (range.first_index + k))
        == model.indices[range.first_index + k]);
    assert(model.indices[range.first_index + k] == range.first_vertex + meshes[p].indices@[k]);
    let index = model.indices[range.first_index + k] as int;
    lemma_stride(sampled, index);
    lemma_stride(sampled, positions.len() as int);
    lemma_records_length(model, positions, sampled, positions.len() as int);
    lemma_words_bytes(model.records(positions, sampled, positions.len() as int));
}

} // verus!
