//! Splitting vertices at tangent seams.
//!
//! A tangent is computed for every corner of every face, so one indexed vertex
//! can need several of them where mirrored texture coordinates meet.  Such a
//! vertex is split: the first tangent that its corners need stays with it, and
//! each further one gets a copy of the vertex at the end of the mesh.
use vstd::prelude::*;
use vstd::slice::slice_to_vec;

verus! {

/// The corners of a mesh's faces: the vertex that each names and the tangent
/// that each needs.
#[verifier::ext_equal]
pub struct Corners {
    pub indices: Seq<u32>,
    pub tangents: Seq<[u32; 4]>,
}

/// The components of each tangent.
pub open spec fn views4(tangents: Seq<[u32; 4]>) -> Seq<Seq<u32>> {
    tangents.map_values(|tangent: [u32; 4]| tangent@)
}

impl Corners {
    /// Whether two corners name one vertex and need one tangent.
    pub open spec fn same(self, j: int, k: int) -> bool {
        self.indices[j] == self.indices[k] && self.tangents[j]@ == self.tangents[k]@
    }

    /// The first corner that is the same as the `k`-th.
    pub open spec fn first_same(self, k: int) -> int
        recommends
            0 <= k < self.indices.len(),
    {
        self.first_same_from(0, k)
    }

    /// The first such corner from the `j`-th on.
    pub open spec fn first_same_from(self, j: int, k: int) -> int
        decreases k - j,
    {
        if j >= k {
            k
        } else if self.same(j, k) {
            j
        } else {
            self.first_same_from(j + 1, k)
        }
    }

    /// Whether no earlier corner names the vertex of the `k`-th.
    pub open spec fn leads(self, k: int) -> bool {
        forall|j: int| 0 <= j < k ==> #[trigger] self.indices[j] != self.indices[k]
    }

    /// Whether the `k`-th corner is the first that needs a copy of its vertex.
    pub open spec fn splits(self, k: int) -> bool {
        self.first_same(k) == k && !self.leads(k)
    }

    /// The corners among the first `count` that bring a copy, in order.
    pub open spec fn splitting(self, count: int) -> Seq<int>
        decreases count,
    {
        if count <= 0 {
            Seq::empty()
        } else if self.splits(count - 1) {
            self.splitting(count - 1).push(count - 1)
        } else {
            self.splitting(count - 1)
        }
    }

    /// The vertex of the `k`-th corner once a mesh of `size` vertices is split.
    pub open spec fn vertex(self, size: int, k: int) -> int {
        let first = self.first_same(k);
        if self.leads(first) {
            self.indices[first] as int
        } else {
            size + self.splitting(first).len()
        }
    }

    /// An attribute of the vertices once the mesh is split: each copy has that
    /// of the vertex it copies.
    pub open spec fn copied<T>(self, attribute: Seq<T>) -> Seq<T> {
        attribute + self.splitting(self.indices.len() as int).map_values(
            |k: int| attribute[self.indices[k] as int],
        )
    }

    /// Whether the `k`-th corner is the first that names a vertex.
    pub open spec fn leads_at(self, k: int, vertex: int) -> bool {
        0 <= k < self.indices.len() && self.indices[k] == vertex && self.leads(k)
    }

    /// The tangent of a vertex of the split mesh: that of the corner that leads
    /// at it or brought it, and zero where no corner names it.
    pub open spec fn tangent(self, size: int, vertex: int) -> Seq<u32> {
        if vertex >= size {
            self.tangents[self.splitting(self.indices.len() as int)[vertex - size]]@
        } else if exists|k: int| self.leads_at(k, vertex) {
            self.tangents[choose|k: int| self.leads_at(k, vertex)]@
        } else {
            seq![0u32, 0u32, 0u32, 0u32]
        }
    }

    /// The tangents of all vertices of the split mesh.
    pub open spec fn vertex_tangents(self, size: int) -> Seq<Seq<u32>> {
        Seq::new(
            (size + self.splitting(self.indices.len() as int).len()) as nat,
            |vertex: int| self.tangent(size, vertex),
        )
    }

    /// The corners name vertices of a mesh of `size` vertices, and each has a
    /// tangent.
    pub open spec fn wf(self, size: int) -> bool {
        &&& self.tangents.len() == self.indices.len()
        &&& forall|k: int| 0 <= k < self.indices.len() ==> #[trigger] self.indices[k] < size
    }
}

proof fn lemma_first_same_from(corners: Corners, j: int, k: int)
    requires
        0 <= j <= k,
    ensures
        j <= corners.first_same_from(j, k) <= k,
        corners.same(corners.first_same_from(j, k), k),
        forall|i: int|
            j <= i < corners.first_same_from(j, k) ==> !#[trigger] corners.same(i, k),
    decreases k - j,
{
    if j < k && !corners.same(j, k) {
        lemma_first_same_from(corners, j + 1, k);
    }
}

/// The first corner that is the same as a given one is well defined, and all
/// corners that are the same share it.
proof fn lemma_first_same(corners: Corners, k: int)
    requires
        0 <= k,
    ensures
        0 <= corners.first_same(k) <= k,
        corners.same(corners.first_same(k), k),
        forall|i: int| 0 <= i < corners.first_same(k) ==> !#[trigger] corners.same(i, k),
        corners.first_same(corners.first_same(k)) == corners.first_same(k),
{
    lemma_first_same_from(corners, 0, k);
    let first = corners.first_same(k);
    lemma_first_same_from(corners, 0, first);
    let again = corners.first_same(first);
    if again < first {
        assert(corners.same(again, first));
        assert(corners.same(again, k));
    }
}

proof fn lemma_same_share_first(corners: Corners, j: int, k: int)
    requires
        0 <= j,
        0 <= k,
        corners.same(j, k),
    ensures
        corners.first_same(j) == corners.first_same(k),
{
    lemma_first_same(corners, j);
    lemma_first_same(corners, k);
    let (a, b) = (corners.first_same(j), corners.first_same(k));
    if a < b {
        assert(corners.same(a, k));
    }
    if b < a {
        assert(corners.same(b, j));
    }
}

/// The list of splitting corners: each lies among the first `count`, splits,
/// and stands at the place that the corners before it fill.
proof fn lemma_splitting(corners: Corners, count: int)
    requires
        0 <= count,
    ensures
        forall|m: int|
            0 <= m < corners.splitting(count).len() ==> {
                let k = #[trigger] corners.splitting(count)[m];
                &&& 0 <= k < count
                &&& corners.splits(k)
                &&& corners.splitting(k).len() == m
            },
        corners.splitting(count).len() <= count,
    decreases count,
{
    if count > 0 {
        lemma_splitting(corners, count - 1);
    }
}

proof fn lemma_splitting_grows(corners: Corners, less: int, more: int)
    requires
        0 <= less <= more,
    ensures
        corners.splitting(less).len() <= corners.splitting(more).len(),
        corners.splitting(less) == corners.splitting(more).take(
            corners.splitting(less).len() as int,
        ),
        forall|k: int|
            less <= k < more && #[trigger] corners.splits(k) ==> corners.splitting(less).len()
                < corners.splitting(more).len(),
    decreases more,
{
    if less < more {
        lemma_splitting_grows(corners, less, more - 1);
        assert(corners.splitting(less) =~= corners.splitting(more).take(
            corners.splitting(less).len() as int,
        ));
    } else {
        assert(corners.splitting(less) =~= corners.splitting(more).take(
            corners.splitting(less).len() as int,
        ));
    }
}

/// A corner's vertex in the split mesh either is the one it named, which it
/// then leads at, or is the copy that its first same corner brought.
proof fn lemma_vertex(corners: Corners, size: int, k: int)
    requires
        corners.wf(size),
        0 <= k < corners.indices.len(),
    ensures
        ({
            let first = corners.first_same(k);
            let all = corners.splitting(corners.indices.len() as int);
            let vertex = corners.vertex(size, k);
            &&& 0 <= first <= k
            &&& corners.same(first, k)
            &&& vertex < size <==> corners.leads(first)
            &&& vertex < size ==> vertex == corners.indices[k]
            &&& vertex >= size ==> {
                &&& vertex - size < all.len()
                &&& all[vertex - size] == first
                &&& corners.splits(first)
            }
        }),
{
    lemma_first_same(corners, k);
    let first = corners.first_same(k);
    if !corners.leads(first) {
        assert(corners.splits(first));
        lemma_splitting_grows(corners, first + 1, corners.indices.len() as int);
        let upto = corners.splitting(first + 1);
        assert(upto == corners.splitting(first).push(first));
        assert(upto[upto.len() - 1] == first);
    }
}

/// Splitting keeps every corner's position, normal and texture coordinates:
/// whatever the attribute, a corner reads from its new vertex what it read
/// from the one it named.
pub proof fn lemma_splitting_keeps_attributes<T>(
    corners: Corners,
    attribute: Seq<T>,
    k: int,
)
    requires
        corners.wf(attribute.len() as int),
        0 <= k < corners.indices.len(),
    ensures
        0 <= corners.vertex(attribute.len() as int, k) < corners.copied(attribute).len(),
        corners.copied(attribute)[corners.vertex(attribute.len() as int, k)]
            == attribute[corners.indices[k] as int],
{
    lemma_vertex(corners, attribute.len() as int, k);
}

/// Two corners share a vertex of the split mesh exactly where they named one
/// vertex and need one tangent.
pub proof fn lemma_vertices_are_shared_by_same_corners(corners: Corners, size: int, j: int, k: int)
    requires
        corners.wf(size),
        0 <= j < corners.indices.len(),
        0 <= k < corners.indices.len(),
    ensures
        corners.vertex(size, j) == corners.vertex(size, k) <==> corners.same(j, k),
{
    lemma_vertex(corners, size, j);
    lemma_vertex(corners, size, k);
    let (a, b) = (corners.first_same(j), corners.first_same(k));
    if corners.same(j, k) {
        lemma_same_share_first(corners, j, k);
    }
    if corners.vertex(size, j) == corners.vertex(size, k) {
        if corners.vertex(size, j) < size {
            if a < b {
                assert(corners.indices[a] != corners.indices[b]);
            }
            if b < a {
                assert(corners.indices[b] != corners.indices[a]);
            }
        }
        assert(a == b);
    }
}

/// Only one corner leads at a vertex.
proof fn lemma_one_leads(corners: Corners, j: int, k: int, vertex: int)
    requires
        corners.leads_at(j, vertex),
        corners.leads_at(k, vertex),
    ensures
        j == k,
{
    if j < k {
        assert(corners.indices[j] != corners.indices[k]);
    }
    if k < j {
        assert(corners.indices[k] != corners.indices[j]);
    }
}

/// Every corner finds the tangent that it needs at its vertex of the split
/// mesh.
pub proof fn lemma_corners_find_their_tangents(corners: Corners, size: int, k: int)
    requires
        corners.wf(size),
        0 <= k < corners.indices.len(),
    ensures
        0 <= corners.vertex(size, k) < corners.vertex_tangents(size).len(),
        corners.vertex_tangents(size)[corners.vertex(size, k)] == corners.tangents[k]@,
{
    lemma_vertex(corners, size, k);
    let vertex = corners.vertex(size, k);
    let first = corners.first_same(k);
    if vertex < size {
        assert(corners.leads_at(first, vertex));
        let lead = choose|lead: int| corners.leads_at(lead, vertex);
        lemma_one_leads(corners, first, lead, vertex);
    }
}

/// A vertex whose corners all need one tangent is not split: its corners keep
/// naming it.
pub proof fn lemma_only_seams_are_split(corners: Corners, size: int, k: int)
    requires
        corners.wf(size),
        0 <= k < corners.indices.len(),
        forall|j: int|
            0 <= j < corners.indices.len() && #[trigger] corners.indices[j] == corners.indices[k]
                ==> corners.same(j, k),
    ensures
        corners.vertex(size, k) == corners.indices[k],
{
    lemma_first_same(corners, k);
    let first = corners.first_same(k);
    assert forall|j: int| 0 <= j < first implies #[trigger] corners.indices[j]
        != corners.indices[first] by {
        if corners.indices[j] == corners.indices[first] {
            assert(corners.same(j, k));
        }
    }
}

/// The first corner that names the vertex of a given one leads at it.
proof fn lemma_lead(corners: Corners, k: int) -> (lead: int)
    requires
        0 <= k < corners.indices.len(),
    ensures
        0 <= lead <= k,
        corners.leads(lead),
        corners.indices[lead] == corners.indices[k],
        corners.first_same(lead) == lead,
    decreases k,
{
    if corners.leads(k) {
        lemma_first_same(corners, k);
        k
    } else {
        let earlier = choose|j: int|
            0 <= j < k && #[trigger] corners.indices[j] == corners.indices[k];
        lemma_lead(corners, earlier)
    }
}

/// A mesh whose vertices each have one tangent.
pub struct VertexMesh {
    pub positions: Vec<[u32; 3]>,
    pub normals: Vec<[u32; 3]>,
    pub uvs: Vec<[u32; 2]>,
    pub tangents: Vec<[u32; 4]>,
    pub indices: Vec<u32>,
}

impl VertexMesh {
    /// Whether the mesh is another one, split for the tangents of its corners.
    pub open spec fn splits(
        self,
        positions: Seq<[u32; 3]>,
        normals: Seq<[u32; 3]>,
        uvs: Seq<[u32; 2]>,
        corners: Corners,
    ) -> bool {
        let size = positions.len() as int;
        &&& self.positions@ == corners.copied(positions)
        &&& self.normals@ == corners.copied(normals)
        &&& self.uvs@ == corners.copied(uvs)
        &&& views4(self.tangents@) == corners.vertex_tangents(size)
        &&& self.indices@.len() == corners.indices.len()
        &&& forall|k: int|
            0 <= k < self.indices@.len() ==> #[trigger] self.indices@[k] == corners.vertex(size, k)
    }
}

/// Whether the vertices of a mesh can still be indexed once it is split.
pub open spec fn indexable(size: int, corners: Corners) -> bool {
    let copies = corners.splitting(corners.indices.len() as int).len();
    copies == 0 || size + copies <= 0x1_0000_0000
}

/// Whether one of the first `count` corners that name a source vertex has a
/// given vertex.
spec fn stands_for(corners: Corners, size: int, count: int, source: int, vertex: int) -> bool {
    exists|j: int|
        0 <= j < count && corners.indices[j] == source && #[trigger] corners.vertex(size, j)
            == vertex
}

/// Whether none of the first `count` corners names a vertex.
spec fn unnamed(corners: Corners, count: int, vertex: int) -> bool {
    forall|j: int| 0 <= j < count ==> #[trigger] corners.indices[j] != vertex
}

/// The vertices that stand for a source vertex, each with another tangent.
spec fn variants_stand(
    variants: Seq<Vec<u32>>,
    tangents: Seq<[u32; 4]>,
    corners: Corners,
    size: int,
    count: int,
) -> bool {
    &&& variants.len() == size
    &&& tangents.len() == size + corners.splitting(count).len()
    &&& forall|j: int|
        0 <= j < count ==> {
            let vertex = #[trigger] corners.vertex(size, j);
            &&& 0 <= vertex < tangents.len()
            &&& vertex <= u32::MAX
            &&& variants[corners.indices[j] as int]@.contains(vertex as u32)
            &&& tangents[vertex]@ == corners.tangents[j]@
        }
    &&& forall|source: int, p: int|
        0 <= source < size && 0 <= p < variants[source]@.len() ==> stands_for(
            corners,
            size,
            count,
            source,
            #[trigger] variants[source]@[p] as int,
        )
    &&& forall|source: int|
        0 <= source < size && unnamed(corners, count, source) ==> (#[trigger] tangents[source])@
            == seq![0u32, 0u32, 0u32, 0u32]
}

/// All corners done, every vertex has its tangent.
proof fn lemma_tangents_stand(
    variants: Seq<Vec<u32>>,
    tangents: Seq<[u32; 4]>,
    corners: Corners,
    size: int,
)
    requires
        corners.wf(size),
        variants_stand(variants, tangents, corners, size, corners.indices.len() as int),
    ensures
        views4(tangents) == corners.vertex_tangents(size),
{
    let count = corners.indices.len() as int;
    assert forall|vertex: int| 0 <= vertex < tangents.len() implies #[trigger] tangents[vertex]@
        == corners.tangent(size, vertex) by {
        if vertex < size {
            if unnamed(corners, count, vertex) {
                assert(forall|k: int| !corners.leads_at(k, vertex));
            } else {
                let named = choose|k: int| 0 <= k < count && #[trigger] corners.indices[k] == vertex;
                let lead = lemma_lead(corners, named);
                assert(corners.vertex(size, lead) == vertex);
                assert(corners.leads_at(lead, vertex));
                let other = choose|other: int| corners.leads_at(other, vertex);
                lemma_one_leads(corners, lead, other, vertex);
            }
        } else {
            lemma_splitting(corners, count);
            let k = corners.splitting(count)[vertex - size];
            assert(corners.splits(k));
            assert(corners.vertex(size, k) == vertex);
        }
    }
    assert(views4(tangents) =~= corners.vertex_tangents(size));
}

/// Where an earlier variant has the tangent that a corner needs, the corner
/// takes it.
proof fn lemma_take_variant(
    variants: Seq<Vec<u32>>,
    tangents: Seq<[u32; 4]>,
    corners: Corners,
    size: int,
    k: int,
    p: int,
)
    requires
        corners.wf(size),
        0 <= k < corners.indices.len(),
        variants_stand(variants, tangents, corners, size, k),
        0 <= p < variants[corners.indices[k] as int]@.len(),
        tangents[variants[corners.indices[k] as int]@[p] as int]@ == corners.tangents[k]@,
    ensures
        corners.vertex(size, k) == variants[corners.indices[k] as int]@[p],
        corners.splitting(k + 1) == corners.splitting(k),
        variants_stand(variants, tangents, corners, size, k + 1),
{
    let source = corners.indices[k] as int;
    assert(stands_for(corners, size, k, source, variants[source]@[p] as int));
    let j = choose|j: int|
        0 <= j < k && corners.indices[j] == source && #[trigger] corners.vertex(size, j)
            == variants[source]@[p];
    assert(corners.same(j, k));
    lemma_same_share_first(corners, j, k);
    lemma_first_same(corners, j);
    assert(!corners.splits(k));
    assert forall|source: int, p: int|
        0 <= source < size && 0 <= p < variants[source]@.len() implies stands_for(
        corners,
        size,
        k + 1,
        source,
        #[trigger] variants[source]@[p] as int,
    ) by {
        assert(stands_for(corners, size, k, source, variants[source]@[p] as int));
    }
    assert forall|source: int|
        0 <= source < size && unnamed(corners, k + 1, source) implies (
    #[trigger] tangents[source])@ == seq![0u32, 0u32, 0u32, 0u32] by {
        assert(unnamed(corners, k, source));
    }
    assert(variants[source]@.contains(corners.vertex(size, k) as u32));
}

/// Where none has it, the corner is the first of its kind, and leads exactly
/// where there is no variant yet.
proof fn lemma_need_variant(
    variants: Seq<Vec<u32>>,
    tangents: Seq<[u32; 4]>,
    corners: Corners,
    size: int,
    k: int,
)
    requires
        corners.wf(size),
        0 <= k < corners.indices.len(),
        variants_stand(variants, tangents, corners, size, k),
        forall|p: int|
            0 <= p < variants[corners.indices[k] as int]@.len()
                ==> tangents[#[trigger] variants[corners.indices[k] as int]@[p] as int]@
                != corners.tangents[k]@,
    ensures
        corners.first_same(k) == k,
        corners.leads(k) <==> variants[corners.indices[k] as int]@.len() == 0,
        corners.splits(k) <==> variants[corners.indices[k] as int]@.len() != 0,
        corners.vertex(size, k) == if variants[corners.indices[k] as int]@.len() == 0 {
            corners.indices[k] as int
        } else {
            tangents.len() as int
        },
{
    let source = corners.indices[k] as int;
    lemma_first_same(corners, k);
    let first = corners.first_same(k);
    if first < k {
        let vertex = corners.vertex(size, first);
        assert(variants[source]@.contains(vertex as u32));
        let p = choose|p: int|
            0 <= p < variants[source]@.len() && variants[source]@[p] == vertex as u32;
        assert(tangents[variants[source]@[p] as int]@ == corners.tangents[k]@);
    }
    if variants[source]@.len() == 0 {
        assert forall|j: int| 0 <= j < k implies #[trigger] corners.indices[j] != source by {
            if corners.indices[j] == source {
                let vertex = corners.vertex(size, j);
                assert(variants[source]@.contains(vertex as u32));
            }
        }
    } else {
        assert(stands_for(corners, size, k, source, variants[source]@[0] as int));
        let j = choose|j: int|
            0 <= j < k && corners.indices[j] == source && #[trigger] corners.vertex(size, j)
                == variants[source]@[0];
        assert(corners.indices[j] == corners.indices[k]);
    }
}

/// The variants still stand once a corner has brought one.
proof fn lemma_add_variant(
    variants: Seq<Vec<u32>>,
    tangents: Seq<[u32; 4]>,
    later_variants: Seq<Vec<u32>>,
    later_tangents: Seq<[u32; 4]>,
    corners: Corners,
    size: int,
    k: int,
)
    requires
        corners.wf(size),
        0 <= k < corners.indices.len(),
        variants_stand(variants, tangents, corners, size, k),
        corners.first_same(k) == k,
        corners.vertex(size, k) <= u32::MAX,
        later_variants.len() == variants.len(),
        forall|source: int|
            0 <= source < size && source != corners.indices[k] ==> #[trigger] later_variants[source]
                == variants[source],
        later_variants[corners.indices[k] as int]@ == variants[corners.indices[k] as int]@.push(
            corners.vertex(size, k) as u32,
        ),
        corners.leads(k) ==> later_tangents == tangents.update(
            corners.indices[k] as int,
            corners.tangents[k],
        ),
        !corners.leads(k) ==> later_tangents == tangents.push(corners.tangents[k]),
    ensures
        variants_stand(later_variants, later_tangents, corners, size, k + 1),
{
    let named = corners.indices[k] as int;
    let fresh = corners.vertex(size, k);
    assert forall|j: int| 0 <= j < k + 1 implies {
        let vertex = #[trigger] corners.vertex(size, j);
        &&& 0 <= vertex < later_tangents.len()
        &&& vertex <= u32::MAX
        &&& later_variants[corners.indices[j] as int]@.contains(vertex as u32)
        &&& later_tangents[vertex]@ == corners.tangents[j]@
    } by {
        let vertex = corners.vertex(size, j);
        let source = corners.indices[j] as int;
        if j < k {
            lemma_vertex(corners, size, j);
            assert(variants[source]@.contains(vertex as u32));
            let p = choose|p: int|
                0 <= p < variants[source]@.len() && variants[source]@[p] == vertex as u32;
            assert(later_variants[source]@[p] == vertex as u32);
            if corners.leads(k) {
                assert(vertex != named) by {
                    if vertex == named {
                        assert(corners.indices[j] != corners.indices[k]);
                    }
                }
            }
        } else {
            let last = later_variants[named]@.len() - 1;
            assert(later_variants[named]@[last] == fresh as u32);
        }
    }
    assert forall|source: int, p: int|
        0 <= source < size && 0 <= p < later_variants[source]@.len() implies stands_for(
        corners,
        size,
        k + 1,
        source,
        #[trigger] later_variants[source]@[p] as int,
    ) by {
        if source == named && p == variants[named]@.len() {
            assert(corners.vertex(size, k) == later_variants[source]@[p]);
        } else {
            assert(later_variants[source]@[p] == variants[source]@[p]);
            assert(stands_for(corners, size, k, source, variants[source]@[p] as int));
        }
    }
    assert forall|source: int|
        0 <= source < size && unnamed(corners, k + 1, source) implies (
    #[trigger] later_tangents[source])@ == seq![0u32, 0u32, 0u32, 0u32] by {
        assert(corners.indices[k] != source);
        assert(later_tangents[source] == tangents[source]);
        assert(unnamed(corners, k, source));
    }
}

/// Whether two tangents are the same, bit for bit.
fn same_tangent(left: &[u32; 4], right: &[u32; 4]) -> (same: bool)
    ensures
        same == (left@ == right@),
{
    let same = left[0] == right[0] && left[1] == right[1] && left[2] == right[2] && left[3]
        == right[3];
    proof {
        if same {
            assert(left@ =~= right@);
        }
    }
    same
}

/// Split the vertices of a mesh where its corners need more than one tangent,
/// unless the copies no longer fit the index type.  The order of the corners,
/// and with it the winding of the faces, stays as it is.
pub fn split_tangent_seams(
    positions: &[[u32; 3]],
    normals: &[[u32; 3]],
    uvs: &[[u32; 2]],
    indices: &[u32],
    tangents: &[[u32; 4]],
) -> (split: Option<VertexMesh>)
    requires
        normals@.len() == positions@.len(),
        uvs@.len() == positions@.len(),
        (Corners { indices: indices@, tangents: tangents@ }).wf(positions@.len() as int),
    ensures
        split is Some <==> indexable(
            positions@.len() as int,
            (Corners { indices: indices@, tangents: tangents@ }),
        ),
        split matches Some(mesh) ==> mesh.splits(
            positions@,
            normals@,
            uvs@,
            (Corners { indices: indices@, tangents: tangents@ }),
        ),
{
    let ghost corners = Corners { indices: indices@, tangents: tangents@ };
    let size: usize = positions.len();
    let count: usize = indices.len();
    let mut mesh = VertexMesh {
        positions: slice_to_vec(positions),
        normals: slice_to_vec(normals),
        uvs: slice_to_vec(uvs),
        tangents: Vec::new(),
        indices: Vec::new(),
    };
    let mut variants: Vec<Vec<u32>> = Vec::new();
    let mut i: usize = 0;
    while i < size
        invariant
            i <= size,
            mesh.positions@ == positions@,
            mesh.normals@ == normals@,
            mesh.uvs@ == uvs@,
            mesh.indices@.len() == 0,
            mesh.tangents@.len() == i,
            variants@.len() == i,
            forall|source: int| 0 <= source < i ==> (#[trigger] variants@[source])@.len() == 0,
            forall|source: int|
                0 <= source < i ==> (#[trigger] mesh.tangents@[source])@ == seq![
                    0u32,
                    0u32,
                    0u32,
                    0u32,
                ],
        decreases size - i,
    {
        let zero: [u32; 4] = [0, 0, 0, 0];
        assert(zero@ =~= seq![0u32, 0u32, 0u32, 0u32]);
        mesh.tangents.push(zero);
        variants.push(Vec::new());
        i += 1;
    }
    assert(mesh.positions@ =~= positions@ + corners.splitting(0).map_values(
        |k: int| positions@[corners.indices[k] as int],
    ));
    assert(mesh.normals@ =~= normals@ + corners.splitting(0).map_values(
        |k: int| normals@[corners.indices[k] as int],
    ));
    assert(mesh.uvs@ =~= uvs@ + corners.splitting(0).map_values(
        |k: int| uvs@[corners.indices[k] as int],
    ));
    let mut k: usize = 0;
    while k < count
        invariant
            k <= count,
            count == indices@.len(),
            size == positions@.len(),
            normals@.len() == size,
            uvs@.len() == size,
            corners == (Corners { indices: indices@, tangents: tangents@ }),
            corners.wf(size as int),
            variants_stand(variants@, mesh.tangents@, corners, size as int, k as int),
            corners.splitting(k as int).len() == 0 || size + corners.splitting(k as int).len()
                <= 0x1_0000_0000,
            mesh.positions@ == positions@ + corners.splitting(k as int).map_values(
                |k: int| positions@[corners.indices[k] as int],
            ),
            mesh.normals@ == normals@ + corners.splitting(k as int).map_values(
                |k: int| normals@[corners.indices[k] as int],
            ),
            mesh.uvs@ == uvs@ + corners.splitting(k as int).map_values(
                |k: int| uvs@[corners.indices[k] as int],
            ),
            mesh.indices@.len() == k,
            forall|j: int|
                0 <= j < k ==> #[trigger] mesh.indices@[j] == corners.vertex(size as int, j),
        decreases count - k,
    {
        let source: usize = indices[k] as usize;
        let tangent = tangents[k];
        let mut found: Option<u32> = None;
        let mut p: usize = 0;
        while p < variants[source].len() && found.is_none()
            invariant
                k < count,
                count == indices@.len(),
                corners == (Corners { indices: indices@, tangents: tangents@ }),
                corners.wf(size as int),
                source == indices@[k as int],
                tangent == tangents@[k as int],
                variants_stand(variants@, mesh.tangents@, corners, size as int, k as int),
                p <= variants@[source as int]@.len(),
                match found {
                    Some(vertex) => 0 < p && vertex == variants@[source as int]@[p - 1]
                        && mesh.tangents@[vertex as int]@ == tangent@,
                    None => forall|q: int|
                        0 <= q < p ==> mesh.tangents@[#[trigger] variants@[source as int]@[q] as int]@
                            != tangent@,
                },
            decreases variants@[source as int]@.len() - p,
        {
            let vertex: u32 = variants[source][p];
            assert(stands_for(corners, size as int, k as int, source as int, vertex as int));
            if same_tangent(&mesh.tangents[vertex as usize], &tangent) {
                found = Some(vertex);
            }
            p += 1;
        }
        match found {
            Some(vertex) => {
                proof {
                    lemma_take_variant(
                        variants@,
                        mesh.tangents@,
                        corners,
                        size as int,
                        k as int,
                        p - 1,
                    );
                }
                mesh.indices.push(vertex);
            },
            None => {
                let ghost (old_variants, old_tangents) = (variants@, mesh.tangents@);
                proof {
                    lemma_need_variant(variants@, mesh.tangents@, corners, size as int, k as int);
                    lemma_splitting_grows(corners, k as int, count as int);
                    lemma_splitting_grows(corners, k + 1, count as int);
                }
                let vertex: u32 = if variants[source].len() == 0 {
                    mesh.tangents.set(source, tangent);
                    indices[k]
                } else {
                    let fresh: usize = mesh.positions.len();
                    if fresh > 0xffff_ffff {
                        return None;
                    }
                    let position = positions[source];
                    let normal = normals[source];
                    let uv = uvs[source];
                    mesh.positions.push(position);
                    mesh.normals.push(normal);
                    mesh.uvs.push(uv);
                    mesh.tangents.push(tangent);
                    fresh as u32
                };
                variants[source].push(vertex);
                mesh.indices.push(vertex);
                proof {
                    lemma_add_variant(
                        old_variants,
                        old_tangents,
                        variants@,
                        mesh.tangents@,
                        corners,
                        size as int,
                        k as int,
                    );
                    let next = corners.splitting(k + 1);
                    assert(mesh.positions@ =~= positions@ + next.map_values(
                        |k: int| positions@[corners.indices[k] as int],
                    ));
                    assert(mesh.normals@ =~= normals@ + next.map_values(
                        |k: int| normals@[corners.indices[k] as int],
                    ));
                    assert(mesh.uvs@ =~= uvs@ + next.map_values(
                        |k: int| uvs@[corners.indices[k] as int],
                    ));
                }
            },
        }
        k += 1;
    }
    proof {
        lemma_tangents_stand(variants@, mesh.tangents@, corners, size as int);
    }
    Some(mesh)
}

/// Two corners share a vertex of the split mesh exactly where they named one
/// vertex and need one tangent, bit for bit; and the first corner that names a
/// vertex keeps it.
pub proof fn lemma_equal_corners_share_a_vertex(corners: Corners, size: int, j: int, k: int)
    requires
        corners.wf(size),
        0 <= j < corners.indices.len(),
        0 <= k < corners.indices.len(),
    ensures
        corners.vertex(size, j) == corners.vertex(size, k) <==> {
            &&& corners.indices[j] == corners.indices[k]
            &&& corners.tangents[j]@ == corners.tangents[k]@
        },
        (forall|i: int| 0 <= i < k ==> #[trigger] corners.indices[i] != corners.indices[k])
            ==> corners.vertex(size, k) == corners.indices[k],
        corners.vertex(size, k) == corners.indices[k] || corners.vertex(size, k) >= size,
{
    lemma_vertices_are_shared_by_same_corners(corners, size, j, k);
    lemma_vertex(corners, size, k);
    lemma_first_same(corners, k);
    if forall|i: int| 0 <= i < k ==> #[trigger] corners.indices[i] != corners.indices[k] {
        let first = corners.first_same(k);
        if first < k {
            assert(corners.indices[first] != corners.indices[k]);
        }
    }
}

/// Copies are made one after another as the corners need them: a corner with a
/// copy that is not the first comes after a corner with the copy before.
pub proof fn lemma_copies_are_made_in_turn(corners: Corners, size: int, k: int)
    requires
        corners.wf(size),
        0 <= k < corners.indices.len(),
        corners.vertex(size, k) > size,
    ensures
        exists|j: int|
            0 <= j < k && #[trigger] corners.vertex(size, j) == corners.vertex(size, k) - 1,
{
    lemma_vertex(corners, size, k);
    let all = corners.splitting(corners.indices.len() as int);
    lemma_splitting(corners, corners.indices.len() as int);
    let place = corners.vertex(size, k) - size;
    let first = all[place];
    let before = all[place - 1];
    assert(corners.splits(first) && corners.splitting(first).len() == place);
    assert(corners.splits(before) && corners.splitting(before).len() == place - 1);
    if before >= first {
        lemma_splitting_grows(corners, first, before);
    }
    lemma_first_same(corners, before);
    assert(corners.vertex(size, before) == corners.vertex(size, k) - 1);
}

/// Every copy is there for a corner.
pub proof fn lemma_every_copy_has_a_corner(corners: Corners, size: int, vertex: int)
    requires
        corners.wf(size),
        0 <= size <= vertex < corners.vertex_tangents(size).len(),
    ensures
        exists|k: int|
            0 <= k < corners.indices.len() && #[trigger] corners.vertex(size, k) == vertex,
{
    let count = corners.indices.len() as int;
    lemma_splitting(corners, count);
    let k = corners.splitting(count)[vertex - size];
    assert(corners.splits(k) && corners.splitting(k).len() == vertex - size);
    assert(corners.vertex(size, k) == vertex);
}

/// A mesh can be split exactly where every corner's vertex is a word.
pub proof fn lemma_words_index_the_split_mesh(corners: Corners, size: int)
    requires
        corners.wf(size),
        0 <= size,
    ensures
        indexable(size, corners) <==> forall|k: int|
            0 <= k < corners.indices.len() ==> #[trigger] corners.vertex(size, k) <= 0xffff_ffff,
{
    let count = corners.indices.len() as int;
    let all = corners.splitting(count);
    if indexable(size, corners) {
        assert forall|k: int| 0 <= k < count implies #[trigger] corners.vertex(size, k)
            <= 0xffff_ffff by {
            lemma_vertex(corners, size, k);
        }
    } else {
        let last = size + all.len() - 1;
        lemma_every_copy_has_a_corner(corners, size, last);
        let k = choose|k: int| 0 <= k < count && #[trigger] corners.vertex(size, k) == last;
        assert(corners.vertex(size, k) > 0xffff_ffff);
    }
}

/// A vertex that no corner names keeps its place and has a tangent of zeros.
pub proof fn lemma_unnamed_vertices_have_no_tangent(corners: Corners, size: int, vertex: int)
    requires
        corners.wf(size),
        0 <= vertex < size,
        forall|k: int| 0 <= k < corners.indices.len() ==> #[trigger] corners.indices[k] != vertex,
    ensures
        corners.vertex_tangents(size).len() >= size,
        corners.vertex_tangents(size)[vertex] == seq![0u32, 0u32, 0u32, 0u32],
{
}

/// Splitting adds copies at the end only, as many of every attribute.
pub proof fn lemma_copies_come_last<T>(corners: Corners, attribute: Seq<T>, vertex: int)
    requires
        corners.wf(attribute.len() as int),
        0 <= vertex < attribute.len(),
    ensures
        corners.copied(attribute)[vertex] == attribute[vertex],
        corners.copied(attribute).len() == corners.vertex_tangents(attribute.len() as int).len(),
        corners.copied(attribute).len() >= attribute.len(),
{
}

/// Corners are well formed exactly where each names a vertex that is there and
/// has a tangent.
pub proof fn lemma_well_formed_corners(corners: Corners, size: int)
    ensures
        corners.wf(size) <==> corners.indices.len() == corners.tangents.len() && forall|k: int|
            0 <= k < corners.indices.len() ==> (#[trigger] corners.indices[k]) < size,
{
}

} // verus!
