//! Reading the primitives of a glTF document: which accessors can be read, what
//! the `gltf` crate reads from them, and the primitives that this makes.
use crate::asset::PrimitiveTopology;
#[allow(unused_imports)]
use crate::document::{
    bytes_in, document_of, meshes_of, parser_admits, seq_of, DocumentContents,
};
use crate::document::{
    read_document, AccessorRecord, Document, PrimitiveRecord, ViewRecord, FLOAT, UNSIGNED_BYTE,
    UNSIGNED_INT, UNSIGNED_SHORT,
};
#[allow(unused_imports)]
use crate::mesh::PrimitiveDefect;
use crate::mesh::{implicit_indices, indices_in_range, SourcePrimitive, SourceTangents};
use vstd::prelude::*;

verus! {

/// What is read of a primitive.
#[derive(Clone, Copy, Debug, PartialEq, Eq, Structural)]
pub enum Attribute {
    Positions,
    Indices,
    Normals,
    Uvs,
    Tangents,
}

/// The accessor of an attribute, where the primitive has it.
pub open spec fn accessor_of(record: PrimitiveRecord, attribute: Attribute) -> Option<usize> {
    match attribute {
        Attribute::Positions => record.positions,
        Attribute::Indices => record.indices,
        Attribute::Normals => record.normals,
        Attribute::Uvs => record.uvs,
        Attribute::Tangents => record.tangents,
    }
}

/// The size of an unsigned integer type.
pub open spec fn unsigned_size(component: u32) -> Option<usize> {
    if component == UNSIGNED_BYTE {
        Some(1)
    } else if component == UNSIGNED_SHORT {
        Some(2)
    } else if component == UNSIGNED_INT {
        Some(4)
    } else {
        None
    }
}

/// The size of the items that an attribute is read as.  Positions and normals
/// are three floats and tangents are four, whatever the accessor says; texture
/// coordinates are pairs of the accessor's type, and indices are of that type.
pub open spec fn item_size(attribute: Attribute, component: u32) -> Option<usize> {
    match attribute {
        Attribute::Positions | Attribute::Normals => Some(12),
        Attribute::Tangents => Some(16),
        Attribute::Indices => unsigned_size(component),
        Attribute::Uvs => if component == UNSIGNED_BYTE {
            Some(2)
        } else if component == UNSIGNED_SHORT {
            Some(4)
        } else if component == FLOAT {
            Some(8)
        } else {
            None
        },
    }
}

/// Whether items in a view can be walked: there is one, they do not overlap,
/// and their end and the view's are sizes.
pub open spec fn items_fit(view: ViewRecord, offset: int, count: int, size: int) -> bool {
    let stride = match view.stride {
        Some(stride) => stride as int,
        None => size,
    };
    &&& count >= 1
    &&& stride >= size
    &&& offset + stride * (count - 1) + size <= usize::MAX
    &&& view.offset + view.length <= usize::MAX
}

/// [`items_fit`], for a view that is there.
pub open spec fn view_fits(
    views: Seq<ViewRecord>,
    view: usize,
    offset: usize,
    count: usize,
    size: usize,
) -> bool {
    &&& view < views.len()
    &&& items_fit(views[view as int], offset as int, count as int, size as int)
}

/// Whether an accessor can be read as items of a size.  A plain accessor has
/// items of that size.  A sparse one has a count that fits its counter, and
/// where it has no view of its own, a count that memory can hold.
pub open spec fn accessor_fits(
    views: Seq<ViewRecord>,
    accessor: AccessorRecord,
    size: usize,
) -> bool {
    &&& accessor.view matches Some(view) ==> view_fits(
        views,
        view,
        accessor.offset,
        accessor.count,
        size,
    )
    &&& match accessor.sparse {
        None => accessor.size == size,
        Some(sparse) => {
            &&& accessor.count <= u32::MAX
            &&& accessor.view is None ==> accessor.count * 16 <= isize::MAX
            &&& unsigned_size(sparse.index_component) matches Some(index_size) && view_fits(
                views,
                sparse.indices_view,
                sparse.indices_offset,
                sparse.count,
                index_size,
            )
            &&& view_fits(views, sparse.values_view, sparse.values_offset, sparse.count, size)
        },
    }
}

/// Whether an attribute of a primitive can be read, or is not there.
pub open spec fn attribute_fits(
    contents: DocumentContents,
    record: PrimitiveRecord,
    attribute: Attribute,
) -> bool {
    match accessor_of(record, attribute) {
        None => true,
        Some(accessor) => {
            &&& accessor < contents.accessors.len()
            &&& item_size(attribute, contents.accessors[accessor as int].component) matches Some(
                size,
            ) && accessor_fits(
                contents.storage.views,
                contents.accessors[accessor as int],
                size,
            )
        },
    }
}

fn find_unsigned_size(component: u32) -> (size: Option<usize>)
    ensures
        size == unsigned_size(component),
{
    if component == UNSIGNED_BYTE {
        Some(1)
    } else if component == UNSIGNED_SHORT {
        Some(2)
    } else if component == UNSIGNED_INT {
        Some(4)
    } else {
        None
    }
}

fn find_item_size(attribute: Attribute, component: u32) -> (size: Option<usize>)
    ensures
        size == item_size(attribute, component),
{
    match attribute {
        Attribute::Positions | Attribute::Normals => Some(12),
        Attribute::Tangents => Some(16),
        Attribute::Indices => find_unsigned_size(component),
        Attribute::Uvs => if component == UNSIGNED_BYTE {
            Some(2)
        } else if component == UNSIGNED_SHORT {
            Some(4)
        } else if component == FLOAT {
            Some(8)
        } else {
            None
        },
    }
}

fn check_items(view: &ViewRecord, offset: usize, count: usize, size: usize) -> (fits: bool)
    ensures
        fits == items_fit(*view, offset as int, count as int, size as int),
{
    let stride: usize = match view.stride {
        Some(stride) => stride,
        None => size,
    };
    if count < 1 || stride < size || view.offset.checked_add(view.length).is_none() {
        return false;
    }
    let span: usize = match stride.checked_mul(count - 1) {
        Some(span) => span,
        None => return false,
    };
    assert(span == stride * (count - 1));
    match offset.checked_add(span) {
        Some(last) => last.checked_add(size).is_some(),
        None => false,
    }
}

fn check_view(
    views: &[ViewRecord],
    view: usize,
    offset: usize,
    count: usize,
    size: usize,
) -> (fits: bool)
    ensures
        fits == view_fits(views@, view, offset, count, size),
{
    view < views.len() && check_items(&views[view], offset, count, size)
}

fn check_accessor(views: &[ViewRecord], accessor: &AccessorRecord, size: usize) -> (fits: bool)
    ensures
        fits == accessor_fits(views@, *accessor, size),
{
    if let Some(view) = accessor.view {
        if !check_view(views, view, accessor.offset, accessor.count, size) {
            return false;
        }
    }
    match &accessor.sparse {
        None => accessor.size == size,
        Some(sparse) => {
            if accessor.count > u32::MAX as usize || (accessor.view.is_none() && accessor.count
                > isize::MAX as usize / 16) {
                return false;
            }
            match find_unsigned_size(sparse.index_component) {
                None => false,
                Some(index_size) => check_view(
                    views,
                    sparse.indices_view,
                    sparse.indices_offset,
                    sparse.count,
                    index_size,
                ) && check_view(
                    views,
                    sparse.values_view,
                    sparse.values_offset,
                    sparse.count,
                    size,
                ),
            }
        },
    }
}

fn check_attribute(
    document: &Document,
    record: &PrimitiveRecord,
    attribute: Attribute,
) -> (fits: bool)
    ensures
        fits == attribute_fits(document@, *record, attribute),
{
    let accessor = match attribute {
        Attribute::Positions => record.positions,
        Attribute::Indices => record.indices,
        Attribute::Normals => record.normals,
        Attribute::Uvs => record.uvs,
        Attribute::Tangents => record.tangents,
    };
    match accessor {
        None => true,
        Some(accessor) => {
            if accessor >= document.accessors.len() {
                return false;
            }
            let found = document.accessors[accessor];
            match find_item_size(attribute, found.component) {
                None => false,
                Some(size) => check_accessor(&document.storage.views, &found, size),
            }
        },
    }
}

/// A primitive of a document, where it is there.
pub open spec fn primitive_at(
    contents: DocumentContents,
    mesh: usize,
    primitive: usize,
) -> Option<PrimitiveRecord> {
    if mesh < contents.meshes.len() && primitive < contents.meshes[mesh as int].len() {
        Some(contents.meshes[mesh as int][primitive as int])
    } else {
        None
    }
}

/// Whether an attribute can be asked for: the bytes can be parsed, and where
/// the document has the primitive, the attribute fits.
pub open spec fn readable(
    bytes: Seq<u8>,
    mesh: usize,
    primitive: usize,
    attribute: Attribute,
) -> bool {
    &&& parser_admits(bytes)
    &&& document_of(bytes) matches Some(contents) ==> (primitive_at(
        contents,
        mesh,
        primitive,
    ) matches Some(record) ==> attribute_fits(contents, record, attribute))
}

/// The positions of a primitive, where they can be found.
pub uninterp spec fn gltf_positions(
    bytes: Seq<u8>,
    buffers: Seq<Seq<u8>>,
    mesh: usize,
    primitive: usize,
) -> Option<Seq<[u32; 3]>>;

/// The positions of a primitive, by `gltf::mesh::Reader::read_positions` on
/// the document that `gltf::Gltf::from_slice` parses.  There are none where the
/// primitive has none, or where their range is not within the buffers.  The
/// reader goes by the document and the buffers alone, so the contract names
/// what it finds and claims no more.  Accessors that the reader cannot walk
/// without stopping the program are left out.
#[verifier::external_body]
fn read_positions(bytes: &[u8], buffers: &[Vec<u8>], mesh: usize, primitive: usize) -> (items: Option<
    Vec<[u32; 3]>,
>)
    requires
        readable(bytes@, mesh, primitive, Attribute::Positions),
    ensures
        seq_of(items) == gltf_positions(bytes@, bytes_in(buffers@), mesh, primitive),
{
    let gltf = gltf::Gltf::from_slice(bytes).ok()?;
    let primitive = gltf.meshes().nth(mesh)?.primitives().nth(primitive)?;
    let reader = primitive.reader(|b| buffers.get(b.index()).map(|v| v.as_slice()));
    let items = reader.read_positions().map(|items| {
        items.map(|item| item.map(|v| v.to_bits())).collect()
    });
    items
}

/// The normals of a primitive, where they can be found.
pub uninterp spec fn gltf_normals(
    bytes: Seq<u8>,
    buffers: Seq<Seq<u8>>,
    mesh: usize,
    primitive: usize,
) -> Option<Seq<[u32; 3]>>;

/// The normals of a primitive, by `gltf::mesh::Reader::read_normals`, with a
/// contract like that of [`read_positions`].
#[verifier::external_body]
fn read_normals(bytes: &[u8], buffers: &[Vec<u8>], mesh: usize, primitive: usize) -> (items: Option<
    Vec<[u32; 3]>,
>)
    requires
        readable(bytes@, mesh, primitive, Attribute::Normals),
    ensures
        seq_of(items) == gltf_normals(bytes@, bytes_in(buffers@), mesh, primitive),
{
    let gltf = gltf::Gltf::from_slice(bytes).ok()?;
    let primitive = gltf.meshes().nth(mesh)?.primitives().nth(primitive)?;
    let reader = primitive.reader(|b| buffers.get(b.index()).map(|v| v.as_slice()));
    let items = reader.read_normals().map(|items| {
        items.map(|item| item.map(|v| v.to_bits())).collect()
    });
    items
}

/// The tangents of a primitive, where they can be found.
pub uninterp spec fn gltf_tangents(
    bytes: Seq<u8>,
    buffers: Seq<Seq<u8>>,
    mesh: usize,
    primitive: usize,
) -> Option<Seq<[u32; 4]>>;

/// The tangents of a primitive, by `gltf::mesh::Reader::read_tangents`, with a
/// contract like that of [`read_positions`].
#[verifier::external_body]
fn read_tangents(bytes: &[u8], buffers: &[Vec<u8>], mesh: usize, primitive: usize) -> (items: Option<
    Vec<[u32; 4]>,
>)
    requires
        readable(bytes@, mesh, primitive, Attribute::Tangents),
    ensures
        seq_of(items) == gltf_tangents(bytes@, bytes_in(buffers@), mesh, primitive),
{
    let gltf = gltf::Gltf::from_slice(bytes).ok()?;
    let primitive = gltf.meshes().nth(mesh)?.primitives().nth(primitive)?;
    let reader = primitive.reader(|b| buffers.get(b.index()).map(|v| v.as_slice()));
    let items = reader.read_tangents().map(|items| {
        items.map(|item| item.map(|v| v.to_bits())).collect()
    });
    items
}

/// The first texture coordinates of a primitive, where they can be found.
pub uninterp spec fn gltf_uvs(
    bytes: Seq<u8>,
    buffers: Seq<Seq<u8>>,
    mesh: usize,
    primitive: usize,
) -> Option<Seq<[u32; 2]>>;

/// The first texture coordinates of a primitive, by
/// `gltf::mesh::Reader::read_tex_coords` and its conversion to floats, with a
/// contract like that of [`read_positions`].
#[verifier::external_body]
fn read_uvs(bytes: &[u8], buffers: &[Vec<u8>], mesh: usize, primitive: usize) -> (items: Option<
    Vec<[u32; 2]>,
>)
    requires
        readable(bytes@, mesh, primitive, Attribute::Uvs),
    ensures
        seq_of(items) == gltf_uvs(bytes@, bytes_in(buffers@), mesh, primitive),
{
    let gltf = gltf::Gltf::from_slice(bytes).ok()?;
    let primitive = gltf.meshes().nth(mesh)?.primitives().nth(primitive)?;
    let reader = primitive.reader(|b| buffers.get(b.index()).map(|v| v.as_slice()));
    let items = reader.read_tex_coords(0).map(|items| {
        items.into_f32().map(|item| item.map(|v| v.to_bits())).collect()
    });
    items
}

/// The indices of a primitive, where they can be found.
pub uninterp spec fn gltf_indices(
    bytes: Seq<u8>,
    buffers: Seq<Seq<u8>>,
    mesh: usize,
    primitive: usize,
) -> Option<Seq<u32>>;

/// The indices of a primitive, by `gltf::mesh::Reader::read_indices` and its
/// conversion to words, with a contract like that of [`read_positions`].
#[verifier::external_body]
fn read_indices(bytes: &[u8], buffers: &[Vec<u8>], mesh: usize, primitive: usize) -> (items: Option<
    Vec<u32>,
>)
    requires
        readable(bytes@, mesh, primitive, Attribute::Indices),
    ensures
        seq_of(items) == gltf_indices(bytes@, bytes_in(buffers@), mesh, primitive),
{
    let gltf = gltf::Gltf::from_slice(bytes).ok()?;
    let primitive = gltf.meshes().nth(mesh)?.primitives().nth(primitive)?;
    let reader = primitive.reader(|b| buffers.get(b.index()).map(|v| v.as_slice()));
    let items = reader.read_indices().map(|items| items.into_u32().collect());
    items
}

/// What was read of a primitive.
pub struct AttributesRead {
    pub positions: Option<Vec<[u32; 3]>>,
    pub indices: Option<Vec<u32>>,
    pub normals: Option<Vec<[u32; 3]>>,
    pub uvs: Option<Vec<[u32; 2]>>,
    pub tangents: Option<Vec<[u32; 4]>>,
}

/// [`AttributesRead`], over the contents of what it holds.
pub struct AttributeContents {
    pub positions: Option<Seq<[u32; 3]>>,
    pub indices: Option<Seq<u32>>,
    pub normals: Option<Seq<[u32; 3]>>,
    pub uvs: Option<Seq<[u32; 2]>>,
    pub tangents: Option<Seq<[u32; 4]>>,
}

impl View for AttributesRead {
    type V = AttributeContents;

    open spec fn view(&self) -> AttributeContents {
        AttributeContents {
            positions: seq_of(self.positions),
            indices: seq_of(self.indices),
            normals: seq_of(self.normals),
            uvs: seq_of(self.uvs),
            tangents: seq_of(self.tangents),
        }
    }
}

/// A primitive of a document.  It has positions and indices; what else there is
/// rests with the document.
pub struct ReadPrimitive {
    pub topology: PrimitiveTopology,
    pub positions: Vec<[u32; 3]>,
    pub indices: Vec<u32>,
    pub normals: Option<Vec<[u32; 3]>>,
    pub uvs: Option<Vec<[u32; 2]>>,
    pub tangents: Option<Vec<[u32; 4]>>,
    pub double_sided: bool,
}

/// [`ReadPrimitive`], over the contents of what it holds.
#[verifier::ext_equal]
pub struct PrimitiveContents {
    pub topology: PrimitiveTopology,
    pub positions: Seq<[u32; 3]>,
    pub indices: Seq<u32>,
    pub normals: Option<Seq<[u32; 3]>>,
    pub uvs: Option<Seq<[u32; 2]>>,
    pub tangents: Option<Seq<[u32; 4]>>,
    pub double_sided: bool,
}

impl View for ReadPrimitive {
    type V = PrimitiveContents;

    open spec fn view(&self) -> PrimitiveContents {
        PrimitiveContents {
            topology: self.topology,
            positions: self.positions@,
            indices: self.indices@,
            normals: seq_of(self.normals),
            uvs: seq_of(self.uvs),
            tangents: seq_of(self.tangents),
            double_sided: self.double_sided,
        }
    }
}

/// Why a primitive cannot be read.
#[derive(Clone, Copy, Debug, PartialEq, Eq, Structural)]
pub enum ReadDefect {
    /// The accessor of an attribute is not there, or is not one that can be
    /// walked.
    Accessor(Attribute),
    /// The mode is none of those that the file format has.
    Mode,
    PositionsMissing,
    /// The vertices no longer fit the index type.
    VertexCount,
}

/// The topology of a mode.
pub open spec fn mode_topology(mode: u32) -> Option<PrimitiveTopology> {
    if mode == 0 {
        Some(PrimitiveTopology::PointList)
    } else if mode == 1 {
        Some(PrimitiveTopology::LineList)
    } else if mode == 2 {
        Some(PrimitiveTopology::LineLoop)
    } else if mode == 3 {
        Some(PrimitiveTopology::LineStrip)
    } else if mode == 4 {
        Some(PrimitiveTopology::TriangleList)
    } else if mode == 5 {
        Some(PrimitiveTopology::TriangleStrip)
    } else if mode == 6 {
        Some(PrimitiveTopology::TriangleFan)
    } else {
        None
    }
}

fn find_topology(mode: u32) -> (topology: Option<PrimitiveTopology>)
    ensures
        topology == mode_topology(mode),
{
    match mode {
        0 => Some(PrimitiveTopology::PointList),
        1 => Some(PrimitiveTopology::LineList),
        2 => Some(PrimitiveTopology::LineLoop),
        3 => Some(PrimitiveTopology::LineStrip),
        4 => Some(PrimitiveTopology::TriangleList),
        5 => Some(PrimitiveTopology::TriangleStrip),
        6 => Some(PrimitiveTopology::TriangleFan),
        _ => None,
    }
}

/// The primitive that a record and its attributes make.  One without indices
/// draws each vertex once, in order.
pub open spec fn primitive_from(record: PrimitiveRecord, read: AttributeContents) -> Result<
    PrimitiveContents,
    ReadDefect,
> {
    match (mode_topology(record.mode), read.positions) {
        (None, _) => Err(ReadDefect::Mode),
        (Some(_), None) => Err(ReadDefect::PositionsMissing),
        (Some(topology), Some(positions)) => if read.indices is None && positions.len() > u32::MAX {
            Err(ReadDefect::VertexCount)
        } else {
            Ok(
                PrimitiveContents {
                    topology,
                    positions,
                    indices: match read.indices {
                        Some(indices) => indices,
                        None => Seq::new(positions.len(), |i: int| i as u32),
                    },
                    normals: read.normals,
                    uvs: read.uvs,
                    tangents: read.tangents,
                    double_sided: record.double_sided,
                },
            )
        },
    }
}

/// The contents of a primitive, where it could be read.
pub open spec fn outcome_of(primitive: Result<ReadPrimitive, ReadDefect>) -> Result<
    PrimitiveContents,
    ReadDefect,
> {
    match primitive {
        Ok(primitive) => Ok(primitive@),
        Err(defect) => Err(defect),
    }
}

/// The primitive that a record and its attributes make.
pub fn assemble_primitive(record: &PrimitiveRecord, read: AttributesRead) -> (primitive: Result<
    ReadPrimitive,
    ReadDefect,
>)
    ensures
        outcome_of(primitive) == primitive_from(*record, read@),
{
    let topology = match find_topology(record.mode) {
        Some(topology) => topology,
        None => return Err(ReadDefect::Mode),
    };
    let positions = match read.positions {
        Some(positions) => positions,
        None => return Err(ReadDefect::PositionsMissing),
    };
    let indices = match read.indices {
        Some(indices) => indices,
        None => {
            if positions.len() > u32::MAX as usize {
                return Err(ReadDefect::VertexCount);
            }
            implicit_indices(positions.len())
        },
    };
    Ok(
        ReadPrimitive {
            topology,
            positions,
            indices,
            normals: read.normals,
            uvs: read.uvs,
            tangents: read.tangents,
            double_sided: record.double_sided,
        },
    )
}

/// The first attribute that does not fit, in the order of [`Attribute`].
/// Tangents count for sampled materials only.
pub open spec fn first_misfit(
    contents: DocumentContents,
    record: PrimitiveRecord,
    sampled: bool,
) -> Option<Attribute> {
    if !attribute_fits(contents, record, Attribute::Positions) {
        Some(Attribute::Positions)
    } else if !attribute_fits(contents, record, Attribute::Indices) {
        Some(Attribute::Indices)
    } else if !attribute_fits(contents, record, Attribute::Normals) {
        Some(Attribute::Normals)
    } else if !attribute_fits(contents, record, Attribute::Uvs) {
        Some(Attribute::Uvs)
    } else if sampled && !attribute_fits(contents, record, Attribute::Tangents) {
        Some(Attribute::Tangents)
    } else {
        None
    }
}

fn find_misfit(document: &Document, record: &PrimitiveRecord, sampled: bool) -> (misfit: Option<
    Attribute,
>)
    ensures
        misfit == first_misfit(document@, *record, sampled),
{
    if !check_attribute(document, record, Attribute::Positions) {
        Some(Attribute::Positions)
    } else if !check_attribute(document, record, Attribute::Indices) {
        Some(Attribute::Indices)
    } else if !check_attribute(document, record, Attribute::Normals) {
        Some(Attribute::Normals)
    } else if !check_attribute(document, record, Attribute::Uvs) {
        Some(Attribute::Uvs)
    } else if sampled && !check_attribute(document, record, Attribute::Tangents) {
        Some(Attribute::Tangents)
    } else {
        None
    }
}

/// What the reader finds of a primitive.  Tangents are read for sampled
/// materials only.
pub open spec fn attributes_found(
    bytes: Seq<u8>,
    buffers: Seq<Seq<u8>>,
    mesh: usize,
    primitive: usize,
    sampled: bool,
) -> AttributeContents {
    AttributeContents {
        positions: gltf_positions(bytes, buffers, mesh, primitive),
        indices: gltf_indices(bytes, buffers, mesh, primitive),
        normals: gltf_normals(bytes, buffers, mesh, primitive),
        uvs: gltf_uvs(bytes, buffers, mesh, primitive),
        tangents: if sampled {
            gltf_tangents(bytes, buffers, mesh, primitive)
        } else {
            None
        },
    }
}

/// A primitive of a document, read from the document's buffers.
pub open spec fn primitive_outcome(
    contents: DocumentContents,
    bytes: Seq<u8>,
    buffers: Seq<Seq<u8>>,
    place: (usize, usize),
    sampled: bool,
) -> Result<PrimitiveContents, ReadDefect> {
    let record = contents.meshes[place.0 as int][place.1 as int];
    match first_misfit(contents, record, sampled) {
        Some(attribute) => Err(ReadDefect::Accessor(attribute)),
        None => primitive_from(
            record,
            attributes_found(bytes, buffers, place.0, place.1, sampled),
        ),
    }
}

fn read_primitive(
    document: &Document,
    bytes: &[u8],
    buffers: &[Vec<u8>],
    mesh: usize,
    primitive: usize,
    sampled: bool,
) -> (read: Result<ReadPrimitive, ReadDefect>)
    requires
        parser_admits(bytes@),
        document_of(bytes@) == Some(document@),
        mesh < document.meshes@.len(),
        primitive < document.meshes@[mesh as int]@.len(),
    ensures
        outcome_of(read) == primitive_outcome(
            document@,
            bytes@,
            bytes_in(buffers@),
            (mesh, primitive),
            sampled,
        ),
{
    let record = document.meshes[mesh][primitive];
    assert(document@.meshes[mesh as int] == document.meshes@[mesh as int]@);
    if let Some(attribute) = find_misfit(document, &record, sampled) {
        return Err(ReadDefect::Accessor(attribute));
    }
    let read = AttributesRead {
        positions: read_positions(bytes, buffers, mesh, primitive),
        indices: read_indices(bytes, buffers, mesh, primitive),
        normals: read_normals(bytes, buffers, mesh, primitive),
        uvs: read_uvs(bytes, buffers, mesh, primitive),
        tangents: if sampled {
            read_tangents(bytes, buffers, mesh, primitive)
        } else {
            None
        },
    };
    assemble_primitive(&record, read)
}

/// The primitives of one mesh, each as the mesh and its own place.
pub open spec fn mesh_places(mesh: int, count: nat) -> Seq<(usize, usize)> {
    Seq::new(count, |p: int| (mesh as usize, p as usize))
}

/// The primitives of all meshes, mesh by mesh.
pub open spec fn places(meshes: Seq<Seq<PrimitiveRecord>>) -> Seq<(usize, usize)>
    decreases meshes.len(),
{
    if meshes.len() == 0 {
        Seq::empty()
    } else {
        places(meshes.drop_last()) + mesh_places(meshes.len() - 1, meshes.last().len())
    }
}

/// A primitive of a mesh that is there.
pub open spec fn place_stands(meshes: Seq<Seq<PrimitiveRecord>>, place: (usize, usize)) -> bool {
    place.0 < meshes.len() && place.1 < meshes[place.0 as int].len()
}

/// One place comes before another: in an earlier mesh, or earlier in the same.
pub open spec fn place_before(left: (usize, usize), right: (usize, usize)) -> bool {
    left.0 < right.0 || (left.0 == right.0 && left.1 < right.1)
}

/// Every primitive of every mesh is read, and none twice: the meshes in order,
/// and the primitives of each in order.
pub proof fn lemma_primitives_are_read_in_order(meshes: Seq<Seq<PrimitiveRecord>>)
    requires
        meshes.len() <= usize::MAX,
        forall|m: int| 0 <= m < meshes.len() ==> (#[trigger] meshes[m]).len() <= usize::MAX,
    ensures
        forall|i: int|
            0 <= i < places(meshes).len() ==> place_stands(meshes, #[trigger] places(meshes)[i]),
        forall|i: int, j: int|
            0 <= i < j < places(meshes).len() ==> place_before(
                #[trigger] places(meshes)[i],
                #[trigger] places(meshes)[j],
            ),
        forall|place: (usize, usize)|
            place_stands(meshes, place) ==> #[trigger] places(meshes).contains(place),
    decreases meshes.len(),
{
    if meshes.len() > 0 {
        let front = meshes.drop_last();
        let n = meshes.len() - 1;
        let own = mesh_places(n, meshes.last().len());
        assert(meshes.last() == meshes[n]);
        assert forall|m: int| 0 <= m < front.len() implies (#[trigger] front[m]).len()
            <= usize::MAX by {
            assert(front[m] == meshes[m]);
        }
        lemma_primitives_are_read_in_order(front);
        let all = places(meshes);
        let before = places(front);
        assert(all == before + own);
        assert forall|i: int| 0 <= i < all.len() implies place_stands(meshes, #[trigger] all[i]) by {
            if i < before.len() {
                assert(all[i] == before[i]);
                assert(place_stands(front, before[i]));
            } else {
                assert(all[i] == own[i - before.len()]);
            }
        }
        assert forall|i: int, j: int| 0 <= i < j < all.len() implies place_before(
            #[trigger] all[i],
            #[trigger] all[j],
        ) by {
            if i < before.len() {
                assert(all[i] == before[i]);
                assert(place_stands(front, before[i]));
                if j < before.len() {
                    assert(all[j] == before[j]);
                    assert(place_before(before[i], before[j]));
                } else {
                    assert(all[j] == own[j - before.len()]);
                }
            } else {
                assert(all[i] == own[i - before.len()] && all[j] == own[j - before.len()]);
            }
        }
        assert forall|place: (usize, usize)| place_stands(
            meshes,
            place,
        ) implies #[trigger] all.contains(place) by {
            if place.0 < n {
                assert(place_stands(front, place));
                assert(before.contains(place));
                let i = choose|i: int| 0 <= i < before.len() && before[i] == place;
                assert(all[i] == place);
            } else {
                assert(own[place.1 as int] == place);
                assert(all[before.len() + place.1] == place);
            }
        }
    }
}

fn find_places(meshes: &[Vec<PrimitiveRecord>]) -> (found: Vec<(usize, usize)>)
    ensures
        found@ == places(meshes_of(meshes@)),
        forall|i: int|
            0 <= i < found@.len() ==> place_stands(meshes_of(meshes@), #[trigger] found@[i]),
{
    let ghost all = meshes_of(meshes@);
    let mut found: Vec<(usize, usize)> = Vec::new();
    let mut m: usize = 0;
    assert(all.take(0).len() == 0);
    while m < meshes.len()
        invariant
            m <= meshes@.len(),
            all == meshes_of(meshes@),
            found@ == places(all.take(m as int)),
        decreases meshes@.len() - m,
    {
        let ghost before = found@;
        let count: usize = meshes[m].len();
        let mut p: usize = 0;
        assert(found@ =~= before + mesh_places(m as int, 0));
        while p < count
            invariant
                p <= count,
                found@ == before + mesh_places(m as int, p as nat),
            decreases count - p,
        {
            found.push((m, p));
            p += 1;
            assert(found@ =~= before + mesh_places(m as int, p as nat));
        }
        proof {
            let next = all.take(m + 1);
            assert(next.drop_last() =~= all.take(m as int));
            assert(next.last() == meshes@[m as int]@);
        }
        m += 1;
    }
    assert(all.take(m as int) =~= all);
    proof {
        assert forall|m: int| 0 <= m < all.len() implies (#[trigger] all[m]).len()
            <= usize::MAX by {
            assert(all[m].len() == meshes@[m].len());
        }
        lemma_primitives_are_read_in_order(all);
    }
    found
}

/// Why a document's primitives cannot be read.
#[derive(Clone, Copy, Debug, PartialEq, Eq, Structural)]
pub enum PrimitivesDefect {
    /// The bytes are no document.
    Document,
    /// What is wrong with the first primitive that cannot be read, and its
    /// place among all of them.
    Primitive { place: usize, defect: ReadDefect },
}

/// The first primitives of a document, in order.
pub open spec fn primitives_outcome(
    contents: DocumentContents,
    bytes: Seq<u8>,
    buffers: Seq<Seq<u8>>,
    count: int,
    sampled: bool,
) -> Result<Seq<PrimitiveContents>, PrimitivesDefect>
    decreases count,
{
    if count <= 0 {
        Ok(Seq::empty())
    } else {
        match primitives_outcome(contents, bytes, buffers, count - 1, sampled) {
            Err(defect) => Err(defect),
            Ok(front) => match primitive_outcome(
                contents,
                bytes,
                buffers,
                places(contents.meshes)[count - 1],
                sampled,
            ) {
                Ok(primitive) => Ok(front.push(primitive)),
                Err(defect) => Err(
                    PrimitivesDefect::Primitive { place: (count - 1) as usize, defect },
                ),
            },
        }
    }
}

/// The primitives of the document that bytes hold.
pub open spec fn document_primitives(
    bytes: Seq<u8>,
    buffers: Seq<Seq<u8>>,
    sampled: bool,
) -> Result<Seq<PrimitiveContents>, PrimitivesDefect> {
    match document_of(bytes) {
        Some(contents) if parser_admits(bytes) => primitives_outcome(
            contents,
            bytes,
            buffers,
            places(contents.meshes).len() as int,
            sampled,
        ),
        _ => Err(PrimitivesDefect::Document),
    }
}

/// A primitive that cannot be read ends the reading.
proof fn lemma_defects_stay(
    contents: DocumentContents,
    bytes: Seq<u8>,
    buffers: Seq<Seq<u8>>,
    count: int,
    end: int,
    sampled: bool,
)
    requires
        count <= end,
        primitives_outcome(contents, bytes, buffers, count, sampled) is Err,
    ensures
        primitives_outcome(contents, bytes, buffers, end, sampled) == primitives_outcome(
            contents,
            bytes,
            buffers,
            count,
            sampled,
        ),
    decreases end - count,
{
    if count < end {
        lemma_defects_stay(contents, bytes, buffers, count, end - 1, sampled);
    }
}

/// The contents of the primitives of a document.
pub open spec fn primitives_of(primitives: Result<Vec<ReadPrimitive>, PrimitivesDefect>) -> Result<
    Seq<PrimitiveContents>,
    PrimitivesDefect,
> {
    match primitives {
        Ok(primitives) => Ok(primitives@.map_values(|primitive: ReadPrimitive| primitive@)),
        Err(defect) => Err(defect),
    }
}

/// Read the primitives of a document: those of the first mesh in order, then
/// those of the next.  `buffers` holds the bytes of the document's buffers.
pub fn read_primitives(bytes: &[u8], buffers: &[Vec<u8>], sampled: bool) -> (primitives: Result<
    Vec<ReadPrimitive>,
    PrimitivesDefect,
>)
    ensures
        primitives_of(primitives) == document_primitives(bytes@, bytes_in(buffers@), sampled),
{
    let document = match read_document(bytes) {
        Some(document) => document,
        None => return Err(PrimitivesDefect::Document),
    };
    let ghost contents = document@;
    let ghost loaded = bytes_in(buffers@);
    let found = find_places(&document.meshes);
    let mut primitives: Vec<ReadPrimitive> = Vec::new();
    let mut i: usize = 0;
    assert(primitives@.map_values(|primitive: ReadPrimitive| primitive@) =~= Seq::empty());
    while i < found.len()
        invariant
            i <= found@.len(),
            parser_admits(bytes@),
            document_of(bytes@) == Some(document@),
            contents == document@,
            loaded == bytes_in(buffers@),
            found@ == places(contents.meshes),
            forall|j: int|
                0 <= j < found@.len() ==> place_stands(contents.meshes, #[trigger] found@[j]),
            primitives_outcome(contents, bytes@, loaded, i as int, sampled) == Ok::<
                Seq<PrimitiveContents>,
                PrimitivesDefect,
            >(primitives@.map_values(|primitive: ReadPrimitive| primitive@)),
        decreases found@.len() - i,
    {
        let (mesh, primitive) = found[i];
        let ghost front = primitives@;
        proof {
            assert(place_stands(contents.meshes, found@[i as int]));
            assert(contents.meshes[mesh as int] == document.meshes@[mesh as int]@);
        }
        match read_primitive(&document, bytes, buffers, mesh, primitive, sampled) {
            Ok(read) => {
                primitives.push(read);
                assert(primitives@.map_values(|primitive: ReadPrimitive| primitive@)
                    =~= front.map_values(|primitive: ReadPrimitive| primitive@).push(read@));
            },
            Err(defect) => {
                proof {
                    lemma_defects_stay(
                        contents,
                        bytes@,
                        loaded,
                        i + 1,
                        places(contents.meshes).len() as int,
                        sampled,
                    );
                }
                return Err(PrimitivesDefect::Primitive { place: i, defect });
            },
        }
        i += 1;
    }
    Ok(primitives)
}

/// Whether tangents are to be generated for a primitive that has this many
/// normals: the material is sampled, the document gives no tangents, and the
/// primitive is a whole list of triangles with an attribute for each vertex.
pub open spec fn wants_corners(read: PrimitiveContents, normals: int, sampled: bool) -> bool {
    let size = read.positions.len();
    &&& sampled
    &&& read.tangents is None
    &&& read.topology == PrimitiveTopology::TriangleList
    &&& read.indices.len() % 3 == 0
    &&& forall|k: int| 0 <= k < read.indices.len() ==> #[trigger] read.indices[k] < size
    &&& normals == size
    &&& read.uvs matches Some(uvs) && uvs.len() == size
}

/// Whether a primitive is one that was read, with the normals and the tangents
/// that the document leaves out.
pub open spec fn completes(
    primitive: SourcePrimitive,
    read: PrimitiveContents,
    normals: Seq<[u32; 3]>,
    corners: Seq<[u32; 4]>,
) -> bool {
    &&& primitive.topology == read.topology
    &&& primitive.positions@ == read.positions
    &&& primitive.indices@ == read.indices
    &&& primitive.normals@ == match read.normals {
        Some(own) => own,
        None => normals,
    }
    &&& seq_of(primitive.uvs) == read.uvs
    &&& match read.tangents {
        Some(own) => primitive.tangents is Vertices && primitive.tangents->Vertices_0@ == own,
        None => primitive.tangents is Corners && primitive.tangents->Corners_0@ == corners,
    }
    &&& primitive.double_sided == read.double_sided
}

impl ReadPrimitive {
    /// Whether tangents are to be generated for the primitive.
    pub fn needs_corners(&self, normals: usize, sampled: bool) -> (needs: bool)
        ensures
            needs == wants_corners(self@, normals as int, sampled),
    {
        let size: usize = self.positions.len();
        let matched: bool = match &self.uvs {
            Some(uvs) => uvs.len() == size,
            None => false,
        };
        sampled && self.tangents.is_none() && self.topology == PrimitiveTopology::TriangleList
            && self.indices.len() % 3 == 0 && indices_in_range(&self.indices, size) && normals
            == size && matched
    }

    /// The primitive, with normals and tangents in place of those that the
    /// document leaves out.  What the document gives is kept.
    pub fn complete(self, normals: Vec<[u32; 3]>, corners: Vec<[u32; 4]>) -> (primitive:
        SourcePrimitive)
        ensures
            completes(primitive, self@, normals@, corners@),
    {
        SourcePrimitive {
            topology: self.topology,
            positions: self.positions,
            normals: match self.normals {
                Some(own) => own,
                None => normals,
            },
            uvs: self.uvs,
            tangents: match self.tangents {
                Some(own) => SourceTangents::Vertices(own),
                None => SourceTangents::Corners(corners),
            },
            indices: self.indices,
            double_sided: self.double_sided,
        }
    }
}

/// A primitive whose tangents were generated, one for each corner, bakes unless
/// its vertices no longer fit the index type.
pub proof fn lemma_completed_primitives_bake(
    primitive: SourcePrimitive,
    read: PrimitiveContents,
    normals: Seq<[u32; 3]>,
    corners: Seq<[u32; 4]>,
)
    requires
        completes(primitive, read, normals, corners),
        wants_corners(read, primitive.normals@.len() as int, true),
        corners.len() == read.indices.len(),
    ensures
        primitive.defect(true) is None || primitive.defect(true) == Some(PrimitiveDefect::Limit),
{
}

/// Items can be walked exactly where there is one, none begins within the one
/// before, and the end of the last one and of the view can be counted.
pub proof fn lemma_which_items_can_be_walked(
    view: ViewRecord,
    offset: int,
    count: int,
    size: int,
    step: int,
)
    requires
        view.stride matches Some(stride) ==> step == stride,
        view.stride is None ==> step == size,
    ensures
        items_fit(view, offset, count, size) <==> {
            &&& count > 0
            &&& step >= size
            &&& offset + step * (count - 1) + size <= usize::MAX
            &&& view.offset + view.length <= usize::MAX
        },
{
}

/// Positions and normals are read as three floats, tangents as four, texture
/// coordinates as two bytes, shorts or floats, and indices as a byte, a short
/// or a word; nothing else can be read.
pub proof fn lemma_how_large_items_are(component: u32)
    ensures
        item_size(Attribute::Positions, component) == Some(12usize),
        item_size(Attribute::Normals, component) == Some(12usize),
        item_size(Attribute::Tangents, component) == Some(16usize),
        item_size(Attribute::Uvs, 5121) == Some(2usize),
        item_size(Attribute::Uvs, 5123) == Some(4usize),
        item_size(Attribute::Uvs, 5126) == Some(8usize),
        component != 5121 && component != 5123 && component != 5126 ==> item_size(
            Attribute::Uvs,
            component,
        ) is None,
        item_size(Attribute::Indices, component) == unsigned_size(component),
        unsigned_size(5121) == Some(1usize),
        unsigned_size(5123) == Some(2usize),
        unsigned_size(5125) == Some(4usize),
        component != 5121 && component != 5123 && component != 5125 ==> unsigned_size(component)
            is None,
{
}

/// An accessor can be read exactly where its own items can be walked, if it has
/// a view, and have the size that is asked for, or where the indices and the
/// values of the items that differ can be walked and the accessor's count can
/// be counted and held.
pub proof fn lemma_which_accessors_can_be_read(
    views: Seq<ViewRecord>,
    accessor: AccessorRecord,
    size: usize,
)
    ensures
        accessor_fits(views, accessor, size) <==> {
            &&& accessor.view matches Some(view) ==> view < views.len() && items_fit(
                views[view as int],
                accessor.offset as int,
                accessor.count as int,
                size as int,
            )
            &&& accessor.sparse is None ==> accessor.size == size
            &&& accessor.sparse matches Some(sparse) ==> {
                &&& accessor.count <= 0xffff_ffff
                &&& accessor.view is None ==> 16 * accessor.count <= isize::MAX
                &&& unsigned_size(sparse.index_component) is Some
                &&& sparse.indices_view < views.len()
                &&& items_fit(
                    views[sparse.indices_view as int],
                    sparse.indices_offset as int,
                    sparse.count as int,
                    unsigned_size(sparse.index_component)->Some_0 as int,
                )
                &&& sparse.values_view < views.len()
                &&& items_fit(
                    views[sparse.values_view as int],
                    sparse.values_offset as int,
                    sparse.count as int,
                    size as int,
                )
            }
        },
{
}

/// Each attribute of a primitive is read through the primitive's own accessor
/// for it; an attribute that the primitive leaves out keeps nothing from being
/// read.
pub proof fn lemma_attributes_have_their_accessors(
    contents: DocumentContents,
    record: PrimitiveRecord,
    attribute: Attribute,
)
    ensures
        accessor_of(record, Attribute::Positions) == record.positions,
        accessor_of(record, Attribute::Indices) == record.indices,
        accessor_of(record, Attribute::Normals) == record.normals,
        accessor_of(record, Attribute::Uvs) == record.uvs,
        accessor_of(record, Attribute::Tangents) == record.tangents,
        accessor_of(record, attribute) is None ==> attribute_fits(contents, record, attribute),
        accessor_of(record, attribute) matches Some(accessor) ==> (attribute_fits(
            contents,
            record,
            attribute,
        ) <==> {
            let found = contents.accessors[accessor as int];
            &&& accessor < contents.accessors.len()
            &&& item_size(attribute, found.component) is Some
            &&& accessor_fits(
                contents.storage.views,
                found,
                item_size(attribute, found.component)->Some_0,
            )
        }),
{
}

/// The modes of the file format, from zero on, are the topologies in their
/// order, and there are no others.
pub proof fn lemma_modes_are_topologies(mode: u32)
    ensures
        mode_topology(0) == Some(PrimitiveTopology::PointList),
        mode_topology(1) == Some(PrimitiveTopology::LineList),
        mode_topology(2) == Some(PrimitiveTopology::LineLoop),
        mode_topology(3) == Some(PrimitiveTopology::LineStrip),
        mode_topology(4) == Some(PrimitiveTopology::TriangleList),
        mode_topology(5) == Some(PrimitiveTopology::TriangleStrip),
        mode_topology(6) == Some(PrimitiveTopology::TriangleFan),
        mode_topology(mode) is None <==> mode > 6,
{
}

/// A primitive is made of what was read of it.  It needs a topology and
/// positions; without indices it draws its vertices one after another, which a
/// word has to count.
pub proof fn lemma_primitives_are_what_was_read(record: PrimitiveRecord, read: AttributeContents)
    ensures
        ({
            let made = primitive_from(record, read);
            let countable = read.indices is Some || read.positions->Some_0.len() <= 0xffff_ffff;
            &&& made is Ok <==> record.mode <= 6 && read.positions is Some && countable
            &&& made matches Ok(primitive) ==> {
                &&& Some(primitive.topology) == mode_topology(record.mode)
                &&& Some(primitive.positions) == read.positions
                &&& primitive.normals == read.normals
                &&& primitive.uvs == read.uvs
                &&& primitive.tangents == read.tangents
                &&& primitive.double_sided == record.double_sided
                &&& read.indices matches Some(indices) ==> primitive.indices == indices
                &&& read.indices is None ==> {
                    &&& primitive.indices.len() == primitive.positions.len()
                    &&& forall|i: int|
                        0 <= i < primitive.indices.len() ==> #[trigger] primitive.indices[i] == i
                }
            }
            &&& record.mode > 6 ==> made == Err::<PrimitiveContents, ReadDefect>(ReadDefect::Mode)
            &&& record.mode <= 6 && read.positions is None ==> made == Err::<
                PrimitiveContents,
                ReadDefect,
            >(ReadDefect::PositionsMissing)
            &&& record.mode <= 6 && read.positions is Some && !countable ==> made == Err::<
                PrimitiveContents,
                ReadDefect,
            >(ReadDefect::VertexCount)
        }),
{
}

/// A primitive is read exactly where each of its attributes fits, and then each
/// attribute is what the reader finds of it; tangents count and are read for
/// sampled materials only.
pub proof fn lemma_attributes_are_what_is_found(
    contents: DocumentContents,
    bytes: Seq<u8>,
    buffers: Seq<Seq<u8>>,
    place: (usize, usize),
    sampled: bool,
)
    ensures
        ({
            let record = contents.meshes[place.0 as int][place.1 as int];
            let outcome = primitive_outcome(contents, bytes, buffers, place, sampled);
            let fits = attribute_fits(contents, record, Attribute::Positions) && attribute_fits(
                contents,
                record,
                Attribute::Indices,
            ) && attribute_fits(contents, record, Attribute::Normals) && attribute_fits(
                contents,
                record,
                Attribute::Uvs,
            ) && (sampled ==> attribute_fits(contents, record, Attribute::Tangents));
            &&& !fits ==> outcome is Err && outcome->Err_0 is Accessor && !attribute_fits(
                contents,
                record,
                outcome->Err_0->Accessor_0,
            )
            &&& fits ==> !(outcome is Err && outcome->Err_0 is Accessor)
            &&& outcome matches Ok(primitive) ==> {
                &&& Some(primitive.positions) == gltf_positions(bytes, buffers, place.0, place.1)
                &&& primitive.normals == gltf_normals(bytes, buffers, place.0, place.1)
                &&& primitive.uvs == gltf_uvs(bytes, buffers, place.0, place.1)
                &&& sampled ==> primitive.tangents == gltf_tangents(
                    bytes,
                    buffers,
                    place.0,
                    place.1,
                )
                &&& !sampled ==> primitive.tangents is None
                &&& gltf_indices(bytes, buffers, place.0, place.1) matches Some(indices)
                    ==> primitive.indices == indices
                &&& primitive.double_sided == record.double_sided
            }
        }),
{
}

/// Every primitive of a document is read from its own place, or the first that
/// cannot be is told.
pub proof fn lemma_each_primitive_is_read_from_its_place(
    contents: DocumentContents,
    bytes: Seq<u8>,
    buffers: Seq<Seq<u8>>,
    count: int,
    place: int,
    sampled: bool,
)
    requires
        0 <= place < count <= places(contents.meshes).len(),
        places(contents.meshes).len() <= usize::MAX,
    ensures
        ({
            let outcome = primitives_outcome(contents, bytes, buffers, count, sampled);
            let own = primitive_outcome(
                contents,
                bytes,
                buffers,
                places(contents.meshes)[place],
                sampled,
            );
            &&& outcome matches Ok(primitives) ==> primitives.len() == count && own == Ok::<
                PrimitiveContents,
                ReadDefect,
            >(primitives[place])
            &&& outcome matches Err(defect) ==> {
                &&& defect matches PrimitivesDefect::Primitive { place: first, defect: found }
                &&& first < count
                &&& place < first ==> own is Ok
                &&& place == first ==> own == Err::<PrimitiveContents, ReadDefect>(found)
            }
        }),
    decreases count,
{
    if place < count - 1 {
        lemma_each_primitive_is_read_from_its_place(
            contents,
            bytes,
            buffers,
            count - 1,
            place,
            sampled,
        );
    }
    lemma_primitives_in_order(contents, bytes, buffers, count - 1, sampled);
}

proof fn lemma_primitives_in_order(
    contents: DocumentContents,
    bytes: Seq<u8>,
    buffers: Seq<Seq<u8>>,
    count: int,
    sampled: bool,
)
    requires
        0 <= count <= places(contents.meshes).len(),
        places(contents.meshes).len() <= usize::MAX,
    ensures
        primitives_outcome(contents, bytes, buffers, count, sampled) matches Ok(primitives)
            ==> primitives.len() == count,
        primitives_outcome(contents, bytes, buffers, count, sampled) matches Err(defect)
            ==> defect is Primitive && defect->place < count,
    decreases count,
{
    if count > 0 {
        lemma_primitives_in_order(contents, bytes, buffers, count - 1, sampled);
    }
}

/// The primitives of a document are all of them; what is no document, or cannot
/// be given to the parser, has none.
pub proof fn lemma_all_primitives_are_read(bytes: Seq<u8>, buffers: Seq<Seq<u8>>, sampled: bool)
    ensures
        !parser_admits(bytes) || document_of(bytes) is None ==> document_primitives(
            bytes,
            buffers,
            sampled,
        ) == Err::<Seq<PrimitiveContents>, PrimitivesDefect>(PrimitivesDefect::Document),
        parser_admits(bytes) ==> (document_of(bytes) matches Some(contents)
            ==> document_primitives(bytes, buffers, sampled) == primitives_outcome(
            contents,
            bytes,
            buffers,
            places(contents.meshes).len() as int,
            sampled,
        )),
{
}

/// Tangents are generated exactly for a sampled material whose primitive is a
/// whole triangle list without tangents, with a normal and texture coordinates
/// for each vertex and with indices that name its vertices.
pub proof fn lemma_when_tangents_are_generated(
    read: PrimitiveContents,
    normals: int,
    sampled: bool,
)
    ensures
        wants_corners(read, normals, sampled) <==> {
            &&& sampled
            &&& read.tangents is None
            &&& read.topology == PrimitiveTopology::TriangleList
            &&& read.indices.len() % 3 == 0
            &&& normals == read.positions.len()
            &&& read.uvs is Some
            &&& read.uvs->Some_0.len() == read.positions.len()
            &&& forall|k: int|
                0 <= k < read.indices.len() ==> #[trigger] read.indices[k] < read.positions.len()
        },
{
}

/// What a document gives of a primitive is kept as it is, and what it leaves
/// out is what was computed for it.
pub proof fn lemma_completing_keeps_what_was_read(
    primitive: SourcePrimitive,
    read: PrimitiveContents,
    normals: Seq<[u32; 3]>,
    corners: Seq<[u32; 4]>,
)
    requires
        completes(primitive, read, normals, corners),
    ensures
        primitive.topology == read.topology,
        primitive.positions@ == read.positions,
        primitive.indices@ == read.indices,
        primitive.double_sided == read.double_sided,
        read.normals matches Some(own) ==> primitive.normals@ == own,
        read.normals is None ==> primitive.normals@ == normals,
        read.uvs is None ==> primitive.uvs is None,
        read.uvs matches Some(own) ==> primitive.uvs is Some && primitive.uvs->Some_0@ == own,
        read.tangents matches Some(own) ==> primitive.tangents is Vertices
            && primitive.tangents->Vertices_0@ == own,
        read.tangents is None ==> primitive.tangents is Corners && primitive.tangents->Corners_0@
            == corners,
{
}

/// Every primitive of every mesh has exactly one place in the order of reading:
/// the places are those that are there, and each comes after those of earlier
/// meshes and after the earlier ones of its own mesh.
pub proof fn lemma_the_order_of_reading(meshes: Seq<Seq<PrimitiveRecord>>, i: int, j: int)
    requires
        meshes.len() <= usize::MAX,
        forall|m: int| 0 <= m < meshes.len() ==> (#[trigger] meshes[m]).len() <= usize::MAX,
        0 <= i < j < places(meshes).len(),
    ensures
        places(meshes)[i].0 < meshes.len(),
        places(meshes)[i].1 < meshes[places(meshes)[i].0 as int].len(),
        places(meshes)[j].0 < meshes.len(),
        places(meshes)[j].1 < meshes[places(meshes)[j].0 as int].len(),
        places(meshes)[i].0 <= places(meshes)[j].0,
        places(meshes)[i].0 == places(meshes)[j].0 ==> places(meshes)[i].1 < places(meshes)[j].1,
{
    lemma_primitives_are_read_in_order(meshes);
    assert(place_stands(meshes, places(meshes)[i]));
    assert(place_stands(meshes, places(meshes)[j]));
    assert(place_before(places(meshes)[i], places(meshes)[j]));
}

/// No primitive is left out of the reading.
pub proof fn lemma_no_primitive_is_left_out(
    meshes: Seq<Seq<PrimitiveRecord>>,
    mesh: usize,
    primitive: usize,
)
    requires
        meshes.len() <= usize::MAX,
        forall|m: int| 0 <= m < meshes.len() ==> (#[trigger] meshes[m]).len() <= usize::MAX,
        mesh < meshes.len(),
        primitive < meshes[mesh as int].len(),
    ensures
        exists|i: int| 0 <= i < places(meshes).len() && #[trigger] places(meshes)[i] == (mesh, primitive),
{
    lemma_primitives_are_read_in_order(meshes);
    assert(place_stands(meshes, (mesh, primitive)));
    assert(places(meshes).contains((mesh, primitive)));
}

/// An attribute is asked for only of a document that can be parsed, and only
/// where the attribute of the primitive, if it is there, fits.
pub proof fn lemma_what_is_asked_of_the_reader(
    bytes: Seq<u8>,
    mesh: usize,
    primitive: usize,
    attribute: Attribute,
)
    ensures
        readable(bytes, mesh, primitive, attribute) ==> parser_admits(bytes),
        readable(bytes, mesh, primitive, attribute) ==> (document_of(bytes) matches Some(contents)
            ==> mesh < contents.meshes.len() ==> primitive < contents.meshes[mesh as int].len()
            ==> attribute_fits(
            contents,
            contents.meshes[mesh as int][primitive as int],
            attribute,
        )),
        parser_admits(bytes) && document_of(bytes) is None ==> readable(
            bytes,
            mesh,
            primitive,
            attribute,
        ),
{
}

/// What was read is seen as it is.
pub proof fn lemma_reads_are_seen_as_they_are(
    read: AttributesRead,
    primitive: ReadPrimitive,
    primitives: Vec<ReadPrimitive>,
    i: int,
)
    ensures
        read@.positions == seq_of(read.positions),
        read@.indices == seq_of(read.indices),
        read@.normals == seq_of(read.normals),
        read@.uvs == seq_of(read.uvs),
        read@.tangents == seq_of(read.tangents),
        primitive@.topology == primitive.topology,
        primitive@.positions == primitive.positions@,
        primitive@.indices == primitive.indices@,
        primitive@.normals == seq_of(primitive.normals),
        primitive@.uvs == seq_of(primitive.uvs),
        primitive@.tangents == seq_of(primitive.tangents),
        primitive@.double_sided == primitive.double_sided,
        outcome_of(Ok(primitive)) == Ok::<PrimitiveContents, ReadDefect>(primitive@),
        primitives_of(Ok(primitives)) is Ok,
        primitives_of(Ok(primitives))->Ok_0.len() == primitives@.len(),
        0 <= i < primitives@.len() ==> primitives_of(Ok(primitives))->Ok_0[i] == primitives@[i]@,
{
}

/// Where several attributes do not fit, the first in the order of reading is
/// told.
pub proof fn lemma_the_first_misfit_is_told(
    contents: DocumentContents,
    record: PrimitiveRecord,
    sampled: bool,
)
    ensures
        ({
            let a = attribute_fits(contents, record, Attribute::Positions);
            let b = attribute_fits(contents, record, Attribute::Indices);
            let c = attribute_fits(contents, record, Attribute::Normals);
            let d = attribute_fits(contents, record, Attribute::Uvs);
            let e = attribute_fits(contents, record, Attribute::Tangents);
            let misfit = first_misfit(contents, record, sampled);
            &&& misfit == Some(Attribute::Positions) <==> !a
            &&& misfit == Some(Attribute::Indices) <==> a && !b
            &&& misfit == Some(Attribute::Normals) <==> a && b && !c
            &&& misfit == Some(Attribute::Uvs) <==> a && b && c && !d
            &&& misfit == Some(Attribute::Tangents) <==> a && b && c && d && sampled && !e
            &&& misfit is None <==> a && b && c && d && (sampled ==> e)
        }),
{
}

} // verus!
