//! Reading a glTF document: what it says of its buffers, images, textures,
//! materials, accessors and primitives, as plain values.
//!
//! Numbers with a fraction are bit patterns, enumerations are numbers, and what
//! refers to something else is an index.
//! The `gltf` crate parses the document; everything that is made of it is
//! decided here.  Each part is parsed from the bytes anew, so that what is
//! found rests on them alone.
#[allow(unused_imports)]
use crate::bits::{bytes_of, read_word, word_at};
use crate::material::MaterialRole;
use crate::model::{material_defect, MaterialDefect, SourceMaterial, SourceTexture};
#[allow(unused_imports)]
use crate::model::{retention_defect, MaterialUse, TextureUse};
use crate::source::{load_buffer, starts_as_data_uri, BufferLoad, BufferSource, ImageSource};
#[allow(unused_imports)]
use crate::source::{
    buffer_contents, is_data_uri, text_of, BufferContents, BufferPlace, ImagePlace,
};
use vstd::prelude::*;
use vstd::slice::slice_to_vec;

verus! {

/// The code of a sampler that repeats its image.
pub const REPEAT: u32 = 10497;

/// The place of the opaque mode among the alpha modes, from one.
pub const OPAQUE: u8 = 1;

/// The codes of the component types that an attribute can have.
pub const UNSIGNED_BYTE: u32 = 5121;

pub const UNSIGNED_SHORT: u32 = 5123;

pub const UNSIGNED_INT: u32 = 5125;

pub const FLOAT: u32 = 5126;

/// A range of a buffer.  Where there is a stride, it is the distance between
/// the starts of two items; without one the items lie close together.
#[derive(Clone, Copy, Debug, PartialEq, Eq, Structural)]
pub struct ViewRecord {
    pub buffer: usize,
    pub offset: usize,
    pub length: usize,
    pub stride: Option<usize>,
}

/// Where an encoded image is: in a buffer view, or behind a URI.
pub struct ImageRecord {
    pub view: Option<usize>,
    pub mime_type: Option<String>,
    pub uri: Option<String>,
}

/// [`ImageRecord`], over its texts.
pub struct ImageText {
    pub view: Option<usize>,
    pub mime_type: Option<Seq<char>>,
    pub uri: Option<Seq<char>>,
}

/// A texture: its image, and how its sampler wraps along the two coordinates.
#[derive(Clone, Copy, Debug, PartialEq, Eq, Structural)]
pub struct TextureRecord {
    pub image: usize,
    pub wrap_s: u32,
    pub wrap_t: u32,
}

/// The textures of a material: the texture, and the set of coordinates.
#[derive(Clone, Copy, Debug)]
pub struct MaterialTextures {
    pub base_color: Option<(usize, u32)>,
    pub metallic_roughness: Option<(usize, u32)>,
    pub emissive: Option<(usize, u32)>,
    pub occlusion: Option<(usize, u32)>,
    pub normal: Option<(usize, u32)>,
}

/// The numbers of a material.
#[derive(Clone, Copy, Debug)]
pub struct MaterialNumbers {
    pub alpha_mode: u8,
    pub base_color_factor: [u32; 4],
    pub emissive_factor: [u32; 3],
    pub normal_scale: Option<u32>,
    pub metallic_factor: u32,
    pub roughness_factor: u32,
    pub occlusion_strength: Option<u32>,
    pub alpha_cutoff: Option<u32>,
    pub double_sided: bool,
}

/// The items of an accessor that differ from the others.
#[derive(Clone, Copy, Debug)]
pub struct SparseRecord {
    pub count: usize,
    pub index_component: u32,
    pub indices_view: usize,
    pub indices_offset: usize,
    pub values_view: usize,
    pub values_offset: usize,
}

/// A typed sequence of items in a buffer view.  `size` is that of one item.
#[derive(Clone, Copy, Debug)]
pub struct AccessorRecord {
    pub component: u32,
    pub size: usize,
    pub count: usize,
    pub offset: usize,
    pub view: Option<usize>,
    pub sparse: Option<SparseRecord>,
}

/// A primitive: its mode, the accessors of its attributes, and whether its
/// material is visible from behind.
#[derive(Clone, Copy, Debug)]
pub struct PrimitiveRecord {
    pub mode: u32,
    pub positions: Option<usize>,
    pub normals: Option<usize>,
    pub uvs: Option<usize>,
    pub tangents: Option<usize>,
    pub indices: Option<usize>,
    pub double_sided: bool,
}

/// What a document stores and refers to.
pub struct Storage {
    /// The binary part of the document's own file.
    pub blob: Option<Vec<u8>>,
    /// The URI of each buffer that has one.
    pub buffers: Vec<Option<String>>,
    pub views: Vec<ViewRecord>,
    pub images: Vec<ImageRecord>,
}

/// [`Storage`], over the contents of what it holds.
pub struct StorageContents {
    pub blob: Option<Seq<u8>>,
    pub buffers: Seq<Option<Seq<char>>>,
    pub views: Seq<ViewRecord>,
    pub images: Seq<ImageText>,
}

/// The text of an optional string.
pub open spec fn string_of(value: Option<String>) -> Option<Seq<char>> {
    match value {
        Some(text) => Some(text@),
        None => None,
    }
}

/// The contents of an optional vector.
pub open spec fn seq_of<T>(value: Option<Vec<T>>) -> Option<Seq<T>> {
    match value {
        Some(items) => Some(items@),
        None => None,
    }
}

impl View for ImageRecord {
    type V = ImageText;

    open spec fn view(&self) -> ImageText {
        ImageText {
            view: self.view,
            mime_type: string_of(self.mime_type),
            uri: string_of(self.uri),
        }
    }
}

impl View for Storage {
    type V = StorageContents;

    open spec fn view(&self) -> StorageContents {
        StorageContents {
            blob: bytes_of(self.blob),
            buffers: self.buffers@.map_values(|uri: Option<String>| string_of(uri)),
            views: self.views@,
            images: self.images@.map_values(|image: ImageRecord| image@),
        }
    }
}

/// A parsed document.
pub struct Document {
    pub storage: Storage,
    pub textures: Vec<TextureRecord>,
    /// The textures of each material.
    pub material_textures: Vec<MaterialTextures>,
    /// The numbers of each material.
    pub material_numbers: Vec<MaterialNumbers>,
    pub accessors: Vec<AccessorRecord>,
    /// The primitives of each mesh.
    pub meshes: Vec<Vec<PrimitiveRecord>>,
}

/// [`Document`], over the contents of what it holds.
pub struct DocumentContents {
    pub storage: StorageContents,
    pub textures: Seq<TextureRecord>,
    pub material_textures: Seq<MaterialTextures>,
    pub material_numbers: Seq<MaterialNumbers>,
    pub accessors: Seq<AccessorRecord>,
    pub meshes: Seq<Seq<PrimitiveRecord>>,
}

/// The contents of a list of lists of primitives.
pub open spec fn meshes_of(meshes: Seq<Vec<PrimitiveRecord>>) -> Seq<Seq<PrimitiveRecord>> {
    meshes.map_values(|primitives: Vec<PrimitiveRecord>| primitives@)
}

impl View for Document {
    type V = DocumentContents;

    open spec fn view(&self) -> DocumentContents {
        DocumentContents {
            storage: self.storage@,
            textures: self.textures@,
            material_textures: self.material_textures@,
            material_numbers: self.material_numbers@,
            accessors: self.accessors@,
            meshes: meshes_of(self.meshes@),
        }
    }
}

/// The contents of an optional document.
pub open spec fn contents_of(document: Option<Document>) -> Option<DocumentContents> {
    match document {
        Some(document) => Some(document@),
        None => None,
    }
}

/// Whether bytes start with the mark of the binary container.
pub open spec fn is_binary(bytes: Seq<u8>) -> bool {
    &&& bytes.len() >= 4
    &&& bytes[0] == 0x67
    &&& bytes[1] == 0x6c
    &&& bytes[2] == 0x54
    &&& bytes[3] == 0x46
}

/// Whether the header of a binary container counts its own length, which is
/// the least that a container has.  Bytes without a whole header, and text,
/// are left to the parser.
pub open spec fn header_stands(bytes: Seq<u8>) -> bool {
    is_binary(bytes) && bytes.len() >= 12 ==> word_at(bytes, 8) >= 12
}

fn check_header(bytes: &[u8]) -> (stands: bool)
    ensures
        stands == header_stands(bytes@),
{
    if bytes.len() < 12 {
        return true;
    }
    let marked: bool = bytes[0] == 0x67 && bytes[1] == 0x6c && bytes[2] == 0x54 && bytes[3] == 0x46;
    !marked || read_word(bytes, 8) >= 12
}

/// The accessors that the primitives of an unchecked document take their
/// positions from.
pub struct Declared {
    /// How many accessors there are.
    pub accessors: usize,
    /// The accessor of each primitive of each mesh.
    pub positions: Vec<Vec<Option<usize>>>,
}

/// [`Declared`], over the contents of what it holds.
pub struct DeclaredContents {
    pub accessors: usize,
    pub positions: Seq<Seq<Option<usize>>>,
}

impl View for Declared {
    type V = DeclaredContents;

    open spec fn view(&self) -> DeclaredContents {
        DeclaredContents {
            accessors: self.accessors,
            positions: self.positions@.map_values(|mesh: Vec<Option<usize>>| mesh@),
        }
    }
}

/// The contents of what an unchecked document declares, where it was parsed.
pub open spec fn declared_of(declared: Option<Declared>) -> Option<DeclaredContents> {
    match declared {
        Some(declared) => Some(declared@),
        None => None,
    }
}

/// What an unchecked document declares, where the bytes are one.
pub uninterp spec fn gltf_declared(bytes: Seq<u8>) -> Option<DeclaredContents>;

/// The accessors of the positions, by
/// `gltf::Gltf::from_slice_without_validation` and the fields of
/// `gltf::Document::as_json`, in the order of the document.  There is nothing
/// where the parser answers with an error.  The parser reads the bytes and
/// nothing else, so the contract names what it finds and claims no more.  A
/// binary container whose header gives a length below the header's own is left
/// out: the parser subtracts the one from the other.
#[verifier::external_body]
fn parse_declared(bytes: &[u8]) -> (declared: Option<Declared>)
    requires
        header_stands(bytes@),
    ensures
        declared_of(declared) == gltf_declared(bytes@),
{
    let gltf = gltf::Gltf::from_slice_without_validation(bytes).ok()?;
    let root = gltf.as_json();
    let key = gltf::json::validation::Checked::Valid(gltf::Semantic::Positions);
    Some(Declared {
        accessors: root.accessors.len(),
        positions: root.meshes.iter().map(|m| m.primitives.iter().map(|p| {
            p.attributes.get(&key).map(|a| a.value())
        }).collect()).collect(),
    })
}

/// Whether the primitives of a mesh take their positions from accessors that
/// are there.
pub open spec fn mesh_stands(positions: Seq<Option<usize>>, accessors: usize) -> bool {
    forall|p: int|
        0 <= p < positions.len() ==> ((#[trigger] positions[p]) matches Some(accessor) ==> accessor
            < accessors)
}

/// Whether all primitives take their positions from accessors that are there.
pub open spec fn positions_stand(declared: DeclaredContents) -> bool {
    forall|m: int|
        0 <= m < declared.positions.len() ==> mesh_stands(
            #[trigger] declared.positions[m],
            declared.accessors,
        )
}

/// Whether bytes can be given to the checking parser, which looks up the
/// accessor of each primitive's positions unseen.
pub open spec fn parser_admits(bytes: Seq<u8>) -> bool {
    &&& header_stands(bytes)
    &&& gltf_declared(bytes) matches Some(declared) ==> positions_stand(declared)
}

fn check_mesh(positions: &[Option<usize>], accessors: usize) -> (stands: bool)
    ensures
        stands == mesh_stands(positions@, accessors),
{
    let mut p: usize = 0;
    while p < positions.len()
        invariant
            p <= positions@.len(),
            forall|q: int|
                0 <= q < p ==> ((#[trigger] positions@[q]) matches Some(accessor) ==> accessor
                    < accessors),
        decreases positions@.len() - p,
    {
        if let Some(accessor) = positions[p] {
            if accessor >= accessors {
                assert(positions@[p as int] == Some(accessor));
                return false;
            }
        }
        p += 1;
    }
    true
}

/// Whether all primitives take their positions from accessors that are there.
pub fn check_positions(declared: &Declared) -> (stands: bool)
    ensures
        stands == positions_stand(declared@),
{
    let mut m: usize = 0;
    while m < declared.positions.len()
        invariant
            m <= declared.positions@.len(),
            forall|n: int|
                0 <= n < m ==> mesh_stands(
                    #[trigger] declared@.positions[n],
                    declared.accessors,
                ),
        decreases declared.positions@.len() - m,
    {
        if !check_mesh(&declared.positions[m], declared.accessors) {
            assert(!mesh_stands(declared@.positions[m as int], declared.accessors));
            return false;
        }
        m += 1;
    }
    true
}

fn check_bytes(bytes: &[u8]) -> (admitted: bool)
    ensures
        admitted == parser_admits(bytes@),
{
    if !check_header(bytes) {
        return false;
    }
    match parse_declared(bytes) {
        Some(declared) => check_positions(&declared),
        None => true,
    }
}

/// What a document stores and refers to, where the bytes are a document.
pub uninterp spec fn gltf_storage(bytes: Seq<u8>) -> Option<StorageContents>;

/// The contents of what a document stores, where it was parsed.
pub open spec fn storage_of(storage: Option<Storage>) -> Option<StorageContents> {
    match storage {
        Some(storage) => Some(storage@),
        None => None,
    }
}

/// What a document stores and refers to, by `gltf::Gltf::from_slice` and the
/// fields of `gltf::Document::as_json`, in the order of the document.  There is
/// nothing where `from_slice` answers with an error.  The parser reads the bytes
/// and nothing else, so the contract names what it finds and claims no more.
/// Bytes on which the parser stops the program are left out: those that
/// [`parse_declared`] leaves out, and a primitive whose positions name an
/// accessor that is not there.  Sizes are those of the machine's words: the
/// parser refuses a document whose sizes do not fit them.
#[verifier::external_body]
fn parse_storage(bytes: &[u8]) -> (storage: Option<Storage>)
    requires
        parser_admits(bytes@),
    ensures
        storage_of(storage) == gltf_storage(bytes@),
{
    let gltf = gltf::Gltf::from_slice(bytes).ok()?;
    let root = gltf.as_json();
    Some(Storage {
        buffers: root.buffers.iter().map(|b| b.uri.clone()).collect(),
        views: gltf.views().map(|v| ViewRecord {
            buffer: v.buffer().index(), offset: v.offset(), length: v.length(), stride: v.stride(),
        }).collect(),
        images: root.images.iter().map(|i| ImageRecord {
            view: i.buffer_view.map(|v| v.value()),
            mime_type: i.mime_type.as_ref().map(|m| m.0.clone()),
            uri: i.uri.clone(),
        }).collect(),
        blob: gltf.blob,
    })
}

/// The textures of a document.
pub uninterp spec fn gltf_textures(bytes: Seq<u8>) -> Option<Seq<TextureRecord>>;

/// The textures of a document, by `gltf::Gltf::from_slice` and
/// `gltf::Document::textures`, in the order of the document.  A texture without
/// a sampler has the crate's default one.  The contract names what is found,
/// under the condition of [`parse_storage`].
#[verifier::external_body]
fn parse_textures(bytes: &[u8]) -> (textures: Option<Vec<TextureRecord>>)
    requires
        parser_admits(bytes@),
    ensures
        seq_of(textures) == gltf_textures(bytes@),
{
    let gltf = gltf::Gltf::from_slice(bytes).ok()?;
    Some(gltf.textures().map(|t| TextureRecord {
        image: t.source().index(),
        wrap_s: t.sampler().wrap_s().as_gl_enum(),
        wrap_t: t.sampler().wrap_t().as_gl_enum(),
    }).collect())
}

/// The textures of each material of a document.
pub uninterp spec fn gltf_material_textures(bytes: Seq<u8>) -> Option<Seq<MaterialTextures>>;

/// The textures of each material, by `gltf::Gltf::from_slice` and the texture
/// methods of `gltf::Material`, in the order of the document.  The contract
/// names what is found, under the condition of [`parse_storage`].
#[verifier::external_body]
fn parse_material_textures(bytes: &[u8]) -> (materials: Option<Vec<MaterialTextures>>)
    requires
        parser_admits(bytes@),
    ensures
        seq_of(materials) == gltf_material_textures(bytes@),
{
    let gltf = gltf::Gltf::from_slice(bytes).ok()?;
    let info = |t: gltf::texture::Info| (t.texture().index(), t.tex_coord());
    Some(gltf.materials().map(|m| MaterialTextures {
        base_color: m.pbr_metallic_roughness().base_color_texture().map(info),
        metallic_roughness: m.pbr_metallic_roughness().metallic_roughness_texture().map(info),
        emissive: m.emissive_texture().map(info),
        occlusion: m.occlusion_texture().map(|t| (t.texture().index(), t.tex_coord())),
        normal: m.normal_texture().map(|t| (t.texture().index(), t.tex_coord())),
    }).collect())
}

/// The numbers of each material of a document.
pub uninterp spec fn gltf_material_numbers(bytes: Seq<u8>) -> Option<Seq<MaterialNumbers>>;

/// The numbers of each material, by `gltf::Gltf::from_slice` and the methods of
/// `gltf::Material`, in the order of the document.  The contract names what is
/// found, under the condition of [`parse_storage`].
#[verifier::external_body]
fn parse_material_numbers(bytes: &[u8]) -> (materials: Option<Vec<MaterialNumbers>>)
    requires
        parser_admits(bytes@),
    ensures
        seq_of(materials) == gltf_material_numbers(bytes@),
{
    gltf::Gltf::from_slice(bytes).ok().map(|g| g.materials().map(|m| {
        let p = m.pbr_metallic_roughness();
        MaterialNumbers {
            alpha_mode: m.alpha_mode() as u8,
            base_color_factor: p.base_color_factor().map(|v| v.to_bits()),
            emissive_factor: m.emissive_factor().map(|v| v.to_bits()),
            normal_scale: m.normal_texture().map(|t| t.scale().to_bits()),
            metallic_factor: p.metallic_factor().to_bits(),
            roughness_factor: p.roughness_factor().to_bits(),
            occlusion_strength: m.occlusion_texture().map(|t| t.strength().to_bits()),
            alpha_cutoff: m.alpha_cutoff().map(|v| v.to_bits()),
            double_sided: m.double_sided(),
        }
    }).collect())
}

/// The accessors of a document.
pub uninterp spec fn gltf_accessors(bytes: Seq<u8>) -> Option<Seq<AccessorRecord>>;

/// The accessors of a document, by `gltf::Gltf::from_slice` and
/// `gltf::Document::accessors`, in the order of the document.  The contract
/// names what is found, under the condition of [`parse_storage`].
#[verifier::external_body]
fn parse_accessors(bytes: &[u8]) -> (accessors: Option<Vec<AccessorRecord>>)
    requires
        parser_admits(bytes@),
    ensures
        seq_of(accessors) == gltf_accessors(bytes@),
{
    gltf::Gltf::from_slice(bytes).ok().map(|g| g.accessors().map(|a| AccessorRecord {
        component: a.data_type().as_gl_enum(),
        size: a.size(), count: a.count(), offset: a.offset(),
        view: a.view().map(|v| v.index()),
        sparse: a.sparse().map(|s| SparseRecord {
            count: s.count(),
            index_component: s.indices().index_type() as u32,
            indices_view: s.indices().view().index(),
            indices_offset: s.indices().offset(),
            values_view: s.values().view().index(),
            values_offset: s.values().offset(),
        }),
    }).collect())
}

/// The primitives of each mesh of a document.
pub uninterp spec fn gltf_meshes(bytes: Seq<u8>) -> Option<Seq<Seq<PrimitiveRecord>>>;

/// The primitives of the meshes that were parsed.
pub open spec fn parsed_meshes(meshes: Option<Vec<Vec<PrimitiveRecord>>>) -> Option<
    Seq<Seq<PrimitiveRecord>>,
> {
    match meshes {
        Some(meshes) => Some(meshes_of(meshes@)),
        None => None,
    }
}

/// The primitives of each mesh, by `gltf::Gltf::from_slice`,
/// `gltf::Document::meshes` and `gltf::Mesh::primitives`, in the order of the
/// document.  A primitive without a material has the crate's default one.  The
/// contract names what is found, under the condition of [`parse_storage`].
#[verifier::external_body]
fn parse_meshes(bytes: &[u8]) -> (meshes: Option<Vec<Vec<PrimitiveRecord>>>)
    requires
        parser_admits(bytes@),
    ensures
        parsed_meshes(meshes) == gltf_meshes(bytes@),
{
    let gltf = gltf::Gltf::from_slice(bytes).ok()?;
    let index = |a: gltf::Accessor| a.index();
    Some(gltf.meshes().map(|m| m.primitives().map(|p| PrimitiveRecord {
        mode: p.mode().as_gl_enum(),
        positions: p.get(&gltf::Semantic::Positions).map(index),
        normals: p.get(&gltf::Semantic::Normals).map(index),
        uvs: p.get(&gltf::Semantic::TexCoords(0)).map(index),
        tangents: p.get(&gltf::Semantic::Tangents).map(index),
        indices: p.indices().map(index),
        double_sided: p.material().double_sided(),
    }).collect()).collect())
}

/// A document, put together from its parts.
pub open spec fn document_of(bytes: Seq<u8>) -> Option<DocumentContents> {
    match (
        gltf_storage(bytes),
        gltf_textures(bytes),
        gltf_material_textures(bytes),
        gltf_material_numbers(bytes),
        gltf_accessors(bytes),
        gltf_meshes(bytes),
    ) {
        (
            Some(storage),
            Some(textures),
            Some(material_textures),
            Some(material_numbers),
            Some(accessors),
            Some(meshes),
        ) => Some(
            DocumentContents {
                storage,
                textures,
                material_textures,
                material_numbers,
                accessors,
                meshes,
            },
        ),
        _ => None,
    }
}

/// Parse a document.  Bytes that the parser does not admit are no document.
pub fn read_document(bytes: &[u8]) -> (document: Option<Document>)
    ensures
        contents_of(document) == if parser_admits(bytes@) {
            document_of(bytes@)
        } else {
            None
        },
{
    if !check_bytes(bytes) {
        return None;
    }
    match (
        parse_storage(bytes),
        parse_textures(bytes),
        parse_material_textures(bytes),
        parse_material_numbers(bytes),
        parse_accessors(bytes),
        parse_meshes(bytes),
    ) {
        (
            Some(storage),
            Some(textures),
            Some(material_textures),
            Some(material_numbers),
            Some(accessors),
            Some(meshes),
        ) => Some(
            Document {
                storage,
                textures,
                material_textures,
                material_numbers,
                accessors,
                meshes,
            },
        ),
        _ => None,
    }
}

/// Where a buffer of a document is: behind its URI, or in the binary part.
pub open spec fn buffer_place(uri: Option<Seq<char>>) -> BufferPlace {
    match uri {
        Some(uri) => BufferPlace::Uri(uri),
        None => BufferPlace::Bin,
    }
}

/// Load a buffer of a document, as far as that takes no file.
pub fn document_buffer(document: &Document, buffer: usize) -> (load: BufferLoad)
    requires
        buffer < document.storage.buffers@.len(),
    ensures
        load@ == buffer_contents(
            buffer_place(document@.storage.buffers[buffer as int]),
            document@.storage.blob,
        ),
{
    match &document.storage.buffers[buffer] {
        Some(uri) => load_buffer(&BufferSource::Uri(uri.as_str()), &document.storage.blob),
        None => load_buffer(&BufferSource::Bin, &document.storage.blob),
    }
}

/// The file that a buffer is in, where it is in one.
pub open spec fn buffer_file_of(uri: Option<Seq<char>>) -> Option<Seq<char>> {
    match uri {
        Some(uri) => if is_data_uri(uri) {
            None
        } else {
            Some(uri)
        },
        None => None,
    }
}

/// The file that a buffer of a document is in, where it is in one.
pub fn buffer_file(document: &Document, buffer: usize) -> (file: Option<&str>)
    requires
        buffer < document.storage.buffers@.len(),
    ensures
        text_of(file) == buffer_file_of(document@.storage.buffers[buffer as int]),
{
    match &document.storage.buffers[buffer] {
        Some(uri) => {
            if starts_as_data_uri(uri.as_str()) {
                None
            } else {
                Some(uri.as_str())
            }
        },
        None => None,
    }
}

/// Why a buffer has no bytes.
#[derive(Clone, Copy, Debug, PartialEq, Eq, Structural)]
pub enum BufferFault {
    /// The file could not be read.
    FileMissing,
    /// The document's own file has no binary part.
    BlobMissing,
    /// The data URI has no payload, or one that is not base64.
    DataMalformed,
}

/// The first buffer that has no bytes.
#[derive(Clone, Copy, Debug, PartialEq, Eq, Structural)]
pub struct BufferDefect {
    pub buffer: usize,
    pub fault: BufferFault,
}

/// A buffer, given the bytes of the file that it is in, if any were read.
pub open spec fn buffer_with_file(
    contents: BufferContents,
    file: Option<Seq<u8>>,
) -> Result<Seq<u8>, BufferFault> {
    match contents {
        BufferContents::Loaded(bytes) => Ok(bytes),
        BufferContents::File => match file {
            Some(bytes) => Ok(bytes),
            None => Err(BufferFault::FileMissing),
        },
        BufferContents::BlobMissing => Err(BufferFault::BlobMissing),
        BufferContents::DataMalformed => Err(BufferFault::DataMalformed),
    }
}

/// The contents of the files that were read, one for each buffer.
pub open spec fn files_of(files: Seq<Option<Vec<u8>>>) -> Seq<Option<Seq<u8>>> {
    files.map_values(|file: Option<Vec<u8>>| bytes_of(file))
}

/// The first buffers of a document, in order.
pub open spec fn buffers_outcome(
    storage: StorageContents,
    files: Seq<Option<Seq<u8>>>,
    count: int,
) -> Result<Seq<Seq<u8>>, BufferDefect>
    decreases count,
{
    if count <= 0 {
        Ok(Seq::empty())
    } else {
        match buffers_outcome(storage, files, count - 1) {
            Err(defect) => Err(defect),
            Ok(front) => match buffer_with_file(
                buffer_contents(buffer_place(storage.buffers[count - 1]), storage.blob),
                files[count - 1],
            ) {
                Ok(bytes) => Ok(front.push(bytes)),
                Err(fault) => Err(BufferDefect { buffer: (count - 1) as usize, fault }),
            },
        }
    }
}

/// A buffer without bytes ends the loading.
proof fn lemma_faults_stay(
    storage: StorageContents,
    files: Seq<Option<Seq<u8>>>,
    count: int,
    end: int,
)
    requires
        count <= end,
        buffers_outcome(storage, files, count) is Err,
    ensures
        buffers_outcome(storage, files, end) == buffers_outcome(storage, files, count),
    decreases end - count,
{
    if count < end {
        lemma_faults_stay(storage, files, count, end - 1);
    }
}

/// The contents of a list of buffers.
pub open spec fn bytes_in(buffers: Seq<Vec<u8>>) -> Seq<Seq<u8>> {
    buffers.map_values(|buffer: Vec<u8>| buffer@)
}

/// The contents of the buffers of a document.
pub open spec fn buffers_of(buffers: Result<Vec<Vec<u8>>, BufferDefect>) -> Result<
    Seq<Seq<u8>>,
    BufferDefect,
> {
    match buffers {
        Ok(buffers) => Ok(bytes_in(buffers@)),
        Err(defect) => Err(defect),
    }
}

/// Load the buffers of a document.  `files` holds the bytes of the file of each
/// buffer that is in one, where it could be read.
pub fn load_buffers(document: &Document, files: &[Option<Vec<u8>>]) -> (buffers: Result<
    Vec<Vec<u8>>,
    BufferDefect,
>)
    requires
        files@.len() == document.storage.buffers@.len(),
    ensures
        buffers_of(buffers) == buffers_outcome(
            document@.storage,
            files_of(files@),
            document.storage.buffers@.len() as int,
        ),
{
    let ghost storage = document@.storage;
    let ghost read = files_of(files@);
    let mut buffers: Vec<Vec<u8>> = Vec::new();
    let mut i: usize = 0;
    assert(bytes_in(buffers@) =~= Seq::empty());
    while i < files.len()
        invariant
            i <= files@.len(),
            files@.len() == document.storage.buffers@.len(),
            storage == document@.storage,
            read == files_of(files@),
            buffers_outcome(storage, read, i as int) == Ok::<Seq<Seq<u8>>, BufferDefect>(
                bytes_in(buffers@),
            ),
        decreases files@.len() - i,
    {
        let ghost front = buffers@;
        let load = document_buffer(document, i);
        assert(read[i as int] == bytes_of(files@[i as int]));
        let loaded = match load {
            BufferLoad::Loaded(bytes) => Ok(bytes),
            BufferLoad::File => match &files[i] {
                Some(bytes) => Ok(slice_to_vec(bytes.as_slice())),
                None => Err(BufferFault::FileMissing),
            },
            BufferLoad::BlobMissing => Err(BufferFault::BlobMissing),
            BufferLoad::DataMalformed => Err(BufferFault::DataMalformed),
        };
        match loaded {
            Ok(bytes) => {
                buffers.push(bytes);
                assert(bytes_in(buffers@) =~= bytes_in(front).push(bytes@));
            },
            Err(fault) => {
                proof {
                    lemma_faults_stay(storage, read, i + 1, files@.len() as int);
                }
                return Err(BufferDefect { buffer: i, fault });
            },
        }
        i += 1;
    }
    Ok(buffers)
}

/// A buffer asks for a file exactly where nothing else can load it.
pub proof fn lemma_files_are_asked_for(uri: Option<Seq<char>>, blob: Option<Seq<u8>>)
    ensures
        buffer_contents(buffer_place(uri), blob) is File <==> buffer_file_of(uri) is Some,
{
}

/// Why a document's material cannot be read: the image of the texture has no
/// media type, or no URI, or is not there.
#[derive(Clone, Copy, Debug, PartialEq, Eq, Structural)]
pub struct MissingImage {
    pub role: MaterialRole,
}

/// Where an image of a document is.  One in a buffer view says its media type;
/// any other has a URI.
pub open spec fn image_place(storage: StorageContents, image: int) -> Option<ImagePlace> {
    if image >= storage.images.len() {
        None
    } else {
        let record = storage.images[image];
        match (record.view, record.mime_type, record.uri) {
            (Some(view), Some(mime_type), _) => if view < storage.views.len() {
                let range = storage.views[view as int];
                Some(
                    ImagePlace::View {
                        buffer: range.buffer,
                        offset: range.offset,
                        length: range.length,
                        mime_type,
                    },
                )
            } else {
                None
            },
            (None, declared, Some(uri)) => Some(ImagePlace::Uri { uri, declared }),
            _ => None,
        }
    }
}

/// How a material uses a texture.
pub open spec fn texture_use(
    contents: DocumentContents,
    reference: Option<(usize, u32)>,
    role: MaterialRole,
) -> Result<Option<TextureUse>, MissingImage> {
    match reference {
        None => Ok(None),
        Some((texture, coordinates)) => if texture >= contents.textures.len() {
            Err(MissingImage { role })
        } else {
            let record = contents.textures[texture as int];
            match image_place(contents.storage, record.image as int) {
                None => Err(MissingImage { role }),
                Some(image) => Ok(
                    Some(
                        TextureUse {
                            coordinates,
                            repeats_s: record.wrap_s == REPEAT,
                            repeats_t: record.wrap_t == REPEAT,
                            image,
                        },
                    ),
                ),
            }
        },
    }
}

/// The texts of an optional image source.
pub open spec fn source_place(source: Option<ImageSource>) -> Option<ImagePlace> {
    match source {
        Some(source) => Some(source@),
        None => None,
    }
}

fn find_image(storage: &Storage, image: usize) -> (source: Option<ImageSource>)
    ensures
        source_place(source) == image_place(storage@, image as int),
{
    if image >= storage.images.len() {
        return None;
    }
    let record = &storage.images[image];
    assert(storage@.images[image as int] == record@);
    match (record.view, &record.mime_type, &record.uri) {
        (Some(view), Some(mime_type), _) => {
            if view >= storage.views.len() {
                return None;
            }
            let range = storage.views[view];
            Some(
                ImageSource::View {
                    buffer: range.buffer,
                    offset: range.offset,
                    length: range.length,
                    mime_type: mime_type.as_str(),
                },
            )
        },
        (None, Some(mime_type), Some(uri)) => Some(
            ImageSource::Uri { uri: uri.as_str(), declared: Some(mime_type.as_str()) },
        ),
        (None, None, Some(uri)) => Some(ImageSource::Uri { uri: uri.as_str(), declared: None }),
        _ => None,
    }
}

/// The texts of a texture that was looked for.
pub open spec fn texture_found(
    texture: Result<Option<SourceTexture>, MissingImage>,
) -> Result<Option<TextureUse>, MissingImage> {
    match texture {
        Ok(Some(texture)) => Ok(Some(texture@)),
        Ok(None) => Ok(None),
        Err(defect) => Err(defect),
    }
}

fn find_texture(
    document: &Document,
    reference: Option<(usize, u32)>,
    role: MaterialRole,
) -> (texture: Result<Option<SourceTexture>, MissingImage>)
    ensures
        texture_found(texture) == texture_use(document@, reference, role),
{
    match reference {
        None => Ok(None),
        Some((texture, coordinates)) => {
            if texture >= document.textures.len() {
                return Err(MissingImage { role });
            }
            let record = document.textures[texture];
            match find_image(&document.storage, record.image) {
                None => Err(MissingImage { role }),
                Some(image) => Ok(
                    Some(
                        SourceTexture {
                            coordinates,
                            repeats_s: record.wrap_s == REPEAT,
                            repeats_t: record.wrap_t == REPEAT,
                            image,
                        },
                    ),
                ),
            }
        },
    }
}

/// A material with its textures and its numbers; the first texture whose image
/// is missing keeps it from being read.
pub open spec fn material_use(
    contents: DocumentContents,
    textures: MaterialTextures,
    numbers: MaterialNumbers,
) -> Result<MaterialUse, MissingImage> {
    match (
        texture_use(contents, textures.base_color, MaterialRole::BaseColor),
        texture_use(contents, textures.metallic_roughness, MaterialRole::MetallicRoughness),
        texture_use(contents, textures.emissive, MaterialRole::Emissive),
        texture_use(contents, textures.occlusion, MaterialRole::Occlusion),
        texture_use(contents, textures.normal, MaterialRole::Normal),
    ) {
        (Err(defect), _, _, _, _) => Err(defect),
        (Ok(_), Err(defect), _, _, _) => Err(defect),
        (Ok(_), Ok(_), Err(defect), _, _) => Err(defect),
        (Ok(_), Ok(_), Ok(_), Err(defect), _) => Err(defect),
        (Ok(_), Ok(_), Ok(_), Ok(_), Err(defect)) => Err(defect),
        (
            Ok(base_color),
            Ok(metallic_roughness),
            Ok(emissive),
            Ok(occlusion),
            Ok(normal),
        ) => Ok(
            MaterialUse {
                opaque: numbers.alpha_mode == OPAQUE,
                base_color,
                metallic_roughness,
                emissive,
                occlusion,
                normal,
                base_color_factor: numbers.base_color_factor,
                emissive_factor: numbers.emissive_factor,
                normal_scale: numbers.normal_scale,
                metallic_factor: numbers.metallic_factor,
                roughness_factor: numbers.roughness_factor,
                occlusion_strength: numbers.occlusion_strength,
                alpha_cutoff: numbers.alpha_cutoff,
                double_sided: numbers.double_sided,
            },
        ),
    }
}

/// The material of a document: its first one, where it has any.
pub open spec fn first_material_use(contents: DocumentContents) -> Result<
    Option<MaterialUse>,
    MissingImage,
> {
    if contents.material_textures.len() == 0 || contents.material_numbers.len() == 0 {
        Ok(None)
    } else {
        match material_use(contents, contents.material_textures[0], contents.material_numbers[0]) {
            Ok(material) => Ok(Some(material)),
            Err(defect) => Err(defect),
        }
    }
}

/// The texts of a material that was looked for.
pub open spec fn material_found(
    material: Result<Option<SourceMaterial>, MissingImage>,
) -> Result<Option<MaterialUse>, MissingImage> {
    match material {
        Ok(Some(material)) => Ok(Some(material@)),
        Ok(None) => Ok(None),
        Err(defect) => Err(defect),
    }
}

/// The material of a document: its first one, where it has any.  The others
/// are not read.
pub fn first_material(document: &Document) -> (material: Result<
    Option<SourceMaterial>,
    MissingImage,
>)
    ensures
        material_found(material) == first_material_use(document@),
{
    if document.material_textures.len() == 0 || document.material_numbers.len() == 0 {
        return Ok(None);
    }
    let textures = document.material_textures[0];
    let numbers = document.material_numbers[0];
    let base_color = match find_texture(document, textures.base_color, MaterialRole::BaseColor) {
        Ok(texture) => texture,
        Err(defect) => return Err(defect),
    };
    let metallic_roughness = match find_texture(
        document,
        textures.metallic_roughness,
        MaterialRole::MetallicRoughness,
    ) {
        Ok(texture) => texture,
        Err(defect) => return Err(defect),
    };
    let emissive = match find_texture(document, textures.emissive, MaterialRole::Emissive) {
        Ok(texture) => texture,
        Err(defect) => return Err(defect),
    };
    let occlusion = match find_texture(document, textures.occlusion, MaterialRole::Occlusion) {
        Ok(texture) => texture,
        Err(defect) => return Err(defect),
    };
    let normal = match find_texture(document, textures.normal, MaterialRole::Normal) {
        Ok(texture) => texture,
        Err(defect) => return Err(defect),
    };
    Ok(
        Some(
            SourceMaterial {
                opaque: numbers.alpha_mode == OPAQUE,
                base_color,
                metallic_roughness,
                emissive,
                occlusion,
                normal,
                base_color_factor: numbers.base_color_factor,
                emissive_factor: numbers.emissive_factor,
                normal_scale: numbers.normal_scale,
                metallic_factor: numbers.metallic_factor,
                roughness_factor: numbers.roughness_factor,
                occlusion_strength: numbers.occlusion_strength,
                alpha_cutoff: numbers.alpha_cutoff,
                double_sided: numbers.double_sided,
            },
        ),
    )
}

/// Why a document's material cannot be retained.
#[derive(Clone, Copy, Debug, PartialEq, Eq, Structural)]
pub enum RetentionDefect {
    /// The image of the role's texture is missing.
    Image(MaterialRole),
    Material(MaterialDefect),
}

/// The material that is retained of a document: its first one, where it has
/// any, if nothing keeps it from being retained.
pub open spec fn retained_use(contents: DocumentContents) -> Result<
    Option<MaterialUse>,
    RetentionDefect,
> {
    match first_material_use(contents) {
        Err(missing) => Err(RetentionDefect::Image(missing.role)),
        Ok(None) => Ok(None),
        Ok(Some(material)) => match retention_defect(material) {
            Some(defect) => Err(RetentionDefect::Material(defect)),
            None => Ok(Some(material)),
        },
    }
}

/// The texts of a material that was looked for.
pub open spec fn retained_found(
    material: Result<Option<SourceMaterial>, RetentionDefect>,
) -> Result<Option<MaterialUse>, RetentionDefect> {
    match material {
        Ok(Some(material)) => Ok(Some(material@)),
        Ok(None) => Ok(None),
        Err(defect) => Err(defect),
    }
}

/// The material that is retained of a document.
pub fn retained_material(document: &Document) -> (material: Result<
    Option<SourceMaterial>,
    RetentionDefect,
>)
    ensures
        retained_found(material) == retained_use(document@),
{
    match first_material(document) {
        Err(missing) => Err(RetentionDefect::Image(missing.role)),
        Ok(None) => Ok(None),
        Ok(Some(material)) => match material_defect(&material) {
            Some(defect) => Err(RetentionDefect::Material(defect)),
            None => Ok(Some(material)),
        },
    }
}

/// Only a binary container with a whole header can have a bad one: its third
/// word, the length of the whole, is below the header's own twelve bytes.
pub proof fn lemma_which_headers_are_bad(bytes: Seq<u8>)
    ensures
        !header_stands(bytes) <==> {
            &&& bytes.len() >= 12
            &&& bytes[0] == 'g' as u8
            &&& bytes[1] == 'l' as u8
            &&& bytes[2] == 'T' as u8
            &&& bytes[3] == 'F' as u8
            &&& bytes[8] + 0x100 * bytes[9] + 0x1_0000 * bytes[10] + 0x100_0000 * bytes[11] < 12
        },
{
    if bytes.len() >= 12 {
        crate::bits::lemma_bytes_are_digits(0, bytes, 8);
    }
}

/// Bytes are given to the parser exactly where their header is not bad and no
/// primitive takes its positions from an accessor that is not there.
pub proof fn lemma_what_the_parser_is_given(bytes: Seq<u8>)
    ensures
        parser_admits(bytes) <==> header_stands(bytes) && (gltf_declared(bytes)
            matches Some(declared) ==> forall|m: int, p: int|
            #![trigger declared.positions[m][p]]
            0 <= m < declared.positions.len() && 0 <= p < declared.positions[m].len() ==> (
            declared.positions[m][p] matches Some(accessor) ==> accessor < declared.accessors)),
{
    if let Some(declared) = gltf_declared(bytes) {
        if positions_stand(declared) {
            assert forall|m: int, p: int|
                #![trigger declared.positions[m][p]]
                0 <= m < declared.positions.len() && 0 <= p < declared.positions[m].len() implies (
            declared.positions[m][p] matches Some(accessor) ==> accessor < declared.accessors) by {
                assert(mesh_stands(declared.positions[m], declared.accessors));
            }
        } else {
            let m = choose|m: int|
                0 <= m < declared.positions.len() && !mesh_stands(
                    #[trigger] declared.positions[m],
                    declared.accessors,
                );
            let positions = declared.positions[m];
            let p = choose|p: int|
                0 <= p < positions.len() && !((#[trigger] positions[p]) matches Some(accessor)
                    ==> accessor < declared.accessors);
            assert(declared.positions[m][p] == positions[p]);
        }
    }
}

/// A document is there exactly where each of its parts is, and its parts are
/// its own.
pub proof fn lemma_documents_are_their_parts(bytes: Seq<u8>)
    ensures
        document_of(bytes) is Some <==> {
            &&& gltf_storage(bytes) is Some
            &&& gltf_textures(bytes) is Some
            &&& gltf_material_textures(bytes) is Some
            &&& gltf_material_numbers(bytes) is Some
            &&& gltf_accessors(bytes) is Some
            &&& gltf_meshes(bytes) is Some
        },
        document_of(bytes) matches Some(contents) ==> {
            &&& gltf_storage(bytes) == Some(contents.storage)
            &&& gltf_textures(bytes) == Some(contents.textures)
            &&& gltf_material_textures(bytes) == Some(contents.material_textures)
            &&& gltf_material_numbers(bytes) == Some(contents.material_numbers)
            &&& gltf_accessors(bytes) == Some(contents.accessors)
            &&& gltf_meshes(bytes) == Some(contents.meshes)
        },
{
}

/// All buffers of a document are loaded, or the first that is not is told: each
/// from where its URI says, and from its own file where it is in one.
pub proof fn lemma_each_buffer_is_loaded_from_its_place(
    storage: StorageContents,
    files: Seq<Option<Seq<u8>>>,
    count: int,
    buffer: int,
)
    requires
        0 <= buffer < count <= storage.buffers.len(),
        storage.buffers.len() <= usize::MAX,
    ensures
        ({
            let outcome = buffers_outcome(storage, files, count);
            let own = buffer_with_file(
                buffer_contents(
                    match storage.buffers[buffer] {
                        Some(uri) => BufferPlace::Uri(uri),
                        None => BufferPlace::Bin,
                    },
                    storage.blob,
                ),
                files[buffer],
            );
            &&& outcome matches Ok(buffers) ==> buffers.len() == count && own == Ok::<
                Seq<u8>,
                BufferFault,
            >(buffers[buffer])
            &&& outcome matches Err(defect) ==> {
                &&& defect.buffer < count
                &&& buffer < defect.buffer ==> own is Ok
                &&& buffer == defect.buffer ==> own == Err::<Seq<u8>, BufferFault>(defect.fault)
            }
        }),
    decreases count,
{
    if buffer < count - 1 {
        lemma_each_buffer_is_loaded_from_its_place(storage, files, count - 1, buffer);
    }
    lemma_buffers_in_order(storage, files, count - 1);
}

proof fn lemma_buffers_in_order(
    storage: StorageContents,
    files: Seq<Option<Seq<u8>>>,
    count: int,
)
    requires
        0 <= count <= storage.buffers.len(),
        storage.buffers.len() <= usize::MAX,
    ensures
        buffers_outcome(storage, files, count) matches Ok(buffers) ==> buffers.len() == count,
        buffers_outcome(storage, files, count) matches Err(defect) ==> defect.buffer < count,
    decreases count,
{
    if count > 0 {
        lemma_buffers_in_order(storage, files, count - 1);
    }
}

/// A buffer's file counts only for a buffer that is in a file.
pub proof fn lemma_buffer_files_count_where_asked_for(
    contents: BufferContents,
    file: Option<Seq<u8>>,
    uri: Option<Seq<char>>,
)
    ensures
        contents matches BufferContents::Loaded(bytes) ==> buffer_with_file(contents, file)
            == Ok::<Seq<u8>, BufferFault>(bytes),
        contents is File ==> (file matches Some(bytes) ==> buffer_with_file(contents, file)
            == Ok::<Seq<u8>, BufferFault>(bytes)),
        contents is File && file is None ==> buffer_with_file(contents, file) == Err::<
            Seq<u8>,
            BufferFault,
        >(BufferFault::FileMissing),
        contents is BlobMissing ==> buffer_with_file(contents, file) == Err::<
            Seq<u8>,
            BufferFault,
        >(BufferFault::BlobMissing),
        contents is DataMalformed ==> buffer_with_file(contents, file) == Err::<
            Seq<u8>,
            BufferFault,
        >(BufferFault::DataMalformed),
        buffer_file_of(uri) is Some <==> uri is Some && !is_data_uri(uri->Some_0),
        buffer_file_of(uri) is Some ==> buffer_file_of(uri) == uri,
{
}

/// An image is in its buffer view under its own media type, or behind its own
/// URI where it has no view; an image that is not there, a view without a media
/// type and an image with neither are missing.
pub proof fn lemma_where_images_are(storage: StorageContents, image: int)
    requires
        0 <= image,
    ensures
        image >= storage.images.len() ==> image_place(storage, image) is None,
        image < storage.images.len() ==> {
            let record = storage.images[image];
            &&& record.view matches Some(view) ==> {
                &&& image_place(storage, image) is Some <==> record.mime_type is Some && view
                    < storage.views.len()
                &&& image_place(storage, image) is Some ==> image_place(storage, image) == Some(
                    ImagePlace::View {
                        buffer: storage.views[view as int].buffer,
                        offset: storage.views[view as int].offset,
                        length: storage.views[view as int].length,
                        mime_type: record.mime_type->Some_0,
                    },
                )
            }
            &&& record.view is None ==> {
                &&& image_place(storage, image) is Some <==> record.uri is Some
                &&& image_place(storage, image) is Some ==> image_place(storage, image) == Some(
                    ImagePlace::Uri { uri: record.uri->Some_0, declared: record.mime_type },
                )
            }
        },
{
}

/// A material uses the texture that it refers to: with the coordinates of the
/// reference, the wrapping of the texture's sampler and the texture's image.
pub proof fn lemma_how_textures_are_used(
    contents: DocumentContents,
    texture: usize,
    coordinates: u32,
    role: MaterialRole,
)
    ensures
        texture_use(contents, None, role) == Ok::<Option<TextureUse>, MissingImage>(None),
        ({
            let used = texture_use(contents, Some((texture, coordinates)), role);
            let record = contents.textures[texture as int];
            let there = texture < contents.textures.len() && image_place(
                contents.storage,
                record.image as int,
            ) is Some;
            &&& !there ==> used == Err::<Option<TextureUse>, MissingImage>(MissingImage { role })
            &&& there ==> {
                &&& used matches Ok(Some(found))
                &&& found.coordinates == coordinates
                &&& found.repeats_s <==> record.wrap_s == 10497
                &&& found.repeats_t <==> record.wrap_t == 10497
                &&& Some(found.image) == image_place(contents.storage, record.image as int)
            }
        }),
{
}

/// The material of a document is its first one, and no other one counts: each
/// texture is the one that the material refers to in that role, the numbers are
/// its own, and the first role whose image is missing is told.
pub proof fn lemma_the_first_material_counts(contents: DocumentContents)
    requires
        contents.material_textures.len() == contents.material_numbers.len(),
    ensures
        contents.material_numbers.len() == 0 ==> first_material_use(contents) == Ok::<
            Option<MaterialUse>,
            MissingImage,
        >(None),
        contents.material_numbers.len() > 0 ==> {
            let textures = contents.material_textures[0];
            let numbers = contents.material_numbers[0];
            let a = texture_use(contents, textures.base_color, MaterialRole::BaseColor);
            let b = texture_use(
                contents,
                textures.metallic_roughness,
                MaterialRole::MetallicRoughness,
            );
            let c = texture_use(contents, textures.emissive, MaterialRole::Emissive);
            let d = texture_use(contents, textures.occlusion, MaterialRole::Occlusion);
            let e = texture_use(contents, textures.normal, MaterialRole::Normal);
            let found = first_material_use(contents);
            &&& found is Ok <==> a is Ok && b is Ok && c is Ok && d is Ok && e is Ok
            &&& found is Ok ==> {
                &&& found matches Ok(Some(material))
                &&& material.base_color == a->Ok_0
                &&& material.metallic_roughness == b->Ok_0
                &&& material.emissive == c->Ok_0
                &&& material.occlusion == d->Ok_0
                &&& material.normal == e->Ok_0
                &&& material.opaque <==> numbers.alpha_mode == 1
                &&& material.base_color_factor == numbers.base_color_factor
                &&& material.emissive_factor == numbers.emissive_factor
                &&& material.normal_scale == numbers.normal_scale
                &&& material.metallic_factor == numbers.metallic_factor
                &&& material.roughness_factor == numbers.roughness_factor
                &&& material.occlusion_strength == numbers.occlusion_strength
                &&& material.alpha_cutoff == numbers.alpha_cutoff
                &&& material.double_sided == numbers.double_sided
            }
            &&& found matches Err(missing) ==> {
                &&& missing.role == MaterialRole::BaseColor <==> a is Err
                &&& missing.role == MaterialRole::MetallicRoughness <==> a is Ok && b is Err
                &&& missing.role == MaterialRole::Emissive <==> a is Ok && b is Ok && c is Err
                &&& missing.role == MaterialRole::Occlusion <==> a is Ok && b is Ok && c is Ok
                    && d is Err
            }
        },
{
}

/// A document's material is retained exactly where it can be read and nothing
/// keeps it from being retained; a document without one has none.
pub proof fn lemma_which_material_is_retained(contents: DocumentContents)
    ensures
        match first_material_use(contents) {
            Ok(None) => retained_use(contents) == Ok::<Option<MaterialUse>, RetentionDefect>(None),
            Ok(Some(material)) => {
                &&& retained_use(contents) is Ok <==> retention_defect(material) is None
                &&& retained_use(contents) is Ok ==> retained_use(contents) == Ok::<
                    Option<MaterialUse>,
                    RetentionDefect,
                >(Some(material))
                &&& retention_defect(material) matches Some(defect) ==> retained_use(contents)
                    == Err::<Option<MaterialUse>, RetentionDefect>(
                    RetentionDefect::Material(defect),
                )
            },
            Err(missing) => retained_use(contents) == Err::<Option<MaterialUse>, RetentionDefect>(
                RetentionDefect::Image(missing.role),
            ),
        },
{
}

/// A document is seen as it is, part by part.
pub proof fn lemma_documents_are_seen_as_they_are(
    document: Document,
    buffer: int,
    image: int,
    mesh: int,
)
    ensures
        contents_of(Some(document)) == Some(document@),
        contents_of(None) is None,
        document@.textures == document.textures@,
        document@.material_textures == document.material_textures@,
        document@.material_numbers == document.material_numbers@,
        document@.accessors == document.accessors@,
        document@.storage.views == document.storage.views@,
        document@.storage.blob == match document.storage.blob {
            Some(bytes) => Some(bytes@),
            None => None,
        },
        document@.storage.buffers.len() == document.storage.buffers@.len(),
        0 <= buffer < document.storage.buffers@.len() ==> document@.storage.buffers[buffer]
            == match document.storage.buffers@[buffer] {
            Some(uri) => Some(uri@),
            None => None,
        },
        document@.storage.images.len() == document.storage.images@.len(),
        0 <= image < document.storage.images@.len() ==> {
            let record = document.storage.images@[image];
            let seen = document@.storage.images[image];
            &&& seen.view == record.view
            &&& seen.mime_type == match record.mime_type {
                Some(value) => Some(value@),
                None => None,
            }
            &&& seen.uri == match record.uri {
                Some(value) => Some(value@),
                None => None,
            }
        },
        document@.meshes.len() == document.meshes@.len(),
        0 <= mesh < document.meshes@.len() ==> document@.meshes[mesh] == document.meshes@[mesh]@,
{
}

/// Lists of files and of buffers are seen as they are, one by one, and so is
/// what was looked for in a document.
pub proof fn lemma_lists_are_seen_as_they_are(
    files: Seq<Option<Vec<u8>>>,
    buffers: Seq<Vec<u8>>,
    i: int,
    loaded: Vec<Vec<u8>>,
    items: Vec<u32>,
)
    ensures
        files_of(files).len() == files.len(),
        0 <= i < files.len() ==> files_of(files)[i] == match files[i] {
            Some(bytes) => Some(bytes@),
            None => None,
        },
        bytes_in(buffers).len() == buffers.len(),
        0 <= i < buffers.len() ==> bytes_in(buffers)[i] == buffers[i]@,
        buffers_of(Ok(loaded)) == Ok::<Seq<Seq<u8>>, BufferDefect>(bytes_in(loaded@)),
        seq_of(Some(items)) == Some(items@),
        seq_of::<u32>(None) is None,
{
}

/// What was found of a document's material is seen as it is.
pub proof fn lemma_findings_are_seen_as_they_are(
    material: SourceMaterial,
    texture: SourceTexture,
    image: ImageSource,
    missing: MissingImage,
    defect: RetentionDefect,
)
    ensures
        material_found(Ok(Some(material))) == Ok::<Option<MaterialUse>, MissingImage>(
            Some(material@),
        ),
        material_found(Ok(None)) == Ok::<Option<MaterialUse>, MissingImage>(None),
        material_found(Err(missing)) == Err::<Option<MaterialUse>, MissingImage>(missing),
        retained_found(Ok(Some(material))) == Ok::<Option<MaterialUse>, RetentionDefect>(
            Some(material@),
        ),
        retained_found(Ok(None)) == Ok::<Option<MaterialUse>, RetentionDefect>(None),
        retained_found(Err(defect)) == Err::<Option<MaterialUse>, RetentionDefect>(defect),
        texture_found(Ok(Some(texture))) == Ok::<Option<TextureUse>, MissingImage>(
            Some(texture@),
        ),
        source_place(Some(image)) == Some(image@),
{
}

} // verus!
