//! A source model's material, and the catalog entry that a baked model makes.
use crate::asset::{
    PreparedAsset, PreparedMaterial, PreparedPrimitive, PreparedTexture, PrimitiveTopology,
};
#[allow(unused_imports)]
use crate::bits::{bytes_of, lemma_words_bytes, words_bytes};
use crate::geometry::{ONE, ONE_HALF, ZERO};
use crate::material::{MaterialRole, RetainedMaterialParameters};
#[allow(unused_imports)]
use crate::mesh::{lemma_ranges_lie_inside, lemma_records_length, lemma_stride, stride, MeshModel};
#[allow(unused_imports)]
use crate::opening::scene_contract;
use crate::source::{load_image_with_file, ImageLoad, ImageSource};
#[allow(unused_imports)]
use crate::source::{image_with_file, ImageContents, ImagePlace};
use vstd::prelude::*;
use vstd::string::*;

verus! {

/// Whether materials with a base color map are sampled at all.
pub const ENABLE_SAMPLED_MATERIAL: bool = true;

/// How a material uses an image.
#[derive(Clone, Copy)]
pub struct SourceTexture<'a> {
    /// The set of texture coordinates.
    pub coordinates: u32,
    /// Whether the image repeats along the first coordinate.
    pub repeats_s: bool,
    /// Whether the image repeats along the second coordinate.
    pub repeats_t: bool,
    pub image: ImageSource<'a>,
}

/// The material of a source model.  Numbers are bit patterns.
#[derive(Clone, Copy)]
pub struct SourceMaterial<'a> {
    pub opaque: bool,
    pub base_color: Option<SourceTexture<'a>>,
    pub metallic_roughness: Option<SourceTexture<'a>>,
    pub emissive: Option<SourceTexture<'a>>,
    pub occlusion: Option<SourceTexture<'a>>,
    pub normal: Option<SourceTexture<'a>>,
    pub base_color_factor: [u32; 4],
    pub emissive_factor: [u32; 3],
    /// The scale of the normal map, where there is one.
    pub normal_scale: Option<u32>,
    pub metallic_factor: u32,
    pub roughness_factor: u32,
    /// The strength of the occlusion map, where there is one.
    pub occlusion_strength: Option<u32>,
    pub alpha_cutoff: Option<u32>,
    pub double_sided: bool,
}

/// [`SourceTexture`], over the texts of its image.
pub struct TextureUse {
    pub coordinates: u32,
    pub repeats_s: bool,
    pub repeats_t: bool,
    pub image: ImagePlace,
}

impl<'a> View for SourceTexture<'a> {
    type V = TextureUse;

    open spec fn view(&self) -> TextureUse {
        TextureUse {
            coordinates: self.coordinates,
            repeats_s: self.repeats_s,
            repeats_t: self.repeats_t,
            image: self.image@,
        }
    }
}

/// [`SourceMaterial`], over the texts of its images.
pub struct MaterialUse {
    pub opaque: bool,
    pub base_color: Option<TextureUse>,
    pub metallic_roughness: Option<TextureUse>,
    pub emissive: Option<TextureUse>,
    pub occlusion: Option<TextureUse>,
    pub normal: Option<TextureUse>,
    pub base_color_factor: [u32; 4],
    pub emissive_factor: [u32; 3],
    pub normal_scale: Option<u32>,
    pub metallic_factor: u32,
    pub roughness_factor: u32,
    pub occlusion_strength: Option<u32>,
    pub alpha_cutoff: Option<u32>,
    pub double_sided: bool,
}

/// The texts of an optional texture.
pub open spec fn optional_use(texture: Option<SourceTexture>) -> Option<TextureUse> {
    match texture {
        Some(texture) => Some(texture@),
        None => None,
    }
}

impl<'a> View for SourceMaterial<'a> {
    type V = MaterialUse;

    open spec fn view(&self) -> MaterialUse {
        MaterialUse {
            opaque: self.opaque,
            base_color: optional_use(self.base_color),
            metallic_roughness: optional_use(self.metallic_roughness),
            emissive: optional_use(self.emissive),
            occlusion: optional_use(self.occlusion),
            normal: optional_use(self.normal),
            base_color_factor: self.base_color_factor,
            emissive_factor: self.emissive_factor,
            normal_scale: self.normal_scale,
            metallic_factor: self.metallic_factor,
            roughness_factor: self.roughness_factor,
            occlusion_strength: self.occlusion_strength,
            alpha_cutoff: self.alpha_cutoff,
            double_sided: self.double_sided,
        }
    }
}

impl MaterialUse {
    /// The textures, in the order of [`MaterialRole`].
    pub open spec fn textures(self) -> Seq<Option<TextureUse>> {
        seq![
            self.base_color,
            self.metallic_roughness,
            self.emissive,
            self.occlusion,
            self.normal,
        ]
    }
}

/// The texts of an optional material.
pub open spec fn optional_material(material: Option<&SourceMaterial>) -> Option<MaterialUse> {
    match material {
        Some(material) => Some(material@),
        None => None,
    }
}

/// Why a material cannot be retained.
#[derive(Clone, Copy, Debug, PartialEq, Eq, Structural)]
pub enum MaterialDefect {
    /// Only opaque materials are retained.
    NotOpaque,
    /// Only the first set of texture coordinates is kept.
    Coordinates(MaterialRole),
    /// The sampler repeats along both coordinates, and does nothing else.
    WrapS(MaterialRole),
    WrapT(MaterialRole),
}

/// What keeps one texture from being sampled.
pub open spec fn texture_defect(texture: Option<TextureUse>, role: MaterialRole) -> Option<
    MaterialDefect,
> {
    match texture {
        None => None,
        Some(texture) => if texture.coordinates != 0 {
            Some(MaterialDefect::Coordinates(role))
        } else if !texture.repeats_s {
            Some(MaterialDefect::WrapS(role))
        } else if !texture.repeats_t {
            Some(MaterialDefect::WrapT(role))
        } else {
            None
        },
    }
}

/// The first defect from a role on.
pub open spec fn textures_defect(material: MaterialUse, role: MaterialRole) -> Option<
    MaterialDefect,
>
    decreases 5 - role.index(),
{
    let own = texture_defect(material.textures()[role.index()], role);
    if own is Some {
        own
    } else {
        match role.successor() {
            Some(next) => textures_defect(material, next),
            None => None,
        }
    }
}

fn find_texture_defect(texture: &Option<SourceTexture>, role: MaterialRole) -> (defect: Option<
    MaterialDefect,
>)
    ensures
        defect == texture_defect(optional_use(*texture), role),
{
    match texture {
        None => None,
        Some(texture) => {
            if texture.coordinates != 0 {
                Some(MaterialDefect::Coordinates(role))
            } else if !texture.repeats_s {
                Some(MaterialDefect::WrapS(role))
            } else if !texture.repeats_t {
                Some(MaterialDefect::WrapT(role))
            } else {
                None
            }
        },
    }
}

/// What keeps a material from being retained, if anything: its alpha mode, or
/// the first texture that asks for other coordinates or another sampler.
pub open spec fn retention_defect(material: MaterialUse) -> Option<MaterialDefect> {
    if !material.opaque {
        Some(MaterialDefect::NotOpaque)
    } else {
        textures_defect(material, MaterialRole::BaseColor)
    }
}

/// What keeps a material from being retained, if anything.
pub fn material_defect(material: &SourceMaterial) -> (defect: Option<MaterialDefect>)
    ensures
        defect == retention_defect(material@),
{
    if !material.opaque {
        return Some(MaterialDefect::NotOpaque);
    }
    let mut role = MaterialRole::BaseColor;
    loop
        invariant
            material.opaque,
            textures_defect(material@, MaterialRole::BaseColor) == textures_defect(material@, role),
        decreases 5 - role.index(),
    {
        let texture = match role {
            MaterialRole::BaseColor => &material.base_color,
            MaterialRole::MetallicRoughness => &material.metallic_roughness,
            MaterialRole::Emissive => &material.emissive,
            MaterialRole::Occlusion => &material.occlusion,
            MaterialRole::Normal => &material.normal,
        };
        let defect = find_texture_defect(texture, role);
        if defect.is_some() {
            return defect;
        }
        match role.next() {
            Some(next) => {
                role = next;
            },
            None => {
                return None;
            },
        }
    }
}

/// A material is retained exactly where it is opaque and every texture that it
/// has uses the first coordinates and repeats along both.
pub proof fn lemma_retained_materials_share_one_sampler(material: MaterialUse)
    ensures
        textures_defect(material, MaterialRole::BaseColor) is None <==> forall|place: int|
            0 <= place < 5 && (#[trigger] material.textures()[place]) is Some ==> {
                let texture = material.textures()[place]->Some_0;
                texture.coordinates == 0 && texture.repeats_s && texture.repeats_t
            },
{
    reveal_with_fuel(textures_defect, 6);
    let textures = material.textures();
    assert(textures[0] == material.base_color && textures[1] == material.metallic_roughness
        && textures[2] == material.emissive && textures[3] == material.occlusion && textures[4]
        == material.normal);
}

/// A number, or another where there is none.
pub open spec fn number_or(number: Option<u32>, other: u32) -> u32 {
    match number {
        Some(number) => number,
        None => other,
    }
}

/// The parameters of a material; a model without one gets those of a plain
/// white material.
pub open spec fn parameters_from(
    material: Option<MaterialUse>,
    double_sided_flag: u32,
) -> RetainedMaterialParameters {
    match material {
        None => RetainedMaterialParameters {
            base_color_factor: [ONE, ONE, ONE, ONE],
            emissive_factor: [ZERO, ZERO, ZERO],
            normal_scale: ONE,
            metallic_factor: ONE,
            roughness_factor: ONE,
            occlusion_strength: ONE,
            alpha_cutoff: ONE_HALF,
            flags: 0,
            reserved: [0, 0, 0],
        },
        Some(material) => RetainedMaterialParameters {
            base_color_factor: material.base_color_factor,
            emissive_factor: material.emissive_factor,
            normal_scale: number_or(material.normal_scale, ONE),
            metallic_factor: material.metallic_factor,
            roughness_factor: material.roughness_factor,
            occlusion_strength: number_or(material.occlusion_strength, ONE),
            alpha_cutoff: number_or(material.alpha_cutoff, ONE_HALF),
            flags: if material.double_sided {
                double_sided_flag
            } else {
                0
            },
            reserved: [0, 0, 0],
        },
    }
}

fn choose_number(number: Option<u32>, other: u32) -> (chosen: u32)
    ensures
        chosen == number_or(number, other),
{
    match number {
        Some(number) => number,
        None => other,
    }
}

/// The parameters that are retained of a source material, with the device's
/// flag for materials that are visible from behind.
pub fn source_parameters(material: Option<&SourceMaterial>, double_sided_flag: u32) -> (parameters:
    RetainedMaterialParameters)
    ensures
        parameters == parameters_from(optional_material(material), double_sided_flag),
{
    match material {
        None => RetainedMaterialParameters {
            base_color_factor: [ONE, ONE, ONE, ONE],
            emissive_factor: [ZERO, ZERO, ZERO],
            normal_scale: ONE,
            metallic_factor: ONE,
            roughness_factor: ONE,
            occlusion_strength: ONE,
            alpha_cutoff: ONE_HALF,
            flags: 0,
            reserved: [0, 0, 0],
        },
        Some(material) => RetainedMaterialParameters {
            base_color_factor: material.base_color_factor,
            emissive_factor: material.emissive_factor,
            normal_scale: choose_number(material.normal_scale, ONE),
            metallic_factor: material.metallic_factor,
            roughness_factor: material.roughness_factor,
            occlusion_strength: choose_number(material.occlusion_strength, ONE),
            alpha_cutoff: choose_number(material.alpha_cutoff, ONE_HALF),
            flags: if material.double_sided {
                double_sided_flag
            } else {
                0
            },
            reserved: [0, 0, 0],
        },
    }
}

/// The name under which an asset's image is decoded.
pub fn texture_name(asset: &str, role: MaterialRole, extension: &str) -> (name: String)
    ensures
        name@ == asset@ + "."@ + role.text() + "."@ + extension@,
{
    let mut name: String = asset.to_owned();
    name.append(".");
    name.append(role.name());
    name.append(".");
    name.append(extension);
    name
}

/// An encoded image of a material, under the name that it is decoded by.
pub struct LoadedTexture {
    pub name: String,
    pub bytes: Vec<u8>,
}

/// [`LoadedTexture`], over the contents of what it holds.
pub struct TextureContents {
    pub name: Seq<char>,
    pub bytes: Seq<u8>,
}

impl View for LoadedTexture {
    type V = TextureContents;

    open spec fn view(&self) -> TextureContents {
        TextureContents { name: self.name@, bytes: self.bytes@ }
    }
}

/// The texture of a role, with the image that its source holds.  The role is
/// told where the encoding cannot be decoded or the bytes are missing.
pub open spec fn texture_outcome(
    asset: Seq<char>,
    role: MaterialRole,
    texture: Option<TextureUse>,
    buffers: Seq<Vec<u8>>,
    file: Option<Seq<u8>>,
) -> Result<Option<TextureContents>, MaterialRole> {
    match texture {
        None => Ok(None),
        Some(texture) => match image_with_file(texture.image, buffers, file) {
            ImageContents::Loaded { extension, bytes } => Ok(
                Some(
                    TextureContents {
                        name: asset + "."@ + role.text() + "."@ + extension,
                        bytes,
                    },
                ),
            ),
            _ => Err(role),
        },
    }
}

/// The contents of an optional texture.
pub open spec fn loaded_contents(texture: Option<LoadedTexture>) -> Option<TextureContents> {
    match texture {
        Some(texture) => Some(texture@),
        None => None,
    }
}

/// The contents of a texture that was looked for.
pub open spec fn loaded_of(texture: Result<Option<LoadedTexture>, MaterialRole>) -> Result<
    Option<TextureContents>,
    MaterialRole,
> {
    match texture {
        Ok(texture) => Ok(loaded_contents(texture)),
        Err(role) => Err(role),
    }
}

/// Load the texture of a role.  `file` holds the bytes of the file that its
/// image is in, where it could be read.
pub fn load_texture(
    asset: &str,
    role: MaterialRole,
    texture: &Option<SourceTexture>,
    buffers: &[Vec<u8>],
    file: Option<Vec<u8>>,
) -> (loaded: Result<Option<LoadedTexture>, MaterialRole>)
    ensures
        loaded_of(loaded) == texture_outcome(
            asset@,
            role,
            optional_use(*texture),
            buffers@,
            bytes_of(file),
        ),
{
    match texture {
        None => Ok(None),
        Some(texture) => match load_image_with_file(&texture.image, buffers, file) {
            ImageLoad::Loaded { extension, bytes } => Ok(
                Some(LoadedTexture { name: texture_name(asset, role, extension), bytes }),
            ),
            _ => Err(role),
        },
    }
}

/// The bytes of the files that a material's images are in, where they could be
/// read.
pub struct ImageFiles {
    pub base_color: Option<Vec<u8>>,
    pub metallic_roughness: Option<Vec<u8>>,
    pub emissive: Option<Vec<u8>>,
    pub occlusion: Option<Vec<u8>>,
    pub normal: Option<Vec<u8>>,
}

/// The encoded images of a material.
pub struct LoadedTextures {
    pub base_color: Option<LoadedTexture>,
    pub metallic_roughness: Option<LoadedTexture>,
    pub emissive: Option<LoadedTexture>,
    pub occlusion: Option<LoadedTexture>,
    pub normal: Option<LoadedTexture>,
}

/// [`LoadedTextures`], over the contents of what it holds.
pub struct TexturesContents {
    pub base_color: Option<TextureContents>,
    pub metallic_roughness: Option<TextureContents>,
    pub emissive: Option<TextureContents>,
    pub occlusion: Option<TextureContents>,
    pub normal: Option<TextureContents>,
}

impl View for LoadedTextures {
    type V = TexturesContents;

    open spec fn view(&self) -> TexturesContents {
        TexturesContents {
            base_color: loaded_contents(self.base_color),
            metallic_roughness: loaded_contents(self.metallic_roughness),
            emissive: loaded_contents(self.emissive),
            occlusion: loaded_contents(self.occlusion),
            normal: loaded_contents(self.normal),
        }
    }
}

/// The textures of a material; the first role whose image cannot be loaded
/// keeps them from being used.
pub open spec fn textures_outcome(
    asset: Seq<char>,
    material: MaterialUse,
    buffers: Seq<Vec<u8>>,
    files: ImageFiles,
) -> Result<TexturesContents, MaterialRole> {
    match (
        texture_outcome(
            asset,
            MaterialRole::BaseColor,
            material.base_color,
            buffers,
            bytes_of(files.base_color),
        ),
        texture_outcome(
            asset,
            MaterialRole::MetallicRoughness,
            material.metallic_roughness,
            buffers,
            bytes_of(files.metallic_roughness),
        ),
        texture_outcome(
            asset,
            MaterialRole::Emissive,
            material.emissive,
            buffers,
            bytes_of(files.emissive),
        ),
        texture_outcome(
            asset,
            MaterialRole::Occlusion,
            material.occlusion,
            buffers,
            bytes_of(files.occlusion),
        ),
        texture_outcome(
            asset,
            MaterialRole::Normal,
            material.normal,
            buffers,
            bytes_of(files.normal),
        ),
    ) {
        (Err(role), _, _, _, _) => Err(role),
        (Ok(_), Err(role), _, _, _) => Err(role),
        (Ok(_), Ok(_), Err(role), _, _) => Err(role),
        (Ok(_), Ok(_), Ok(_), Err(role), _) => Err(role),
        (Ok(_), Ok(_), Ok(_), Ok(_), Err(role)) => Err(role),
        (
            Ok(base_color),
            Ok(metallic_roughness),
            Ok(emissive),
            Ok(occlusion),
            Ok(normal),
        ) => Ok(
            TexturesContents { base_color, metallic_roughness, emissive, occlusion, normal },
        ),
    }
}

/// The contents of textures that were looked for.
pub open spec fn textures_of(textures: Result<LoadedTextures, MaterialRole>) -> Result<
    TexturesContents,
    MaterialRole,
> {
    match textures {
        Ok(textures) => Ok(textures@),
        Err(role) => Err(role),
    }
}

/// Load the textures of a model's material; a model without one has none.
pub fn load_textures(
    asset: &str,
    material: Option<&SourceMaterial>,
    buffers: &[Vec<u8>],
    files: ImageFiles,
) -> (textures: Result<LoadedTextures, MaterialRole>)
    ensures
        textures_of(textures) == match material {
            Some(material) => textures_outcome(asset@, material@, buffers@, files),
            None => Ok(
                TexturesContents {
                    base_color: None,
                    metallic_roughness: None,
                    emissive: None,
                    occlusion: None,
                    normal: None,
                },
            ),
        },
{
    let material = match material {
        Some(material) => material,
        None => return Ok(
            LoadedTextures {
                base_color: None,
                metallic_roughness: None,
                emissive: None,
                occlusion: None,
                normal: None,
            },
        ),
    };
    let base_color = match load_texture(
        asset,
        MaterialRole::BaseColor,
        &material.base_color,
        buffers,
        files.base_color,
    ) {
        Ok(texture) => texture,
        Err(role) => return Err(role),
    };
    let metallic_roughness = match load_texture(
        asset,
        MaterialRole::MetallicRoughness,
        &material.metallic_roughness,
        buffers,
        files.metallic_roughness,
    ) {
        Ok(texture) => texture,
        Err(role) => return Err(role),
    };
    let emissive = match load_texture(
        asset,
        MaterialRole::Emissive,
        &material.emissive,
        buffers,
        files.emissive,
    ) {
        Ok(texture) => texture,
        Err(role) => return Err(role),
    };
    let occlusion = match load_texture(
        asset,
        MaterialRole::Occlusion,
        &material.occlusion,
        buffers,
        files.occlusion,
    ) {
        Ok(texture) => texture,
        Err(role) => return Err(role),
    };
    let normal = match load_texture(
        asset,
        MaterialRole::Normal,
        &material.normal,
        buffers,
        files.normal,
    ) {
        Ok(texture) => texture,
        Err(role) => return Err(role),
    };
    Ok(LoadedTextures { base_color, metallic_roughness, emissive, occlusion, normal })
}

/// The one topology of all primitives, where they agree.
pub open spec fn common_topology(primitives: Seq<PreparedPrimitive>) -> Option<PrimitiveTopology> {
    if primitives.len() > 0 && forall|p: int|
        0 <= p < primitives.len() ==> (#[trigger] primitives[p]).topology
            == primitives[0].topology {
        Some(primitives[0].topology)
    } else {
        None
    }
}

/// Whether a primitive is double sided.
pub open spec fn any_double_sided(primitives: Seq<PreparedPrimitive>) -> bool {
    exists|p: int| 0 <= p < primitives.len() && (#[trigger] primitives[p]).double_sided
}

fn find_common_topology(primitives: &[PreparedPrimitive]) -> (topology: Option<PrimitiveTopology>)
    ensures
        topology == common_topology(primitives@),
{
    if primitives.len() == 0 {
        return None;
    }
    let first = primitives[0].topology;
    let mut p: usize = 1;
    while p < primitives.len()
        invariant
            1 <= p <= primitives@.len(),
            first == primitives@[0].topology,
            forall|q: int| 0 <= q < p ==> (#[trigger] primitives@[q]).topology == first,
        decreases primitives@.len() - p,
    {
        if primitives[p].topology != first {
            return None;
        }
        p += 1;
    }
    Some(first)
}

fn find_double_sided(primitives: &[PreparedPrimitive]) -> (found: bool)
    ensures
        found == any_double_sided(primitives@),
{
    let mut p: usize = 0;
    while p < primitives.len()
        invariant
            p <= primitives@.len(),
            forall|q: int| 0 <= q < p ==> !(#[trigger] primitives@[q]).double_sided,
        decreases primitives@.len() - p,
    {
        if primitives[p].double_sided {
            return true;
        }
        p += 1;
    }
    false
}

/// A baked model's buffers, at rest for the whole program.
#[derive(Clone, Copy)]
pub struct BakedBuffers {
    pub vertices: &'static [u8],
    pub indices: &'static [u8],
    pub vertex_stride: usize,
    pub primitives: &'static [PreparedPrimitive],
}

/// The textures of a baked material, where it has them.
#[derive(Clone, Copy)]
pub struct BakedTextures {
    pub base_color: Option<PreparedTexture>,
    pub metallic_roughness: Option<PreparedTexture>,
    pub emissive: Option<PreparedTexture>,
    pub occlusion: Option<PreparedTexture>,
    pub normal: Option<PreparedTexture>,
}

impl BakedTextures {
    /// Whether the material is sampled, which selects the vertex layout.
    pub fn sampled(&self) -> (sampled: bool)
        ensures
            sampled == (ENABLE_SAMPLED_MATERIAL && self.base_color is Some),
    {
        ENABLE_SAMPLED_MATERIAL && self.base_color.is_some()
    }
}

/// Whether a texture is the one that was baked, or the empty one.
pub open spec fn texture_stands(texture: PreparedTexture, baked: Option<PreparedTexture>) -> bool {
    match baked {
        Some(baked) => texture == baked,
        None => texture.name@.len() == 0 && texture.bytes@.len() == 0,
    }
}

fn texture_or_none(baked: Option<PreparedTexture>) -> (texture: PreparedTexture)
    ensures
        texture_stands(texture, baked),
{
    match baked {
        Some(texture) => texture,
        None => PreparedTexture::none(),
    }
}

/// Whether an entry is that of a baked model in a slot.
pub open spec fn makes_entry(
    asset: PreparedAsset,
    slot: usize,
    buffers: BakedBuffers,
    textures: BakedTextures,
    parameters: RetainedMaterialParameters,
) -> bool {
    &&& asset.vertices == buffers.vertices
    &&& asset.indices == buffers.indices
    &&& asset.vertex_stride == buffers.vertex_stride
    &&& asset.primitives == buffers.primitives
    &&& asset.vertex_count == buffers.vertices@.len() as int / buffers.vertex_stride as int
    &&& asset.index_count == buffers.indices@.len() as int / 4
    &&& texture_stands(asset.material.base_color, textures.base_color)
    &&& texture_stands(asset.material.metallic_roughness, textures.metallic_roughness)
    &&& texture_stands(asset.material.emissive, textures.emissive)
    &&& texture_stands(asset.material.occlusion, textures.occlusion)
    &&& texture_stands(asset.material.normal, textures.normal)
    &&& asset.material.parameters == parameters
    &&& asset.sampled_material == (ENABLE_SAMPLED_MATERIAL && textures.base_color is Some)
    &&& asset.helmet_program == (slot == 0)
    &&& asset.retained_topology == common_topology(buffers.primitives@)
    &&& asset.retained_double_sided == any_double_sided(buffers.primitives@)
}

/// The catalog entry of the model in a slot.  The first model drives the
/// helmet program.  Where the primitives' cull policies differ, the whole mesh
/// is double sided, which keeps every face visible.
pub fn prepared_asset(
    slot: usize,
    name: &'static str,
    buffers: &BakedBuffers,
    textures: &BakedTextures,
    parameters: RetainedMaterialParameters,
) -> (asset: PreparedAsset)
    requires
        0 < buffers.vertex_stride,
        buffers.vertices@.len() as int / buffers.vertex_stride as int <= u32::MAX,
        buffers.indices@.len() as int / 4 <= u32::MAX,
    ensures
        makes_entry(asset, slot, *buffers, *textures, parameters),
        asset.name == name,
        asset.vertices == buffers.vertices,
        asset.indices == buffers.indices,
        asset.vertex_stride == buffers.vertex_stride,
        asset.primitives == buffers.primitives,
        asset.vertex_count == buffers.vertices@.len() as int / buffers.vertex_stride as int,
        asset.index_count == buffers.indices@.len() as int / 4,
        texture_stands(asset.material.base_color, textures.base_color),
        texture_stands(asset.material.metallic_roughness, textures.metallic_roughness),
        texture_stands(asset.material.emissive, textures.emissive),
        texture_stands(asset.material.occlusion, textures.occlusion),
        texture_stands(asset.material.normal, textures.normal),
        asset.material.parameters == parameters,
        asset.sampled_material == (ENABLE_SAMPLED_MATERIAL && textures.base_color is Some),
        asset.helmet_program == (slot == 0),
        asset.retained_topology == common_topology(buffers.primitives@),
        asset.retained_double_sided == any_double_sided(buffers.primitives@),
{
    PreparedAsset {
        name,
        vertices: buffers.vertices,
        indices: buffers.indices,
        vertex_count: (buffers.vertices.len() / buffers.vertex_stride) as u32,
        index_count: (buffers.indices.len() / 4) as u32,
        vertex_stride: buffers.vertex_stride,
        material: PreparedMaterial {
            base_color: texture_or_none(textures.base_color),
            metallic_roughness: texture_or_none(textures.metallic_roughness),
            emissive: texture_or_none(textures.emissive),
            occlusion: texture_or_none(textures.occlusion),
            normal: texture_or_none(textures.normal),
            parameters,
        },
        sampled_material: textures.sampled(),
        helmet_program: slot == 0,
        primitives: buffers.primitives,
        retained_topology: find_common_topology(buffers.primitives),
        retained_double_sided: find_double_sided(buffers.primitives),
    }
}

/// The entry of a finished mesh counts exactly its vertices and its indices,
/// and every primitive's range lies inside them.
pub proof fn lemma_entries_cover_their_primitives(
    model: MeshModel,
    positions: Seq<[u32; 3]>,
    sampled: bool,
    asset: PreparedAsset,
)
    requires
        model.tiled(),
        model.layout(sampled),
        positions.len() == model.positions.len(),
        asset.vertices@ == words_bytes(
            model.records(positions, sampled, positions.len() as int),
        ),
        asset.indices@ == words_bytes(model.indices),
        asset.vertex_stride == stride(sampled),
        asset.vertex_count == asset.vertices@.len() as int / asset.vertex_stride as int,
        asset.index_count == asset.indices@.len() as int / 4,
        asset.primitives@ == model.primitives,
    ensures
        asset.vertex_count == model.positions.len(),
        asset.index_count == model.indices.len(),
        forall|p: int|
            0 <= p < asset.primitives@.len() ==> {
                let primitive = #[trigger] asset.primitives@[p];
                &&& primitive.first_vertex + primitive.vertex_count <= asset.vertex_count
                &&& primitive.first_index + primitive.index_count <= asset.index_count
            },
{
    lemma_records_length(model, positions, sampled, positions.len() as int);
    lemma_stride(sampled, positions.len() as int);
    let size = stride(sampled);
    let count = positions.len() as int;
    assert((size * count) / size == count) by (nonlinear_arith)
        requires
            size > 0,
    ;
    lemma_words_bytes(model.records(positions, sampled, positions.len() as int));
    lemma_words_bytes(model.indices);
    assert forall|p: int| 0 <= p < asset.primitives@.len() implies {
        let primitive = #[trigger] asset.primitives@[p];
        &&& primitive.first_vertex + primitive.vertex_count <= asset.vertex_count
        &&& primitive.first_index + primitive.index_count <= asset.index_count
    } by {
        lemma_ranges_lie_inside(model, p);
    }
}

/// The entry of a finished mesh, read back whole, can make a scene.
pub proof fn lemma_entries_keep_the_scene_contract(
    model: MeshModel,
    positions: Seq<[u32; 3]>,
    sampled: bool,
    asset: PreparedAsset,
)
    requires
        model.tiled(),
        model.layout(sampled),
        model.positions.len() > 0,
        model.indices.len() > 0,
        positions.len() == model.positions.len(),
        asset.vertices@ == words_bytes(
            model.records(positions, sampled, positions.len() as int),
        ),
        asset.indices@ == words_bytes(model.indices),
        asset.vertex_stride == stride(sampled),
        asset.vertex_count == asset.vertices@.len() as int / asset.vertex_stride as int,
        asset.index_count == asset.indices@.len() as int / 4,
        asset.primitives@ == model.primitives,
    ensures
        scene_contract(seq![asset], 1),
{
    lemma_entries_cover_their_primitives(model, positions, sampled, asset);
    lemma_words_bytes(model.indices);
}

/// A material is retained exactly where it is opaque and each of its textures
/// uses the first coordinates and repeats both ways.  A defect is that of the
/// first role that has one, and of that role's coordinates before its wrapping.
pub proof fn lemma_why_a_material_is_not_retained(material: MaterialUse)
    ensures
        ({
            let shares = |texture: Option<TextureUse>|
                texture matches Some(used) ==> used.coordinates == 0 && used.repeats_s
                    && used.repeats_t;
            retention_defect(material) is None <==> {
                &&& material.opaque
                &&& shares(material.base_color)
                &&& shares(material.metallic_roughness)
                &&& shares(material.emissive)
                &&& shares(material.occlusion)
                &&& shares(material.normal)
            }
        }),
        retention_defect(material) == Some(MaterialDefect::NotOpaque) <==> !material.opaque,
        ({
            let told = |texture: Option<TextureUse>, role: MaterialRole|
                {
                    let used = texture->Some_0;
                    retention_defect(material) == Some(
                        if used.coordinates != 0 {
                            MaterialDefect::Coordinates(role)
                        } else if !used.repeats_s {
                            MaterialDefect::WrapS(role)
                        } else {
                            MaterialDefect::WrapT(role)
                        },
                    )
                };
            let shares = |texture: Option<TextureUse>|
                texture matches Some(used) ==> used.coordinates == 0 && used.repeats_s
                    && used.repeats_t;
            let a = shares(material.base_color);
            let b = shares(material.metallic_roughness);
            let c = shares(material.emissive);
            let d = shares(material.occlusion);
            let e = shares(material.normal);
            material.opaque ==> {
                &&& !a ==> told(material.base_color, MaterialRole::BaseColor)
                &&& a && !b ==> told(
                    material.metallic_roughness,
                    MaterialRole::MetallicRoughness,
                )
                &&& a && b && !c ==> told(material.emissive, MaterialRole::Emissive)
                &&& a && b && c && !d ==> told(material.occlusion, MaterialRole::Occlusion)
                &&& a && b && c && d && !e ==> told(material.normal, MaterialRole::Normal)
            }
        }),
{
    reveal_with_fuel(textures_defect, 6);
    let textures = material.textures();
    assert(textures[0] == material.base_color && textures[1] == material.metallic_roughness
        && textures[2] == material.emissive && textures[3] == material.occlusion && textures[4]
        == material.normal);
}

/// The retained parameters are the material's own, one by one; a scale, a
/// strength or a cutoff that the material leaves out has its default; the flag
/// is set exactly where the material is visible from behind; and a model
/// without a material is plain white.
pub proof fn lemma_parameters_are_the_materials(
    material: Option<MaterialUse>,
    double_sided_flag: u32,
)
    ensures
        ({
            let parameters = parameters_from(material, double_sided_flag);
            &&& parameters.reserved@ == seq![0u32, 0u32, 0u32]
            &&& match material {
                Some(own) => {
                    &&& parameters.base_color_factor == own.base_color_factor
                    &&& parameters.emissive_factor == own.emissive_factor
                    &&& parameters.metallic_factor == own.metallic_factor
                    &&& parameters.roughness_factor == own.roughness_factor
                    &&& own.normal_scale matches Some(scale) ==> parameters.normal_scale == scale
                    &&& own.normal_scale is None ==> parameters.normal_scale == 0x3f80_0000
                    &&& own.occlusion_strength matches Some(strength)
                        ==> parameters.occlusion_strength == strength
                    &&& own.occlusion_strength is None ==> parameters.occlusion_strength
                        == 0x3f80_0000
                    &&& own.alpha_cutoff matches Some(cutoff) ==> parameters.alpha_cutoff == cutoff
                    &&& own.alpha_cutoff is None ==> parameters.alpha_cutoff == 0x3f00_0000
                    &&& own.double_sided ==> parameters.flags == double_sided_flag
                    &&& !own.double_sided ==> parameters.flags == 0
                },
                None => {
                    &&& parameters.base_color_factor@ == seq![
                        0x3f80_0000u32,
                        0x3f80_0000u32,
                        0x3f80_0000u32,
                        0x3f80_0000u32,
                    ]
                    &&& parameters.emissive_factor@ == seq![0u32, 0u32, 0u32]
                    &&& parameters.normal_scale == 0x3f80_0000
                    &&& parameters.metallic_factor == 0x3f80_0000
                    &&& parameters.roughness_factor == 0x3f80_0000
                    &&& parameters.occlusion_strength == 0x3f80_0000
                    &&& parameters.alpha_cutoff == 0x3f00_0000
                    &&& parameters.flags == 0
                },
            }
        }),
{
}

/// Primitives have one topology exactly where there is one and all have it; and
/// the whole mesh is visible from behind where any of them is.
pub proof fn lemma_what_primitives_agree_on(
    primitives: Seq<PreparedPrimitive>,
    topology: PrimitiveTopology,
)
    ensures
        common_topology(primitives) == Some(topology) <==> primitives.len() > 0 && forall|p: int|
            0 <= p < primitives.len() ==> (#[trigger] primitives[p]).topology == topology,
        any_double_sided(primitives) <==> !(forall|p: int|
            0 <= p < primitives.len() ==> !(#[trigger] primitives[p]).double_sided),
{
    if primitives.len() > 0 && forall|p: int|
        0 <= p < primitives.len() ==> (#[trigger] primitives[p]).topology == topology {
        assert(primitives[0].topology == topology);
    }
    if common_topology(primitives) == Some(topology) {
        assert forall|p: int| 0 <= p < primitives.len() implies (
        #[trigger] primitives[p]).topology == topology by {
            assert(primitives[p].topology == primitives[0].topology);
        }
    }
}

/// A role has a texture exactly where the material has one for it; it holds the
/// image's own bytes and is named after the asset, the role and the encoding.
/// An image that cannot be loaded is told by its role.
pub proof fn lemma_textures_hold_their_images(
    asset: Seq<char>,
    role: MaterialRole,
    texture: Option<TextureUse>,
    buffers: Seq<Vec<u8>>,
    file: Option<Seq<u8>>,
)
    ensures
        ({
            let outcome = texture_outcome(asset, role, texture, buffers, file);
            &&& texture is None ==> outcome == Ok::<Option<TextureContents>, MaterialRole>(None)
            &&& texture matches Some(used) ==> match image_with_file(used.image, buffers, file) {
                ImageContents::Loaded { extension, bytes } => {
                    &&& outcome matches Ok(Some(loaded))
                    &&& loaded.bytes == bytes
                    &&& loaded.name == asset + seq!['.'] + role.text() + seq!['.'] + extension
                },
                _ => outcome == Err::<Option<TextureContents>, MaterialRole>(role),
            }
        }),
{
    reveal_strlit(".");
    assert("."@ =~= seq!['.']);
}

/// Each role of a material gets its own texture with its own file; and where
/// one cannot be loaded, the first such role is told.
pub proof fn lemma_each_role_gets_its_texture(
    asset: Seq<char>,
    material: MaterialUse,
    buffers: Seq<Vec<u8>>,
    files: ImageFiles,
)
    ensures
        ({
            let a = texture_outcome(
                asset,
                MaterialRole::BaseColor,
                material.base_color,
                buffers,
                bytes_of(files.base_color),
            );
            let b = texture_outcome(
                asset,
                MaterialRole::MetallicRoughness,
                material.metallic_roughness,
                buffers,
                bytes_of(files.metallic_roughness),
            );
            let c = texture_outcome(
                asset,
                MaterialRole::Emissive,
                material.emissive,
                buffers,
                bytes_of(files.emissive),
            );
            let d = texture_outcome(
                asset,
                MaterialRole::Occlusion,
                material.occlusion,
                buffers,
                bytes_of(files.occlusion),
            );
            let e = texture_outcome(
                asset,
                MaterialRole::Normal,
                material.normal,
                buffers,
                bytes_of(files.normal),
            );
            let all = textures_outcome(asset, material, buffers, files);
            &&& all is Ok <==> a is Ok && b is Ok && c is Ok && d is Ok && e is Ok
            &&& all matches Ok(textures) ==> {
                &&& a == Ok::<Option<TextureContents>, MaterialRole>(textures.base_color)
                &&& b == Ok::<Option<TextureContents>, MaterialRole>(textures.metallic_roughness)
                &&& c == Ok::<Option<TextureContents>, MaterialRole>(textures.emissive)
                &&& d == Ok::<Option<TextureContents>, MaterialRole>(textures.occlusion)
                &&& e == Ok::<Option<TextureContents>, MaterialRole>(textures.normal)
            }
            &&& all matches Err(role) ==> {
                &&& role == MaterialRole::BaseColor <==> a is Err
                &&& role == MaterialRole::MetallicRoughness <==> a is Ok && b is Err
                &&& role == MaterialRole::Emissive <==> a is Ok && b is Ok && c is Err
                &&& role == MaterialRole::Occlusion <==> a is Ok && b is Ok && c is Ok && d is Err
            }
        }),
{
}

/// A role that is left empty in a catalog entry has neither name nor bytes; any
/// other has the texture that was baked for it.
pub proof fn lemma_empty_roles_hold_nothing(
    texture: PreparedTexture,
    baked: Option<PreparedTexture>,
)
    requires
        texture_stands(texture, baked),
    ensures
        baked is None ==> texture.name@.len() == 0 && texture.bytes@.len() == 0,
        baked matches Some(own) ==> texture == own,
{
}

/// What is said of a material is said of its own fields.
pub proof fn lemma_materials_are_seen_as_they_are(material: SourceMaterial)
    ensures
        ({
            let seen = |texture: Option<SourceTexture>, used: Option<TextureUse>|
                match texture {
                    Some(own) => used == Some(
                        TextureUse {
                            coordinates: own.coordinates,
                            repeats_s: own.repeats_s,
                            repeats_t: own.repeats_t,
                            image: own.image@,
                        },
                    ),
                    None => used is None,
                };
            &&& seen(material.base_color, material@.base_color)
            &&& seen(material.metallic_roughness, material@.metallic_roughness)
            &&& seen(material.emissive, material@.emissive)
            &&& seen(material.occlusion, material@.occlusion)
            &&& seen(material.normal, material@.normal)
            &&& material@.opaque == material.opaque
            &&& material@.base_color_factor == material.base_color_factor
            &&& material@.emissive_factor == material.emissive_factor
            &&& material@.normal_scale == material.normal_scale
            &&& material@.metallic_factor == material.metallic_factor
            &&& material@.roughness_factor == material.roughness_factor
            &&& material@.occlusion_strength == material.occlusion_strength
            &&& material@.alpha_cutoff == material.alpha_cutoff
            &&& material@.double_sided == material.double_sided
        }),
{
}

/// What was loaded of a material is seen as it is.
pub proof fn lemma_textures_are_seen_as_they_are(
    texture: LoadedTexture,
    textures: LoadedTextures,
    material: SourceMaterial,
    role: MaterialRole,
)
    ensures
        texture@.name == texture.name@,
        texture@.bytes == texture.bytes@,
        loaded_contents(Some(texture)) == Some(texture@),
        loaded_contents(None) is None,
        loaded_of(Ok(Some(texture))) == Ok::<Option<TextureContents>, MaterialRole>(
            Some(texture@),
        ),
        loaded_of(Err(role)) == Err::<Option<TextureContents>, MaterialRole>(role),
        textures@.base_color == loaded_contents(textures.base_color),
        textures@.metallic_roughness == loaded_contents(textures.metallic_roughness),
        textures@.emissive == loaded_contents(textures.emissive),
        textures@.occlusion == loaded_contents(textures.occlusion),
        textures@.normal == loaded_contents(textures.normal),
        textures_of(Ok(textures)) == Ok::<TexturesContents, MaterialRole>(textures@),
        textures_of(Err(role)) == Err::<TexturesContents, MaterialRole>(role),
        optional_material(Some(&material)) == Some(material@),
        optional_material(None) is None,
{
}

/// Whether a material is sampled rests on its base colour alone.
pub proof fn lemma_a_base_colour_is_sampled(base_color: Option<PreparedTexture>)
    ensures
        (ENABLE_SAMPLED_MATERIAL && base_color is Some) <==> base_color is Some,
{
}

/// An entry counts the whole records and the whole indices of its buffers,
/// belongs to the helmet program only in the first slot, is sampled exactly
/// where it has a base colour, and is drawn from both sides where any of its
/// primitives is.
pub proof fn lemma_entries_tell_of_their_buffers(
    asset: PreparedAsset,
    slot: usize,
    buffers: BakedBuffers,
    textures: BakedTextures,
    parameters: RetainedMaterialParameters,
)
    requires
        0 < buffers.vertex_stride,
        makes_entry(asset, slot, buffers, textures, parameters),
    ensures
        asset.vertices@ == buffers.vertices@,
        asset.indices@ == buffers.indices@,
        asset.primitives@ == buffers.primitives@,
        asset.vertex_stride == buffers.vertex_stride,
        asset.vertex_stride * asset.vertex_count <= asset.vertices@.len() < asset.vertex_stride * (
        asset.vertex_count + 1),
        4 * asset.index_count <= asset.indices@.len() < 4 * asset.index_count + 4,
        asset.helmet_program <==> slot == 0,
        asset.sampled_material <==> textures.base_color is Some,
        asset.retained_double_sided <==> exists|p: int|
            0 <= p < asset.primitives@.len() && (#[trigger] asset.primitives@[p]).double_sided,
        asset.retained_topology matches Some(topology) ==> forall|p: int|
            0 <= p < asset.primitives@.len() ==> (#[trigger] asset.primitives@[p]).topology
                == topology,
        asset.material.parameters == parameters,
        textures.base_color matches Some(own) ==> asset.material.base_color == own,
        textures.metallic_roughness matches Some(own) ==> asset.material.metallic_roughness == own,
        textures.emissive matches Some(own) ==> asset.material.emissive == own,
        textures.occlusion matches Some(own) ==> asset.material.occlusion == own,
        textures.normal matches Some(own) ==> asset.material.normal == own,
{
    let (length, size) = (buffers.vertices@.len() as int, buffers.vertex_stride as int);
    let count = length / size;
    assert(size * count <= length < size * (count + 1)) by (nonlinear_arith)
        requires
            size > 0,
            length >= 0,
            count == length / size,
    ;
    assert forall|topology: PrimitiveTopology|
        asset.retained_topology == Some(topology) implies forall|p: int|
        0 <= p < asset.primitives@.len() ==> (#[trigger] asset.primitives@[p]).topology
            == topology by {
        lemma_what_primitives_agree_on(buffers.primitives@, topology);
    }
}

} // verus!
