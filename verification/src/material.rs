//! Material parameters, their byte image, and the textures of a material.
use crate::asset::{PreparedMaterial, PreparedTexture};
use crate::bits::{bytes_equal, numbers_equal, push_word, read_word};
#[allow(unused_imports)]
use crate::bits::{
    lemma_words_bytes, lemma_words_from_bytes, same_number, same_numbers, word_at, words_bytes,
};
use crate::error::GeometryProbeError;
use vstd::prelude::*;

verus! {

/// The length of a parameter image.
pub const PARAMETER_BYTES: usize = 64;

/// The scalars of a material.  Every word but the last four is the bit pattern
/// of a single-precision number.
#[derive(Clone, Copy, Debug)]
pub struct RetainedMaterialParameters {
    pub base_color_factor: [u32; 4],
    pub emissive_factor: [u32; 3],
    pub normal_scale: u32,
    pub metallic_factor: u32,
    pub roughness_factor: u32,
    pub occlusion_strength: u32,
    pub alpha_cutoff: u32,
    pub flags: u32,
    pub reserved: [u32; 3],
}

impl RetainedMaterialParameters {
    /// The bit patterns of the numeric parameters, in image order.
    pub open spec fn numbers(self) -> Seq<u32> {
        seq![
            self.base_color_factor[0],
            self.base_color_factor[1],
            self.base_color_factor[2],
            self.base_color_factor[3],
            self.emissive_factor[0],
            self.emissive_factor[1],
            self.emissive_factor[2],
            self.normal_scale,
            self.metallic_factor,
            self.roughness_factor,
            self.occlusion_strength,
            self.alpha_cutoff,
        ]
    }

    /// The integer words that follow the numbers.
    pub open spec fn integers(self) -> Seq<u32> {
        seq![self.flags, self.reserved[0], self.reserved[1], self.reserved[2]]
    }

    /// All sixteen words, in image order.
    pub open spec fn words(self) -> Seq<u32> {
        self.numbers() + self.integers()
    }

    /// The byte image of the parameters.
    pub open spec fn image(self) -> Seq<u8> {
        words_bytes(self.words())
    }

    /// Whether no numeric parameter is a NaN.
    pub open spec fn is_number(self) -> bool {
        forall|i: int| 0 <= i < 12 ==> !crate::bits::is_nan(#[trigger] self.numbers()[i])
    }
}

/// Equality of two parameter blocks as numbers and integers.
pub open spec fn same_parameters(
    left: RetainedMaterialParameters,
    right: RetainedMaterialParameters,
) -> bool {
    same_numbers(left.numbers(), right.numbers()) && left.integers() == right.integers()
}

/// The parameters whose byte image is `bytes`, where there are any.
pub open spec fn parameters_of(bytes: Seq<u8>) -> Option<RetainedMaterialParameters> {
    if bytes.len() == PARAMETER_BYTES {
        Some(
            RetainedMaterialParameters {
                base_color_factor: [
                    word_at(bytes, 0),
                    word_at(bytes, 4),
                    word_at(bytes, 8),
                    word_at(bytes, 12),
                ],
                emissive_factor: [word_at(bytes, 16), word_at(bytes, 20), word_at(bytes, 24)],
                normal_scale: word_at(bytes, 28),
                metallic_factor: word_at(bytes, 32),
                roughness_factor: word_at(bytes, 36),
                occlusion_strength: word_at(bytes, 40),
                alpha_cutoff: word_at(bytes, 44),
                flags: word_at(bytes, 48),
                reserved: [word_at(bytes, 52), word_at(bytes, 56), word_at(bytes, 60)],
            },
        )
    } else {
        None
    }
}

impl PartialEq for RetainedMaterialParameters {
    fn eq(&self, other: &Self) -> (equal: bool) {
        let equal = numbers_equal(self.base_color_factor[0], other.base_color_factor[0])
            && numbers_equal(self.base_color_factor[1], other.base_color_factor[1])
            && numbers_equal(self.base_color_factor[2], other.base_color_factor[2])
            && numbers_equal(self.base_color_factor[3], other.base_color_factor[3])
            && numbers_equal(self.emissive_factor[0], other.emissive_factor[0])
            && numbers_equal(self.emissive_factor[1], other.emissive_factor[1])
            && numbers_equal(self.emissive_factor[2], other.emissive_factor[2])
            && numbers_equal(self.normal_scale, other.normal_scale)
            && numbers_equal(self.metallic_factor, other.metallic_factor)
            && numbers_equal(self.roughness_factor, other.roughness_factor)
            && numbers_equal(self.occlusion_strength, other.occlusion_strength)
            && numbers_equal(self.alpha_cutoff, other.alpha_cutoff)
            && self.flags == other.flags
            && self.reserved[0] == other.reserved[0]
            && self.reserved[1] == other.reserved[1]
            && self.reserved[2] == other.reserved[2];
        proof {
            lemma_same_parameters(*self, *other);
        }
        equal
    }
}

impl vstd::std_specs::cmp::PartialEqSpecImpl for RetainedMaterialParameters {
    open spec fn obeys_eq_spec() -> bool {
        true
    }

    open spec fn eq_spec(&self, other: &Self) -> bool {
        same_parameters(*self, *other)
    }
}

/// [`same_parameters`], word by word.
proof fn lemma_same_parameters(left: RetainedMaterialParameters, right: RetainedMaterialParameters)
    ensures
        same_parameters(left, right) == {
            &&& same_number(left.base_color_factor[0], right.base_color_factor[0])
            &&& same_number(left.base_color_factor[1], right.base_color_factor[1])
            &&& same_number(left.base_color_factor[2], right.base_color_factor[2])
            &&& same_number(left.base_color_factor[3], right.base_color_factor[3])
            &&& same_number(left.emissive_factor[0], right.emissive_factor[0])
            &&& same_number(left.emissive_factor[1], right.emissive_factor[1])
            &&& same_number(left.emissive_factor[2], right.emissive_factor[2])
            &&& same_number(left.normal_scale, right.normal_scale)
            &&& same_number(left.metallic_factor, right.metallic_factor)
            &&& same_number(left.roughness_factor, right.roughness_factor)
            &&& same_number(left.occlusion_strength, right.occlusion_strength)
            &&& same_number(left.alpha_cutoff, right.alpha_cutoff)
            &&& left.flags == right.flags
            &&& left.reserved[0] == right.reserved[0]
            &&& left.reserved[1] == right.reserved[1]
            &&& left.reserved[2] == right.reserved[2]
        },
{
    let (a, b) = (left.numbers(), right.numbers());
    let (c, d) = (left.integers(), right.integers());
    if same_parameters(left, right) {
        assert forall|i: int| 0 <= i < 12 implies same_number(#[trigger] a[i], b[i]) by {}
        assert(a[0] == left.base_color_factor[0] && a[1] == left.base_color_factor[1] && a[2]
            == left.base_color_factor[2] && a[3] == left.base_color_factor[3] && a[4]
            == left.emissive_factor[0] && a[5] == left.emissive_factor[1] && a[6]
            == left.emissive_factor[2] && a[7] == left.normal_scale && a[8]
            == left.metallic_factor && a[9] == left.roughness_factor && a[10]
            == left.occlusion_strength && a[11] == left.alpha_cutoff);
        assert(c[0] == d[0] && c[1] == d[1] && c[2] == d[2] && c[3] == d[3]);
    } else if left.flags == right.flags && left.reserved[0] == right.reserved[0]
        && left.reserved[1] == right.reserved[1] && left.reserved[2] == right.reserved[2] {
        assert(c =~= d);
        let i = choose|i: int| 0 <= i < 12 && !same_number(#[trigger] a[i], b[i]);
        assert(!same_number(a[i], b[i]));
    }
}

/// Write a parameter block as its byte image: the numbers first, then the
/// flags and the reserved words, each little-endian.
pub fn material_parameter_bytes(parameters: &RetainedMaterialParameters) -> (bytes: Vec<u8>)
    ensures
        bytes@ == parameters.image(),
        bytes@.len() == PARAMETER_BYTES,
{
    let words: [u32; 16] = [
        parameters.base_color_factor[0],
        parameters.base_color_factor[1],
        parameters.base_color_factor[2],
        parameters.base_color_factor[3],
        parameters.emissive_factor[0],
        parameters.emissive_factor[1],
        parameters.emissive_factor[2],
        parameters.normal_scale,
        parameters.metallic_factor,
        parameters.roughness_factor,
        parameters.occlusion_strength,
        parameters.alpha_cutoff,
        parameters.flags,
        parameters.reserved[0],
        parameters.reserved[1],
        parameters.reserved[2],
    ];
    assert(words@ =~= parameters.words());
    let mut bytes: Vec<u8> = Vec::with_capacity(PARAMETER_BYTES);
    let mut i: usize = 0;
    while i < 16
        invariant
            i <= 16,
            words@.len() == 16,
            bytes@ == words_bytes(words@.take(i as int)),
        decreases 16 - i,
    {
        push_word(&mut bytes, words[i]);
        assert(words@.take(i + 1).drop_last() =~= words@.take(i as int));
        i += 1;
    }
    assert(words@.take(16) =~= words@);
    proof {
        lemma_words_bytes(words@);
    }
    bytes
}

/// Read a parameter block back from its byte image.  Anything but an image of
/// the exact length is refused.
pub fn material_parameters_from_bytes(bytes: &[u8]) -> (parameters: Option<
    RetainedMaterialParameters,
>)
    ensures
        parameters == parameters_of(bytes@),
{
    if bytes.len() != PARAMETER_BYTES {
        return None;
    }
    Some(
        RetainedMaterialParameters {
            base_color_factor: [
                read_word(bytes, 0),
                read_word(bytes, 4),
                read_word(bytes, 8),
                read_word(bytes, 12),
            ],
            emissive_factor: [read_word(bytes, 16), read_word(bytes, 20), read_word(bytes, 24)],
            normal_scale: read_word(bytes, 28),
            metallic_factor: read_word(bytes, 32),
            roughness_factor: read_word(bytes, 36),
            occlusion_strength: read_word(bytes, 40),
            alpha_cutoff: read_word(bytes, 44),
            flags: read_word(bytes, 48),
            reserved: [read_word(bytes, 52), read_word(bytes, 56), read_word(bytes, 60)],
        },
    )
}

/// Reading the image of a parameter block gives the block back, bit for bit.
pub proof fn lemma_parameters_survive(parameters: RetainedMaterialParameters)
    ensures
        parameters.image().len() == PARAMETER_BYTES,
        parameters_of(parameters.image()) == Some(parameters),
{
    let words = parameters.words();
    let image = parameters.image();
    lemma_words_bytes(words);
    assert forall|k: int| 0 <= k < 16 implies word_at(image, 4 * k) == #[trigger] words[k] by {}
    let read = parameters_of(image)->Some_0;
    assert(words[0] == word_at(image, 0) && words[1] == word_at(image, 4) && words[2] == word_at(
        image,
        8,
    ) && words[3] == word_at(image, 12));
    assert(words[4] == word_at(image, 16) && words[5] == word_at(image, 20) && words[6] == word_at(
        image,
        24,
    ));
    assert(words[7] == word_at(image, 28) && words[8] == word_at(image, 32) && words[9] == word_at(
        image,
        36,
    ) && words[10] == word_at(image, 40) && words[11] == word_at(image, 44));
    assert(words[12] == word_at(image, 48) && words[13] == word_at(image, 52) && words[14]
        == word_at(image, 56) && words[15] == word_at(image, 60));
    assert(read.base_color_factor =~= parameters.base_color_factor);
    assert(read.emissive_factor =~= parameters.emissive_factor);
    assert(read.reserved =~= parameters.reserved);
}

/// Every image of the exact length is the image of the block read from it.
pub proof fn lemma_images_survive(bytes: Seq<u8>)
    requires
        bytes.len() == PARAMETER_BYTES,
    ensures
        parameters_of(bytes) matches Some(parameters) && parameters.image() == bytes,
{
    let words = parameters_of(bytes)->Some_0.words();
    assert forall|k: int| 0 <= k < 16 implies #[trigger] words[k] == word_at(bytes, 4 * k) by {}
    lemma_words_from_bytes(bytes, words);
}

/// The textures of a material, by what they modulate.
#[derive(Clone, Copy, Debug, PartialEq, Eq, Structural)]
pub enum MaterialRole {
    BaseColor,
    MetallicRoughness,
    Emissive,
    Occlusion,
    Normal,
}

impl MaterialRole {
    /// The place of the role among the five.
    pub open spec fn index(self) -> int {
        match self {
            MaterialRole::BaseColor => 0,
            MaterialRole::MetallicRoughness => 1,
            MaterialRole::Emissive => 2,
            MaterialRole::Occlusion => 3,
            MaterialRole::Normal => 4,
        }
    }

    /// The name of the role.
    pub open spec fn text(self) -> Seq<char> {
        match self {
            MaterialRole::BaseColor => "base-color"@,
            MaterialRole::MetallicRoughness => "metallic-roughness"@,
            MaterialRole::Emissive => "emissive"@,
            MaterialRole::Occlusion => "occlusion"@,
            MaterialRole::Normal => "normal"@,
        }
    }

    /// The role that follows, if any.
    pub open spec fn successor(self) -> Option<MaterialRole> {
        match self {
            MaterialRole::BaseColor => Some(MaterialRole::MetallicRoughness),
            MaterialRole::MetallicRoughness => Some(MaterialRole::Emissive),
            MaterialRole::Emissive => Some(MaterialRole::Occlusion),
            MaterialRole::Occlusion => Some(MaterialRole::Normal),
            MaterialRole::Normal => None,
        }
    }

    /// The name of the role.
    pub fn name(self) -> (name: &'static str)
        ensures
            name@ == self.text(),
    {
        match self {
            MaterialRole::BaseColor => "base-color",
            MaterialRole::MetallicRoughness => "metallic-roughness",
            MaterialRole::Emissive => "emissive",
            MaterialRole::Occlusion => "occlusion",
            MaterialRole::Normal => "normal",
        }
    }

    /// The role that follows, if any.
    pub fn next(self) -> (role: Option<MaterialRole>)
        ensures
            role == self.successor(),
    {
        match self {
            MaterialRole::BaseColor => Some(MaterialRole::MetallicRoughness),
            MaterialRole::MetallicRoughness => Some(MaterialRole::Emissive),
            MaterialRole::Emissive => Some(MaterialRole::Occlusion),
            MaterialRole::Occlusion => Some(MaterialRole::Normal),
            MaterialRole::Normal => None,
        }
    }
}

impl PreparedMaterial {
    /// The texture of a role.
    pub fn texture(&self, role: MaterialRole) -> (texture: &PreparedTexture)
        ensures
            *texture == self.textures()[role.index()],
            texture.bytes@ == self.maps()[role.index()],
    {
        match role {
            MaterialRole::BaseColor => &self.base_color,
            MaterialRole::MetallicRoughness => &self.metallic_roughness,
            MaterialRole::Emissive => &self.emissive,
            MaterialRole::Occlusion => &self.occlusion,
            MaterialRole::Normal => &self.normal,
        }
    }
}

/// A material as it was read back from the asset database.
pub struct DatabasePreparedMaterial {
    pub base_color: Vec<u8>,
    pub metallic_roughness: Vec<u8>,
    pub emissive: Vec<u8>,
    pub occlusion: Vec<u8>,
    pub normal: Vec<u8>,
    pub parameters: RetainedMaterialParameters,
}

impl DatabasePreparedMaterial {
    /// The bytes of the five textures, in the order of [`MaterialRole`].
    pub open spec fn maps(self) -> Seq<Seq<u8>> {
        seq![
            self.base_color@,
            self.metallic_roughness@,
            self.emissive@,
            self.occlusion@,
            self.normal@,
        ]
    }

    /// The bytes of a role's texture.
    pub fn map(&self, role: MaterialRole) -> (bytes: &Vec<u8>)
        ensures
            bytes@ == self.maps()[role.index()],
    {
        match role {
            MaterialRole::BaseColor => &self.base_color,
            MaterialRole::MetallicRoughness => &self.metallic_roughness,
            MaterialRole::Emissive => &self.emissive,
            MaterialRole::Occlusion => &self.occlusion,
            MaterialRole::Normal => &self.normal,
        }
    }
}

/// Whether the material that was read back is the prepared one: the same bytes
/// in every role, and equal parameters.
pub fn material_matches(runtime: &DatabasePreparedMaterial, prepared: &PreparedMaterial) -> (matches: bool)
    ensures
        matches == (runtime.maps() == prepared.maps() && same_parameters(
            runtime.parameters,
            prepared.parameters,
        )),
{
    let matches = bytes_equal(&runtime.base_color, prepared.base_color.bytes) && bytes_equal(
        &runtime.metallic_roughness,
        prepared.metallic_roughness.bytes,
    ) && bytes_equal(&runtime.emissive, prepared.emissive.bytes) && bytes_equal(
        &runtime.occlusion,
        prepared.occlusion.bytes,
    ) && bytes_equal(&runtime.normal, prepared.normal.bytes);
    proof {
        let (a, b) = (runtime.maps(), prepared.maps());
        if matches {
            assert(a =~= b);
        } else if a == b {
            assert(a[0] == b[0] && a[1] == b[1] && a[2] == b[2] && a[3] == b[3] && a[4] == b[4]);
        }
    }
    matches && runtime.parameters == prepared.parameters
}

/// The device textures of a material: the handle of each role that has one.
#[derive(Clone, Copy, Debug, PartialEq, Eq, Structural)]
pub struct ResidentMaterial {
    pub base_color: Option<u64>,
    pub metallic_roughness: Option<u64>,
    pub emissive: Option<u64>,
    pub occlusion: Option<u64>,
    pub normal: Option<u64>,
}

/// A handle, or the zero that stands for none.
pub open spec fn id_or_zero(texture: Option<u64>) -> u64 {
    match texture {
        Some(id) => id,
        None => 0,
    }
}

fn texture_id(texture: Option<u64>) -> (id: u64)
    ensures
        id == id_or_zero(texture),
{
    match texture {
        Some(id) => id,
        None => 0,
    }
}

impl ResidentMaterial {
    /// The handles, in the order of [`MaterialRole`].
    pub open spec fn slots(self) -> Seq<Option<u64>> {
        seq![
            self.base_color,
            self.metallic_roughness,
            self.emissive,
            self.occlusion,
            self.normal,
        ]
    }
}

/// The texture handles of a submission: zeros for an unsampled material, else
/// the handle of each role, or zero where the role has none.
pub fn retained_material_texture_ids(material: &ResidentMaterial, sampled: bool) -> (ids: [u64; 5])
    ensures
        ids@ == Seq::new(
            5,
            |i: int|
                if sampled {
                    id_or_zero(material.slots()[i])
                } else {
                    0
                },
        ),
{
    if !sampled {
        let ids: [u64; 5] = [0u64, 0, 0, 0, 0];
        assert(ids@ =~= Seq::new(5, |i: int| 0u64));
        assert(ids@ =~= Seq::new(
            5,
            |i: int|
                if sampled {
                    id_or_zero(material.slots()[i])
                } else {
                    0
                },
        ));
        return ids;
    }
    let ids: [u64; 5] = [
        texture_id(material.base_color),
        texture_id(material.metallic_roughness),
        texture_id(material.emissive),
        texture_id(material.occlusion),
        texture_id(material.normal),
    ];
    assert(ids@ =~= Seq::new(
        5,
        |i: int|
            if sampled {
                id_or_zero(material.slots()[i])
            } else {
                0
            },
    ));
    ids
}

/// Whether a role's texture has to be decoded.  A role without prepared bytes
/// must have none at run time either; a role with them must be named and have
/// as many bytes as were prepared.
pub fn texture_to_decode(prepared: &PreparedTexture, encoded: &[u8]) -> (needed: Result<
    bool,
    GeometryProbeError,
>)
    ensures
        needed == texture_need(*prepared, encoded@),
{
    if prepared.bytes.len() == 0 {
        if encoded.len() == 0 {
            Ok(false)
        } else {
            Err(GeometryProbeError::Contract)
        }
    } else if prepared.name.is_empty() || encoded.len() != prepared.bytes.len() {
        Err(GeometryProbeError::Contract)
    } else {
        Ok(true)
    }
}

/// What [`texture_to_decode`] answers.
pub open spec fn texture_need(prepared: PreparedTexture, encoded: Seq<u8>) -> Result<
    bool,
    GeometryProbeError,
> {
    if prepared.bytes@.len() == 0 && encoded.len() == 0 {
        Ok(false)
    } else if prepared.bytes@.len() == 0 || prepared.name@.len() == 0 || encoded.len()
        != prepared.bytes@.len() {
        Err(GeometryProbeError::Contract)
    } else {
        Ok(true)
    }
}

/// The resident texture of a role, given what the decoder said of its bytes.
/// The decoder's answer counts only where there is something to decode.
pub fn decode_material_texture(
    prepared: &PreparedTexture,
    encoded: &[u8],
    decoded: Result<u64, i32>,
) -> (texture: Result<Option<u64>, GeometryProbeError>)
    ensures
        texture == decoded_texture(*prepared, encoded@, decoded),
{
    match texture_to_decode(prepared, encoded) {
        Err(error) => Err(error),
        Ok(false) => Ok(None),
        Ok(true) => match decoded {
            Ok(id) => Ok(Some(id)),
            Err(code) => Err(GeometryProbeError::Vgpu("material-texture-decode", code)),
        },
    }
}

/// What [`decode_material_texture`] answers.
pub open spec fn decoded_texture(
    prepared: PreparedTexture,
    encoded: Seq<u8>,
    decoded: Result<u64, i32>,
) -> Result<Option<u64>, GeometryProbeError> {
    match texture_need(prepared, encoded) {
        Err(error) => Err(error),
        Ok(needed) => if !needed {
            Ok(None)
        } else {
            match decoded {
                Ok(id) => Ok(Some(id)),
                Err(code) => Err(GeometryProbeError::Vgpu("material-texture-decode", code)),
            }
        },
    }
}

/// Each parameter has a place of its own in the image, by which it is found
/// there and read from there.
pub proof fn lemma_parameters_have_their_places(parameters: RetainedMaterialParameters)
    ensures
        ({
            let image = parameters.image();
            &&& image.len() == 64
            &&& word_at(image, 0) == parameters.base_color_factor[0]
            &&& word_at(image, 4) == parameters.base_color_factor[1]
            &&& word_at(image, 8) == parameters.base_color_factor[2]
            &&& word_at(image, 12) == parameters.base_color_factor[3]
            &&& word_at(image, 16) == parameters.emissive_factor[0]
            &&& word_at(image, 20) == parameters.emissive_factor[1]
            &&& word_at(image, 24) == parameters.emissive_factor[2]
            &&& word_at(image, 28) == parameters.normal_scale
            &&& word_at(image, 32) == parameters.metallic_factor
            &&& word_at(image, 36) == parameters.roughness_factor
            &&& word_at(image, 40) == parameters.occlusion_strength
            &&& word_at(image, 44) == parameters.alpha_cutoff
            &&& word_at(image, 48) == parameters.flags
            &&& word_at(image, 52) == parameters.reserved[0]
            &&& word_at(image, 56) == parameters.reserved[1]
            &&& word_at(image, 60) == parameters.reserved[2]
        }),
{
    let words = parameters.words();
    lemma_words_bytes(words);
    assert forall|k: int| 0 <= k < 16 implies word_at(parameters.image(), 4 * k)
        == #[trigger] words[k] by {}
    assert(words[0] == parameters.base_color_factor[0] && words[1]
        == parameters.base_color_factor[1] && words[2] == parameters.base_color_factor[2]
        && words[3] == parameters.base_color_factor[3]);
    assert(words[4] == parameters.emissive_factor[0] && words[5] == parameters.emissive_factor[1]
        && words[6] == parameters.emissive_factor[2] && words[7] == parameters.normal_scale);
    assert(words[8] == parameters.metallic_factor && words[9] == parameters.roughness_factor
        && words[10] == parameters.occlusion_strength && words[11] == parameters.alpha_cutoff);
    assert(words[12] == parameters.flags && words[13] == parameters.reserved[0] && words[14]
        == parameters.reserved[1] && words[15] == parameters.reserved[2]);
}

/// Only images of sixteen words are parameters.
pub proof fn lemma_only_whole_images_are_read(bytes: Seq<u8>)
    ensures
        parameters_of(bytes) is Some <==> bytes.len() == 64,
{
}

/// Parameters are equal exactly where every number is equal as a number and
/// every other word is the same.
pub proof fn lemma_parameters_are_compared_one_by_one(
    left: RetainedMaterialParameters,
    right: RetainedMaterialParameters,
)
    ensures
        same_parameters(left, right) <==> {
            &&& forall|i: int|
                0 <= i < 4 ==> #[trigger] same_number(
                    left.base_color_factor@[i],
                    right.base_color_factor@[i],
                )
            &&& forall|i: int|
                0 <= i < 3 ==> #[trigger] same_number(
                    left.emissive_factor@[i],
                    right.emissive_factor@[i],
                )
            &&& same_number(left.normal_scale, right.normal_scale)
            &&& same_number(left.metallic_factor, right.metallic_factor)
            &&& same_number(left.roughness_factor, right.roughness_factor)
            &&& same_number(left.occlusion_strength, right.occlusion_strength)
            &&& same_number(left.alpha_cutoff, right.alpha_cutoff)
            &&& left.flags == right.flags
            &&& left.reserved@ == right.reserved@
        },
{
    lemma_same_parameters(left, right);
    assert(left.reserved@ =~= right.reserved@ <==> left.reserved[0] == right.reserved[0]
        && left.reserved[1] == right.reserved[1] && left.reserved[2] == right.reserved[2]);
    let (a, b) = (left.base_color_factor@, right.base_color_factor@);
    let (c, d) = (left.emissive_factor@, right.emissive_factor@);
    if same_parameters(left, right) {
        assert forall|i: int| 0 <= i < 4 implies #[trigger] same_number(a[i], b[i]) by {
            assert(i == 0 || i == 1 || i == 2 || i == 3);
        }
        assert forall|i: int| 0 <= i < 3 implies #[trigger] same_number(c[i], d[i]) by {
            assert(i == 0 || i == 1 || i == 2);
        }
    } else if (forall|i: int| 0 <= i < 4 ==> #[trigger] same_number(a[i], b[i])) && (forall|i: int|
        0 <= i < 3 ==> #[trigger] same_number(c[i], d[i])) {
        assert(same_number(a[0], b[0]) && same_number(a[1], b[1]) && same_number(a[2], b[2])
            && same_number(a[3], b[3]));
        assert(same_number(c[0], d[0]) && same_number(c[1], d[1]) && same_number(c[2], d[2]));
    }
}

/// The five roles stand one after another, and every list of a material has
/// the entry of each role at its place.
pub proof fn lemma_roles_have_their_places(
    role: MaterialRole,
    prepared: PreparedMaterial,
    runtime: DatabasePreparedMaterial,
    resident: ResidentMaterial,
)
    ensures
        0 <= role.index() < 5,
        role.successor() is None <==> role.index() == 4,
        role.successor() matches Some(next) ==> next.index() == role.index() + 1,
        prepared.textures().len() == 5,
        prepared.maps().len() == 5,
        runtime.maps().len() == 5,
        resident.slots().len() == 5,
        prepared.maps()[role.index()] == prepared.textures()[role.index()].bytes@,
        match role {
            MaterialRole::BaseColor => {
                &&& role.index() == 0
                &&& role.text() == "base-color"@
                &&& prepared.textures()[role.index()] == prepared.base_color
                &&& runtime.maps()[role.index()] == runtime.base_color@
                &&& resident.slots()[role.index()] == resident.base_color
            },
            MaterialRole::MetallicRoughness => {
                &&& role.index() == 1
                &&& role.text() == "metallic-roughness"@
                &&& prepared.textures()[role.index()] == prepared.metallic_roughness
                &&& runtime.maps()[role.index()] == runtime.metallic_roughness@
                &&& resident.slots()[role.index()] == resident.metallic_roughness
            },
            MaterialRole::Emissive => {
                &&& role.index() == 2
                &&& role.text() == "emissive"@
                &&& prepared.textures()[role.index()] == prepared.emissive
                &&& runtime.maps()[role.index()] == runtime.emissive@
                &&& resident.slots()[role.index()] == resident.emissive
            },
            MaterialRole::Occlusion => {
                &&& role.index() == 3
                &&& role.text() == "occlusion"@
                &&& prepared.textures()[role.index()] == prepared.occlusion
                &&& runtime.maps()[role.index()] == runtime.occlusion@
                &&& resident.slots()[role.index()] == resident.occlusion
            },
            MaterialRole::Normal => {
                &&& role.index() == 4
                &&& role.text() == "normal"@
                &&& prepared.textures()[role.index()] == prepared.normal
                &&& runtime.maps()[role.index()] == runtime.normal@
                &&& resident.slots()[role.index()] == resident.normal
            },
        },
{
}

/// A role is decoded exactly where it was prepared under a name and has as many
/// bytes as were prepared; it is left empty exactly where nothing was prepared
/// and nothing is there; and everything else breaks the contract.
pub proof fn lemma_what_is_decoded(prepared: PreparedTexture, encoded: Seq<u8>)
    ensures
        texture_need(prepared, encoded) == Ok::<bool, GeometryProbeError>(true) <==> {
            &&& prepared.name@.len() > 0
            &&& encoded.len() > 0
            &&& encoded.len() == prepared.bytes@.len()
        },
        texture_need(prepared, encoded) == Ok::<bool, GeometryProbeError>(false) <==>
            prepared.bytes@.len() == 0 && encoded.len() == 0,
        texture_need(prepared, encoded) is Err ==> texture_need(prepared, encoded) == Err::<
            bool,
            GeometryProbeError,
        >(GeometryProbeError::Contract),
{
}

/// A role that is decoded has the decoder's texture or its error; any other
/// outcome rests on nothing that a decoder could answer.
pub proof fn lemma_the_decoder_is_heard_where_asked(
    prepared: PreparedTexture,
    encoded: Seq<u8>,
    decoded: Result<u64, i32>,
    other: Result<u64, i32>,
)
    ensures
        ({
            let asked = prepared.name@.len() > 0 && encoded.len() > 0 && encoded.len()
                == prepared.bytes@.len();
            let texture = decoded_texture(prepared, encoded, decoded);
            &&& asked ==> match decoded {
                Ok(id) => texture == Ok::<Option<u64>, GeometryProbeError>(Some(id)),
                Err(code) => texture == Err::<Option<u64>, GeometryProbeError>(
                    GeometryProbeError::Vgpu("material-texture-decode", code),
                ),
            }
            &&& !asked ==> texture == decoded_texture(prepared, encoded, other)
            &&& !asked && encoded.len() == 0 && prepared.bytes@.len() == 0 ==> texture == Ok::<
                Option<u64>,
                GeometryProbeError,
            >(None)
            &&& !asked && (encoded.len() > 0 || prepared.bytes@.len() > 0) ==> texture == Err::<
                Option<u64>,
                GeometryProbeError,
            >(GeometryProbeError::Contract)
        }),
{
}

/// A role without a texture counts as zero, and one with a texture as its
/// handle.
pub proof fn lemma_zero_stands_for_none(id: u64)
    ensures
        id_or_zero(Some(id)) == id,
        id_or_zero(None) == 0,
{
}

} // verus!
