//! The resources that a source model refers to: buffers and encoded images.
//!
//! A resource is stored in the model's own file, written into a data URI, or
//! kept in a file beside the model.  Only the last is left to the caller to
//! read.
#[allow(unused_imports)]
use crate::bits::bytes_of;
use vstd::prelude::*;
use vstd::slice::{slice_subrange, slice_to_vec};
use vstd::string::*;

verus! {

/// A letter in lower case, where it is an ASCII one.
pub open spec fn lowered(letter: char) -> char {
    if 'A' <= letter <= 'Z' {
        (letter as int + 32) as char
    } else {
        letter
    }
}

/// Whether a text spells a lower-case word, in whatever case of ASCII letters.
pub open spec fn spells(text: Seq<char>, word: Seq<char>) -> bool {
    text.map_values(|letter: char| lowered(letter)) == word
}

/// Whether a letter is a lower-case one, in either case.
fn same_letter(letter: char, lower: char) -> (same: bool)
    ensures
        same == (lowered(letter) == lower),
{
    if 'A' <= letter && letter <= 'Z' {
        letter as u32 + 32 == lower as u32
    } else {
        letter == lower
    }
}

/// Whether a text spells a lower-case word, in whatever case of ASCII letters.
fn is_word(text: &str, word: &str) -> (is: bool)
    ensures
        is == spells(text@, word@),
{
    let length: usize = word.unicode_len();
    let ghost lower = text@.map_values(|letter: char| lowered(letter));
    let mut i: usize = 0;
    for letter in it: text.chars()
        invariant
            length == word@.len(),
            lower == text@.map_values(|letter: char| lowered(letter)),
            it.seq() == text@,
            i == it.index(),
            i <= length,
            forall|j: int| 0 <= j < i ==> lower[j] == word@[j],
    {
        if i == length {
            return false;
        }
        if !same_letter(letter, word.get_char(i)) {
            assert(lower[i as int] != word@[i as int]);
            return false;
        }
        i += 1;
    }
    proof {
        if i == length {
            assert(lower =~= word@);
        }
    }
    i == length
}

/// The file name extension of the image encoding that a media type or an
/// extension names, where it is one that can be decoded.
pub open spec fn image_extension(value: Seq<char>) -> Option<Seq<char>> {
    if spells(value, "image/jpeg"@) || spells(value, "jpeg"@) || spells(value, "jpg"@) {
        Some("jpg"@)
    } else if spells(value, "image/png"@) || spells(value, "png"@) {
        Some("png"@)
    } else if spells(value, "image/bmp"@) || spells(value, "bmp"@) {
        Some("bmp"@)
    } else {
        None
    }
}

/// The text of an optional string.
pub open spec fn text_of(value: Option<&str>) -> Option<Seq<char>> {
    match value {
        Some(text) => Some(text@),
        None => None,
    }
}

/// The file name extension of the image encoding that a media type or an
/// extension names, where it is one that can be decoded.
pub fn supported_image_extension(value: &str) -> (extension: Option<&'static str>)
    ensures
        text_of(extension) == image_extension(value@),
{
    if is_word(value, "image/jpeg") || is_word(value, "jpeg") || is_word(value, "jpg") {
        Some("jpg")
    } else if is_word(value, "image/png") || is_word(value, "png") {
        Some("png")
    } else if is_word(value, "image/bmp") || is_word(value, "bmp") {
        Some("bmp")
    } else {
        None
    }
}

/// What follows the first mark in a text.
pub open spec fn after_first(text: Seq<char>, mark: char) -> Option<Seq<char>>
    decreases text.len(),
{
    if text.len() == 0 {
        None
    } else {
        match after_first(text.drop_last(), mark) {
            Some(rest) => Some(rest.push(text.last())),
            None => if text.last() == mark {
                Some(Seq::empty())
            } else {
                None
            },
        }
    }
}

/// What follows the last mark in a text.
pub open spec fn after_last(text: Seq<char>, mark: char) -> Option<Seq<char>>
    decreases text.len(),
{
    if text.len() == 0 {
        None
    } else if text.last() == mark {
        Some(Seq::empty())
    } else {
        match after_last(text.drop_last(), mark) {
            Some(rest) => Some(rest.push(text.last())),
            None => None,
        }
    }
}

/// The text from a place on, where there is one.
spec fn rest_from(text: Seq<char>, place: Option<usize>) -> Option<Seq<char>> {
    match place {
        Some(place) => Some(text.skip(place as int)),
        None => None,
    }
}

/// What follows the first mark in a text.
fn skip_first(text: &str, mark: char) -> (rest: Option<&str>)
    ensures
        text_of(rest) == after_first(text@, mark),
{
    let length: usize = text.unicode_len();
    let mut i: usize = 0;
    let mut place: Option<usize> = None;
    assert(text@.take(0).len() == 0);
    for letter in it: text.chars()
        invariant
            length == text@.len(),
            it.seq() == text@,
            i == it.index(),
            place matches Some(place) ==> place <= i,
            after_first(text@.take(i as int), mark) == rest_from(text@.take(i as int), place),
    {
        let ghost before = text@.take(i as int);
        let ghost after = text@.take(i + 1);
        assert(after.drop_last() =~= before);
        assert(after.last() == letter);
        i += 1;
        if place.is_none() && letter == mark {
            place = Some(i);
            assert(after.skip(i as int) =~= Seq::empty());
        }
        proof {
            if let Some(place) = place {
                if place < i {
                    assert(after.skip(place as int) =~= before.skip(place as int).push(letter));
                }
            }
        }
    }
    assert(text@.take(i as int) =~= text@);
    match place {
        Some(place) => {
            assert(text@.subrange(place as int, length as int) =~= text@.skip(place as int));
            Some(text.substring_char(place, length))
        },
        None => None,
    }
}

/// What follows the last mark in a text.
fn skip_last(text: &str, mark: char) -> (rest: Option<&str>)
    ensures
        text_of(rest) == after_last(text@, mark),
{
    let length: usize = text.unicode_len();
    let mut i: usize = 0;
    let mut place: Option<usize> = None;
    assert(text@.take(0).len() == 0);
    for letter in it: text.chars()
        invariant
            length == text@.len(),
            it.seq() == text@,
            i == it.index(),
            place matches Some(place) ==> place <= i,
            after_last(text@.take(i as int), mark) == rest_from(text@.take(i as int), place),
    {
        let ghost before = text@.take(i as int);
        let ghost after = text@.take(i + 1);
        assert(after.drop_last() =~= before);
        assert(after.last() == letter);
        i += 1;
        if letter == mark {
            place = Some(i);
            assert(after.skip(i as int) =~= Seq::empty());
        }
        proof {
            if let Some(place) = place {
                if place < i {
                    assert(after.skip(place as int) =~= before.skip(place as int).push(letter));
                }
            }
        }
    }
    assert(text@.take(i as int) =~= text@);
    match place {
        Some(place) => {
            assert(text@.subrange(place as int, length as int) =~= text@.skip(place as int));
            Some(text.substring_char(place, length))
        },
        None => None,
    }
}

/// Whether a URI holds its resource itself.
pub open spec fn is_data_uri(uri: Seq<char>) -> bool {
    "data:"@.is_prefix_of(uri)
}

/// Whether a URI holds its resource itself.
pub(crate) fn starts_as_data_uri(uri: &str) -> (data: bool)
    ensures
        data == is_data_uri(uri@),
{
    let scheme = "data:";
    let length: usize = scheme.unicode_len();
    if uri.unicode_len() < length {
        return false;
    }
    let mut i: usize = 0;
    while i < length
        invariant
            i <= length,
            length == scheme@.len(),
            scheme@ == "data:"@,
            length <= uri@.len(),
            forall|j: int| 0 <= j < i ==> scheme@[j] == uri@[j],
        decreases length - i,
    {
        if scheme.get_char(i) != uri.get_char(i) {
            assert(scheme@[i as int] != uri@.subrange(0, length as int)[i as int]);
            return false;
        }
        i += 1;
    }
    assert(scheme@ =~= uri@.subrange(0, length as int));
    true
}

/// What base64 text decodes to: the bytes, or nothing where the text is not
/// base64 of the standard alphabet with its padding.
pub uninterp spec fn base64_decoded(text: Seq<char>) -> Option<Seq<u8>>;

/// Decode base64 text, by `base64::Engine::decode` of the engine
/// `base64::engine::general_purpose::STANDARD`.  The engine is a constant, so
/// what comes back rests on the text alone; the contract gives it a name and
/// claims nothing else of it.
#[verifier::external_body]
fn decode_base64(text: &str) -> (decoded: Option<Vec<u8>>)
    ensures
        bytes_of(decoded) == base64_decoded(text@),
{
    base64::Engine::decode(&base64::engine::general_purpose::STANDARD, text).ok()
}

/// Where a buffer's bytes are.
#[derive(Clone, Copy)]
pub enum BufferSource<'a> {
    /// In the model's own file.
    Bin,
    Uri(&'a str),
}

/// [`BufferSource`], over its text.
pub enum BufferPlace {
    Bin,
    Uri(Seq<char>),
}

impl<'a> View for BufferSource<'a> {
    type V = BufferPlace;

    open spec fn view(&self) -> BufferPlace {
        match self {
            BufferSource::Bin => BufferPlace::Bin,
            BufferSource::Uri(uri) => BufferPlace::Uri(uri@),
        }
    }
}

/// A buffer, or what there is to do about it.
pub enum BufferLoad {
    Loaded(Vec<u8>),
    /// The buffer is in the file that the URI names.
    File,
    /// The model's file has no binary part.
    BlobMissing,
    /// The data URI has no payload, or one that is not base64.
    DataMalformed,
}

/// [`BufferLoad`], over the contents of what it carries.
pub enum BufferContents {
    Loaded(Seq<u8>),
    File,
    BlobMissing,
    DataMalformed,
}

impl View for BufferLoad {
    type V = BufferContents;

    open spec fn view(&self) -> BufferContents {
        match self {
            BufferLoad::Loaded(bytes) => BufferContents::Loaded(bytes@),
            BufferLoad::File => BufferContents::File,
            BufferLoad::BlobMissing => BufferContents::BlobMissing,
            BufferLoad::DataMalformed => BufferContents::DataMalformed,
        }
    }
}

/// A buffer in a data URI, once its payload was decoded.
pub open spec fn buffer_of(decoded: Option<Seq<u8>>) -> BufferContents {
    match decoded {
        Some(bytes) => BufferContents::Loaded(bytes),
        None => BufferContents::DataMalformed,
    }
}

/// A buffer in a data URI, once its payload was decoded.
pub fn embedded_buffer(decoded: Option<Vec<u8>>) -> (load: BufferLoad)
    ensures
        load@ == buffer_of(bytes_of(decoded)),
{
    match decoded {
        Some(bytes) => BufferLoad::Loaded(bytes),
        None => BufferLoad::DataMalformed,
    }
}

/// What a buffer holds, for a model with an optional binary part.
pub open spec fn buffer_contents(place: BufferPlace, blob: Option<Seq<u8>>) -> BufferContents {
    match place {
        BufferPlace::Bin => match blob {
            Some(bytes) => BufferContents::Loaded(bytes),
            None => BufferContents::BlobMissing,
        },
        BufferPlace::Uri(uri) => if !is_data_uri(uri) {
            BufferContents::File
        } else {
            match after_first(uri, ',') {
                None => BufferContents::DataMalformed,
                Some(payload) => buffer_of(base64_decoded(payload)),
            }
        },
    }
}

/// Load a buffer, as far as that takes no file.
pub fn load_buffer(source: &BufferSource, blob: &Option<Vec<u8>>) -> (load: BufferLoad)
    ensures
        load@ == buffer_contents(source@, bytes_of(*blob)),
{
    match source {
        BufferSource::Bin => match blob {
            Some(bytes) => BufferLoad::Loaded(slice_to_vec(bytes.as_slice())),
            None => BufferLoad::BlobMissing,
        },
        BufferSource::Uri(uri) => {
            if !starts_as_data_uri(uri) {
                return BufferLoad::File;
            }
            match skip_first(uri, ',') {
                None => BufferLoad::DataMalformed,
                Some(payload) => embedded_buffer(decode_base64(payload)),
            }
        },
    }
}

/// Where an encoded image is.
#[derive(Clone, Copy)]
pub enum ImageSource<'a> {
    /// In a range of one of the model's buffers.
    View { buffer: usize, offset: usize, length: usize, mime_type: &'a str },
    Uri { uri: &'a str, declared: Option<&'a str> },
}

/// [`ImageSource`], over its texts.
pub enum ImagePlace {
    View { buffer: usize, offset: usize, length: usize, mime_type: Seq<char> },
    Uri { uri: Seq<char>, declared: Option<Seq<char>> },
}

impl<'a> View for ImageSource<'a> {
    type V = ImagePlace;

    open spec fn view(&self) -> ImagePlace {
        match *self {
            ImageSource::View { buffer, offset, length, mime_type } => ImagePlace::View {
                buffer,
                offset,
                length,
                mime_type: mime_type@,
            },
            ImageSource::Uri { uri, declared } => ImagePlace::Uri {
                uri: uri@,
                declared: text_of(declared),
            },
        }
    }
}

/// An encoded image, or what there is to do about it.
pub enum ImageLoad {
    Loaded { extension: &'static str, bytes: Vec<u8> },
    /// The image is in the file that the URI names.
    File { extension: &'static str },
    /// The encoding is not one that can be decoded, or the bytes are not
    /// there.
    Unsupported,
}

/// [`ImageLoad`], over the contents of what it carries.
pub enum ImageContents {
    Loaded { extension: Seq<char>, bytes: Seq<u8> },
    File { extension: Seq<char> },
    Unsupported,
}

impl View for ImageLoad {
    type V = ImageContents;

    open spec fn view(&self) -> ImageContents {
        match self {
            ImageLoad::Loaded { extension, bytes } => ImageContents::Loaded {
                extension: extension@,
                bytes: bytes@,
            },
            ImageLoad::File { extension } => ImageContents::File { extension: extension@ },
            ImageLoad::Unsupported => ImageContents::Unsupported,
        }
    }
}

/// An image whose bytes were looked for.
pub open spec fn image_of(extension: Seq<char>, bytes: Option<Seq<u8>>) -> ImageContents {
    match bytes {
        Some(bytes) => ImageContents::Loaded { extension, bytes },
        None => ImageContents::Unsupported,
    }
}

/// An image whose bytes were looked for: decoded from a data URI, or read from
/// a file.
pub fn found_image(extension: &'static str, bytes: Option<Vec<u8>>) -> (load: ImageLoad)
    ensures
        load@ == image_of(extension@, bytes_of(bytes)),
{
    match bytes {
        Some(bytes) => ImageLoad::Loaded { extension, bytes },
        None => ImageLoad::Unsupported,
    }
}

/// The encoding of an image with a URI: what its media type says, or else the
/// extension of the URI.
pub open spec fn uri_extension(uri: Seq<char>, declared: Option<Seq<char>>) -> Option<Seq<char>> {
    let known = match declared {
        Some(value) => image_extension(value),
        None => None,
    };
    if known is Some {
        known
    } else {
        match after_last(uri, '.') {
            Some(value) => image_extension(value),
            None => None,
        }
    }
}

fn find_uri_extension(uri: &str, declared: &Option<&str>) -> (extension: Option<&'static str>)
    ensures
        text_of(extension) == uri_extension(uri@, text_of(*declared)),
{
    let known = match declared {
        Some(value) => supported_image_extension(value),
        None => None,
    };
    if known.is_some() {
        return known;
    }
    match skip_last(uri, '.') {
        Some(value) => supported_image_extension(value),
        None => None,
    }
}

/// What an image holds, in a model with the given buffers.
pub open spec fn image_contents(place: ImagePlace, buffers: Seq<Vec<u8>>) -> ImageContents {
    match place {
        ImagePlace::View { buffer, offset, length, mime_type } => match image_extension(
            mime_type,
        ) {
            None => ImageContents::Unsupported,
            Some(extension) => if buffer < buffers.len() && offset + length
                <= buffers[buffer as int]@.len() {
                ImageContents::Loaded {
                    extension,
                    bytes: buffers[buffer as int]@.subrange(
                        offset as int,
                        offset + length,
                    ),
                }
            } else {
                ImageContents::Unsupported
            },
        },
        ImagePlace::Uri { uri, declared } => match uri_extension(uri, declared) {
            None => ImageContents::Unsupported,
            Some(extension) => if !is_data_uri(uri) {
                ImageContents::File { extension }
            } else {
                match after_first(uri, ',') {
                    None => ImageContents::Unsupported,
                    Some(payload) => image_of(extension, base64_decoded(payload)),
                }
            },
        },
    }
}

/// The file that an image is in, where it is in one and its encoding can be
/// decoded.
pub open spec fn image_file_of(place: ImagePlace) -> Option<Seq<char>> {
    match place {
        ImagePlace::View { .. } => None,
        ImagePlace::Uri { uri, declared } => if uri_extension(uri, declared) is Some
            && !is_data_uri(uri) {
            Some(uri)
        } else {
            None
        },
    }
}

/// An image, given the bytes of the file that it is in, if any were read.
pub open spec fn image_with_file(
    place: ImagePlace,
    buffers: Seq<Vec<u8>>,
    file: Option<Seq<u8>>,
) -> ImageContents {
    match image_contents(place, buffers) {
        ImageContents::File { extension } => image_of(extension, file),
        contents => contents,
    }
}

/// Load an encoded image, as far as that takes no file.
pub fn load_supported_image(source: &ImageSource, buffers: &[Vec<u8>]) -> (load: ImageLoad)
    ensures
        load@ == image_contents(source@, buffers@),
{
    match source {
        ImageSource::View { buffer, offset, length, mime_type } => {
            let extension = match supported_image_extension(mime_type) {
                Some(extension) => extension,
                None => return ImageLoad::Unsupported,
            };
            let start: usize = *offset;
            if *buffer >= buffers.len() {
                return ImageLoad::Unsupported;
            }
            let bytes = buffers[*buffer].as_slice();
            match start.checked_add(*length) {
                Some(end) => {
                    if end > bytes.len() {
                        return ImageLoad::Unsupported;
                    }
                    ImageLoad::Loaded {
                        extension,
                        bytes: slice_to_vec(slice_subrange(bytes, start, end)),
                    }
                },
                None => {
                    assert(bytes.len() <= usize::MAX);
                    ImageLoad::Unsupported
                },
            }
        },
        ImageSource::Uri { uri, declared } => {
            let extension = match find_uri_extension(uri, declared) {
                Some(extension) => extension,
                None => return ImageLoad::Unsupported,
            };
            if !starts_as_data_uri(uri) {
                return ImageLoad::File { extension };
            }
            match skip_first(uri, ',') {
                None => ImageLoad::Unsupported,
                Some(payload) => found_image(extension, decode_base64(payload)),
            }
        },
    }
}

/// The file that an image is in, where it is in one and its encoding can be
/// decoded.
pub fn image_file<'a>(source: &ImageSource<'a>) -> (file: Option<&'a str>)
    ensures
        text_of(file) == image_file_of(source@),
{
    match source {
        ImageSource::View { .. } => None,
        ImageSource::Uri { uri, declared } => {
            if find_uri_extension(uri, declared).is_some() && !starts_as_data_uri(uri) {
                Some(*uri)
            } else {
                None
            }
        },
    }
}

/// Load an encoded image, given the bytes of the file that it is in, if any
/// were read.
pub fn load_image_with_file(
    source: &ImageSource,
    buffers: &[Vec<u8>],
    file: Option<Vec<u8>>,
) -> (load: ImageLoad)
    ensures
        load@ == image_with_file(source@, buffers@, bytes_of(file)),
{
    match load_supported_image(source, buffers) {
        ImageLoad::File { extension } => found_image(extension, file),
        load => load,
    }
}

/// With its file read, an image is loaded or it is unsupported; a file is asked
/// for exactly where nothing else can load the image.
pub proof fn lemma_images_are_settled(
    place: ImagePlace,
    buffers: Seq<Vec<u8>>,
    file: Option<Seq<u8>>,
)
    ensures
        !(image_with_file(place, buffers, file) is File),
        image_contents(place, buffers) is File <==> image_file_of(place) is Some,
{
}

/// A text spells a word exactly where it is as long and each letter is the
/// word's own, or the capital of it.
pub proof fn lemma_spelling_ignores_case_only(text: Seq<char>, word: Seq<char>)
    ensures
        spells(text, word) <==> {
            &&& text.len() == word.len()
            &&& forall|i: int|
                0 <= i < text.len() ==> if 'A' <= #[trigger] text[i] <= 'Z' {
                    word[i] as int == text[i] as int + 32
                } else {
                    word[i] == text[i]
                }
        },
{
    let lower = text.map_values(|letter: char| lowered(letter));
    if spells(text, word) {
        assert forall|i: int| 0 <= i < text.len() implies if 'A' <= #[trigger] text[i] <= 'Z' {
            word[i] as int == text[i] as int + 32
        } else {
            word[i] == text[i]
        } by {
            assert(lower[i] == word[i]);
        }
    } else if text.len() == word.len() && (forall|i: int|
        0 <= i < text.len() ==> if 'A' <= #[trigger] text[i] <= 'Z' {
            word[i] as int == text[i] as int + 32
        } else {
            word[i] == text[i]
        }) {
        assert(lower =~= word);
    }
}

/// The encodings that can be decoded are JPEG, PNG and BMP, each under its
/// media type and its extensions, in any case; no other text names one.
pub proof fn lemma_the_encodings(value: Seq<char>)
    ensures
        image_extension(value) == Some("jpg"@) <==> spells(value, "image/jpeg"@) || spells(
            value,
            "jpeg"@,
        ) || spells(value, "jpg"@),
        image_extension(value) == Some("png"@) <==> spells(value, "image/png"@) || spells(
            value,
            "png"@,
        ),
        image_extension(value) == Some("bmp"@) <==> spells(value, "image/bmp"@) || spells(
            value,
            "bmp"@,
        ),
        image_extension(value) is None || image_extension(value) == Some("jpg"@)
            || image_extension(value) == Some("png"@) || image_extension(value) == Some("bmp"@),
{
    reveal_strlit("jpg");
    reveal_strlit("jpeg");
    reveal_strlit("image/jpeg");
    reveal_strlit("png");
    reveal_strlit("image/png");
    reveal_strlit("bmp");
    reveal_strlit("image/bmp");
    assert("jpg"@[0] != "png"@[0] && "jpg"@[0] != "bmp"@[0] && "png"@[0] != "bmp"@[0]);
    assert("image/png"@.len() == 9 && "image/bmp"@.len() == 9 && "image/png"@[6]
        != "image/bmp"@[6]);
    assert("image/jpeg"@.len() == 10 && "jpeg"@.len() == 4);
}

/// What follows the first mark is everything behind it; where there is no mark,
/// there is nothing.
pub proof fn lemma_after_the_first_mark(text: Seq<char>, mark: char, place: int)
    requires
        0 <= place <= text.len(),
        forall|i: int| 0 <= i < place ==> #[trigger] text[i] != mark,
        place < text.len() ==> text[place] == mark,
    ensures
        place < text.len() ==> after_first(text, mark) == Some(text.skip(place + 1)),
        place == text.len() ==> after_first(text, mark) is None,
    decreases text.len(),
{
    if text.len() > 0 {
        let front = text.drop_last();
        if place < text.len() - 1 {
            lemma_after_the_first_mark(front, mark, place);
            assert(front.skip(place + 1).push(text.last()) =~= text.skip(place + 1));
        } else {
            lemma_after_the_first_mark(front, mark, front.len() as int);
            if place < text.len() {
                assert(text.skip(place + 1) =~= Seq::<char>::empty());
            } else {
                assert(text[text.len() - 1] != mark);
            }
        }
    }
}

/// What follows the last mark is everything behind it; where there is no mark,
/// there is nothing.
pub proof fn lemma_after_the_last_mark(text: Seq<char>, mark: char, place: int)
    requires
        -1 <= place < text.len(),
        forall|i: int| place < i < text.len() ==> #[trigger] text[i] != mark,
        0 <= place ==> text[place] == mark,
    ensures
        0 <= place ==> after_last(text, mark) == Some(text.skip(place + 1)),
        place < 0 ==> after_last(text, mark) is None,
    decreases text.len(),
{
    if text.len() > 0 {
        if place == text.len() - 1 {
            assert(text.skip(place + 1) =~= Seq::<char>::empty());
        } else {
            assert(text[text.len() - 1] != mark);
            let front = text.drop_last();
            lemma_after_the_last_mark(front, mark, place);
            if 0 <= place {
                assert(front.skip(place + 1).push(text.last()) =~= text.skip(place + 1));
            }
        }
    }
}

/// A data URI is one that begins with "data:", in small letters.
pub proof fn lemma_data_uris_begin_with_their_scheme(uri: Seq<char>)
    ensures
        is_data_uri(uri) <==> {
            &&& uri.len() >= 5
            &&& uri[0] == 'd'
            &&& uri[1] == 'a'
            &&& uri[2] == 't'
            &&& uri[3] == 'a'
            &&& uri[4] == ':'
        },
{
    reveal_strlit("data:");
    let scheme = "data:"@;
    if is_data_uri(uri) {
        let front = uri.subrange(0, 5);
        assert(scheme =~= front);
        assert(uri[0] == front[0] && uri[1] == front[1] && uri[2] == front[2] && uri[3] == front[3]
            && uri[4] == front[4]);
    } else if uri.len() >= 5 && uri[0] == 'd' && uri[1] == 'a' && uri[2] == 't' && uri[3] == 'a'
        && uri[4] == ':' {
        assert(scheme =~= uri.subrange(0, 5));
    }
}

/// A buffer without a URI is the model's binary part; one with a data URI is
/// what the text behind the first comma decodes to; and any other is in a file.
pub proof fn lemma_where_buffers_come_from(place: BufferPlace, blob: Option<Seq<u8>>)
    ensures
        match place {
            BufferPlace::Bin => {
                &&& blob matches Some(bytes) ==> buffer_contents(place, blob)
                    == BufferContents::Loaded(bytes)
                &&& blob is None ==> buffer_contents(place, blob) == BufferContents::BlobMissing
            },
            BufferPlace::Uri(uri) => {
                &&& buffer_contents(place, blob) == BufferContents::File <==> !is_data_uri(uri)
                &&& is_data_uri(uri) ==> match after_first(uri, ',') {
                    None => buffer_contents(place, blob) == BufferContents::DataMalformed,
                    Some(payload) => match base64_decoded(payload) {
                        Some(bytes) => buffer_contents(place, blob) == BufferContents::Loaded(
                            bytes,
                        ),
                        None => buffer_contents(place, blob) == BufferContents::DataMalformed,
                    },
                }
            },
        },
{
}

/// An image with a URI has the encoding of its media type, or where that is
/// missing or unknown, the one of what follows the URI's last dot.
pub proof fn lemma_the_media_type_comes_first(uri: Seq<char>, declared: Option<Seq<char>>)
    ensures
        declared matches Some(value) ==> image_extension(value) is Some ==> uri_extension(
            uri,
            declared,
        ) == image_extension(value),
        (declared matches Some(value) ==> image_extension(value) is None) ==> uri_extension(
            uri,
            declared,
        ) == match after_last(uri, '.') {
            Some(value) => image_extension(value),
            None => None,
        },
{
}

/// An image in a buffer is exactly its range of the buffer, under the encoding
/// of its media type; it is unsupported where the encoding is unknown or the
/// range is not within a buffer that is there.
pub proof fn lemma_images_in_buffers_are_their_ranges(
    buffer: usize,
    offset: usize,
    length: usize,
    mime_type: Seq<char>,
    buffers: Seq<Vec<u8>>,
)
    ensures
        ({
            let place = ImagePlace::View { buffer, offset, length, mime_type };
            let contents = image_contents(place, buffers);
            let inside = buffer < buffers.len() && offset + length
                <= buffers[buffer as int]@.len();
            &&& contents is Loaded <==> image_extension(mime_type) is Some && inside
            &&& contents matches ImageContents::Loaded { extension, bytes } ==> {
                &&& Some(extension) == image_extension(mime_type)
                &&& bytes.len() == length
                &&& forall|i: int|
                    0 <= i < length ==> #[trigger] bytes[i] == buffers[buffer as int]@[offset + i]
            }
            &&& !(contents is File)
        }),
{
}

/// An image with a URI has the encoding of the URI; without one it is
/// unsupported.  With a data URI it is what the text behind the first comma
/// decodes to, and with any other it is in a file.
pub proof fn lemma_images_behind_uris(
    uri: Seq<char>,
    declared: Option<Seq<char>>,
    buffers: Seq<Vec<u8>>,
)
    ensures
        ({
            let place = ImagePlace::Uri { uri, declared };
            let contents = image_contents(place, buffers);
            match uri_extension(uri, declared) {
                None => contents is Unsupported && image_file_of(place) is None,
                Some(known) => if !is_data_uri(uri) {
                    &&& contents == (ImageContents::File { extension: known })
                    &&& image_file_of(place) == Some(uri)
                } else {
                    &&& image_file_of(place) is None
                    &&& match after_first(uri, ',') {
                        None => contents is Unsupported,
                        Some(payload) => match base64_decoded(payload) {
                            None => contents is Unsupported,
                            Some(decoded) => contents == (ImageContents::Loaded {
                                extension: known,
                                bytes: decoded,
                            }),
                        },
                    }
                },
            }
        }),
{
}

/// The bytes of an image's file count only for an image that is in a file; a
/// file that could not be read leaves the image unsupported.
pub proof fn lemma_files_count_where_asked_for(
    place: ImagePlace,
    buffers: Seq<Vec<u8>>,
    file: Option<Seq<u8>>,
)
    ensures
        match image_contents(place, buffers) {
            ImageContents::File { extension } => match file {
                Some(bytes) => image_with_file(place, buffers, file) == (ImageContents::Loaded {
                    extension,
                    bytes,
                }),
                None => image_with_file(place, buffers, file) is Unsupported,
            },
            contents => image_with_file(place, buffers, file) == contents,
        },
        place is View ==> image_file_of(place) is None,
{
}

/// What was loaded, and where it was looked for, is seen as it is.
pub proof fn lemma_loads_are_seen_as_they_are(
    buffer: BufferLoad,
    image: ImageLoad,
    from: BufferSource,
    found: ImageSource,
    text: &str,
)
    ensures
        text_of(Some(text)) == Some(text@),
        text_of(None) is None,
        match buffer {
            BufferLoad::Loaded(bytes) => buffer@ == BufferContents::Loaded(bytes@),
            BufferLoad::File => buffer@ is File,
            BufferLoad::BlobMissing => buffer@ is BlobMissing,
            BufferLoad::DataMalformed => buffer@ is DataMalformed,
        },
        match image {
            ImageLoad::Loaded { extension, bytes } => image@ == (ImageContents::Loaded {
                extension: extension@,
                bytes: bytes@,
            }),
            ImageLoad::File { extension } => image@ == (ImageContents::File {
                extension: extension@,
            }),
            ImageLoad::Unsupported => image@ is Unsupported,
        },
        match from {
            BufferSource::Bin => from@ is Bin,
            BufferSource::Uri(uri) => from@ == BufferPlace::Uri(uri@),
        },
        match found {
            ImageSource::View { buffer, offset, length, mime_type } => found@ == (
            ImagePlace::View { buffer, offset, length, mime_type: mime_type@ }),
            ImageSource::Uri { uri, declared } => found@ == (ImagePlace::Uri {
                uri: uri@,
                declared: match declared {
                    Some(value) => Some(value@),
                    None => None,
                },
            }),
        },
{
}

/// What was decoded or read is loaded as it is, and nothing is loaded where
/// nothing was.
pub proof fn lemma_found_bytes_are_loaded(bytes: Seq<u8>, extension: Seq<char>)
    ensures
        buffer_of(Some(bytes)) == BufferContents::Loaded(bytes),
        buffer_of(None) == BufferContents::DataMalformed,
        image_of(extension, Some(bytes)) == (ImageContents::Loaded { extension, bytes }),
        image_of(extension, None) == ImageContents::Unsupported,
{
}

} // verus!
