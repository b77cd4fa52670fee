//! Little-endian words and single-precision bit patterns.
use vstd::prelude::*;

verus! {

/// The number of distinct magnitudes of a single-precision bit pattern: the
/// sign bit is the top bit of the word.
pub open spec fn sign_weight() -> int {
    0x8000_0000
}

/// The four bytes of a word, least significant first.
pub open spec fn le_bytes(word: u32) -> Seq<u8> {
    seq![
        (word as int % 256) as u8,
        (word as int / 256 % 256) as u8,
        (word as int / 65536 % 256) as u8,
        (word as int / 16777216) as u8,
    ]
}

/// The word whose four bytes, least significant first, stand at `offset`.
pub open spec fn word_at(bytes: Seq<u8>, offset: int) -> u32 {
    (bytes[offset] as int + 256 * (bytes[offset + 1] as int) + 65536 * (bytes[offset + 2] as int)
        + 16777216 * (bytes[offset + 3] as int)) as u32
}

/// The bytes of a sequence of words, four for each word.
pub open spec fn words_bytes(words: Seq<u32>) -> Seq<u8>
    decreases words.len(),
{
    if words.len() == 0 {
        Seq::empty()
    } else {
        words_bytes(words.drop_last()) + le_bytes(words.last())
    }
}

/// Whether a bit pattern encodes a NaN.
pub open spec fn is_nan(pattern: u32) -> bool {
    pattern as int % sign_weight() > 0x7f80_0000
}

/// Whether a bit pattern encodes a zero of either sign.
pub open spec fn is_zero(pattern: u32) -> bool {
    pattern as int % sign_weight() == 0
}

/// Equality of the numbers that two bit patterns encode: a NaN equals
/// nothing, and the two zeros equal each other.
pub open spec fn same_number(left: u32, right: u32) -> bool {
    &&& !is_nan(left)
    &&& !is_nan(right)
    &&& left == right || (is_zero(left) && is_zero(right))
}

/// Pointwise [`same_number`] over two sequences of equal length.
pub open spec fn same_numbers(left: Seq<u32>, right: Seq<u32>) -> bool {
    &&& left.len() == right.len()
    &&& forall|i: int| 0 <= i < left.len() ==> #[trigger] same_number(left[i], right[i])
}

/// The contents of an optional byte vector.
pub open spec fn bytes_of(bytes: Option<Vec<u8>>) -> Option<Seq<u8>> {
    match bytes {
        Some(bytes) => Some(bytes@),
        None => None,
    }
}

/// A word is recovered from its four bytes.
pub proof fn lemma_word_round_trip(word: u32)
    ensures
        le_bytes(word).len() == 4,
        word_at(le_bytes(word), 0) == word,
{
}

/// Four bytes are recovered from the word that they spell.
pub proof fn lemma_bytes_round_trip(bytes: Seq<u8>, offset: int)
    requires
        0 <= offset,
        offset + 4 <= bytes.len(),
    ensures
        le_bytes(word_at(bytes, offset)) == bytes.subrange(offset, offset + 4),
{
    let (a, b, c, d) = (bytes[offset], bytes[offset + 1], bytes[offset + 2], bytes[offset + 3]);
    lemma_digits(a, b, c, d);
    assert(le_bytes(word_at(bytes, offset)) =~= bytes.subrange(offset, offset + 4));
}

/// The base-256 digits of a word.
proof fn lemma_digits(a: u8, b: u8, c: u8, d: u8)
    ensures
        ({
            let word = a as int + 256 * (b as int) + 65536 * (c as int) + 16777216 * (d as int);
            &&& 0 <= word <= u32::MAX
            &&& word % 256 == a
            &&& word / 256 % 256 == b
            &&& word / 65536 % 256 == c
            &&& word / 16777216 == d
        }),
{
    let high = b as int + 256 * (c as int) + 65536 * (d as int);
    let top = c as int + 256 * (d as int);
    let word = a as int + 256 * high;
    assert(word / 256 == high && word % 256 == a);
    assert(high / 256 == top && high % 256 == b);
    assert(word / 65536 == top);
    assert(top / 256 == d && top % 256 == c);
    assert(word / 16777216 == d);
}

/// Where each word of a byte image stands.
pub proof fn lemma_words_bytes(words: Seq<u32>)
    ensures
        words_bytes(words).len() == 4 * words.len(),
        forall|k: int|
            0 <= k < words.len() ==> #[trigger] words_bytes(words).subrange(4 * k, 4 * k + 4)
                == le_bytes(words[k]),
        forall|k: int| 0 <= k < words.len() ==> word_at(words_bytes(words), 4 * k) == #[trigger] words[k],
    decreases words.len(),
{
    if words.len() > 0 {
        let front = words.drop_last();
        lemma_words_bytes(front);
        let image = words_bytes(words);
        assert forall|k: int| 0 <= k < words.len() implies #[trigger] image.subrange(4 * k, 4 * k + 4)
            == le_bytes(words[k]) by {
            if k < front.len() {
                assert(words_bytes(front).subrange(4 * k, 4 * k + 4) == le_bytes(front[k]));
                assert(image.subrange(4 * k, 4 * k + 4) =~= words_bytes(front).subrange(
                    4 * k,
                    4 * k + 4,
                ));
            } else {
                assert(image.subrange(4 * k, 4 * k + 4) =~= le_bytes(words[k]));
            }
        }
        assert forall|k: int| 0 <= k < words.len() implies word_at(image, 4 * k)
            == #[trigger] words[k] by {
            let four = image.subrange(4 * k, 4 * k + 4);
            assert(four == le_bytes(words[k]));
            assert(four[0] == image[4 * k] && four[1] == image[4 * k + 1] && four[2] == image[4 * k
                + 2] && four[3] == image[4 * k + 3]);
            lemma_word_round_trip(words[k]);
        }
    }
}

/// A byte image is the image of the words read from it.
pub proof fn lemma_words_from_bytes(bytes: Seq<u8>, words: Seq<u32>)
    requires
        bytes.len() == 4 * words.len(),
        forall|k: int| 0 <= k < words.len() ==> #[trigger] words[k] == word_at(bytes, 4 * k),
    ensures
        words_bytes(words) == bytes,
    decreases words.len(),
{
    if words.len() > 0 {
        let n = words.len() - 1;
        let front = bytes.subrange(0, 4 * n);
        assert forall|k: int| 0 <= k < words.drop_last().len() implies #[trigger] words.drop_last()[k]
            == word_at(front, 4 * k) by {
            assert(words[k] == word_at(bytes, 4 * k));
        }
        lemma_words_from_bytes(front, words.drop_last());
        lemma_bytes_round_trip(bytes, 4 * n);
        assert(words[n] == word_at(bytes, 4 * n));
        assert(words_bytes(words) =~= bytes);
    } else {
        assert(words_bytes(words) =~= bytes);
    }
}

/// Append a word to a byte image, least significant byte first.
pub fn push_word(image: &mut Vec<u8>, word: u32)
    ensures
        final(image)@ == old(image)@ + le_bytes(word),
{
    image.push((word % 256) as u8);
    image.push((word / 256 % 256) as u8);
    image.push((word / 65536 % 256) as u8);
    image.push((word / 16777216) as u8);
    assert(image@ =~= old(image)@ + le_bytes(word));
}

/// Read the little-endian word at `offset`.
pub fn read_word(bytes: &[u8], offset: usize) -> (word: u32)
    requires
        offset + 4 <= bytes@.len(),
    ensures
        word == word_at(bytes@, offset as int),
{
    bytes[offset] as u32 + 256 * (bytes[offset + 1] as u32) + 65536 * (bytes[offset + 2] as u32)
        + 16777216 * (bytes[offset + 3] as u32)
}

/// Whether two bit patterns encode equal numbers.
pub fn numbers_equal(left: u32, right: u32) -> (equal: bool)
    ensures
        equal == same_number(left, right),
{
    let left_magnitude: u32 = left % 0x8000_0000;
    let right_magnitude: u32 = right % 0x8000_0000;
    left_magnitude <= 0x7f80_0000 && right_magnitude <= 0x7f80_0000 && (left == right || (
    left_magnitude == 0 && right_magnitude == 0))
}

/// Whether two byte strings are equal.
pub fn bytes_equal(left: &[u8], right: &[u8]) -> (equal: bool)
    ensures
        equal == (left@ == right@),
{
    if left.len() != right.len() {
        return false;
    }
    let mut i: usize = 0;
    while i < left.len()
        invariant
            i <= left@.len(),
            left@.len() == right@.len(),
            forall|k: int| 0 <= k < i ==> left@[k] == right@[k],
        decreases left@.len() - i,
    {
        if left[i] != right[i] {
            return false;
        }
        i += 1;
    }
    assert(left@ =~= right@);
    true
}

/// The bytes of a word are its digits to the base 256, the lowest first, and a
/// word that is read is worth its bytes by their places.
pub proof fn lemma_bytes_are_digits(word: u32, bytes: Seq<u8>, offset: int)
    requires
        0 <= offset,
        offset + 4 <= bytes.len(),
    ensures
        le_bytes(word).len() == 4,
        le_bytes(word)[0] + 0x100 * le_bytes(word)[1] + 0x1_0000 * le_bytes(word)[2] + 0x100_0000
            * le_bytes(word)[3] == word,
        word_at(bytes, offset) == bytes[offset] + 0x100 * bytes[offset + 1] + 0x1_0000
            * bytes[offset + 2] + 0x100_0000 * bytes[offset + 3],
{
    lemma_digits(bytes[offset], bytes[offset + 1], bytes[offset + 2], bytes[offset + 3]);
    let w = word as int;
    assert(w == w % 256 + 256 * (w / 256 % 256) + 65536 * (w / 65536 % 256) + 16777216 * (w
        / 16777216));
}

/// The sign does not decide whether a pattern is a number or which zero it is.
/// Without the sign the patterns up to infinity are numbers, and those beyond
/// are none.
pub proof fn lemma_numbers_end_with_infinity(magnitude: u32)
    requires
        magnitude < 0x8000_0000,
    ensures
        is_nan(magnitude) <==> magnitude > 0x7f80_0000,
        is_nan((magnitude + 0x8000_0000) as u32) <==> magnitude > 0x7f80_0000,
        is_zero(magnitude) <==> magnitude == 0,
        is_zero((magnitude + 0x8000_0000) as u32) <==> magnitude == 0,
{
}

/// Numbers are compared as numbers: a pattern equals itself exactly where it is
/// a number, two patterns equal each other either way round, and two that
/// differ are equal only as the zeros of the two signs.
pub proof fn lemma_numbers_compare_as_numbers(left: u32, right: u32)
    ensures
        same_number(left, left) <==> !(0x7f80_0000 < left < 0x8000_0000 || left > 0xff80_0000),
        same_number(left, right) == same_number(right, left),
        same_number(left, right) && left != right ==> (left == 0 && right == 0x8000_0000) || (left
            == 0x8000_0000 && right == 0),
        same_number(0, 0x8000_0000),
        left == right ==> same_number(left, right) == same_number(left, left),
{
}

/// Lists of numbers are equal exactly where they are equally long and equal at
/// every place.
pub proof fn lemma_lists_compare_place_by_place(left: Seq<u32>, right: Seq<u32>)
    ensures
        same_numbers(left, right) <==> {
            &&& left.len() == right.len()
            &&& forall|i: int| 0 <= i < left.len() ==> #[trigger] same_number(left[i], right[i])
        },
{
}

/// Optional bytes are seen as they are.
pub proof fn lemma_optional_bytes_are_seen_as_they_are(bytes: Vec<u8>)
    ensures
        bytes_of(Some(bytes)) == Some(bytes@),
        bytes_of(None) is None,
{
}

} // verus!
