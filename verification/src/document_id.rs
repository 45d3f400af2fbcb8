//! Document identifiers: 32 random bytes, written as 64 lowercase hex digits.
use rand::RngCore;
use vstd::prelude::*;
use vstd::std_specs::convert::FromSpecImpl;
use vstd::string::StringSliceAdditionalSpecFns;
use vstd::utf8::{encode_scalar, encode_utf8, has_width_1_encoding, has_width_2_encoding, has_width_3_encoding, is_ascii_chars};

verus! {

broadcast use vstd::utf8::group_utf8_lib;

/// Why a string is not the hex form of a document identifier.
#[derive(Debug, Clone, Copy, PartialEq, Eq)]
pub enum HexError {
    /// The byte at `index` is not a hex digit; `c` is that byte taken as a character.
    InvalidHexCharacter { c: char, index: usize },
    /// The string has an odd number of bytes.
    OddLength,
    /// The string has an even number of bytes, but not twice the identifier's length.
    InvalidStringLength,
}

/// The value of a hex digit byte (`0-9`, `a-f`, `A-F`), or `None` for any other byte.
pub open spec fn hex_value(b: u8) -> Option<u8> {
    if 48 <= b <= 57 {
        Some((b - 48) as u8)
    } else if 97 <= b <= 102 {
        Some((b - 87) as u8)
    } else if 65 <= b <= 70 {
        Some((b - 55) as u8)
    } else {
        None
    }
}

/// Whether every byte before `end` is a hex digit.
pub open spec fn hex_digits_before(data: Seq<u8>, end: int) -> bool {
    forall|j: int| 0 <= j < end ==> #[trigger] hex_value(data[j]) is Some
}

/// The byte decoded from the two hex digits at `2 * k` and `2 * k + 1`.
pub open spec fn hex_pair_value(data: Seq<u8>, k: int) -> u8 {
    (hex_value(data[2 * k]).unwrap() * 16 + hex_value(data[2 * k + 1]).unwrap()) as u8
}

/// Decoding hex text (taken as bytes) into exactly `out_len` bytes: odd length is
/// refused first, then a length other than `2 * out_len`, then the first byte that is
/// not a hex digit.
pub open spec fn hex_decode(data: Seq<u8>, out_len: nat) -> Result<Seq<u8>, HexError> {
    if data.len() % 2 != 0 {
        Err(HexError::OddLength)
    } else if data.len() / 2 != out_len {
        Err(HexError::InvalidStringLength)
    } else if hex_digits_before(data, data.len() as int) {
        Ok(Seq::new(out_len, |k: int| hex_pair_value(data, k)))
    } else {
        let i = choose|i: int|
            0 <= i < data.len() && hex_value(data[i]) is None && hex_digits_before(data, i);
        Err(HexError::InvalidHexCharacter { c: (data[i] as u32) as char, index: i as usize })
    }
}

/// The lowercase hex digit for a value below 16.
pub open spec fn hex_digit(v: int) -> char {
    if v < 10 {
        ((48 + v) as u32) as char
    } else {
        ((87 + v) as u32) as char
    }
}

/// Lowercase hex encoding: two digits per byte, high half first.
pub open spec fn hex_encode(bytes: Seq<u8>) -> Seq<char> {
    Seq::new(
        2 * bytes.len(),
        |i: int|
            if i % 2 == 0 {
                hex_digit((bytes[i / 2] / 16) as int)
            } else {
                hex_digit((bytes[i / 2] % 16) as int)
            },
    )
}

/// Every character of a hex encoding is ASCII, and its byte decodes back to its value.
proof fn lemma_hex_digit(v: int)
    requires
        0 <= v < 16,
    ensures
        '\0' <= hex_digit(v) <= '\u{7f}',
        hex_value(hex_digit(v) as u8) == Some(v as u8),
{
}

/// Law: decoding the hex text of any 32 bytes gives back those bytes, so
/// `DocumentId::from_hex(&id.to_hex())` is `Ok(id)` for every identifier `id`.
pub proof fn lemma_hex_round_trip(bytes: Seq<u8>)
    requires
        bytes.len() == 32,
    ensures
        hex_decode(vstd::utf8::encode_utf8(hex_encode(bytes)), 32) == Ok::<Seq<u8>, HexError>(bytes),
{
    let text = hex_encode(bytes);
    assert forall|i: int| 0 <= i < text.len() implies '\0' <= #[trigger] text[i] <= '\u{7f}' by {
        lemma_hex_digit((bytes[i / 2] / 16) as int);
        lemma_hex_digit((bytes[i / 2] % 16) as int);
    }
    assert(vstd::utf8::is_ascii_chars(text));
    let data = vstd::utf8::encode_utf8(text);
    assert(data.len() == 64);
    assert forall|j: int| 0 <= j < 64 implies #[trigger] hex_value(data[j]) == Some(
        (if j % 2 == 0 { bytes[j / 2] / 16 } else { bytes[j / 2] % 16 }) as u8,
    ) by {
        lemma_hex_digit((bytes[j / 2] / 16) as int);
        lemma_hex_digit((bytes[j / 2] % 16) as int);
        assert(data[j] == text[j] as u8);
    }
    assert(hex_digits_before(data, 64));
    assert forall|k: int| 0 <= k < 32 implies #[trigger] hex_pair_value(data, k) == bytes[k] by {
        assert(hex_value(data[2 * k]) == Some((bytes[k] / 16) as u8));
        assert(hex_value(data[2 * k + 1]) == Some((bytes[k] % 16) as u8));
    }
    assert(Seq::new(32, |k: int| hex_pair_value(data, k)) =~= bytes);
}

/// The ASCII lowercase form of a character: `A` to `Z` become `a` to `z`, any other
/// character stays as it is.
pub open spec fn ascii_lowercase(c: char) -> char {
    if 'A' <= c <= 'Z' {
        ((c as u32) + 32) as char
    } else {
        c
    }
}

/// The leading byte of a UTF-8 encoding two, three or four bytes long is at least `0xC0`.
proof fn lemma_multibyte_leading_byte(x: u8)
    by (bit_vector)
    ensures
        (0xC0u8 | x) >= 0xC0u8,
        (0xE0u8 | x) >= 0xC0u8,
        (0xF0u8 | x) >= 0xC0u8,
{
}

/// Characters whose UTF-8 encoding has only bytes below `0x80` are all ASCII.
proof fn lemma_ascii_encoding_has_ascii_chars(chars: Seq<char>)
    requires
        forall|j: int| 0 <= j < encode_utf8(chars).len() ==> #[trigger] encode_utf8(chars)[j] < 0x80,
    ensures
        is_ascii_chars(chars),
    decreases chars.len(),
{
    if chars.len() > 0 {
        let c = chars[0] as u32;
        let first = encode_scalar(c);
        let tail = chars.drop_first();
        let rest = encode_utf8(tail);
        let all = encode_utf8(chars);
        assert(all == first + rest);
        assert(all[0] == first[0]);
        if !has_width_1_encoding(c) {
            if has_width_2_encoding(c) {
                lemma_multibyte_leading_byte(((c >> 6) & 0x1F) as u8);
            } else if has_width_3_encoding(c) {
                lemma_multibyte_leading_byte(((c >> 12) & 0x0F) as u8);
            } else {
                lemma_multibyte_leading_byte(((c >> 18) & 0x7) as u8);
            }
            assert(false);
        }
        assert forall|j: int| 0 <= j < rest.len() implies #[trigger] rest[j] < 0x80 by {
            assert(all[first.len() + j] == rest[j]);
        }
        lemma_ascii_encoding_has_ascii_chars(tail);
        assert forall|i: int| 0 <= i < chars.len() implies '\0' <= #[trigger] chars[i] <= '\u{7f}' by {
            if i > 0 {
                assert(chars[i] == tail[i - 1]);
                assert('\0' <= tail[i - 1] <= '\u{7f}');
            } else {
                let x = chars[0] as u32;
                assert(x <= 0x7f);
                vstd::utf8::char_u32_cast(chars[0], x);
                assert((x as char) <= '\u{7f}');
            }
        }
    }
}

/// Re-encoding a hex digit's value gives the digit in lowercase.
proof fn lemma_hex_digit_of_value(b: u8)
    requires
        hex_value(b) is Some,
    ensures
        hex_digit(hex_value(b).unwrap() as int) == ascii_lowercase((b as u32) as char),
{
}

/// Law: whatever hex text parses as an identifier is the identifier's hex form up to the
/// case of its letters: for text `t` with `DocumentId::from_hex(t) == Ok(id)`,
/// `id.to_hex()` is `t` with `A` to `F` made lowercase.
pub proof fn lemma_parsed_hex_is_lowercase_text(text: Seq<char>, bytes: Seq<u8>)
    requires
        hex_decode(encode_utf8(text), 32) == Ok::<Seq<u8>, HexError>(bytes),
    ensures
        hex_encode(bytes) == text.map_values(|c: char| ascii_lowercase(c)),
{
    let data = encode_utf8(text);
    assert(data.len() == 64);
    assert(hex_digits_before(data, 64));
    assert forall|j: int| 0 <= j < data.len() implies #[trigger] data[j] < 0x80 by {
        assert(hex_value(data[j]) is Some);
    }
    lemma_ascii_encoding_has_ascii_chars(text);
    vstd::utf8::is_ascii_chars_encode_utf8(text);
    assert(text.len() == 64);
    let out = hex_encode(bytes);
    let want = text.map_values(|c: char| ascii_lowercase(c));
    assert forall|i: int| 0 <= i < 64 implies #[trigger] out[i] == want[i] by {
        let k = i / 2;
        let hi = hex_value(data[2 * k]).unwrap();
        let lo = hex_value(data[2 * k + 1]).unwrap();
        assert(hex_value(data[2 * k]) is Some);
        assert(hex_value(data[2 * k + 1]) is Some);
        assert(bytes[k] == hex_pair_value(data, k));
        assert(hi < 16 && lo < 16);
        assert(bytes[k] / 16 == hi && bytes[k] % 16 == lo) by (nonlinear_arith)
            requires
                bytes[k] == (hi * 16 + lo) as u8,
                0 <= hi < 16,
                0 <= lo < 16,
        ;
        assert(text[i] as u8 == data[i]);
        assert('\0' <= text[i] <= '\u{7f}');
        assert((data[i] as u32) as char == text[i]);
        lemma_hex_digit_of_value(data[i]);
        if i % 2 == 0 {
            assert(2 * k == i);
        } else {
            assert(2 * k + 1 == i);
        }
    }
    assert(out =~= want);
}

/// Decodes hex text into 32 bytes with `hex::decode_to_slice`, which checks the text's
/// byte length (odd first, then not 64), then decodes each pair of bytes and stops at the
/// first byte that is not a hex digit; the crate's error is taken over variant by variant.
#[verifier::external_body]
fn decode_hex_32(text: &str) -> (r: Result<[u8; 32], HexError>)
    ensures
        r matches Ok(bytes) ==> (hex_decode(text.spec_bytes(), 32) matches Ok(v) && v == bytes@),
        r matches Err(e) ==> (hex_decode(text.spec_bytes(), 32) matches Err(d) && d == e),
{
    let mut bytes = [0u8; 32];
    match hex::decode_to_slice(text, &mut bytes) {
        Ok(()) => Ok(bytes),
        Err(hex::FromHexError::InvalidHexCharacter { c, index }) => Err(
            HexError::InvalidHexCharacter { c, index },
        ),
        Err(hex::FromHexError::OddLength) => Err(HexError::OddLength),
        Err(hex::FromHexError::InvalidStringLength) => Err(HexError::InvalidStringLength),
    }
}

/// Encodes 32 bytes as lowercase hex text with `hex::encode`.
#[verifier::external_body]
pub(crate) fn encode_hex_32(bytes: &[u8; 32]) -> (text: String)
    ensures
        text@ == hex_encode(bytes@),
{
    hex::encode(bytes)
}

/// Fills 32 bytes from the thread-local random generator `rand::rng()` with
/// `RngCore::fill_bytes`. Nothing is promised of the bytes: they come from chance.
#[verifier::external_body]
fn random_bytes_32() -> [u8; 32] {
    let mut bytes = [0u8; 32];
    rand::rng().fill_bytes(&mut bytes);
    bytes
}

/// Identifies a document: 32 bytes.
#[derive(Clone, Copy, Debug, PartialEq, Eq, Hash)]
pub struct DocumentId {
    pub bytes: [u8; 32],
}

impl DocumentId {
    /// A fresh random identifier.
    pub fn new() -> (id: DocumentId) {
        DocumentId { bytes: random_bytes_32() }
    }

    /// Parses the hex form of an identifier (64 hex digits, either case).
    pub fn from_hex(hex: &str) -> (r: Result<DocumentId, HexError>)
        ensures
            r matches Ok(id) ==> (hex_decode(hex.spec_bytes(), 32) matches Ok(v) && v == id.bytes@),
            r matches Err(e) ==> (hex_decode(hex.spec_bytes(), 32) matches Err(d) && d == e),
    {
        match decode_hex_32(hex) {
            Ok(bytes) => Ok(DocumentId { bytes }),
            Err(e) => Err(e),
        }
    }

    /// The identifier as 64 lowercase hex digits.
    pub fn to_hex(&self) -> (text: String)
        ensures
            text@ == hex_encode(self.bytes@),
    {
        encode_hex_32(&self.bytes)
    }

    /// Whether two identifiers are equal.
    pub fn equals(&self, other: &DocumentId) -> (r: bool)
        ensures
            r == (self.bytes@ == other.bytes@),
    {
        crate::identity::bytes32_eq(&self.bytes, &other.bytes)
    }
}

impl From<[u8; 32]> for DocumentId {
    fn from(bytes: [u8; 32]) -> (id: DocumentId) {
        DocumentId { bytes }
    }
}

impl FromSpecImpl<[u8; 32]> for DocumentId {
    open spec fn obeys_from_spec() -> bool {
        true
    }

    open spec fn from_spec(bytes: [u8; 32]) -> DocumentId {
        DocumentId { bytes }
    }
}

impl From<DocumentId> for [u8; 32] {
    fn from(id: DocumentId) -> (bytes: [u8; 32]) {
        id.bytes
    }
}

impl FromSpecImpl<DocumentId> for [u8; 32] {
    open spec fn obeys_from_spec() -> bool {
        true
    }

    open spec fn from_spec(id: DocumentId) -> [u8; 32] {
        id.bytes
    }
}

} // verus!
