//! The file that names the document to open: empty (or blank) means that a new document is
//! to be created; otherwise it holds the document's identifier in hex.
use vstd::prelude::*;
use crate::document_id::{hex_decode, hex_digit, hex_encode, lemma_hex_round_trip, DocumentId, HexError};

verus! {

/// Whether a character is white space in the sense of Unicode's `White_Space` property.
pub open spec fn is_white_space(c: char) -> bool {
    ||| '\u{9}' <= c <= '\u{d}'
    ||| c == ' '
    ||| c == '\u{85}'
    ||| c == '\u{a0}'
    ||| c == '\u{1680}'
    ||| '\u{2000}' <= c <= '\u{200a}'
    ||| c == '\u{2028}'
    ||| c == '\u{2029}'
    ||| c == '\u{202f}'
    ||| c == '\u{205f}'
    ||| c == '\u{3000}'
}

/// Whether `t` is `s` without its leading and trailing white space.
pub open spec fn is_trimmed_of(t: Seq<char>, s: Seq<char>) -> bool {
    exists|a: int, b: int|
        #![trigger s.subrange(a, b)]
        0 <= a <= b <= s.len() && t == s.subrange(a, b) && (forall|i: int|
            0 <= i < a ==> is_white_space(#[trigger] s[i])) && (forall|i: int|
            b <= i < s.len() ==> is_white_space(#[trigger] s[i])) && (a < b ==> !is_white_space(
            s[a],
        ) && !is_white_space(s[b - 1]))
}

/// The text without its leading and trailing white space.
pub open spec fn trimmed(s: Seq<char>) -> Seq<char> {
    choose|t: Seq<char>| is_trimmed_of(t, s)
}

/// A text has one trimmed form.
proof fn lemma_trimmed_unique(s: Seq<char>, t: Seq<char>)
    requires
        is_trimmed_of(t, s),
    ensures
        trimmed(s) == t,
{
    let u = trimmed(s);
    assert(is_trimmed_of(u, s));
    let (a1, b1) = choose|a: int, b: int|
        #![trigger s.subrange(a, b)]
        0 <= a <= b <= s.len() && t == s.subrange(a, b) && (forall|i: int|
            0 <= i < a ==> is_white_space(#[trigger] s[i])) && (forall|i: int|
            b <= i < s.len() ==> is_white_space(#[trigger] s[i])) && (a < b ==> !is_white_space(
            s[a],
        ) && !is_white_space(s[b - 1]));
    let (a2, b2) = choose|a: int, b: int|
        #![trigger s.subrange(a, b)]
        0 <= a <= b <= s.len() && u == s.subrange(a, b) && (forall|i: int|
            0 <= i < a ==> is_white_space(#[trigger] s[i])) && (forall|i: int|
            b <= i < s.len() ==> is_white_space(#[trigger] s[i])) && (a < b ==> !is_white_space(
            s[a],
        ) && !is_white_space(s[b - 1]));
    if a1 < b1 && a2 < b2 {
        if a1 < a2 {
            assert(is_white_space(s[a1]));
        }
        if a2 < a1 {
            assert(is_white_space(s[a2]));
        }
        if b1 < b2 {
            assert(is_white_space(s[b2 - 1]));
        }
        if b2 < b1 {
            assert(is_white_space(s[b1 - 1]));
        }
    } else if a1 < b1 {
        if a1 < a2 {
            assert(is_white_space(s[a1]));
        } else {
            assert(is_white_space(s[a1]));
        }
    } else if a2 < b2 {
        if a2 < a1 {
            assert(is_white_space(s[a2]));
        } else {
            assert(is_white_space(s[a2]));
        }
    } else {
        assert(t =~= u);
    }
}

/// `str::trim`: the text without leading and trailing white space (characters with the
/// Unicode `White_Space` property).
#[verifier::external_body]
fn trim(s: &str) -> (t: &str)
    ensures
        is_trimmed_of(t@, s@),
{
    s.trim()
}

/// Where the identifier of the document to open comes from.
#[derive(Debug, Clone, Copy, PartialEq, Eq)]
pub enum DocumentIdSource {
    /// The file was blank: a new identifier was made, to be written to the file.
    Created,
    /// The identifier was read from the file.
    Read,
}

/// The identifier of the document to open, from the contents of the identifier file:
/// blank contents give a new random identifier (`Created`); otherwise the contents without
/// surrounding white space are parsed as hex (`Read`), and a parse failure is returned.
pub fn resolve_document_id(contents: &str) -> (r: Result<(DocumentId, DocumentIdSource), HexError>)
    ensures
        ({
            let t = trimmed(contents@);
            &&& t.len() == 0 ==> (r matches Ok((_, source)) && source == DocumentIdSource::Created)
            &&& t.len() > 0 ==> match r {
                Ok((id, source)) => source == DocumentIdSource::Read && (hex_decode(
                    vstd::utf8::encode_utf8(t),
                    32,
                ) matches Ok(v) && v == id.bytes@),
                Err(e) => hex_decode(vstd::utf8::encode_utf8(t), 32) matches Err(d) && d == e,
            }
        }),
{
    let hex = trim(contents);
    proof {
        lemma_trimmed_unique(contents@, hex@);
    }
    if hex.is_empty() {
        return Ok((DocumentId::new(), DocumentIdSource::Created));
    }
    match DocumentId::from_hex(hex) {
        Ok(id) => Ok((id, DocumentIdSource::Read)),
        Err(e) => Err(e),
    }
}

/// Law: once a new identifier has been made, the file is written with its hex form, and
/// resolving those contents again gives `Read` with the same identifier (so nothing more
/// is written): the hex form has no surrounding white space, is not blank, and decodes
/// back to the identifier's bytes.
pub proof fn lemma_resolving_the_written_id(bytes: Seq<u8>)
    requires
        bytes.len() == 32,
    ensures
        trimmed(hex_encode(bytes)) == hex_encode(bytes),
        hex_encode(bytes).len() > 0,
        hex_decode(vstd::utf8::encode_utf8(hex_encode(bytes)), 32) == Ok::<Seq<u8>, HexError>(bytes),
{
    let text = hex_encode(bytes);
    lemma_hex_round_trip(bytes);
    assert forall|i: int| 0 <= i < text.len() implies !is_white_space(#[trigger] text[i]) by {
        let v = if i % 2 == 0 {
            (bytes[i / 2] / 16) as int
        } else {
            (bytes[i / 2] % 16) as int
        };
        assert(text[i] == hex_digit(v));
        assert(0 <= v < 16);
    }
    assert(text.subrange(0, text.len() as int) =~= text);
    assert(is_trimmed_of(text, text));
    lemma_trimmed_unique(text, text);
}

} // verus!
