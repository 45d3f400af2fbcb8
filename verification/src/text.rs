//! The text of a document, held in a `loro` CRDT document under the root text container
//! named "document".
use loro::{ContainerID, ContainerType, ExportMode, LoroDoc, LoroError, LoroText};
use vstd::prelude::*;

verus! {

/// `loro::LoroDoc`: a CRDT document.
#[verifier::external_type_specification]
#[verifier::external_body]
pub struct ExLoroDoc(LoroDoc);

/// `loro::cursor::Cursor`: a stable position in a text, carried through unread.
#[verifier::external_type_specification]
#[verifier::external_body]
pub struct ExCursor(loro::cursor::Cursor);

/// The characters of the root text container "document" of a loro document.
pub uninterp spec fn loro_text(doc: LoroDoc) -> Seq<char>;

/// Whether a loro document accepts local edits (its internal `can_edit`): it is attached to
/// its latest version, or editing while detached has been enabled.
pub uninterp spec fn loro_can_edit(doc: LoroDoc) -> bool;

/// The peer id of a loro document (`LoroDoc::peer_id`), which stamps its local changes.
pub uninterp spec fn loro_peer_id(doc: LoroDoc) -> u64;

/// The bytes of a snapshot export of a loro document, or `None` where the export is
/// refused.
pub uninterp spec fn loro_snapshot(doc: LoroDoc) -> Option<Seq<u8>>;

/// The characters of the text "document" after importing `bytes` into `doc`, or `None`
/// where the import is refused.
pub uninterp spec fn loro_import(doc: LoroDoc, bytes: Seq<u8>) -> Option<Seq<char>>;

/// The four bytes that open every encoded loro blob ("loro").
pub open spec fn loro_magic() -> Seq<u8> {
    seq![108u8, 111u8, 114u8, 111u8]
}

/// Whether bytes are too short for the header of an encoded loro blob (22 bytes) or do not
/// open with its magic bytes.
pub open spec fn lacks_loro_header(bytes: Seq<u8>) -> bool {
    bytes.len() < 22 || bytes.subrange(0, 4) != loro_magic()
}

/// Why an edit of the text failed.
#[derive(Debug, Clone, PartialEq, Eq)]
pub enum TextError {
    /// The position `pos` lies beyond the text's length `len` (in characters); `info` is
    /// where the CRDT found it.
    OutOfBound { pos: usize, len: usize, info: String },
    /// Any other refusal by the CRDT, with its message.
    Other(String),
}

/// Whether an error is `OutOfBound` with this position and length.
pub open spec fn is_out_of_bound(e: TextError, pos: usize, len: usize) -> bool {
    e matches TextError::OutOfBound { pos: p, len: l, .. } && p == pos && l == len
}

/// The text after inserting `s` at character position `pos`.
pub open spec fn text_inserted(text: Seq<char>, pos: int, s: Seq<char>) -> Seq<char> {
    text.take(pos) + s + text.skip(pos)
}

/// The text after removing `len` characters starting at character position `pos`.
pub open spec fn text_deleted(text: Seq<char>, pos: int, len: int) -> Seq<char> {
    text.take(pos) + text.skip(pos + len)
}

/// `LoroDoc::new`: a new document, attached to its (empty) latest version and so open to
/// edits, whose text container is empty.
#[verifier::external_body]
pub(crate) fn loro_new() -> (doc: LoroDoc)
    ensures
        loro_text(doc) == Seq::<char>::empty(),
        loro_can_edit(doc),
{
    LoroDoc::new()
}

/// `LoroText::insert` on the root text "document": inserts `s` at the character position
/// `pos`. A position beyond the text's length is refused before anything changes (with
/// `OutOfBound`, unless the document cannot be edited at all, which gives another error
/// first). On a document that accepts edits, a position within the text is taken: the crate
/// checks the position's boundary only for byte and UTF-16 positions, and applying a text
/// insertion to the root container cannot fail. On success the text is the old text with
/// `s` at `pos`. Inserting neither detaches the document nor changes its peer id.
#[verifier::external_body]
pub(crate) fn loro_text_insert(doc: &mut LoroDoc, pos: usize, s: &str) -> (r: Result<(), TextError>)
    ensures
        pos > loro_text(*old(doc)).len() ==> (r is Err && loro_text(*final(doc)) == loro_text(*old(doc))),
        (loro_can_edit(*old(doc)) && pos <= loro_text(*old(doc)).len()) ==> r is Ok,
        r is Ok ==> loro_text(*final(doc)) == text_inserted(loro_text(*old(doc)), pos as int, s@),
        loro_can_edit(*final(doc)) == loro_can_edit(*old(doc)),
        loro_peer_id(*final(doc)) == loro_peer_id(*old(doc)),
{
    let text: LoroText = doc.get_text(ContainerID::new_root("document", ContainerType::Text));
    match text.insert(pos, s) {
        Ok(()) => Ok(()),
        Err(LoroError::OutOfBound { pos, len, info }) => Err(TextError::OutOfBound {
            pos,
            len,
            info: info.to_string(),
        }),
        Err(e) => Err(TextError::Other(e.to_string())),
    }
}

/// `LoroText::delete` on the root text "document": removes `len` characters from the
/// character position `pos`. Removing nothing succeeds and changes nothing; a range whose
/// end overflows is refused with `OutOfBound { pos: usize::MAX, .. }`, one whose end lies
/// beyond the text with `OutOfBound { pos: end, .. }`, both before anything changes. On a
/// document that accepts edits, a range within the text is removed (as for the insert, no
/// other check applies to character positions). Deleting neither detaches the document nor
/// changes its peer id.
#[verifier::external_body]
pub(crate) fn loro_text_delete(doc: &mut LoroDoc, pos: usize, len: usize) -> (r: Result<(), TextError>)
    ensures
        len == 0 ==> (r is Ok && loro_text(*final(doc)) == loro_text(*old(doc))),
        (len > 0 && pos + len > usize::MAX) ==> (r matches Err(e) && is_out_of_bound(e, usize::MAX, loro_text(*old(doc)).len() as usize) && loro_text(*final(doc)) == loro_text(*old(doc))),
        (len > 0 && pos + len <= usize::MAX && pos + len > loro_text(*old(doc)).len()) ==> (r matches Err(e) && is_out_of_bound(e, (pos + len) as usize, loro_text(*old(doc)).len() as usize) && loro_text(*final(doc)) == loro_text(*old(doc))),
        (loro_can_edit(*old(doc)) && pos + len <= loro_text(*old(doc)).len()) ==> r is Ok,
        r is Ok ==> loro_text(*final(doc)) == text_deleted(
            loro_text(*old(doc)),
            pos as int,
            len as int,
        ),
        loro_can_edit(*final(doc)) == loro_can_edit(*old(doc)),
        loro_peer_id(*final(doc)) == loro_peer_id(*old(doc)),
{
    let text: LoroText = doc.get_text(ContainerID::new_root("document", ContainerType::Text));
    match text.delete(pos, len) {
        Ok(()) => Ok(()),
        Err(LoroError::OutOfBound { pos, len, info }) => Err(TextError::OutOfBound {
            pos,
            len,
            info: info.to_string(),
        }),
        Err(e) => Err(TextError::Other(e.to_string())),
    }
}

/// `LoroDoc::commit`: closes the pending transaction; the text, whether the document
/// accepts edits, and its peer id stay as they are.
#[verifier::external_body]
pub(crate) fn loro_commit(doc: &mut LoroDoc)
    ensures
        loro_text(*final(doc)) == loro_text(*old(doc)),
        loro_can_edit(*final(doc)) == loro_can_edit(*old(doc)),
        loro_peer_id(*final(doc)) == loro_peer_id(*old(doc)),
{
    doc.commit()
}

/// `LoroText::to_string` on the root text "document": the text's characters.
#[verifier::external_body]
pub(crate) fn loro_text_string(doc: &LoroDoc) -> (s: String)
    ensures
        s@ == loro_text(*doc),
{
    doc.get_text(ContainerID::new_root("document", ContainerType::Text)).to_string()
}

/// `LoroDoc::set_peer_id`: the reserved id `u64::MAX` is refused and nothing changes; any
/// other id is taken. (Every `loro::LoroDoc` runs in auto-commit mode: each of its
/// constructors starts it and nothing stops it; in that mode the crate stores the new id,
/// closing a pending transaction first, and does not refuse.) The text and whether the
/// document accepts edits stay as they are.
#[verifier::external_body]
pub(crate) fn loro_set_peer_id(doc: &mut LoroDoc, peer: u64) -> (r: Result<(), TextError>)
    ensures
        peer == u64::MAX ==> (r is Err && loro_peer_id(*final(doc)) == loro_peer_id(*old(doc))),
        peer != u64::MAX ==> (r is Ok && loro_peer_id(*final(doc)) == peer),
        loro_text(*final(doc)) == loro_text(*old(doc)),
        loro_can_edit(*final(doc)) == loro_can_edit(*old(doc)),
{
    match doc.set_peer_id(peer) {
        Ok(()) => Ok(()),
        Err(e) => Err(TextError::Other(e.to_string())),
    }
}

/// `LoroDoc::export(ExportMode::Snapshot)`: the snapshot's bytes, or the crate's refusal
/// (as a message); which of the two comes, and the bytes, are those that `loro_snapshot`
/// names for the document. Exporting first commits the pending transaction; the text,
/// whether the document accepts edits, and its peer id stay as they are.
#[verifier::external_body]
pub(crate) fn loro_export_snapshot(doc: &mut LoroDoc) -> (r: Result<Vec<u8>, String>)
    ensures
        r is Ok <==> loro_snapshot(*old(doc)) is Some,
        r matches Ok(bytes) ==> loro_snapshot(*old(doc)) == Some(bytes@),
        loro_text(*final(doc)) == loro_text(*old(doc)),
        loro_can_edit(*final(doc)) == loro_can_edit(*old(doc)),
        loro_peer_id(*final(doc)) == loro_peer_id(*old(doc)),
{
    match doc.export(ExportMode::Snapshot) {
        Ok(bytes) => Ok(bytes),
        Err(e) => Err(e.to_string()),
    }
}

/// `LoroDoc::import_with(bytes, "delta")`: merges updates received from a peer. Whether the
/// import is taken, and the text after it, are those that `loro_import` names for the
/// document and the bytes. Bytes too short for a blob's header, or without its magic
/// bytes, are refused before anything changes. After another refusal the crate may keep a
/// valid prefix of the updates, so the text then is left unsaid. Importing neither
/// detaches the document nor changes its peer id.
///
/// Panics are not ruled out: the crate's decoder has not been shown to return on every
/// byte string that passes the header's checksum, and no precondition could exclude such
/// bytes without decoding them, so this call (unlike the library's verified code) may
/// panic on crafted input.
#[verifier::external_body]
pub(crate) fn loro_import_delta(doc: &mut LoroDoc, bytes: &[u8]) -> (r: Result<(), TextError>)
    ensures
        r is Ok <==> loro_import(*old(doc), bytes@) is Some,
        r is Ok ==> loro_import(*old(doc), bytes@) == Some(loro_text(*final(doc))),
        lacks_loro_header(bytes@) ==> (r is Err && loro_text(*final(doc)) == loro_text(*old(doc))),
        loro_can_edit(*final(doc)) == loro_can_edit(*old(doc)),
        loro_peer_id(*final(doc)) == loro_peer_id(*old(doc)),
{
    match doc.import_with(bytes, "delta") {
        Ok(_) => Ok(()),
        Err(e) => Err(TextError::Other(e.to_string())),
    }
}

} // verus!
