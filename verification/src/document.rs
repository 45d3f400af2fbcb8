//! One collaboratively edited plain-text document.
use loro::cursor::Cursor;
use loro::LoroDoc;
use vstd::prelude::*;
use crate::author::Author;
use crate::authors::Authors;
use crate::document_id::DocumentId;
use crate::identity::PublicKey;
use crate::keyed::Key;
use crate::keyed::{has_key, value_of};
use crate::text::{
    lacks_loro_header, loro_can_edit, loro_commit, loro_export_snapshot, loro_import,
    loro_import_delta, loro_new, loro_peer_id, loro_set_peer_id, loro_snapshot, loro_text,
    is_out_of_bound, loro_text_delete, loro_text_insert, loro_text_string, text_deleted,
    text_inserted, TextError,
};
use crate::timestamp::{utc_now, Timestamp};

verus! {

/// The number that the first eight bytes of `bytes` spell in big-endian order (of the first
/// `n` of them, for `n <= 8`).
pub open spec fn big_endian(bytes: Seq<u8>, n: int) -> int
    decreases n,
{
    if n <= 0 {
        0
    } else {
        big_endian(bytes, n - 1) * 256 + bytes[n - 1]
    }
}

/// 256 to the power `n`.
pub open spec fn pow256(n: int) -> int
    decreases n,
{
    if n <= 0 {
        1
    } else {
        pow256(n - 1) * 256
    }
}

proof fn lemma_big_endian_bound(bytes: Seq<u8>, n: int)
    requires
        0 <= n <= bytes.len(),
    ensures
        0 <= big_endian(bytes, n) < pow256(n),
    decreases n,
{
    if n > 0 {
        lemma_big_endian_bound(bytes, n - 1);
        let p = pow256(n - 1);
        let b = big_endian(bytes, n - 1);
        assert(b * 256 + bytes[n - 1] < p * 256) by (nonlinear_arith)
            requires
                0 <= b < p,
                0 <= bytes[n - 1] < 256,
        ;
        assert(0 <= b * 256) by (nonlinear_arith)
            requires
                0 <= b,
        ;
    }
}

proof fn lemma_pow256_monotonic(a: int, b: int)
    requires
        0 <= a <= b,
    ensures
        pow256(a) <= pow256(b),
    decreases b - a,
{
    if a < b {
        lemma_pow256_monotonic(a, b - 1);
        assert(pow256(b - 1) >= 1) by {
            lemma_pow256_positive(b - 1);
        }
    }
}

proof fn lemma_pow256_positive(n: int)
    ensures
        pow256(n) >= 1,
    decreases n,
{
    if n > 0 {
        lemma_pow256_positive(n - 1);
    }
}

/// The CRDT peer id of the author with this key: its first eight bytes read as a
/// big-endian number.
pub fn peer_id_for(key: &PublicKey) -> (peer: u64)
    ensures
        peer == big_endian(key.bytes@, 8),
{
    let mut peer: u64 = 0;
    let mut i: usize = 0;
    while i < 8
        invariant
            0 <= i <= 8,
            peer == big_endian(key.bytes@, i as int),
        decreases 8 - i,
    {
        proof {
            lemma_big_endian_bound(key.bytes@, i + 1);
            lemma_pow256_monotonic(i + 1, 8);
            reveal_with_fuel(pow256, 9);
            assert(pow256(8) == 0x1_0000_0000_0000_0000);
        }
        peer = peer * 256 + key.bytes[i] as u64;
        i = i + 1;
    }
    peer
}

/// What a document holds, as mathematical values.
pub struct DocumentView {
    pub id: DocumentId,
    pub text: Seq<char>,
    pub authors: Seq<(Key, Author)>,
    pub subscribed: bool,
    pub last_accessed: Option<Timestamp>,
}

/// A plain-text document: its identifier, its text (in a CRDT), its authors, whether it is
/// subscribed to the network, when it was last accessed, and the cursor positions last
/// received from a peer.
pub struct Document {
    id: DocumentId,
    loro_doc: LoroDoc,
    authors: Authors,
    subscribed: bool,
    insert_cursor: Option<Cursor>,
    selection_bound: Option<Cursor>,
    last_accessed: Option<Timestamp>,
}

impl View for Document {
    type V = DocumentView;

    closed spec fn view(&self) -> DocumentView {
        DocumentView {
            id: self.id,
            text: loro_text(self.loro_doc),
            authors: self.authors.entries(),
            subscribed: self.subscribed,
            last_accessed: self.last_accessed,
        }
    }
}

impl Document {
    /// The CRDT of every document accepts local edits: it is never detached.
    #[verifier::type_invariant]
    spec fn crdt_editable(&self) -> bool {
        loro_can_edit(self.loro_doc)
    }

    /// Takes the CRDT out of the document, leaving a fresh one in its place (to be put back
    /// once it has been worked on).
    fn take_crdt(&mut self) -> (crdt: LoroDoc)
        ensures
            crdt == old(self).loro_doc,
            loro_can_edit(crdt),
            final(self).id == old(self).id,
            final(self).authors == old(self).authors,
            final(self).subscribed == old(self).subscribed,
            final(self).insert_cursor == old(self).insert_cursor,
            final(self).selection_bound == old(self).selection_bound,
            final(self).last_accessed == old(self).last_accessed,
    {
        proof {
            use_type_invariant(&*self);
        }
        let mut crdt = loro_new();
        std::mem::swap(&mut crdt, &mut self.loro_doc);
        crdt
    }

    /// Takes the authors out of the document, leaving an empty list in their place (to be
    /// put back once they have been worked on).
    fn take_authors(&mut self) -> (authors: Authors)
        ensures
            authors == old(self).authors,
            loro_can_edit(old(self).loro_doc),
            final(self).id == old(self).id,
            final(self).loro_doc == old(self).loro_doc,
            final(self).subscribed == old(self).subscribed,
            final(self).insert_cursor == old(self).insert_cursor,
            final(self).selection_bound == old(self).selection_bound,
            final(self).last_accessed == old(self).last_accessed,
    {
        proof {
            use_type_invariant(&*self);
        }
        let mut authors = Authors::new();
        std::mem::swap(&mut authors, &mut self.authors);
        authors
    }

    /// The cursor positions last taken from a peer (insert cursor, selection bound).
    pub closed spec fn spec_cursors(&self) -> (Option<Cursor>, Option<Cursor>) {
        (self.insert_cursor, self.selection_bound)
    }

    /// The peer id that stamps the document's local changes in its CRDT.
    pub closed spec fn spec_peer_id(&self) -> u64 {
        loro_peer_id(self.loro_doc)
    }

    /// Whether the document's CRDT stamps edits with the peer id taken from `own_key`
    /// (unless that is the reserved `u64::MAX`) and the document holds no cursor positions
    /// from a peer, as a new document for that key does.
    pub open spec fn is_fresh_for(&self, own_key: PublicKey) -> bool {
        &&& big_endian(own_key.bytes@, 8) != u64::MAX ==> self.spec_peer_id() == big_endian(
            own_key.bytes@,
            8,
        )
        &&& self.spec_cursors() == (None::<Cursor>, None::<Cursor>)
    }

    /// The snapshot that exporting the document's CRDT gives, or `None` where the CRDT
    /// refuses the export.
    pub closed spec fn spec_snapshot(&self) -> Option<Seq<u8>> {
        loro_snapshot(self.loro_doc)
    }

    /// The text after merging received bytes into the document's CRDT, or `None` where the
    /// CRDT refuses them.
    pub closed spec fn spec_import(&self, bytes: Seq<u8>) -> Option<Seq<char>> {
        loro_import(self.loro_doc, bytes)
    }

    /// A new empty document for the user whose public key is `own_key`: its only author is
    /// this device, its CRDT stamps its edits with the peer id taken from
    /// `own_key` (see `peer_id_for`; the CRDT refuses the reserved id `u64::MAX`, and the
    /// document then keeps the peer id its CRDT started with), it is not subscribed and has
    /// no last-access time.
    pub fn new(own_key: &PublicKey, id: &DocumentId) -> (doc: Document)
        ensures
            doc@ == (DocumentView {
                id: *id,
                text: Seq::empty(),
                authors: seq![(own_key.bytes, Author::spec_for_this_device(*own_key, None))],
                subscribed: false,
                last_accessed: None,
            }),
            big_endian(own_key.bytes@, 8) != u64::MAX ==> doc.spec_peer_id() == big_endian(
                own_key.bytes@,
                8,
            ),
            doc.spec_cursors() == (None::<Cursor>, None::<Cursor>),
            doc.is_fresh_for(*own_key),
    {
        let mut loro_doc = loro_new();
        let mut authors = Authors::new();
        authors.add_this_device(*own_key, None);
        let _ = loro_set_peer_id(&mut loro_doc, peer_id_for(own_key));
        Document {
            id: *id,
            loro_doc,
            authors,
            subscribed: false,
            insert_cursor: None,
            selection_bound: None,
            last_accessed: None,
        }
    }

    /// Inserts `text` at the character position `pos` (taken as `pos as usize`, as a
    /// negative position is) and commits. A position beyond the text is refused and changes
    /// nothing; a position within the text is taken, and then the text has `text` at `pos`.
    pub fn insert_text(&mut self, pos: i32, text: &str) -> (r: Result<(), TextError>)
        ensures
            (pos as usize) > old(self)@.text.len() ==> (r is Err && final(self)@ == old(self)@),
            (pos as usize) <= old(self)@.text.len() ==> r is Ok,
            r is Ok ==> final(self)@ == (DocumentView {
                text: text_inserted(old(self)@.text, (pos as usize) as int, text@),
                ..old(self)@
            }),
            final(self)@ == (DocumentView { text: final(self)@.text, ..old(self)@ }),
            final(self).spec_peer_id() == old(self).spec_peer_id(),
            final(self).spec_cursors() == old(self).spec_cursors(),
    {
        let mut crdt = self.take_crdt();
        let r = loro_text_insert(&mut crdt, pos as usize, text);
        if r.is_ok() {
            loro_commit(&mut crdt);
        }
        self.loro_doc = crdt;
        r
    }

    /// Removes the characters from position `start` up to `end` (as `start as usize` and
    /// `(end - start) as usize`) and commits. A range reaching beyond the text is refused
    /// with `OutOfBound` and changes nothing; an empty range changes nothing; a range within
    /// the text is removed.
    pub fn delete_range(&mut self, start_pos: i32, end_pos: i32) -> (r: Result<(), TextError>)
        requires
            i32::MIN <= end_pos - start_pos <= i32::MAX,
        ensures
            ({
                let pos = start_pos as usize;
                let len = (end_pos - start_pos) as i32 as usize;
                let old_len = old(self)@.text.len();
                &&& len == 0 ==> (r is Ok && final(self)@ == old(self)@)
                &&& (len > 0 && pos + len > usize::MAX) ==> (r matches Err(e) && is_out_of_bound(
                    e,
                    usize::MAX,
                    old_len as usize,
                ) && final(self)@ == old(self)@)
                &&& (len > 0 && pos + len <= usize::MAX && pos + len > old_len) ==> (r matches Err(
                    e,
                ) && is_out_of_bound(e, (pos + len) as usize, old_len as usize) && final(self)@
                    == old(self)@)
                &&& pos + len <= old_len ==> r is Ok
                &&& r is Ok ==> final(self)@ == (DocumentView {
                    text: text_deleted(old(self)@.text, pos as int, len as int),
                    ..old(self)@
                })
            }),
            final(self)@ == (DocumentView { text: final(self)@.text, ..old(self)@ }),
            final(self).spec_peer_id() == old(self).spec_peer_id(),
            final(self).spec_cursors() == old(self).spec_cursors(),
    {
        let len = (end_pos - start_pos) as usize;
        let mut crdt = self.take_crdt();
        let r = loro_text_delete(&mut crdt, start_pos as usize, len);
        if r.is_ok() {
            loro_commit(&mut crdt);
        }
        self.loro_doc = crdt;
        r
    }

    /// The document's text.
    pub fn text(&self) -> (text: String)
        ensures
            text@ == self@.text,
    {
        loro_text_string(&self.loro_doc)
    }

    /// The document's identifier.
    pub fn id(&self) -> (id: DocumentId)
        ensures
            id == self@.id,
    {
        self.id
    }

    /// The document's authors: no two share a key, and each is stored under its own key.
    pub fn authors(&self) -> (authors: &Authors)
        ensures
            authors.entries() == self@.authors,
            authors.wf(),
    {
        proof {
            use_type_invariant(&self.authors);
        }
        &self.authors
    }

    /// The CRDT behind the document, for registering observers of its changes. (A clone of
    /// a `LoroDoc` shares its state; edits made through one would bypass this document's
    /// contracts, so the handle is for observing only.)
    pub fn loro_doc(&self) -> (doc: &LoroDoc)
        ensures
            loro_text(*doc) == self@.text,
            loro_peer_id(*doc) == self.spec_peer_id(),
    {
        &self.loro_doc
    }

    /// Whether the document is subscribed to the network.
    pub fn subscribed(&self) -> (subscribed: bool)
        ensures
            subscribed == self@.subscribed,
    {
        self.subscribed
    }

    /// When the document was last accessed (closed), if known.
    pub fn last_accessed(&self) -> (t: Option<Timestamp>)
        ensures
            t == self@.last_accessed,
    {
        self.last_accessed
    }

    /// Loads stored authors into the document's list (which holds at most this device).
    pub fn load_authors(&mut self, authors: Vec<Author>)
        requires
            old(self)@.authors.len() <= 1,
        ensures
            final(self)@ == (DocumentView {
                authors: crate::authors::load_authors(old(self)@.authors, authors@),
                ..old(self)@
            }),
            final(self).spec_peer_id() == old(self).spec_peer_id(),
            final(self).spec_cursors() == old(self).spec_cursors(),
    {
        let mut list = self.take_authors();
        list.load(authors);
        self.authors = list;
    }

    /// Sets when the document was last accessed.
    pub fn set_last_accessed(&mut self, ts: Option<Timestamp>)
        ensures
            final(self)@ == (DocumentView { last_accessed: ts, ..old(self)@ }),
            final(self).spec_peer_id() == old(self).spec_peer_id(),
            final(self).spec_cursors() == old(self).spec_cursors(),
    {
        proof {
            use_type_invariant(&*self);
        }
        self.last_accessed = ts;
    }

    /// Records the outcome of subscribing to the network: the document is subscribed when
    /// `subscribed` is true, and an open document has no last-access time.
    pub fn finish_subscribe(&mut self, subscribed: bool)
        ensures
            final(self)@ == (DocumentView {
                subscribed,
                last_accessed: None,
                ..old(self)@
            }),
            final(self).spec_peer_id() == old(self).spec_peer_id(),
            final(self).spec_cursors() == old(self).spec_cursors(),
    {
        proof {
            use_type_invariant(&*self);
        }
        self.subscribed = subscribed;
        self.last_accessed = None;
    }

    /// Takes the document off the network: returns whether it was subscribed (and so
    /// whether there is a subscription to close).
    pub fn take_subscription(&mut self) -> (was_subscribed: bool)
        ensures
            was_subscribed == old(self)@.subscribed,
            final(self)@ == (DocumentView { subscribed: false, ..old(self)@ }),
            final(self).spec_peer_id() == old(self).spec_peer_id(),
            final(self).spec_cursors() == old(self).spec_cursors(),
    {
        let was = self.subscribed;
        proof {
            use_type_invariant(&*self);
        }
        self.subscribed = false;
        was
    }

    /// Records that the document was closed now: its last-access time is the clock's time.
    pub fn finish_unsubscribe(&mut self)
        ensures
            final(self)@.last_accessed is Some,
            final(self)@ == (DocumentView { last_accessed: final(self)@.last_accessed, ..old(self)@ }),
            final(self).spec_peer_id() == old(self).spec_peer_id(),
            final(self).spec_cursors() == old(self).spec_cursors(),
    {
        proof {
            use_type_invariant(&*self);
        }
        self.last_accessed = Some(utc_now());
    }

    /// A snapshot of the document's CRDT, or the CRDT's refusal message; which of the two,
    /// and the bytes, are those of `spec_snapshot`. The document stays as it is.
    pub fn snapshot(&mut self) -> (r: Result<Vec<u8>, String>)
        ensures
            r is Ok <==> old(self).spec_snapshot() is Some,
            r matches Ok(bytes) ==> old(self).spec_snapshot() == Some(bytes@),
            final(self)@ == old(self)@,
            final(self).spec_peer_id() == old(self).spec_peer_id(),
            final(self).spec_cursors() == old(self).spec_cursors(),
    {
        let mut crdt = self.take_crdt();
        let r = loro_export_snapshot(&mut crdt);
        self.loro_doc = crdt;
        r
    }

    /// Handles update bytes received from a peer: merges them into the CRDT and records the
    /// sender as an author of the document (whether or not the merge was taken). Whether it
    /// is taken, and the text after it, are those of `spec_import`; bytes without a blob's
    /// header are refused and leave the text as it was. (The CRDT's decoder is not shown to
    /// be free of panics on crafted bytes; see `loro_import_delta`.)
    pub fn bytes_received(&mut self, author: PublicKey, data: &[u8]) -> (r: Result<(), TextError>)
        ensures
            r is Ok <==> old(self).spec_import(data@) is Some,
            r is Ok ==> old(self).spec_import(data@) == Some(final(self)@.text),
            lacks_loro_header(data@) ==> (r is Err && final(self)@.text == old(self)@.text),
            final(self)@ == (DocumentView {
                text: final(self)@.text,
                authors: crate::keyed::insert_if_absent(
                    old(self)@.authors,
                    author.bytes,
                    Author::spec_new(author),
                ),
                ..old(self)@
            }),
            final(self).spec_peer_id() == old(self).spec_peer_id(),
            final(self).spec_cursors() == old(self).spec_cursors(),
    {
        let mut crdt = self.take_crdt();
        let r = loro_import_delta(&mut crdt, data);
        self.loro_doc = crdt;
        let mut list = self.take_authors();
        list.add(author);
        self.authors = list;
        r
    }

    /// A peer joined: it is recorded as an author if it is new. (A known author's stored
    /// state, its presence flag among it, is left as it is.)
    pub fn author_joined(&mut self, author: PublicKey)
        ensures
            final(self)@ == (DocumentView {
                authors: crate::keyed::insert_if_absent(
                    old(self)@.authors,
                    author.bytes,
                    Author::spec_new(author),
                ),
                ..old(self)@
            }),
            final(self).spec_peer_id() == old(self).spec_peer_id(),
            final(self).spec_cursors() == old(self).spec_cursors(),
    {
        let mut list = self.take_authors();
        list.add(author);
        self.authors = list;
    }

    /// A peer left: it is recorded as an author if it is new. (A known author's stored
    /// state, its presence flag among it, is left as it is.)
    pub fn author_left(&mut self, author: PublicKey)
        ensures
            final(self)@ == (DocumentView {
                authors: crate::keyed::insert_if_absent(
                    old(self)@.authors,
                    author.bytes,
                    Author::spec_new(author),
                ),
                ..old(self)@
            }),
            final(self).spec_peer_id() == old(self).spec_peer_id(),
            final(self).spec_cursors() == old(self).spec_cursors(),
    {
        let mut list = self.take_authors();
        list.add(author);
        self.authors = list;
    }

    /// A peer sent its cursor positions stamped `timestamp`. They are taken (and become the
    /// document's remote cursors) unless the peer is a known author whose stored author
    /// does not find the stamp newer than its newest cursor stamp; the stamp is weighed on a
    /// copy of the stored author, so the authors stay as they are. Returns whether the
    /// positions were taken.
    pub fn cursor_received(
        &mut self,
        author: PublicKey,
        timestamp: Timestamp,
        insert_cursor: Option<Cursor>,
        selection_bound: Option<Cursor>,
    ) -> (taken: bool)
        ensures
            taken == (!has_key(old(self)@.authors, author.bytes) || value_of(
                old(self)@.authors,
                author.bytes,
            ).spec_is_new_cursor_position(timestamp)),
            final(self)@ == old(self)@,
            final(self).spec_peer_id() == old(self).spec_peer_id(),
            !taken ==> final(self).spec_cursors() == old(self).spec_cursors(),
            taken ==> final(self).spec_cursors() == (insert_cursor, selection_bound),
    {
        let taken = match self.authors.author(&author) {
            Some(known) => {
                let mut known = known;
                known.is_new_cursor_position(timestamp)
            },
            None => true,
        };
        proof {
            use_type_invariant(&*self);
        }
        if taken {
            self.insert_cursor = insert_cursor;
            self.selection_bound = selection_bound;
        }
        taken
    }

    /// The cursor positions last received from a peer (insert cursor, selection bound).
    pub fn cursors(&self) -> (cursors: (&Option<Cursor>, &Option<Cursor>))
        ensures
            (*cursors.0, *cursors.1) == self.spec_cursors(),
    {
        (&self.insert_cursor, &self.selection_bound)
    }
}

/// Law: deleting, at the same position, as many characters as were just inserted gives
/// back the text as it was before the insertion.
pub proof fn lemma_insert_then_delete(text: Seq<char>, pos: int, s: Seq<char>)
    requires
        0 <= pos <= text.len(),
    ensures
        text_deleted(text_inserted(text, pos, s), pos, s.len() as int) == text,
{
    let t = text_inserted(text, pos, s);
    assert(t.take(pos) =~= text.take(pos));
    assert(t.skip(pos + s.len()) =~= text.skip(pos));
    assert(text.take(pos) + text.skip(pos) =~= text);
}

/// Law: after `insert_text(pos, s)` with a position within the text (which is owed
/// success), `delete_range(pos, pos + (length of s))` is owed success too (the range lies
/// within the text), and it leaves the document as it was before the insertion.
pub proof fn lemma_document_insert_then_delete(before: DocumentView, pos: i32, s: Seq<char>)
    requires
        0 <= pos <= before.text.len(),
        pos + s.len() <= i32::MAX,
    ensures
        ({
            let inserted = DocumentView {
                text: text_inserted(before.text, (pos as usize) as int, s),
                ..before
            };
            let end_pos = (pos + s.len()) as i32;
            let len = (end_pos - pos) as i32 as usize;
            &&& (pos as usize) + len <= inserted.text.len()
            &&& (DocumentView {
                text: text_deleted(inserted.text, (pos as usize) as int, len as int),
                ..inserted
            }) == before
        }),
{
    lemma_insert_then_delete(before.text, pos as int, s);
}

} // verus!
