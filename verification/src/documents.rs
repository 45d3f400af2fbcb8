//! The documents the user works on, in the order in which they became known.
use indexmap::IndexMap;
use vstd::prelude::*;
use crate::author::Author;
use crate::authors::load_authors;
use crate::document::{Document, DocumentView};
use crate::document_id::DocumentId;
use crate::identity::PublicKey;
use crate::keyed::{
    distinct_keys, has_key, index_of, insert_entry, insert_if_absent, lemma_index_of,
    lemma_insert_entry, lemma_insert_if_absent, value_of, Key,
};
use crate::timestamp::{chrono_utc_representable, utc_representable, Timestamp};

verus! {

/// The entries of an `IndexMap` from document id bytes to documents, in insertion order.
pub uninterp spec fn document_entries(map: IndexMap<[u8; 32], Document>) -> Seq<
    ([u8; 32], Document),
>;

/// `IndexMap::new`: an empty map.
#[verifier::external_body]
fn document_map_new() -> (map: IndexMap<[u8; 32], Document>)
    ensures
        document_entries(map) == Seq::<([u8; 32], Document)>::empty(),
{
    IndexMap::new()
}

/// `IndexMap::len`: the number of entries.
#[verifier::external_body]
fn document_map_len(map: &IndexMap<[u8; 32], Document>) -> (len: usize)
    ensures
        len == document_entries(*map).len(),
{
    map.len()
}

/// `IndexMap::get`: the value stored under the key, if any.
#[verifier::external_body]
fn document_map_get<'a>(map: &'a IndexMap<[u8; 32], Document>, key: &[u8; 32]) -> (value: Option<
    &'a Document,
>)
    requires
        distinct_keys(document_entries(*map)),
    ensures
        value is Some <==> has_key(document_entries(*map), *key),
        value matches Some(v) ==> *v == value_of(document_entries(*map), *key),
{
    map.get(key)
}

/// `IndexMap::get_index`: the value of the entry at a position, if there is one.
#[verifier::external_body]
fn document_map_get_index<'a>(map: &'a IndexMap<[u8; 32], Document>, index: usize) -> (value: Option<&'a Document>)
    ensures
        value is Some <==> index < document_entries(*map).len(),
        value matches Some(v) ==> *v == document_entries(*map)[index as int].1,
{
    map.get_index(index).map(|(_, v)| v)
}

/// `IndexMap::get_mut`: a mutable reference to the value stored under the key, if any;
/// what is written through it is what the map then holds at that key's place. The lookup
/// hashes the key and reads the found entry; it does not panic.
#[verifier::external_body]
fn document_map_get_mut<'a>(map: &'a mut IndexMap<[u8; 32], Document>, key: &[u8; 32]) -> (value:
    Option<&'a mut Document>)
    requires
        distinct_keys(document_entries(*old(map))),
    ensures
        has_key(document_entries(*old(map)), *key) ==> (value is Some && *value.unwrap() == value_of(document_entries(*old(map)), *key) && document_entries(*final(map)) == document_entries(*old(map)).update(index_of(document_entries(*old(map)), *key), (*key, *final(value.unwrap())))),
        !has_key(document_entries(*old(map)), *key) ==> (value is None && document_entries(*final(map)) == document_entries(*old(map))),
    no_unwind
{
    map.get_mut(key)
}

/// `IndexMap::insert`: an existing key keeps its place and takes the new value (the old one
/// is returned); a new key goes last.
#[verifier::external_body]
fn document_map_insert(map: &mut IndexMap<[u8; 32], Document>, key: [u8; 32], value: Document) -> (old_value:
    Option<Document>)
    requires
        distinct_keys(document_entries(*old(map))),
    ensures
        document_entries(*final(map)) == insert_entry(document_entries(*old(map)), key, value),
        old_value is Some <==> has_key(document_entries(*old(map)), key),
        old_value matches Some(v) ==> v == value_of(document_entries(*old(map)), key),
{
    map.insert(key, value)
}

/// An author of a stored document, as storage keeps it.
#[derive(Clone, Copy, Debug)]
pub struct StoredAuthor {
    pub public_key: PublicKey,
    /// When the author was last seen, in seconds since the epoch.
    pub last_seen: Option<i64>,
}

/// A document as storage keeps it: its identifier, when it was last accessed, and its
/// authors.
#[derive(Clone, Debug)]
pub struct StoredDocument {
    pub id: DocumentId,
    pub last_accessed: Option<Timestamp>,
    pub authors: Vec<StoredAuthor>,
}

/// A stored last-seen time as restored: kept when `chrono` can represent it as a date,
/// dropped otherwise.
pub open spec fn restored_last_seen(last_seen: Option<i64>) -> Option<i64> {
    match last_seen {
        Some(s) => if chrono_utc_representable(s) {
            Some(s)
        } else {
            None
        },
        None => None,
    }
}

/// A stored author as restored for the user whose key is `own_key`: the user's own key
/// gives the author of this device, any other key an author with its stored state.
pub open spec fn restored_author(own_key: PublicKey, stored: StoredAuthor) -> Author {
    if stored.public_key.bytes@ == own_key.bytes@ {
        Author::spec_for_this_device(stored.public_key, restored_last_seen(stored.last_seen))
    } else {
        Author::spec_with_state(stored.public_key, restored_last_seen(stored.last_seen))
    }
}

/// A stored document as restored: a new document for `own_key` with the stored authors
/// loaded into it and the stored last-access time.
pub open spec fn restored_document(own_key: PublicKey, stored: StoredDocument) -> DocumentView {
    DocumentView {
        id: stored.id,
        text: Seq::empty(),
        authors: load_authors(
            seq![(own_key.bytes, Author::spec_for_this_device(own_key, None))],
            stored.authors@.map_values(|a: StoredAuthor| restored_author(own_key, a)),
        ),
        subscribed: false,
        last_accessed: stored.last_accessed,
    }
}

/// The documents after restoring `stored` in order into an empty list; a later document
/// with the same identifier takes the place of an earlier one.
pub open spec fn restored_documents(own_key: PublicKey, stored: Seq<StoredDocument>) -> Seq<
    (Key, DocumentView),
>
    decreases stored.len(),
{
    if stored.len() == 0 {
        Seq::empty()
    } else {
        let d = stored.last();
        insert_entry(
            restored_documents(own_key, stored.drop_last()),
            d.id.bytes,
            restored_document(own_key, d),
        )
    }
}

/// Whether every document of a list is stored under its own identifier.
pub open spec fn documents_well_formed(s: Seq<(Key, DocumentView)>) -> bool {
    forall|i: int| 0 <= i < s.len() ==> #[trigger] s[i].0 == s[i].1.id.bytes
}

/// Whether every document of a list of entries is stored under its own identifier.
pub open spec fn entries_well_formed(s: Seq<([u8; 32], Document)>) -> bool {
    forall|i: int| 0 <= i < s.len() ==> #[trigger] s[i].0 == s[i].1@.id.bytes
}

/// Restored documents are stored under their own identifiers.
proof fn lemma_restored_documents_well_formed(own_key: PublicKey, stored: Seq<StoredDocument>)
    ensures
        documents_well_formed(restored_documents(own_key, stored)),
    decreases stored.len(),
{
    if stored.len() > 0 {
        let rest = stored.drop_last();
        lemma_restored_documents_well_formed(own_key, rest);
        let s = restored_documents(own_key, rest);
        let d = stored.last();
        let t = restored_documents(own_key, stored);
        assert forall|i: int| 0 <= i < t.len() implies #[trigger] t[i].0 == t[i].1.id.bytes by {
            if i < s.len() && t[i] != s[i] {
                assert(t[i] == (d.id.bytes, restored_document(own_key, d)));
            }
        }
    }
}

/// The views of the documents of a list of entries.
pub open spec fn entry_views(s: Seq<([u8; 32], Document)>) -> Seq<(Key, DocumentView)> {
    Seq::new(s.len(), |i: int| (s[i].0, s[i].1@))
}

/// Taking views commutes with inserting.
proof fn lemma_views_insert(s: Seq<([u8; 32], Document)>, k: Key, d: Document)
    requires
        distinct_keys(s),
    ensures
        distinct_keys(entry_views(s)),
        entry_views(insert_entry(s, k, d)) == insert_entry(entry_views(s), k, d@),
{
    let v = entry_views(s);
    assert forall|i: int, j: int|
        0 <= i < v.len() && 0 <= j < v.len() && i != j implies #[trigger] v[i].0 != #[trigger] v[j].0 by {
        assert(v[i].0 == s[i].0);
        assert(v[j].0 == s[j].0);
    }
    if has_key(s, k) {
        let i = index_of(s, k);
        assert(v[i].0 == k);
        lemma_index_of(v, k, i);
        assert(entry_views(insert_entry(s, k, d)) =~= insert_entry(v, k, d@));
    } else {
        assert(!has_key(v, k)) by {
            if has_key(v, k) {
                let j = index_of(v, k);
                assert(s[j].0 == k);
            }
        }
        assert(entry_views(insert_entry(s, k, d)) =~= insert_entry(v, k, d@));
    }
}

/// Turns a stored author into an author for the user whose key is `own_key`.
fn restore_author(own_key: &PublicKey, stored: &StoredAuthor) -> (author: Author)
    ensures
        author == restored_author(*own_key, *stored),
{
    let last_seen = match stored.last_seen {
        Some(s) => if utc_representable(s) {
            Some(s)
        } else {
            None
        },
        None => None,
    };
    if stored.public_key.equals(own_key) {
        Author::for_this_device(&stored.public_key, last_seen)
    } else {
        Author::with_state(&stored.public_key, last_seen)
    }
}

/// Builds the document that a stored document describes, for the user whose key is
/// `own_key`.
fn restore_document(own_key: &PublicKey, stored: &StoredDocument) -> (doc: Document)
    ensures
        doc@ == restored_document(*own_key, *stored),
        doc.is_fresh_for(*own_key),
{
    let mut authors: Vec<Author> = Vec::new();
    let mut i: usize = 0;
    while i < stored.authors.len()
        invariant
            0 <= i <= stored.authors.len(),
            authors@ == stored.authors@.take(i as int).map_values(
                |a: StoredAuthor| restored_author(*own_key, a),
            ),
        decreases stored.authors.len() - i,
    {
        let a = restore_author(own_key, &stored.authors[i]);
        authors.push(a);
        proof {
            assert(stored.authors@.take(i + 1).map_values(
                |a: StoredAuthor| restored_author(*own_key, a),
            ) =~= stored.authors@.take(i as int).map_values(
                |a: StoredAuthor| restored_author(*own_key, a),
            ).push(a));
        }
        i = i + 1;
    }
    proof {
        assert(stored.authors@.take(stored.authors@.len() as int) =~= stored.authors@);
    }
    let mut doc = Document::new(own_key, &stored.id);
    doc.load_authors(authors);
    doc.set_last_accessed(stored.last_accessed);
    doc
}

/// The documents, in the order they became known.
pub struct Documents {
    list: IndexMap<[u8; 32], Document>,
}

impl Documents {
    /// The documents as (id bytes, document) pairs, in the order they became known.
    pub closed spec fn entries(&self) -> Seq<([u8; 32], Document)> {
        document_entries(self.list)
    }

    /// No two documents share an identifier.
    #[verifier::type_invariant]
    spec fn well_keyed(&self) -> bool {
        distinct_keys(document_entries(self.list))
    }

    /// Whether a document with this identifier is known.
    pub open spec fn spec_contains(&self, id: DocumentId) -> bool {
        has_key(self.entries(), id.bytes)
    }

    /// The known document with this identifier.
    pub open spec fn spec_document(&self, id: DocumentId) -> Document {
        value_of(self.entries(), id.bytes)
    }

    /// Every document is stored under its own identifier.
    pub open spec fn well_formed(&self) -> bool {
        entries_well_formed(self.entries())
    }

    /// No documents yet.
    pub fn new() -> (documents: Documents)
        ensures
            documents.entries() == Seq::<([u8; 32], Document)>::empty(),
            documents.well_formed(),
    {
        Documents { list: document_map_new() }
    }

    /// The number of known documents.
    pub fn len(&self) -> (len: usize)
        ensures
            len == self.entries().len(),
    {
        document_map_len(&self.list)
    }

    /// The document with this identifier, if it is known.
    pub fn document(&self, document_id: &DocumentId) -> (document: Option<&Document>)
        ensures
            document is Some <==> self.spec_contains(*document_id),
            document matches Some(d) ==> *d == self.spec_document(*document_id),
            self.well_formed() ==> (document matches Some(d) ==> d@.id == *document_id),
            distinct_keys(self.entries()),
    {
        proof {
            use_type_invariant(self);
            if self.spec_contains(*document_id) {
                let i = index_of(self.entries(), document_id.bytes);
                assert(self.entries()[i].0 == document_id.bytes);
            }
        }
        document_map_get(&self.list, &document_id.bytes)
    }

    /// The document with this identifier, for changing it, if it is known.
    pub fn document_mut(&mut self, document_id: &DocumentId) -> (document: Option<&mut Document>)
        ensures
            old(self).spec_contains(*document_id) ==> (document is Some && *document.unwrap()
                == old(self).spec_document(*document_id) && final(self).entries() == old(
                self,
            ).entries().update(
                index_of(old(self).entries(), document_id.bytes),
                (document_id.bytes, *final(document.unwrap())),
            )),
            !old(self).spec_contains(*document_id) ==> (document is None && final(self).entries()
                == old(self).entries()),
            (old(self).well_formed() && document is Some) ==> (*document.unwrap())@.id
                == *document_id,
            (old(self).well_formed() && (document is Some ==> (*final(document.unwrap()))@.id
                == (*document.unwrap())@.id)) ==> final(self).well_formed(),
    {
        proof {
            use_type_invariant(&*self);
        }
        proof {
            if self.spec_contains(*document_id) {
                let i = index_of(self.entries(), document_id.bytes);
                assert(self.entries()[i].0 == document_id.bytes);
            }
        }
        document_map_get_mut(&mut self.list, &document_id.bytes)
    }

    /// The documents as (id bytes, document view) pairs.
    pub open spec fn views(&self) -> Seq<(Key, DocumentView)> {
        entry_views(self.entries())
    }

    /// Takes the map out of the list, leaving an empty one in its place.
    fn take_list(&mut self) -> (list: IndexMap<[u8; 32], Document>)
        ensures
            document_entries(list) == old(self).entries(),
            distinct_keys(old(self).entries()),
            final(self).entries() == Seq::<([u8; 32], Document)>::empty(),
    {
        proof {
            use_type_invariant(&*self);
        }
        let mut list = document_map_new();
        std::mem::swap(&mut list, &mut self.list);
        list
    }

    /// Adds a document, unless one with the same identifier is known already (then the
    /// given one is dropped and the list stays as it is).
    pub fn add(&mut self, document: Document)
        ensures
            final(self).entries() == insert_if_absent(old(self).entries(), document@.id.bytes, document),
            distinct_keys(final(self).entries()),
            final(self).spec_contains(document@.id),
            old(self).well_formed() ==> final(self).well_formed(),
    {
        let mut list = self.take_list();
        let key = document.id().bytes;
        let ghost before = document_entries(list);
        proof {
            lemma_insert_if_absent(before, key, document);
        }
        if document_map_get(&list, &key).is_none() {
            document_map_insert(&mut list, key, document);
        }
        self.list = list;
        proof {
            use_type_invariant(&*self);
            if old(self).well_formed() {
                let after = self.entries();
                assert forall|j: int| 0 <= j < after.len() implies #[trigger] after[j].0
                    == after[j].1@.id.bytes by {
                    if j < before.len() {
                        assert(after[j] == before[j]);
                    }
                }
            }
        }
    }

    /// All documents, in the order they became known.
    pub fn iter(&self) -> (documents: Vec<&Document>)
        ensures
            documents@.len() == self.entries().len(),
            forall|i: int| 0 <= i < documents@.len() ==> *documents@[i] == self.entries()[i].1,
    {
        let mut out: Vec<&Document> = Vec::new();
        let len = document_map_len(&self.list);
        let mut i: usize = 0;
        while i < len
            invariant
                0 <= i <= len,
                len == self.entries().len(),
                out@.len() == i,
                forall|j: int| 0 <= j < i ==> *out@[j] == self.entries()[j].1,
            decreases len - i,
        {
            match document_map_get_index(&self.list, i) {
                Some(d) => out.push(d),
                None => {},
            }
            i = i + 1;
        }
        out
    }

    /// Restores the stored documents of the user whose key is `own_key` into the list,
    /// which must still be empty. Each becomes a new document with the stored authors and
    /// last-access time; a later one with an identifier seen before takes the earlier's place.
    pub fn load(&mut self, own_key: &PublicKey, stored: Vec<StoredDocument>)
        requires
            old(self).entries().len() == 0,
        ensures
            final(self).views() == restored_documents(*own_key, stored@),
            final(self).well_formed(),
            forall|i: int|
                0 <= i < final(self).entries().len() ==> (#[trigger] final(self).entries()[i]).1.is_fresh_for(
                    *own_key,
                ),
    {
        let mut list = self.take_list();
        let mut i: usize = 0;
        proof {
            assert(entry_views(document_entries(list)) =~= restored_documents(
                *own_key,
                stored@.take(0),
            ));
        }
        while i < stored.len()
            invariant
                0 <= i <= stored.len(),
                distinct_keys(document_entries(list)),
                entry_views(document_entries(list)) == restored_documents(
                    *own_key,
                    stored@.take(i as int),
                ),
                forall|j: int|
                    0 <= j < document_entries(list).len() ==> (#[trigger] document_entries(
                        list,
                    )[j]).1.is_fresh_for(*own_key),
            decreases stored.len() - i,
        {
            let doc = restore_document(own_key, &stored[i]);
            let key = stored[i].id.bytes;
            let ghost before = document_entries(list);
            proof {
                assert(stored@.take(i + 1).drop_last() =~= stored@.take(i as int));
                lemma_views_insert(document_entries(list), key, doc);
                lemma_insert_entry(document_entries(list), key, doc);
            }
            document_map_insert(&mut list, key, doc);
            proof {
                let after = document_entries(list);
                assert forall|j: int| 0 <= j < after.len() implies (#[trigger] after[j]).1.is_fresh_for(
                    *own_key,
                ) by {
                    if j < before.len() && after[j] != before[j] {
                        assert(after[j] == (key, doc));
                    }
                }
            }
            i = i + 1;
        }
        proof {
            assert(stored@.take(stored@.len() as int) =~= stored@);
            lemma_restored_documents_well_formed(*own_key, stored@);
        }
        self.list = list;
        proof {
            let s = self.entries();
            assert forall|j: int| 0 <= j < s.len() implies #[trigger] s[j].0 == s[j].1@.id.bytes by {
                let v = restored_documents(*own_key, stored@);
                assert(entry_views(s) == v);
                assert(v[j] == (s[j].0, s[j].1@));
                assert(documents_well_formed(v));
                assert(v[j].0 == v[j].1.id.bytes);
            }
        }
    }
}

} // verus!
