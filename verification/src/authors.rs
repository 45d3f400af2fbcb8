//! The authors of one document, in the order in which they became known.
use indexmap::IndexMap;
use vstd::prelude::*;
use crate::author::Author;
use crate::identity::PublicKey;
use crate::keyed::{distinct_keys, has_key, index_of, insert_entry, insert_if_absent, lemma_index_of, lemma_insert_if_absent, value_of};

verus! {

/// The entries of an `IndexMap` from public key bytes to authors, in insertion order.
pub uninterp spec fn author_entries(map: IndexMap<[u8; 32], Author>) -> Seq<([u8; 32], Author)>;

/// `IndexMap::new`: an empty map.
#[verifier::external_body]
fn author_map_new() -> (map: IndexMap<[u8; 32], Author>)
    ensures
        author_entries(map) == Seq::<([u8; 32], Author)>::empty(),
{
    IndexMap::new()
}

/// `IndexMap::get`: the value stored under the key, if any.
#[verifier::external_body]
fn author_map_get<'a>(map: &'a IndexMap<[u8; 32], Author>, key: &[u8; 32]) -> (value: Option<
    &'a Author,
>)
    requires
        distinct_keys(author_entries(*map)),
    ensures
        value is Some <==> has_key(author_entries(*map), *key),
        value matches Some(v) ==> *v == value_of(author_entries(*map), *key),
{
    map.get(key)
}

/// `IndexMap::insert`: an existing key keeps its place and takes the new value (the old one
/// is returned); a new key goes last.
#[verifier::external_body]
fn author_map_insert(map: &mut IndexMap<[u8; 32], Author>, key: [u8; 32], value: Author) -> (old_value:
    Option<Author>)
    requires
        distinct_keys(author_entries(*old(map))),
    ensures
        author_entries(*final(map)) == insert_entry(author_entries(*old(map)), key, value),
        old_value is Some <==> has_key(author_entries(*old(map)), key),
        old_value matches Some(v) ==> v == value_of(author_entries(*old(map)), key),
{
    map.insert(key, value)
}

/// `IndexMap::len`: the number of entries.
#[verifier::external_body]
fn author_map_len(map: &IndexMap<[u8; 32], Author>) -> (len: usize)
    ensures
        len == author_entries(*map).len(),
{
    map.len()
}

/// Whether every entry is stored under its author's own key.
pub open spec fn keyed_by_author(s: Seq<([u8; 32], Author)>) -> bool {
    forall|i: int| 0 <= i < s.len() ==> #[trigger] s[i].0 == s[i].1.public_key.bytes
}

/// The entries after loading `authors` in order, each one only where its key is new.
pub open spec fn load_authors(s: Seq<([u8; 32], Author)>, authors: Seq<Author>) -> Seq<
    ([u8; 32], Author),
>
    decreases authors.len(),
{
    if authors.len() == 0 {
        s
    } else {
        let a = authors.last();
        insert_if_absent(load_authors(s, authors.drop_last()), a.public_key.bytes, a)
    }
}

/// The authors of a document, keyed by public key, in the order they became known.
pub struct Authors {
    list: IndexMap<[u8; 32], Author>,
}

impl Authors {
    /// The authors as (key bytes, author) pairs, in the order they became known.
    pub closed spec fn entries(&self) -> Seq<([u8; 32], Author)> {
        author_entries(self.list)
    }

    /// Keys are distinct and each author is stored under its own key.
    pub open spec fn wf(&self) -> bool {
        distinct_keys(self.entries()) && keyed_by_author(self.entries())
    }

    /// Every list of authors is well formed.
    #[verifier::type_invariant]
    pub(crate) open spec fn well_keyed(&self) -> bool {
        self.wf()
    }

    /// Takes the map out of the list, leaving an empty one in its place.
    fn take_list(&mut self) -> (list: IndexMap<[u8; 32], Author>)
        ensures
            author_entries(list) == old(self).entries(),
            old(self).wf(),
            final(self).entries() == Seq::<([u8; 32], Author)>::empty(),
    {
        proof {
            use_type_invariant(&*self);
        }
        let mut list = author_map_new();
        std::mem::swap(&mut list, &mut self.list);
        list
    }

    /// Whether an author with this key is known.
    pub open spec fn spec_contains(&self, key: PublicKey) -> bool {
        has_key(self.entries(), key.bytes)
    }

    /// The known author with this key.
    pub open spec fn spec_author(&self, key: PublicKey) -> Author {
        value_of(self.entries(), key.bytes)
    }

    /// An empty list of authors.
    pub fn new() -> (authors: Authors)
        ensures
            authors.wf(),
            authors.entries() == Seq::<([u8; 32], Author)>::empty(),
    {
        Authors { list: author_map_new() }
    }

    /// The number of known authors.
    pub fn len(&self) -> (len: usize)
        ensures
            len == self.entries().len(),
    {
        author_map_len(&self.list)
    }

    /// Loads stored authors into a list that holds at most the author of this device; an
    /// author whose key is already known is skipped.
    pub fn load(&mut self, authors: Vec<Author>)
        requires
            old(self).entries().len() <= 1,
        ensures
            final(self).wf(),
            final(self).entries() == load_authors(old(self).entries(), authors@),
    {
        let mut list = self.take_list();
        let ghost start = author_entries(list);
        let mut i: usize = 0;
        while i < authors.len()
            invariant
                0 <= i <= authors.len(),
                distinct_keys(author_entries(list)),
                keyed_by_author(author_entries(list)),
                author_entries(list) == load_authors(start, authors@.take(i as int)),
            decreases authors.len() - i,
        {
            let author = authors[i];
            let key = author.public_key.bytes;
            let ghost before = author_entries(list);
            proof {
                assert(authors@.take(i + 1).drop_last() =~= authors@.take(i as int));
                lemma_insert_if_absent(before, key, author);
            }
            if author_map_get(&list, &key).is_none() {
                author_map_insert(&mut list, key, author);
                proof {
                    assert(author_entries(list) == before.push((key, author)));
                }
            }
            proof {
                let s = author_entries(list);
                assert forall|j: int| 0 <= j < s.len() implies #[trigger] s[j].0
                    == s[j].1.public_key.bytes by {
                    if j < before.len() {
                        assert(s[j] == before[j]);
                    }
                }
            }
            i = i + 1;
        }
        proof {
            assert(authors@.take(authors@.len() as int) =~= authors@);
        }
        self.list = list;
    }

    /// Records the author of this device in a list that is still empty.
    pub fn add_this_device(&mut self, author_key: PublicKey, last_seen: Option<i64>)
        requires
            old(self).entries().len() == 0,
        ensures
            final(self).wf(),
            final(self).entries() == seq![
                (author_key.bytes, Author::spec_for_this_device(author_key, last_seen)),
            ],
    {
        let mut list = self.take_list();
        let author = Author::for_this_device(&author_key, last_seen);
        author_map_insert(&mut list, author_key.bytes, author);
        proof {
            assert(author_entries(list) =~= seq![
                (author_key.bytes, Author::spec_for_this_device(author_key, last_seen)),
            ]);
        }
        self.list = list;
    }

    /// The author with this key, recorded as newly met if it was not known; a known author
    /// is left as it is. Returns a copy of the stored author.
    pub fn add(&mut self, author_key: PublicKey) -> (author: Author)
        ensures
            final(self).wf(),
            final(self).entries() == insert_if_absent(
                old(self).entries(),
                author_key.bytes,
                Author::spec_new(author_key),
            ),
            final(self).spec_contains(author_key),
            author == final(self).spec_author(author_key),
            author.public_key == author_key,
            !old(self).spec_contains(author_key) ==> author == Author::spec_new(author_key),
    {
        let mut list = self.take_list();
        let key = author_key.bytes;
        let ghost before = author_entries(list);
        proof {
            lemma_insert_if_absent(before, key, Author::spec_new(author_key));
        }
        let a = match author_map_get(&list, &key) {
            Some(existing) => {
                let a = *existing;
                proof {
                    lemma_index_of(before, key, index_of(before, key));
                }
                a
            },
            None => {
                let a = Author::new(&author_key);
                author_map_insert(&mut list, key, a);
                proof {
                    let s = author_entries(list);
                    assert(s == before.push((key, a)));
                    assert forall|j: int| 0 <= j < s.len() implies #[trigger] s[j].0
                        == s[j].1.public_key.bytes by {
                        if j < before.len() {
                            assert(s[j] == before[j]);
                        }
                    }
                }
                a
            },
        };
        self.list = list;
        a
    }

    /// A copy of the author with this key, if it is known.
    pub fn author(&self, author_key: &PublicKey) -> (author: Option<Author>)
        ensures
            author is Some <==> self.spec_contains(*author_key),
            author matches Some(a) ==> a == self.spec_author(*author_key) && a.public_key
                == *author_key,
    {
        proof {
            use_type_invariant(self);
        }
        match author_map_get(&self.list, &author_key.bytes) {
            Some(a) => {
                proof {
                    let s = self.entries();
                    let i = index_of(s, author_key.bytes);
                    assert(s[i].0 == author_key.bytes);
                }
                Some(*a)
            },
            None => None,
        }
    }
}

} // verus!
