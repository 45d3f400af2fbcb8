//! Insertion-ordered lists of entries keyed by 32-byte keys, as `indexmap::IndexMap` keeps
//! them: the specification side, and the declaration of the outside map type.
use vstd::prelude::*;

verus! {

/// `indexmap::IndexMap`: a hash map that remembers the order in which keys were inserted.
#[verifier::external_type_specification]
#[verifier::external_body]
#[verifier::reject_recursive_types(K)]
#[verifier::reject_recursive_types(V)]
#[verifier::reject_recursive_types(S)]
pub struct ExIndexMap<K, V, S>(indexmap::IndexMap<K, V, S>);

/// A 32-byte key.
pub type Key = [u8; 32];

/// Whether some entry has key `k`.
pub open spec fn has_key<V>(s: Seq<(Key, V)>, k: Key) -> bool {
    exists|i: int| 0 <= i < s.len() && #[trigger] s[i].0 == k
}

/// Whether no two entries share a key.
pub open spec fn distinct_keys<V>(s: Seq<(Key, V)>) -> bool {
    forall|i: int, j: int| 0 <= i < s.len() && 0 <= j < s.len() && i != j ==> #[trigger] s[i].0
        != #[trigger] s[j].0
}

/// The position of the entry with key `k` (meaningful when there is one).
pub open spec fn index_of<V>(s: Seq<(Key, V)>, k: Key) -> int {
    choose|i: int| 0 <= i < s.len() && #[trigger] s[i].0 == k
}

/// The value stored under key `k` (meaningful when there is one).
pub open spec fn value_of<V>(s: Seq<(Key, V)>, k: Key) -> V {
    s[index_of(s, k)].1
}

/// The entries after `IndexMap::insert(k, v)`: an existing key keeps its place and takes the
/// new value; a new key goes last.
pub open spec fn insert_entry<V>(s: Seq<(Key, V)>, k: Key, v: V) -> Seq<(Key, V)> {
    if has_key(s, k) {
        s.update(index_of(s, k), (k, v))
    } else {
        s.push((k, v))
    }
}

/// The entries after inserting `(k, v)` only where `k` is not there yet.
pub open spec fn insert_if_absent<V>(s: Seq<(Key, V)>, k: Key, v: V) -> Seq<(Key, V)> {
    if has_key(s, k) {
        s
    } else {
        s.push((k, v))
    }
}

/// The position of `k` is the one entry that holds it.
pub proof fn lemma_index_of<V>(s: Seq<(Key, V)>, k: Key, i: int)
    requires
        distinct_keys(s),
        0 <= i < s.len(),
        s[i].0 == k,
    ensures
        has_key(s, k),
        index_of(s, k) == i,
{
    assert(has_key(s, k));
    let j = index_of(s, k);
    assert(s[j].0 == k);
}

/// Inserting keeps the keys distinct, and afterwards the key holds the inserted value.
pub proof fn lemma_insert_entry<V>(s: Seq<(Key, V)>, k: Key, v: V)
    requires
        distinct_keys(s),
    ensures
        distinct_keys(insert_entry(s, k, v)),
        has_key(insert_entry(s, k, v), k),
        value_of(insert_entry(s, k, v), k) == v,
        forall|k2: Key| k2 != k ==> (has_key(insert_entry(s, k, v), k2) == has_key(s, k2)),
{
    let t = insert_entry(s, k, v);
    if has_key(s, k) {
        let i = index_of(s, k);
        assert(t[i].0 == k);
        lemma_index_of(t, k, i);
        assert forall|k2: Key| k2 != k implies has_key(t, k2) == has_key(s, k2) by {
            if has_key(s, k2) {
                let j = index_of(s, k2);
                assert(t[j].0 == k2);
            }
            if has_key(t, k2) {
                let j = index_of(t, k2);
                assert(s[j].0 == k2);
            }
        }
    } else {
        let i = s.len() as int;
        assert(t[i].0 == k);
        lemma_index_of(t, k, i);
        assert forall|k2: Key| k2 != k implies has_key(t, k2) == has_key(s, k2) by {
            if has_key(s, k2) {
                let j = index_of(s, k2);
                assert(t[j].0 == k2);
            }
            if has_key(t, k2) {
                let j = index_of(t, k2);
                assert(s[j].0 == k2);
            }
        }
    }
}

/// Inserting where absent keeps the keys distinct, and afterwards the key is there.
pub proof fn lemma_insert_if_absent<V>(s: Seq<(Key, V)>, k: Key, v: V)
    requires
        distinct_keys(s),
    ensures
        distinct_keys(insert_if_absent(s, k, v)),
        has_key(insert_if_absent(s, k, v), k),
        !has_key(s, k) ==> value_of(insert_if_absent(s, k, v), k) == v,
        has_key(s, k) ==> insert_if_absent(s, k, v) == s,
{
    if !has_key(s, k) {
        let t = s.push((k, v));
        assert(t[s.len() as int].0 == k);
        lemma_index_of(t, k, s.len() as int);
    }
}

/// Law (for `Authors::add`, `Documents::add`, `Service::join_document`): adding a key
/// that is already there changes nothing, so adding the same key twice is adding it once.
pub proof fn lemma_insert_if_absent_idempotent<V>(s: Seq<(Key, V)>, k: Key, v: V, w: V)
    requires
        distinct_keys(s),
    ensures
        insert_if_absent(insert_if_absent(s, k, v), k, w) == insert_if_absent(s, k, v),
{
    lemma_insert_if_absent(s, k, v);
}

/// Law (for `Authors::add`, `Authors::load`, `Documents::add`): adding where absent never
/// drops, changes or reorders what was there; the old entries stay a prefix.
pub proof fn lemma_insert_if_absent_extends<V>(s: Seq<(Key, V)>, k: Key, v: V)
    ensures
        insert_if_absent(s, k, v).len() >= s.len(),
        insert_if_absent(s, k, v).subrange(0, s.len() as int) == s,
{
    assert(insert_if_absent(s, k, v).subrange(0, s.len() as int) =~= s);
}

} // verus!
