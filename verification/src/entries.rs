//! The records of an index, and what a list of them says of the map.

use crate::model::Link;
use std::sync::Arc;
use vstd::prelude::*;

verus! {

/// What a map hands out for a handle: the family that the handle belongs to,
/// and the value that it reaches.
pub struct Ticket<V> {
    pub family: usize,
    pub value: Arc<V>,
}

/// An index record: a key, the family that lookups of the key join, and the
/// value that they reach. The record owns a share of the value, so that a
/// lookup that finds the record always reaches the value.
pub struct Entry<K, V> {
    key: K,
    family: usize,
    value: Arc<V>,
}

impl<K, V> Entry<K, V> {
    /// The record's key.
    pub closed spec fn key(&self) -> K {
        self.key
    }

    /// What the record holds for its key.
    pub closed spec fn link(&self) -> Link<V> {
        Link { family: self.family as nat, value: *self.value }
    }

    /// The record that leads `key` to `family` and `value`.
    pub fn new(key: K, family: usize, value: Arc<V>) -> (e: Self)
        ensures
            e.key() == key,
            e.link() == (Link { family: family as nat, value: *value }),
    {
        Entry { key, family, value }
    }

    /// The number of the record's family.
    pub fn family_of(&self) -> (family: usize)
        ensures
            family as nat == self.link().family,
        opens_invariants none
        no_unwind
    {
        self.family
    }

    /// The record's key, borrowed.
    pub fn key_ref(&self) -> (k: &K)
        ensures
            *k == self.key(),
    {
        &self.key
    }

    /// A handle's share of the record: its family and its value.
    pub fn ticket(&self) -> (t: Ticket<V>)
        ensures
            t.family as nat == self.link().family,
            *t.value == self.link().value,
    {
        Ticket { family: self.family, value: Arc::clone(&self.value) }
    }
}

/// Some record of the list has the key `k`.
pub open spec fn has_key<K, V>(es: Seq<Entry<K, V>>, k: K) -> bool {
    exists|i: int| 0 <= i < es.len() && (#[trigger] es[i]).key() == k
}

/// The place of a record with the key `k`.
pub open spec fn place_of<K, V>(es: Seq<Entry<K, V>>, k: K) -> int {
    choose|i: int| 0 <= i < es.len() && (#[trigger] es[i]).key() == k
}

/// No two records of the list have the same key.
pub open spec fn distinct<K, V>(es: Seq<Entry<K, V>>) -> bool {
    forall|i: int, j: int|
        0 <= i < j < es.len() ==> (#[trigger] es[i]).key() != (#[trigger] es[j]).key()
}

/// The index that a list of records stands for.
pub open spec fn index_of<K, V>(es: Seq<Entry<K, V>>) -> Map<K, Link<V>> {
    Map::new(|k: K| has_key(es, k), |k: K| es[place_of(es, k)].link())
}

/// In a list without repeated keys, the index holds for each record's key
/// what that record holds.
pub proof fn lemma_index_at<K, V>(es: Seq<Entry<K, V>>, i: int)
    requires
        distinct(es),
        0 <= i < es.len(),
    ensures
        index_of(es).contains_key(es[i].key()),
        index_of(es)[es[i].key()] == es[i].link(),
        place_of(es, es[i].key()) == i,
{
    let k = es[i].key();
    assert(has_key(es, k));
    let j = place_of(es, k);
    assert(0 <= j < es.len() && es[j].key() == k);
    if j < i {
        assert(es[j].key() != es[i].key());
    } else if i < j {
        assert(es[i].key() != es[j].key());
    }
}

/// A list without repeated keys stands for an index of as many keys as the
/// list has records.
pub proof fn lemma_index_len<K, V>(es: Seq<Entry<K, V>>)
    requires
        distinct(es),
    ensures
        index_of(es).dom().finite(),
        index_of(es).len() == es.len(),
    decreases es.len(),
{
    if es.len() == 0 {
        assert(index_of(es) =~= Map::empty());
    } else {
        let n = es.len() - 1;
        let rest = es.remove(n);
        lemma_index_remove(es, n);
        lemma_index_len(rest);
        lemma_index_at(es, n);
        let k = es[n].key();
        assert(index_of(es).dom() =~= index_of(rest).dom().insert(k));
        assert(!index_of(rest).dom().contains(k));
    }
}

/// Putting a record with a new key anywhere into the list adds its key to
/// the index.
pub proof fn lemma_index_insert<K, V>(es: Seq<Entry<K, V>>, at: int, e: Entry<K, V>)
    requires
        distinct(es),
        !has_key(es, e.key()),
        0 <= at <= es.len(),
    ensures
        distinct(es.insert(at, e)),
        index_of(es.insert(at, e)) == index_of(es).insert(e.key(), e.link()),
{
    let fs = es.insert(at, e);
    assert forall|i: int, j: int| 0 <= i < j < fs.len() implies (#[trigger] fs[i]).key() != (
    #[trigger] fs[j]).key() by {
        let a = if i < at { i } else { i - 1 };
        let b = if j < at { j } else { j - 1 };
        if i == at {
            assert(fs[j] == es[b]);
        } else if j == at {
            assert(fs[i] == es[a]);
        } else {
            assert(fs[i] == es[a]);
            assert(fs[j] == es[b]);
            assert(a < b);
        }
    }
    assert forall|k: K| has_key(fs, k) <==> (k == e.key() || has_key(es, k)) by {
        if has_key(fs, k) {
            let i = place_of(fs, k);
            if i != at {
                let a = if i < at { i } else { i - 1 };
                assert(fs[i] == es[a]);
            }
        }
        if k == e.key() {
            assert(fs[at] == e);
        }
        if has_key(es, k) {
            let a = place_of(es, k);
            let i = if a < at { a } else { a + 1 };
            assert(fs[i] == es[a]);
        }
    }
    assert forall|k: K| has_key(fs, k) implies index_of(fs)[k] == index_of(es).insert(
        e.key(),
        e.link(),
    )[k] by {
        let i = place_of(fs, k);
        lemma_index_at(fs, i);
        if i != at {
            let a = if i < at { i } else { i - 1 };
            assert(fs[i] == es[a]);
            lemma_index_at(es, a);
        } else {
            assert(fs[at] == e);
        }
    }
    assert(index_of(fs) =~= index_of(es).insert(e.key(), e.link()));
}

/// Putting a record in the place of one with the same key changes what the
/// index holds for that key, and nothing else.
pub proof fn lemma_index_update<K, V>(es: Seq<Entry<K, V>>, at: int, e: Entry<K, V>)
    requires
        distinct(es),
        0 <= at < es.len(),
        es[at].key() == e.key(),
    ensures
        distinct(es.update(at, e)),
        index_of(es.update(at, e)) == index_of(es).insert(e.key(), e.link()),
{
    let fs = es.update(at, e);
    assert forall|i: int, j: int| 0 <= i < j < fs.len() implies (#[trigger] fs[i]).key() != (
    #[trigger] fs[j]).key() by {
        assert(es[i].key() != es[j].key());
    }
    assert forall|k: K| has_key(fs, k) <==> has_key(es, k) by {
        if has_key(fs, k) {
            let i = place_of(fs, k);
            assert(es[i].key() == k);
        }
        if has_key(es, k) {
            let i = place_of(es, k);
            assert(fs[i].key() == k);
        }
    }
    assert(has_key(es, e.key()));
    assert forall|k: K| has_key(fs, k) implies index_of(fs)[k] == index_of(es).insert(
        e.key(),
        e.link(),
    )[k] by {
        let i = place_of(fs, k);
        lemma_index_at(fs, i);
        if i != at {
            assert(fs[i] == es[i]);
            lemma_index_at(es, i);
        }
    }
    assert(index_of(fs) =~= index_of(es).insert(e.key(), e.link()));
}

/// Taking a record out of the list takes its key out of the index.
pub proof fn lemma_index_remove<K, V>(es: Seq<Entry<K, V>>, at: int)
    requires
        distinct(es),
        0 <= at < es.len(),
    ensures
        distinct(es.remove(at)),
        index_of(es.remove(at)) == index_of(es).remove(es[at].key()),
{
    let fs = es.remove(at);
    let gone = es[at].key();
    assert forall|i: int, j: int| 0 <= i < j < fs.len() implies (#[trigger] fs[i]).key() != (
    #[trigger] fs[j]).key() by {
        let a = if i < at { i } else { i + 1 };
        let b = if j < at { j } else { j + 1 };
        assert(fs[i] == es[a]);
        assert(fs[j] == es[b]);
        assert(es[a].key() != es[b].key());
    }
    assert forall|k: K| has_key(fs, k) <==> (k != gone && has_key(es, k)) by {
        if has_key(fs, k) {
            let i = place_of(fs, k);
            let a = if i < at { i } else { i + 1 };
            assert(fs[i] == es[a]);
            if a < at {
                assert(es[a].key() != es[at].key());
            } else {
                assert(es[at].key() != es[a].key());
            }
        }
        if k != gone && has_key(es, k) {
            let a = place_of(es, k);
            let i = if a < at { a } else { a - 1 };
            assert(fs[i] == es[a]);
        }
    }
    assert forall|k: K| has_key(fs, k) implies index_of(fs)[k] == index_of(es)[k] by {
        let i = place_of(fs, k);
        lemma_index_at(fs, i);
        let a = if i < at { i } else { i + 1 };
        assert(fs[i] == es[a]);
        lemma_index_at(es, a);
    }
    assert(index_of(fs) =~= index_of(es).remove(gone));
}

} // verus!
