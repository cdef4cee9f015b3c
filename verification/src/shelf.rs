//! What the two indexes share: the list of records, the table of families,
//! and the changes that an index makes to them once it knows the place of a
//! key in the list.

use crate::entries::distinct;
use crate::entries::has_key;
use crate::entries::index_of;
use crate::entries::lemma_index_at;
use crate::entries::lemma_index_insert;
use crate::entries::lemma_index_len;
use crate::entries::lemma_index_remove;
use crate::entries::lemma_index_update;
use crate::entries::place_of;
use crate::entries::Entry;
use crate::entries::Ticket;
use crate::families::Families;
use crate::model::lemma_inserted_wf;
use crate::model::lemma_released_wf;
use crate::model::lemma_retained_wf;
use crate::model::lemma_without;
use crate::model::Link;
use crate::model::State;
use crate::quiet;
use std::sync::Arc;
use vstd::prelude::*;

verus! {

/// The records of an index in the order in which the index keeps them, and
/// the living families.
pub struct Shelf<K, V> {
    list: Vec<Entry<K, V>>,
    families: Families,
}

impl<K, V> View for Shelf<K, V> {
    type V = State<K, V>;

    closed spec fn view(&self) -> State<K, V> {
        State { index: index_of(self.list@), families: self.families@ }
    }
}

impl<K, V> Shelf<K, V> {
    /// The keys of the records, in the order of the list.
    pub closed spec fn keys(&self) -> Seq<K> {
        Seq::new(self.list@.len(), |i: int| self.list@[i].key())
    }

    /// What the records hold for their keys, in the order of the list.
    pub closed spec fn links(&self) -> Seq<Link<V>> {
        Seq::new(self.list@.len(), |i: int| self.list@[i].link())
    }

    /// No key has two records.
    pub closed spec fn tidy(&self) -> bool {
        distinct(self.list@)
    }

    /// The list is in order, and list and table stand for a well-formed map.
    pub open spec fn wf(&self) -> bool {
        &&& self.tidy()
        &&& self@.wf()
    }

    /// How the list and the index go together.
    pub proof fn lemma_keys(&self)
        ensures
            self.links().len() == self.keys().len(),
            forall|k: K| self@.index.contains_key(k) <==> self.keys().contains(k),
            self@.index.dom().finite(),
            self@.families.dom().finite(),
            self.tidy() ==> self@.index.len() == self.keys().len(),
            forall|i: int|
                0 <= i < self.keys().len() ==> self@.index.contains_key(#[trigger] self.keys()[i]),
            self.tidy() ==> forall|i: int|
                0 <= i < self.keys().len() ==> self@.index[#[trigger] self.keys()[i]]
                    == self.links()[i],
    {
        let ks = self.keys();
        assert forall|k: K| self@.index.contains_key(k) <==> ks.contains(k) by {
            if has_key(self.list@, k) {
                let i = place_of(self.list@, k);
                assert(ks[i] == k);
            }
            if ks.contains(k) {
                let i = choose|i: int| 0 <= i < ks.len() && ks[i] == k;
                assert(self.list@[i].key() == k);
            }
        }
        assert forall|i: int| 0 <= i < ks.len() implies self@.index.contains_key(
            #[trigger] ks[i],
        ) by {
            assert(ks.contains(ks[i]));
        }
        self.families.lemma_view();
        if self.tidy() {
            lemma_index_len(self.list@);
            assert forall|i: int| 0 <= i < ks.len() implies self@.index[#[trigger] ks[i]]
                == self.links()[i] by {
                lemma_index_at(self.list@, i);
            }
        } else {
            assert(Set::new(|k: K| ks.contains(k)) =~= ks.to_set());
            assert(self@.index.dom() =~= ks.to_set());
            vstd::seq_lib::seq_to_set_is_finite(ks);
        }
    }

    /// Nothing indexed, no family.
    pub fn new() -> (r: Self)
        ensures
            r@ == State::<K, V>::empty(),
            r.keys() == Seq::<K>::empty(),
            r.wf(),
    {
        let r = Shelf { list: Vec::new(), families: Families::new() };
        assert(r@.index =~= Map::empty());
        assert(r.keys() =~= Seq::<K>::empty());
        r
    }

    /// The number of records.
    pub fn len(&self) -> (n: usize)
        ensures
            n == self.keys().len(),
            self.tidy() ==> n == self@.len(),
    {
        proof {
            self.lemma_keys();
        }
        self.list.len()
    }

    /// The number of holders of `family`; 0 if it is not alive.
    pub fn holders(&self, family: usize) -> (n: u64)
        ensures
            n == self@.holders(family as nat),
    {
        self.families.holders(family)
    }

    /// The key of the record at a place.
    pub fn key_at(&self, at: usize) -> (k: &K)
        requires
            at < self.keys().len(),
        ensures
            *k == self.keys()[at as int],
    {
        self.list[at].key_ref()
    }

    /// Founds a family for `key` and `value` and leads the key to it: in the
    /// record at `at` if `hit` says that this record has the key, else in a
    /// new record put before the one at `at`.
    pub fn put(&mut self, at: usize, hit: bool, key: K, value: V) -> (t: Ticket<V>)
        requires
            at <= old(self).keys().len(),
            hit ==> at < old(self).keys().len(),
        ensures
            *t.value == value,
            old(self).wf() && (if hit {
                old(self).keys()[at as int] == key
            } else {
                !old(self).keys().contains(key)
            }) ==> {
                &&& final(self).wf()
                &&& !old(self)@.families.contains_key(t.family as nat)
                &&& final(self)@ == old(self)@.inserted(key, value, t.family as nat)
                &&& final(self).keys() == if hit {
                    old(self).keys()
                } else {
                    old(self).keys().insert(at as int, key)
                }
            },
    {
        let ghost (k, v) = (key, value);
        let value = Arc::new(value);
        let family = self.families.found();
        let entry = Entry::new(key, family, Arc::clone(&value));
        proof {
            old(self).lemma_keys();
            if old(self).tidy() {
                if hit {
                    if old(self).keys()[at as int] == k {
                        lemma_index_update(old(self).list@, at as int, entry);
                    }
                } else {
                    if !old(self).keys().contains(k) {
                        lemma_index_insert(old(self).list@, at as int, entry);
                    }
                }
            }
            if old(self)@.wf() {
                lemma_inserted_wf(old(self)@, k, v, family as nat);
            }
        }
        if hit {
            self.list[at] = entry;
            assert(old(self).keys()[at as int] == k ==> self.keys() =~= old(self).keys());
        } else {
            self.list.insert(at, entry);
            assert(self.keys() =~= old(self).keys().insert(at as int, k));
        }
        Ticket { family, value }
    }

    /// Counts one more holder of the family that the record at `at` leads to,
    /// and hands out that holder's ticket. The record owns a share of the
    /// value, so the ticket reaches the value whatever the table says.
    pub fn join(&mut self, at: usize) -> (t: Ticket<V>)
        requires
            at < old(self).keys().len(),
        ensures
            t.family as nat == old(self).links()[at as int].family,
            *t.value == old(self).links()[at as int].value,
            final(self).keys() == old(self).keys(),
            final(self).links() == old(self).links(),
            old(self).tidy() ==> final(self).tidy(),
            old(self).wf() ==> {
                &&& final(self).wf()
                &&& final(self)@ == old(self)@.acquired(old(self).keys()[at as int])
            },
    {
        let ticket = self.list[at].ticket();
        proof {
            old(self).lemma_keys();
            if old(self).wf() {
                lemma_retained_wf(old(self)@, ticket.family as nat);
            }
        }
        self.families.join(ticket.family);
        ticket
    }

    /// Counts one holder of `family` less. The last holder takes the family
    /// out of the table and the record that leads to it out of the list; the
    /// record is handed back. Records are told apart by the number of their
    /// family, so that no key is compared.
    pub fn release(&mut self, family: usize) -> (gone: Option<Entry<K, V>>)
        ensures
            final(self).keys() == old(self).keys() || exists|i: int|
                0 <= i < old(self).keys().len() && final(self).keys() == old(self).keys().remove(i),
            old(self).tidy() ==> final(self).tidy(),
            gone matches Some(e) ==> e.link().family == family as nat,
            old(self).wf() ==> {
                &&& final(self).wf()
                &&& final(self)@ == old(self)@.released(family as nat)
                &&& gone is None <==> old(self)@.holders(family as nat) != 1 || forall|k: K|
                    old(self)@.index.contains_key(k) ==> old(self)@.index[k].family != family as nat
                &&& gone is None ==> final(self)@.index == old(self)@.index
                &&& gone matches Some(e) ==> {
                    &&& e.link().family == family as nat
                    &&& old(self)@.index.contains_key(e.key())
                    &&& old(self)@.index[e.key()] == e.link()
                    &&& final(self)@.index == old(self)@.index.remove(e.key())
                }
            },
        opens_invariants none
        no_unwind
    {
        let mut gone = None;
        if self.families.holders(family) == 1 {
            let len = quiet::len(&self.list);
            let mut i: usize = 0;
            while i < len && quiet::element(&self.list, i).family_of() != family
                invariant
                    i <= len == self.list@.len(),
                    *self == *old(self),
                    forall|j: int| 0 <= j < i ==> (#[trigger] self.list@[j]).link().family != family,
                decreases len - i,
            {
                i = i + 1;
            }
            proof {
                old(self).lemma_keys();
                if old(self).wf() {
                    lemma_released_wf(old(self)@, family as nat);
                    lemma_without(old(self)@, family as nat);
                    if i < len {
                        lemma_index_at(old(self).list@, i as int);
                        lemma_index_remove(old(self).list@, i as int);
                    } else {
                        assert forall|k: K| old(self)@.index.contains_key(k) implies old(
                            self,
                        )@.index[k].family != family as nat by {
                            let j = place_of(old(self).list@, k);
                            lemma_index_at(old(self).list@, j);
                        }
                    }
                } else if old(self).tidy() && i < len {
                    lemma_index_remove(old(self).list@, i as int);
                }
            }
            if i < len {
                gone = Some(quiet::remove(&mut self.list, i));
                assert(self.keys() =~= old(self).keys().remove(i as int));
            }
        }
        self.families.leave(family);
        proof {
            if old(self).wf() {
                self.lemma_keys();
            }
        }
        gone
    }
}

} // verus!
