//! The index for keys that can only be told apart: records in the order in
//! which their keys came, found by comparing the key with each in turn.

use crate::entries::Entry;
use crate::entries::Ticket;
use crate::model::State;
use crate::order::lawful_eq;
use crate::order::same_key;
use crate::shelf::Shelf;
use vstd::prelude::*;

verus! {

/// An index for keys with an equality.
pub struct ScannedIndex<K, V> {
    shelf: Shelf<K, V>,
}

impl<K: Eq, V> View for ScannedIndex<K, V> {
    type V = State<K, V>;

    closed spec fn view(&self) -> State<K, V> {
        self.shelf@
    }
}

impl<K: Eq, V> ScannedIndex<K, V> {
    /// No key has two records, and the index stands for a well-formed map.
    pub closed spec fn wf(&self) -> bool {
        self.shelf.wf()
    }

    /// A well-formed index stands for a well-formed map.
    pub proof fn lemma_wf(&self)
        requires
            self.wf(),
        ensures
            self@.wf(),
    {
    }

    /// The empty index.
    pub fn new() -> (r: Self)
        ensures
            r.wf(),
            r@ == State::<K, V>::empty(),
    {
        ScannedIndex { shelf: Shelf::new() }
    }

    /// The number of indexed keys.
    pub fn len(&self) -> (n: usize)
        ensures
            self.wf() ==> n == self@.len(),
    {
        self.shelf.len()
    }

    /// The number of handles that hold `family`; 0 if the family is not
    /// alive.
    pub fn holders(&self, family: usize) -> (n: u64)
        ensures
            n == self@.holders(family as nat),
    {
        self.shelf.holders(family)
    }

    /// Whether no key is indexed.
    pub fn is_empty(&self) -> (b: bool)
        ensures
            self.wf() ==> b == (self@.len() == 0),
    {
        self.shelf.len() == 0
    }

    /// The place of the first record with `key`, and whether there is one.
    /// Without one, the place is the end of the list.
    fn search(&self, key: &K) -> (r: (usize, bool))
        ensures
            r.0 <= self.shelf.keys().len(),
            r.1 ==> r.0 < self.shelf.keys().len(),
            !r.1 ==> r.0 == self.shelf.keys().len(),
            lawful_eq::<K>() ==> {
                &&& r.1 ==> self.shelf.keys()[r.0 as int] == *key
                &&& !r.1 ==> !self.shelf.keys().contains(*key)
            },
    {
        let n = self.shelf.len();
        let mut i: usize = 0;
        while i < n
            invariant
                i <= n == self.shelf.keys().len(),
                lawful_eq::<K>() ==> forall|j: int| 0 <= j < i ==> self.shelf.keys()[j] != *key,
            decreases n - i,
        {
            if same_key(self.shelf.key_at(i), key) {
                return (i, true);
            }
            i = i + 1;
        }
        (i, false)
    }

    /// Indexes `value` under `key`, in place of what the key led to before,
    /// and hands out the ticket of the first handle of a new family.
    pub fn insert(&mut self, key: K, value: V) -> (t: Ticket<V>)
        ensures
            *t.value == value,
            lawful_eq::<K>() && old(self).wf() ==> {
                &&& final(self).wf()
                &&& !old(self)@.families.contains_key(t.family as nat)
                &&& final(self)@ == old(self)@.inserted(key, value, t.family as nat)
            },
    {
        let (at, hit) = self.search(&key);
        self.shelf.put(at, hit, key, value)
    }

    /// Looks `key` up. If it is indexed, its family gets one more holder,
    /// whose ticket is handed out.
    pub fn get(&mut self, key: &K) -> (t: Option<Ticket<V>>)
        ensures
            lawful_eq::<K>() && old(self).wf() ==> {
                &&& final(self).wf()
                &&& final(self)@ == old(self)@.acquired(*key)
                &&& match old(self)@.lookup(*key) {
                    Some(link) => t matches Some(ticket) && ticket.family as nat == link.family
                        && *ticket.value == link.value,
                    None => t is None,
                }
            },
    {
        let (at, hit) = self.search(key);
        proof {
            self.shelf.lemma_keys();
        }
        if hit {
            Some(self.shelf.join(at))
        } else {
            None
        }
    }

    /// Gives up one handle of `family`. The last one takes the family away,
    /// and with it the key that leads to it; the key's record is handed back,
    /// for the caller to drop once the index is no longer locked. No key is
    /// compared on the way.
    pub fn release(&mut self, family: usize) -> (gone: Option<Entry<K, V>>)
        ensures
            gone matches Some(e) ==> e.link().family == family as nat,
            old(self).wf() ==> {
                &&& final(self).wf()
                &&& final(self)@ == old(self)@.released(family as nat)
                &&& gone is None <==> old(self)@.holders(family as nat) != 1 || forall|k: K|
                    old(self)@.index.contains_key(k) ==> old(self)@.index[k].family != family as nat
                &&& gone is None ==> final(self)@.index == old(self)@.index
                &&& gone matches Some(e) ==> {
                    &&& e.link().family == family as nat
                    &&& old(self)@.index.contains_key(e.key())
                    &&& old(self)@.index[e.key()] == e.link()
                    &&& final(self)@.index == old(self)@.index.remove(e.key())
                }
            },
        opens_invariants none
        no_unwind
    {
        self.shelf.release(family)
    }
}

} // verus!
