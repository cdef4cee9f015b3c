//! The ordered index: records in ascending order of their keys, found by
//! binary search.

use crate::entries::Entry;
use crate::entries::Ticket;
use crate::model::State;
use crate::order::lawful_order;
use crate::order::lemma_order_laws;
use crate::order::precedes;
use crate::order::rank;
use crate::order::Rank;
use crate::shelf::Shelf;
use vstd::prelude::*;

verus! {

/// Each key comes strictly before the keys after it.
pub open spec fn ascending<K: Ord>(keys: Seq<K>) -> bool {
    forall|i: int, j: int| 0 <= i < j < keys.len() ==> precedes(#[trigger] keys[i], #[trigger] keys[j])
}

/// An index for keys with a total order.
pub struct SortedIndex<K, V> {
    shelf: Shelf<K, V>,
}

impl<K: Ord, V> View for SortedIndex<K, V> {
    type V = State<K, V>;

    closed spec fn view(&self) -> State<K, V> {
        self.shelf@
    }
}

impl<K: Ord, V> SortedIndex<K, V> {
    /// The records are in ascending order of their keys, and the index
    /// stands for a well-formed map.
    pub closed spec fn wf(&self) -> bool {
        self.shelf.wf() && ascending(self.shelf.keys())
    }

    /// A well-formed index stands for a well-formed map.
    pub proof fn lemma_wf(&self)
        requires
            self.wf(),
        ensures
            self@.wf(),
    {
    }

    /// The empty index.
    pub fn new() -> (r: Self)
        ensures
            r.wf(),
            r@ == State::<K, V>::empty(),
    {
        SortedIndex { shelf: Shelf::new() }
    }

    /// The number of indexed keys.
    pub fn len(&self) -> (n: usize)
        ensures
            self.wf() ==> n == self@.len(),
    {
        self.shelf.len()
    }

    /// The number of handles that hold `family`; 0 if the family is not
    /// alive.
    pub fn holders(&self, family: usize) -> (n: u64)
        ensures
            n == self@.holders(family as nat),
    {
        self.shelf.holders(family)
    }

    /// Whether no key is indexed.
    pub fn is_empty(&self) -> (b: bool)
        ensures
            self.wf() ==> b == (self@.len() == 0),
    {
        self.shelf.len() == 0
    }

    /// The place of `key` in the list, and whether a record with the key is
    /// there. Without one, the place is where a record of the key belongs.
    fn search(&self, key: &K) -> (r: (usize, bool))
        ensures
            r.0 <= self.shelf.keys().len(),
            r.1 ==> r.0 < self.shelf.keys().len(),
            lawful_order::<K>() && ascending(self.shelf.keys()) ==> {
                &&& r.1 ==> self.shelf.keys()[r.0 as int] == *key
                &&& !r.1 ==> !self.shelf.keys().contains(*key)
                &&& forall|i: int| 0 <= i < r.0 ==> precedes(#[trigger] self.shelf.keys()[i], *key)
                &&& forall|i: int|
                    r.0 <= i < self.shelf.keys().len() && !(r.1 && i == r.0) ==> precedes(
                        *key,
                        #[trigger] self.shelf.keys()[i],
                    )
            },
    {
        let ghost keys = self.shelf.keys();
        let ghost sound = lawful_order::<K>() && ascending(keys);
        proof {
            if lawful_order::<K>() {
                lemma_order_laws::<K>();
            }
        }
        let mut lo: usize = 0;
        let mut hi: usize = self.shelf.len();
        while lo < hi
            invariant
                lo <= hi <= keys.len(),
                keys == self.shelf.keys(),
                sound == (lawful_order::<K>() && ascending(keys)),
                sound ==> forall|i: int| 0 <= i < lo ==> precedes(#[trigger] keys[i], *key),
                sound ==> forall|i: int| hi <= i < keys.len() ==> precedes(*key, #[trigger] keys[i]),
                lawful_order::<K>() ==> forall|a: K, b: K, c: K|
                    #[trigger] precedes(a, b) && #[trigger] precedes(b, c) ==> precedes(a, c),
                lawful_order::<K>() ==> forall|a: K, b: K| #[trigger]
                    precedes(a, b) ==> a != b && !precedes(b, a),
            decreases hi - lo,
        {
            let mid = lo + (hi - lo) / 2;
            match rank(self.shelf.key_at(mid), key) {
                Rank::Before => {
                    proof {
                        if sound {
                            assert forall|i: int| 0 <= i < mid + 1 implies precedes(
                                #[trigger] keys[i],
                                *key,
                            ) by {
                                if i < mid {
                                    assert(precedes(keys[i], keys[mid as int]));
                                }
                            }
                        }
                    }
                    lo = mid + 1;
                },
                Rank::Same => {
                    proof {
                        if sound {
                            assert forall|i: int| 0 <= i < mid implies precedes(
                                #[trigger] keys[i],
                                *key,
                            ) by {
                                assert(precedes(keys[i], keys[mid as int]));
                            }
                            assert forall|i: int|
                                mid <= i < keys.len() && !(i == mid) implies precedes(
                                *key,
                                #[trigger] keys[i],
                            ) by {
                                assert(precedes(keys[mid as int], keys[i]));
                            }
                        }
                    }
                    return (mid, true);
                },
                Rank::After => {
                    proof {
                        if sound {
                            assert forall|i: int| mid <= i < keys.len() implies precedes(
                                *key,
                                #[trigger] keys[i],
                            ) by {
                                if mid < i {
                                    assert(precedes(keys[mid as int], keys[i]));
                                }
                            }
                        }
                    }
                    hi = mid;
                },
            }
        }
        proof {
            if sound {
                assert forall|i: int| 0 <= i < keys.len() implies keys[i] != *key by {
                    if i < lo {
                        assert(precedes(keys[i], *key));
                    } else {
                        assert(precedes(*key, keys[i]));
                    }
                }
            }
        }
        (lo, false)
    }

    /// Indexes `value` under `key`, in place of what the key led to before,
    /// and hands out the ticket of the first handle of a new family.
    pub fn insert(&mut self, key: K, value: V) -> (t: Ticket<V>)
        ensures
            *t.value == value,
            lawful_order::<K>() && old(self).wf() ==> {
                &&& final(self).wf()
                &&& !old(self)@.families.contains_key(t.family as nat)
                &&& final(self)@ == old(self)@.inserted(key, value, t.family as nat)
            },
    {
        let (at, hit) = self.search(&key);
        let t = self.shelf.put(at, hit, key, value);
        proof {
            if lawful_order::<K>() && old(self).wf() && !hit {
                lemma_order_laws::<K>();
                let before = old(self).shelf.keys();
                let after = self.shelf.keys();
                assert forall|i: int, j: int| 0 <= i < j < after.len() implies precedes(
                    #[trigger] after[i],
                    #[trigger] after[j],
                ) by {
                    let a = if i < at { i } else { i - 1 };
                    let b = if j < at { j } else { j - 1 };
                    if i == at {
                        assert(after[j] == before[b]);
                    } else if j == at {
                        assert(after[i] == before[a]);
                    } else {
                        assert(after[i] == before[a]);
                        assert(after[j] == before[b]);
                    }
                }
            }
        }
        t
    }

    /// Looks `key` up. If it is indexed, its family gets one more holder,
    /// whose ticket is handed out.
    pub fn get(&mut self, key: &K) -> (t: Option<Ticket<V>>)
        ensures
            lawful_order::<K>() && old(self).wf() ==> {
                &&& final(self).wf()
                &&& final(self)@ == old(self)@.acquired(*key)
                &&& match old(self)@.lookup(*key) {
                    Some(link) => t matches Some(ticket) && ticket.family as nat == link.family
                        && *ticket.value == link.value,
                    None => t is None,
                }
            },
    {
        let (at, hit) = self.search(key);
        proof {
            self.shelf.lemma_keys();
        }
        if hit {
            Some(self.shelf.join(at))
        } else {
            None
        }
    }

    /// Gives up one handle of `family`. The last one takes the family away,
    /// and with it the key that leads to it; the key's record is handed back,
    /// for the caller to drop once the index is no longer locked. No key is
    /// compared on the way.
    pub fn release(&mut self, family: usize) -> (gone: Option<Entry<K, V>>)
        ensures
            gone matches Some(e) ==> e.link().family == family as nat,
            old(self).wf() ==> {
                &&& final(self).wf()
                &&& final(self)@ == old(self)@.released(family as nat)
                &&& gone is None <==> old(self)@.holders(family as nat) != 1 || forall|k: K|
                    old(self)@.index.contains_key(k) ==> old(self)@.index[k].family != family as nat
                &&& gone is None ==> final(self)@.index == old(self)@.index
                &&& gone matches Some(e) ==> {
                    &&& e.link().family == family as nat
                    &&& old(self)@.index.contains_key(e.key())
                    &&& old(self)@.index[e.key()] == e.link()
                    &&& final(self)@.index == old(self)@.index.remove(e.key())
                }
            },
        opens_invariants none
        no_unwind
    {
        let gone = self.shelf.release(family);
        proof {
            let before = old(self).shelf.keys();
            let after = self.shelf.keys();
            if ascending(before) && after != before {
                let at = choose|i: int| 0 <= i < before.len() && after == before.remove(i);
                assert forall|i: int, j: int| 0 <= i < j < after.len() implies precedes(
                    #[trigger] after[i],
                    #[trigger] after[j],
                ) by {
                    let a = if i < at { i } else { i + 1 };
                    let b = if j < at { j } else { j + 1 };
                    assert(after[i] == before[a]);
                    assert(after[j] == before[b]);
                }
            }
        }
        gone
    }
}

} // verus!
