//! The map for tasks whose keys are told apart by `==`.

use crate::asynchronous::lock::content_mut;
use crate::asynchronous::lock::exclusive_blocking;
use crate::entries::Entry;
use crate::entries::Ticket;
use crate::order::lawful_eq;
use crate::scanned_index::ScannedIndex;
use async_std::sync::RwLock;
use std::hash::Hash;
use std::ops::Deref;
use std::sync::Arc;
use vstd::prelude::*;

verus! {

/// A map from keys with an equality to values, in which a key stays for as
/// long as a handle to its value is held. Keys are matched with `==` alone.
///
/// Its operations work on the locked index. The caller awaits [`lock`] for
/// it, for reading or for writing as the operation's parameter asks, and lets
/// go of the lock before it drops a handle.
///
/// [`lock`]: RodHashMap::lock
#[verifier::reject_recursive_types(K)]
#[verifier::reject_recursive_types(V)]
pub struct RodHashMap<K: Eq + Hash, V> {
    inner: Arc<RwLock<ScannedIndex<K, V>>>,
}

/// A handle to a value of a [`RodHashMap`]. It gives read access to the
/// value; when it goes, its family has one holder less, and the last holder
/// takes the key out of the map.
#[verifier::reject_recursive_types(K)]
#[verifier::reject_recursive_types(V)]
pub struct RodGuard<K: Eq + Hash, V> {
    parent: Arc<RwLock<ScannedIndex<K, V>>>,
    family: usize,
    value: Arc<V>,
}

impl<K: Eq + Hash, V> RodHashMap<K, V> {
    /// The lock that guards the map's index. A handle of the map is bound to
    /// this lock: its release goes to the index behind it.
    pub closed spec fn home(&self) -> RwLock<ScannedIndex<K, V>> {
        *self.inner
    }

    /// A map without keys.
    pub fn new() -> (map: Self) {
        RodHashMap { inner: Arc::new(RwLock::new(ScannedIndex::new())) }
    }

    /// The lock that guards the map's index, shared with the map.
    pub fn lock(&self) -> (lock: Arc<RwLock<ScannedIndex<K, V>>>)
        ensures
            *lock == self.home(),
    {
        Arc::clone(&self.inner)
    }

    /// The number of keys in the map, read from its locked index.
    pub fn len(&self, index: &ScannedIndex<K, V>) -> (n: usize)
        ensures
            index.wf() ==> n == index@.len(),
    {
        index.len()
    }

    /// Whether the map has no key, read from its locked index.
    pub fn is_empty(&self, index: &ScannedIndex<K, V>) -> (b: bool)
        ensures
            index.wf() ==> b == (index@.len() == 0),
    {
        index.is_empty()
    }

    /// Puts `value` into the map under `key` and returns the first handle to
    /// it. A key that is in the map already leads to the new value from now
    /// on; the handles to the old value stay good. `index` is the map's own
    /// index, locked for writing.
    pub fn insert(&mut self, index: &mut ScannedIndex<K, V>, key: K, value: V) -> (guard: Arc<
        RodGuard<K, V>,
    >)
        ensures
            guard.value() == value,
            guard.home() == old(self).home(),
            final(self).home() == old(self).home(),
            lawful_eq::<K>() && old(index).wf() ==> {
                &&& final(index).wf()
                &&& !old(index)@.families.contains_key(guard.family())
                &&& final(index)@ == old(index)@.inserted(key, value, guard.family())
            },
    {
        let ticket = index.insert(key, value);
        Arc::new(RodGuard::new(Arc::clone(&self.inner), ticket))
    }

    /// A new handle to the value under `key`, if the key is in the map.
    /// `index` is the map's own index, locked for writing: the lookup counts
    /// the new handle.
    pub fn get(&self, index: &mut ScannedIndex<K, V>, key: &K) -> (guard: Option<
        Arc<RodGuard<K, V>>,
    >)
        ensures
            guard matches Some(found) ==> found.home() == self.home(),
            lawful_eq::<K>() && old(index).wf() ==> {
                &&& final(index).wf()
                &&& final(index)@ == old(index)@.acquired(*key)
                &&& match old(index)@.lookup(*key) {
                    Some(link) => guard matches Some(g) && g.family() == link.family && g.value()
                        == link.value,
                    None => guard is None,
                }
            },
    {
        match index.get(key) {
            Some(ticket) => Some(Arc::new(RodGuard::new(Arc::clone(&self.inner), ticket))),
            None => None,
        }
    }
}

impl<K: Eq + Hash, V> RodGuard<K, V> {
    /// The value that the handle reaches.
    pub closed spec fn value(&self) -> V {
        *self.value
    }

    /// The family that the handle belongs to.
    pub closed spec fn family(&self) -> nat {
        self.family as nat
    }

    /// The lock of the map that the handle belongs to.
    pub closed spec fn home(&self) -> RwLock<ScannedIndex<K, V>> {
        *self.parent
    }

    /// Releases the handle in the index of its map, under the map's lock,
    /// for which the thread blocks. The record that the release took out
    /// comes back, so that it is dropped when the lock is free again.
    fn leave(&self) -> (gone: Option<Entry<K, V>>)
        ensures
            gone matches Some(e) ==> e.link().family == self.family(),
        opens_invariants none
        no_unwind
    {
        let mut guard = exclusive_blocking(&self.parent);
        content_mut(&mut guard).release(self.family)
    }

    fn new(parent: Arc<RwLock<ScannedIndex<K, V>>>, ticket: Ticket<V>) -> (guard: Self)
        ensures
            guard.value() == *ticket.value,
            guard.family() == ticket.family,
            guard.home() == *parent,
    {
        RodGuard { parent, family: ticket.family, value: ticket.value }
    }
}

impl<K: Eq + Hash, V> Deref for RodGuard<K, V> {
    type Target = V;

    fn deref(&self) -> (value: &V)
        ensures
            *value == self.value(),
    {
        &self.value
    }
}

impl<K: Eq + Hash, V> Drop for RodGuard<K, V> {
    fn drop(&mut self)
        opens_invariants none
        no_unwind
    {
        let _gone = self.leave();
    }
}

} // verus!
