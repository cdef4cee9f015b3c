//! The lock of the maps for threads: `std::sync::RwLock`, of which the
//! verifier knows nothing but what is declared here.

use std::sync::RwLock;
use std::sync::RwLockReadGuard;
use std::sync::RwLockWriteGuard;
use vstd::prelude::*;

verus! {

#[verifier::external_type_specification]
#[verifier::external_body]
#[verifier::reject_recursive_types(T)]
pub struct ExRwLock<T: ?Sized>(RwLock<T>);

#[verifier::external_type_specification]
#[verifier::external_body]
#[verifier::reject_recursive_types(T)]
pub struct ExRwLockReadGuard<'a, T: ?Sized>(RwLockReadGuard<'a, T>);

#[verifier::external_type_specification]
#[verifier::external_body]
#[verifier::reject_recursive_types(T)]
pub struct ExRwLockWriteGuard<'a, T: ?Sized + 'a>(RwLockWriteGuard<'a, T>);

/// `RwLock::new` makes an unlocked lock around a value. Nothing is claimed of
/// it: what a lock holds is whatever its last writer left.
pub assume_specification<T>[ RwLock::<T>::new ](t: T) -> (lock: RwLock<T>)
;

/// `RwLock::read`: waits until no writer holds the lock and returns shared
/// access. A lock that a panicking writer left poisoned is entered all the
/// same. Nothing is claimed of what the lock holds.
#[verifier::external_body]
pub(crate) fn shared<'a, T>(lock: &'a RwLock<T>) -> (guard: RwLockReadGuard<'a, T>) {
    match lock.read() {
        Ok(guard) => guard,
        Err(poisoned) => poisoned.into_inner(),
    }
}

/// `RwLock::write`: waits until nobody else holds the lock and returns
/// exclusive access. A lock that a panicking writer left poisoned is entered
/// all the same. Nothing is claimed of what the lock holds. The claim is
/// that the call does not unwind, which the release of a handle needs. std
/// leaves one case open, a thread that asks while it holds the lock itself:
/// the maps hold the lock for one operation on the index at a time and drop
/// no handle meanwhile.
#[verifier::external_body]
pub(crate) fn exclusive<'a, T>(lock: &'a RwLock<T>) -> (guard: RwLockWriteGuard<'a, T>)
    opens_invariants none
    no_unwind
{
    match lock.write() {
        Ok(guard) => guard,
        Err(poisoned) => poisoned.into_inner(),
    }
}

/// `Deref::deref` of a read guard: the locked value, for reading.
#[verifier::external_body]
pub(crate) fn content<'a, 'b, T>(guard: &'a RwLockReadGuard<'b, T>) -> (value: &'a T) {
    &**guard
}

/// `DerefMut::deref_mut` of a write guard: the locked value, for writing. It
/// hands out a reference and cannot panic.
#[verifier::external_body]
pub(crate) fn content_mut<'a, 'b, T>(guard: &'a mut RwLockWriteGuard<'b, T>) -> (value: &'a mut T)
    opens_invariants none
    no_unwind
{
    &mut **guard
}

} // verus!
