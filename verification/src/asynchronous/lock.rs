//! The lock of the maps for tasks: `async_std::sync::RwLock`, of which the
//! verifier knows nothing but what is declared here.

use async_std::sync::RwLock;
use async_std::sync::RwLockWriteGuard;
use vstd::prelude::*;

verus! {

#[verifier::external_type_specification]
#[verifier::external_body]
#[verifier::reject_recursive_types(T)]
pub struct ExRwLock<T: ?Sized>(RwLock<T>);

#[verifier::external_type_specification]
#[verifier::external_body]
#[verifier::reject_recursive_types(T)]
pub struct ExRwLockWriteGuard<'a, T: ?Sized>(RwLockWriteGuard<'a, T>);

/// `RwLock::new` makes an unlocked lock around a value. Nothing is claimed of
/// it: what a lock holds is whatever its last writer left.
pub assume_specification<T>[ RwLock::<T>::new ](t: T) -> (lock: RwLock<T>)
;

/// `RwLock::write_blocking`: blocks the thread until nobody else holds the
/// lock and returns exclusive access. Nothing is claimed of what the lock
/// holds. The claim is that the call does not unwind, which the release of a
/// handle needs: the lock parks the thread, and where the thread's own
/// parker is gone, as in a destructor that runs late, it makes a new one.
/// The call does not return while the caller itself holds a guard of the
/// lock.
#[verifier::external_body]
pub(crate) fn exclusive_blocking<'a, T>(lock: &'a RwLock<T>) -> (guard: RwLockWriteGuard<'a, T>)
    opens_invariants none
    no_unwind
{
    lock.write_blocking()
}

/// `DerefMut::deref_mut` of a write guard: the locked value, for writing. It
/// hands out a reference and cannot panic.
#[verifier::external_body]
pub(crate) fn content_mut<'a, 'b, T>(guard: &'a mut RwLockWriteGuard<'b, T>) -> (value: &'a mut T)
    opens_invariants none
    no_unwind
{
    &mut **guard
}

} // verus!
