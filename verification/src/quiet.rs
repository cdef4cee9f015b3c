//! The `Vec` operations that the release of a handle uses. A release runs in
//! a destructor, which may neither unwind nor open an invariant; vstd's own
//! contracts for these operations leave the second open, so it is claimed
//! here.

use vstd::prelude::*;

verus! {

/// `Vec::len`: the number of elements. It reads a field and cannot panic.
#[verifier::external_body]
pub(crate) fn len<T>(list: &Vec<T>) -> (n: usize)
    ensures
        n == list@.len(),
    opens_invariants none
    no_unwind
{
    list.len()
}

/// `Index::index` of a `Vec`: the element at `at`. It panics only where `at`
/// is no place of the list, which `requires` leaves out.
#[verifier::external_body]
pub(crate) fn element<T>(list: &Vec<T>, at: usize) -> (element: &T)
    requires
        at < list@.len(),
    ensures
        *element == list@[at as int],
    opens_invariants none
    no_unwind
{
    &list[at]
}

/// `IndexMut::index_mut` of a `Vec` of numbers, to put `n` at `at`. It panics
/// only where `at` is no place of the list, which `requires` leaves out; a
/// number that is overwritten has no destructor to run.
#[verifier::external_body]
pub(crate) fn set(list: &mut Vec<u64>, at: usize, n: u64)
    requires
        at < old(list)@.len(),
    ensures
        final(list)@ == old(list)@.update(at as int, n),
    opens_invariants none
    no_unwind
{
    list[at] = n;
}

/// `Vec::remove`: takes the element at `at` out and hands it back; the
/// elements behind it move up. It panics only where `at` is no place of the
/// list, which `requires` leaves out, and drops nothing.
#[verifier::external_body]
pub(crate) fn remove<T>(list: &mut Vec<T>, at: usize) -> (element: T)
    requires
        at < old(list)@.len(),
    ensures
        final(list)@ == old(list)@.remove(at as int),
        element == old(list)@[at as int],
    opens_invariants none
    no_unwind
{
    list.remove(at)
}

} // verus!
