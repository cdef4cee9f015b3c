//! Key comparison, and what the indexes assume of it.

use std::cmp::Ordering;
use vstd::laws_cmp::obeys_cmp;
use vstd::laws_eq::obeys_concrete_eq;
use vstd::prelude::*;
use vstd::std_specs::cmp::OrdSpec;
use vstd::std_specs::cmp::PartialEqSpec;
use vstd::std_specs::cmp::PartialOrdSpec;

verus! {

/// Where one key stands relative to another.
#[derive(Clone, Copy, PartialEq, Eq, Structural, Debug)]
pub enum Rank {
    Before,
    Same,
    After,
}

/// `K`'s `==` tells exactly whether two keys are the same value.
pub open spec fn lawful_eq<K: PartialEq>() -> bool {
    obeys_concrete_eq::<K>()
}

/// `K`'s order is a total order whose ties are exactly the equal keys.
pub open spec fn lawful_order<K: Ord>() -> bool {
    obeys_cmp::<K>() && obeys_concrete_eq::<K>()
}

/// `a` comes strictly before `b` in `K`'s order.
pub open spec fn precedes<K: Ord>(a: K, b: K) -> bool {
    a.cmp_spec(&b) == Ordering::Less
}

/// Under a lawful order exactly one of "before", "same", "after" holds of two
/// keys, and "before" is transitive.
pub proof fn lemma_order_laws<K: Ord>()
    requires
        lawful_order::<K>(),
    ensures
        forall|a: K, b: K| #[trigger] precedes(a, b) ==> a != b && !precedes(b, a),
        forall|a: K, b: K| a != b && !precedes(a, b) ==> #[trigger] precedes(b, a),
        forall|a: K, b: K, c: K|
            #[trigger] precedes(a, b) && #[trigger] precedes(b, c) ==> precedes(a, c),
{
    reveal(obeys_concrete_eq);
    reveal(vstd::laws_cmp::obeys_cmp_ord);
    reveal(vstd::laws_cmp::obeys_cmp_partial_ord);
    reveal(vstd::laws_cmp::obeys_partial_cmp_spec_properties);
    assert forall|a: K, b: K| a != b && !precedes(a, b) implies #[trigger] precedes(b, a) by {
        assert(a.partial_cmp_spec(&b) == Some(a.cmp_spec(&b)));
        assert(b.partial_cmp_spec(&a) == Some(b.cmp_spec(&a)));
        assert(!a.eq_spec(&b));
    }
    assert forall|a: K, b: K, c: K| #[trigger]
        precedes(a, b) && #[trigger] precedes(b, c) implies precedes(a, c) by {
        assert(a.partial_cmp_spec(&b) == Some(a.cmp_spec(&b)));
        assert(b.partial_cmp_spec(&c) == Some(b.cmp_spec(&c)));
        assert(a.partial_cmp_spec(&c) == Some(a.cmp_spec(&c)));
    }
    assert forall|a: K, b: K| #[trigger] precedes(a, b) implies a != b && !precedes(b, a) by {
        assert(a.partial_cmp_spec(&b) == Some(a.cmp_spec(&b)));
        assert(b.partial_cmp_spec(&a) == Some(b.cmp_spec(&a)));
    }
}

/// Compares two keys with `K`'s own order.
pub fn rank<K: Ord>(a: &K, b: &K) -> (r: Rank)
    ensures
        lawful_order::<K>() ==> (r == Rank::Before <==> precedes(*a, *b)),
        lawful_order::<K>() ==> (r == Rank::Same <==> *a == *b),
        lawful_order::<K>() ==> (r == Rank::After <==> precedes(*b, *a)),
{
    proof {
        if lawful_order::<K>() {
            lemma_order_laws::<K>();
            reveal(obeys_concrete_eq);
            reveal(vstd::laws_cmp::obeys_cmp_ord);
            reveal(vstd::laws_cmp::obeys_cmp_partial_ord);
            reveal(vstd::laws_cmp::obeys_partial_cmp_spec_properties);
            assert(a.partial_cmp_spec(b) == Some(a.cmp_spec(b)));
        }
    }
    match a.cmp(b) {
        Ordering::Less => Rank::Before,
        Ordering::Equal => Rank::Same,
        Ordering::Greater => Rank::After,
    }
}

/// Tells whether two keys are the same, with `K`'s own `==`.
pub fn same_key<K: PartialEq>(a: &K, b: &K) -> (r: bool)
    ensures
        lawful_eq::<K>() ==> r == (*a == *b),
{
    proof {
        reveal(obeys_concrete_eq);
    }
    *a == *b
}

} // verus!
