//! What the priority store needs to know of a priority key: that its
//! comparison operators describe one total order.

use core::cmp::Ordering;
use vstd::laws_cmp::{
    obeys_cmp, obeys_cmp_ord, obeys_cmp_partial_ord, obeys_partial_cmp_spec_properties,
};
use vstd::laws_eq::obeys_eq_spec_properties;
use vstd::prelude::*;
use vstd::std_specs::cmp::{OrdSpec, PartialEqSpec, PartialOrdSpec};

verus! {

/// The comparisons of `P` behave as a total order, and the operators return
/// what that order says.
pub open spec fn total_order<P: Ord>() -> bool {
    obeys_cmp::<P>()
}

/// `a` comes no later than `b` in the order of `P`.
pub open spec fn le<P: Ord>(a: P, b: P) -> bool {
    a.partial_cmp_spec(&b) == Some(Ordering::Less) || a.partial_cmp_spec(&b) == Some(
        Ordering::Equal,
    )
}

/// Any two keys are comparable.
pub proof fn lemma_le_total<P: Ord>(a: P, b: P)
    requires
        total_order::<P>(),
    ensures
        le(a, b) || le(b, a),
{
    reveal(obeys_cmp_ord);
    reveal(obeys_partial_cmp_spec_properties);
    assert(a.partial_cmp_spec(&b) == Some(a.cmp_spec(&b)));
    if a.partial_cmp_spec(&b) == Some(Ordering::Greater) {
        assert(b.partial_cmp_spec(&a) == Some(Ordering::Less));
    }
}

/// Every key is comparable with itself.
pub proof fn lemma_le_reflexive<P: Ord>(a: P)
    requires
        total_order::<P>(),
    ensures
        le(a, a),
{
    lemma_le_total(a, a);
}

/// The order is transitive.
pub proof fn lemma_le_transitive<P: Ord>(a: P, b: P, c: P)
    requires
        total_order::<P>(),
        le(a, b),
        le(b, c),
    ensures
        le(a, c),
{
    reveal(obeys_cmp_ord);
    reveal(obeys_cmp_partial_ord);
    reveal(obeys_partial_cmp_spec_properties);
    reveal(obeys_eq_spec_properties);
    assert(a.partial_cmp_spec(&c) == Some(a.cmp_spec(&c)));
    if a.partial_cmp_spec(&c) == Some(Ordering::Greater) {
        // c < a; together with a <= b <= c this closes a cycle.
        assert(c.partial_cmp_spec(&a) == Some(Ordering::Less));
        if a.partial_cmp_spec(&b) == Some(Ordering::Less) {
            // c < a < b, so c < b, while b <= c.
            assert(c.partial_cmp_spec(&b) == Some(Ordering::Less));
            assert(b.partial_cmp_spec(&c) == Some(Ordering::Greater));
        } else {
            // a equals b.
            assert(a.eq_spec(&b));
            if b.partial_cmp_spec(&c) == Some(Ordering::Less) {
                // b < c < a, so b < a, while a equals b.
                assert(b.partial_cmp_spec(&a) == Some(Ordering::Less));
                assert(a.partial_cmp_spec(&b) == Some(Ordering::Greater));
            } else {
                // a equals b equals c.
                assert(b.eq_spec(&c));
                assert(a.eq_spec(&c));
                assert(a.partial_cmp_spec(&c) == Some(Ordering::Equal));
            }
        }
    }
}

/// Compares two keys with `<=`.
pub fn at_most<P: Ord>(a: &P, b: &P) -> (r: bool)
    ensures
        total_order::<P>() ==> r == le(*a, *b),
{
    proof {
        reveal(obeys_cmp_partial_ord);
    }
    *a <= *b
}

} // verus!
