//! The item of a priority queue: a payload and the key that ranks it.

use core::cmp::Ordering;
use vstd::prelude::*;
use vstd::std_specs::cmp::{PartialEqSpec, PartialEqSpecImpl, PartialOrdSpec, PartialOrdSpecImpl};

verus! {

/// A payload together with the priority key that ranks it. Only the key
/// takes part in comparisons: two items with equal keys compare as equal
/// whatever their payloads.
#[derive(Debug)]
pub struct PrioritizedItem<T, P>(pub T, pub P);

impl<T, P: Ord> PartialEq for PrioritizedItem<T, P> {
    fn eq(&self, other: &Self) -> (r: bool) {
        self.1 == other.1
    }
}

impl<T, P: Ord> PartialEqSpecImpl for PrioritizedItem<T, P> {
    open spec fn obeys_eq_spec() -> bool {
        P::obeys_eq_spec()
    }

    open spec fn eq_spec(&self, other: &Self) -> bool {
        self.1.eq_spec(&other.1)
    }
}

impl<T, P: Ord> Eq for PrioritizedItem<T, P> {
}

impl<T, P: Ord> PartialOrd for PrioritizedItem<T, P> {
    fn partial_cmp(&self, other: &Self) -> (r: Option<Ordering>) {
        self.1.partial_cmp(&other.1)
    }
}

impl<T, P: Ord> PartialOrdSpecImpl for PrioritizedItem<T, P> {
    open spec fn obeys_partial_cmp_spec() -> bool {
        P::obeys_partial_cmp_spec()
    }

    open spec fn partial_cmp_spec(&self, other: &Self) -> Option<Ordering> {
        self.1.partial_cmp_spec(&other.1)
    }
}

} // verus!
