use crate::order::{eq_reflexive, eq_symmetric, eq_transitive, lt_gt_dual, lt_transitive};
use std::cmp::Ordering;
use vstd::prelude::*;
use vstd::std_specs::cmp::{PartialEqSpec, PartialOrdSpec};

verus! {

/// A whole number, ordered as whole numbers are.
#[derive(Debug)]
pub struct Value(pub i32);

impl Clone for Value {
    fn clone(&self) -> (copy: Self)
        ensures
            copy == *self,
    {
        Value(self.0)
    }
}

impl PartialEq for Value {
    fn eq(&self, other: &Self) -> (equal: bool) {
        self.0 == other.0
    }
}

impl vstd::std_specs::cmp::PartialEqSpecImpl for Value {
    open spec fn obeys_eq_spec() -> bool {
        true
    }

    open spec fn eq_spec(&self, other: &Self) -> bool {
        self.0 == other.0
    }
}

impl PartialOrd for Value {
    fn partial_cmp(&self, other: &Self) -> (order: Option<Ordering>) {
        self.0.partial_cmp(&other.0)
    }
}

impl vstd::std_specs::cmp::PartialOrdSpecImpl for Value {
    open spec fn obeys_partial_cmp_spec() -> bool {
        true
    }

    open spec fn partial_cmp_spec(&self, other: &Self) -> Option<Ordering> {
        if self.0 < other.0 {
            Some(Ordering::Less)
        } else if self.0 > other.0 {
            Some(Ordering::Greater)
        } else {
            Some(Ordering::Equal)
        }
    }
}

/// Equality of values is an equivalence, and their order is strict and
/// total: what the laws of the trees ask of a value type.
pub proof fn lemma_value_order()
    ensures
        eq_reflexive::<Value>(),
        eq_symmetric::<Value>(),
        eq_transitive::<Value>(),
        lt_gt_dual::<Value>(),
        lt_transitive::<Value>(),
{
}

} // verus!
