use vstd::prelude::*;
use vstd::std_specs::cmp::{PartialEqSpec, PartialOrdIs, PartialOrdSpec};

verus! {

/// Every value equals itself under `==`.
pub open spec fn eq_reflexive<T: PartialEq>() -> bool {
    forall|a: T| #[trigger] a.eq_spec(&a)
}

/// `==` holds in both directions or in neither.
pub open spec fn eq_symmetric<T: PartialEq>() -> bool {
    forall|a: T, b: T| #[trigger] a.eq_spec(&b) ==> b.eq_spec(&a)
}

/// `==` carries over a common middle value.
pub open spec fn eq_transitive<T: PartialEq>() -> bool {
    forall|a: T, b: T, c: T| #[trigger] a.eq_spec(&b) && #[trigger] b.eq_spec(&c) ==> a.eq_spec(&c)
}

/// `a < b` holds exactly where `b > a` holds.
pub open spec fn lt_gt_dual<T: PartialOrd>() -> bool {
    &&& forall|a: T, b: T| #![trigger a.partial_cmp_spec(&b)] a.is_lt(&b) ==> b.is_gt(&a)
    &&& forall|a: T, b: T| #![trigger a.partial_cmp_spec(&b)] a.is_gt(&b) ==> b.is_lt(&a)
}

/// `<` carries over a common middle value.
pub open spec fn lt_transitive<T: PartialOrd>() -> bool {
    forall|a: T, b: T, c: T|
        #![trigger a.partial_cmp_spec(&b), b.partial_cmp_spec(&c)]
        a.is_lt(&b) && b.is_lt(&c) ==> a.is_lt(&c)
}

/// Each value is less than every later one.
pub open spec fn ascending<T: PartialOrd>(values: Seq<T>) -> bool {
    forall|i: int, j: int|
        #![trigger values[i], values[j]]
        0 <= i < j < values.len() ==> values[i].is_lt(&values[j])
}

} // verus!
