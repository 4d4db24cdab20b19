use core::cmp::Ordering;

use vstd::prelude::*;
use vstd::std_specs::cmp::{PartialEqSpec, PartialOrdSpec};

verus! {

/// `V`'s comparison operators follow its `partial_cmp_spec`.
pub open spec fn orders_by_spec<V: PartialOrd>() -> bool {
    V::obeys_partial_cmp_spec()
}

/// `a` is greater than `b` in `V`'s order.
pub open spec fn value_gt<V: PartialOrd>(a: V, b: V) -> bool {
    a.partial_cmp_spec(&b) == Some(Ordering::Greater)
}

/// `a` is less than `b` in `V`'s order.
pub open spec fn value_lt<V: PartialOrd>(a: V, b: V) -> bool {
    a.partial_cmp_spec(&b) == Some(Ordering::Less)
}

/// `a` equals `b` in `V`'s order.
pub open spec fn value_eq<V: PartialOrd>(a: V, b: V) -> bool {
    a.partial_cmp_spec(&b) == Some(Ordering::Equal)
}

/// Some node has a greater value in `lhs` than in `rhs`.
pub open spec fn some_greater<K, V: PartialOrd>(lhs: Map<K, V>, rhs: Map<K, V>) -> bool {
    exists|k: K| #[trigger] lhs.contains_key(k) && value_gt(lhs[k], rhs[k])
}

/// Some node has a smaller value in `lhs` than in `rhs`.
pub open spec fn some_less<K, V: PartialOrd>(lhs: Map<K, V>, rhs: Map<K, V>) -> bool {
    exists|k: K| #[trigger] lhs.contains_key(k) && value_lt(lhs[k], rhs[k])
}

/// The product order of two maps, compared node by node over `lhs`'s nodes:
/// `Equal` when no node differs, `Greater` (`Less`) when some node is greater (less)
/// and none is less (greater), and no order when both occur or when `rhs` lacks one
/// of `lhs`'s nodes.
pub open spec fn product_order<K, V: PartialOrd>(lhs: Map<K, V>, rhs: Map<K, V>) -> Option<Ordering> {
    if !lhs.dom().subset_of(rhs.dom()) {
        None
    } else {
        let greater = some_greater(lhs, rhs);
        let less = some_less(lhs, rhs);
        if !greater && !less {
            Some(Ordering::Equal)
        } else if greater && !less {
            Some(Ordering::Greater)
        } else if !greater && less {
            Some(Ordering::Less)
        } else {
            None
        }
    }
}

/// Two maps have the same nodes and `V`-equal values at each of them.
pub open spec fn maps_equal<K, V: PartialEq>(lhs: Map<K, V>, rhs: Map<K, V>) -> bool {
    &&& lhs.dom() == rhs.dom()
    &&& forall|k: K| #[trigger] lhs.contains_key(k) ==> lhs[k].eq_spec(&rhs[k])
}

} // verus!
