use std::collections::HashSet;

use core::cmp::Ordering;

use vstd::prelude::*;
use vstd::std_specs::cmp::{PartialEqSpecImpl, PartialOrdSpecImpl};

use crate::data_types::order::{maps_equal, product_order, some_greater, some_less, value_gt, value_lt};
use crate::data_types::vector::Vector;
use crate::render::{nodes_text, Render};
use crate::types::{NodeId, Timestamp};

verus! {

/// A timestamp for each node of a fixed set of nodes.
#[derive(Debug)]
pub struct VectorClock {
    vector: Vector<Timestamp>,
}

impl View for VectorClock {
    type V = Map<NodeId, Timestamp>;

    open spec fn view(&self) -> Map<NodeId, Timestamp> {
        self.spec_vector()@
    }
}

/// The clock after raising each of `old`'s entries to `other`'s where that is larger.
pub open spec fn clock_max(old: Map<NodeId, Timestamp>, other: Map<NodeId, Timestamp>) -> Map<NodeId, Timestamp> {
    Map::new(|id: NodeId| old.contains_key(id), |id: NodeId| if other[id] > old[id] { other[id] } else { old[id] })
}

impl VectorClock {
    /// The underlying vector.
    pub closed spec fn spec_vector(&self) -> Vector<Timestamp> {
        self.vector
    }

    /// The clock holds a timestamp for exactly the nodes it was made for.
    pub open spec fn wf(&self) -> bool {
        self.spec_vector().wf()
    }

    /// A clock over `node_ids`, each at timestamp 0.
    pub fn new(node_ids: &HashSet<NodeId>) -> (clock: VectorClock)
        ensures
            clock.wf(),
            clock@.dom() == node_ids@,
            forall|id: NodeId| #[trigger] clock@.contains_key(id) ==> clock@[id] == 0,
    {
        VectorClock { vector: Vector::new(node_ids) }
    }

    /// The timestamp held for `node_id`.
    pub fn get(&self, node_id: NodeId) -> (timestamp: &Timestamp)
        requires
            self@.contains_key(node_id),
        ensures
            *timestamp == self@[node_id],
    {
        self.vector.get(node_id)
    }

    /// Replaces the timestamp held for `node_id`.
    pub fn set(&mut self, node_id: NodeId, timestamp: Timestamp)
        requires
            old(self)@.contains_key(node_id),
        ensures
            final(self)@ == old(self)@.insert(node_id, timestamp),
            final(self).wf() == old(self).wf(),
    {
        self.vector.set(node_id, timestamp);
    }

    /// Raises each timestamp to `other`'s for the same node where that is larger.
    pub fn merge_to_max_from_vector_clock(&mut self, other: &VectorClock)
        requires
            old(self)@.dom().subset_of(other@.dom()),
        ensures
            final(self)@ == clock_max(old(self)@, other@),
            final(self).wf() == old(self).wf(),
            final(self)@.dom() == old(self)@.dom(),
            forall|node_id: NodeId| #[trigger] old(self)@.contains_key(node_id) ==> {
                &&& final(self)@[node_id] >= old(self)@[node_id]
                &&& final(self)@[node_id] >= other@[node_id]
                &&& final(self)@[node_id] == old(self)@[node_id] || final(self)@[node_id] == other@[node_id]
            },
    {
        self.vector.merge_to_max_from_vector(&other.vector);
        assert(self@ =~= clock_max(old(self)@, other@));
    }
}

impl PartialEq for VectorClock {
    fn eq(&self, other: &Self) -> (equal: bool) {
        self.vector == other.vector
    }
}

impl PartialEqSpecImpl for VectorClock {
    open spec fn obeys_eq_spec() -> bool {
        true
    }

    open spec fn eq_spec(&self, other: &Self) -> bool {
        maps_equal(self@, other@)
    }
}

impl PartialOrd for VectorClock {
    fn partial_cmp(&self, other: &Self) -> (order: Option<Ordering>) {
        self.vector.partial_cmp(&other.vector)
    }
}

impl PartialOrdSpecImpl for VectorClock {
    open spec fn obeys_partial_cmp_spec() -> bool {
        true
    }

    open spec fn partial_cmp_spec(&self, other: &Self) -> Option<Ordering> {
        product_order(self@, other@)
    }
}

/// `lower` is at most `upper` at every node of `lower`.
pub open spec fn clock_le(lower: Map<NodeId, Timestamp>, upper: Map<NodeId, Timestamp>) -> bool {
    &&& lower.dom().subset_of(upper.dom())
    &&& forall|id: NodeId| #[trigger] lower.contains_key(id) ==> lower[id] <= upper[id]
}

/// The product order of clocks compares as `<=` at every node: `lower` is
/// ordered below or equal to `upper` exactly when it is at most `upper` at every
/// node, and two clocks over the same nodes compare `Equal` exactly when they
/// are equal.
pub proof fn lemma_clock_order_is_pointwise(a: Map<NodeId, Timestamp>, b: Map<NodeId, Timestamp>)
    requires
        a.dom() == b.dom(),
    ensures
        (product_order(a, b) matches Some(Ordering::Less | Ordering::Equal)) <==> clock_le(a, b),
        (product_order(a, b) == Some(Ordering::Equal)) <==> a == b,
        product_order(a, b) == Some(Ordering::Less) <==> product_order(b, a) == Some(Ordering::Greater),
{
    if clock_le(a, b) {
        assert(!some_greater(a, b));
    }
    if !clock_le(a, b) {
        let id = choose|id: NodeId| a.contains_key(id) && !(a[id] <= b[id]);
        assert(value_gt(a[id], b[id]));
    }
    if product_order(a, b) == Some(Ordering::Equal) {
        assert forall|id: NodeId| #[trigger] a.contains_key(id) implies a[id] == b[id] by {
            if a[id] < b[id] {
                assert(value_lt(a[id], b[id]));
            }
            if a[id] > b[id] {
                assert(value_gt(a[id], b[id]));
            }
        }
        assert(a =~= b);
    }
    if some_greater(a, b) {
        let id = choose|id: NodeId| #[trigger] a.contains_key(id) && value_gt(a[id], b[id]);
        assert(b.contains_key(id) && value_lt(b[id], a[id]));
    }
    if some_less(a, b) {
        let id = choose|id: NodeId| #[trigger] a.contains_key(id) && value_lt(a[id], b[id]);
        assert(b.contains_key(id) && value_gt(b[id], a[id]));
    }
    if some_greater(b, a) {
        let id = choose|id: NodeId| #[trigger] b.contains_key(id) && value_gt(b[id], a[id]);
        assert(a.contains_key(id) && value_lt(a[id], b[id]));
    }
    if some_less(b, a) {
        let id = choose|id: NodeId| #[trigger] b.contains_key(id) && value_lt(b[id], a[id]);
        assert(a.contains_key(id) && value_gt(a[id], b[id]));
    }
}

/// Merging to the maximum gives the least upper bound of two clocks over the
/// same nodes: it is at least both, and at most every clock that is at least
/// both.
pub proof fn lemma_clock_max_is_least_upper_bound(
    a: Map<NodeId, Timestamp>,
    b: Map<NodeId, Timestamp>,
    c: Map<NodeId, Timestamp>,
)
    requires
        a.dom() == b.dom(),
    ensures
        clock_le(a, clock_max(a, b)),
        clock_le(b, clock_max(a, b)),
        clock_le(a, c) && clock_le(b, c) ==> clock_le(clock_max(a, b), c),
{
}

/// Merging to the maximum is idempotent, and commutative and associative on
/// clocks over the same nodes.
pub proof fn lemma_clock_max_algebra(
    a: Map<NodeId, Timestamp>,
    b: Map<NodeId, Timestamp>,
    c: Map<NodeId, Timestamp>,
)
    requires
        a.dom() == b.dom(),
        b.dom() == c.dom(),
    ensures
        clock_max(a, a) == a,
        clock_max(a, b) == clock_max(b, a),
        clock_max(clock_max(a, b), c) == clock_max(a, clock_max(b, c)),
{
    assert(clock_max(a, a) =~= a);
    assert(clock_max(a, b) =~= clock_max(b, a));
    assert(clock_max(clock_max(a, b), c) =~= clock_max(a, clock_max(b, c)));
}

impl VectorClock {
    /// The text: one line `<id>: <value>` per node in ascending order of ids,
    /// without trailing white space.
    pub fn to_string(&self) -> (text: String)
        ensures
            nodes_text(self@, text@),
    {
        self.vector.to_string()
    }
}

} // verus!
