use std::collections::HashSet;

use core::cmp::Ordering;

use vstd::prelude::*;
use vstd::std_specs::cmp::{PartialEqSpecImpl, PartialOrdSpecImpl};

use crate::data_types::register::Register;
use crate::data_types::order::{maps_equal, product_order, some_greater, some_less, value_gt, value_lt};
use crate::data_types::vector_clock::clock_max;
use crate::data_types::vector::Vector;
use crate::render::{nodes_text, Render};
use crate::types::{NodeId, Timestamp};

verus! {

/// A register for each node of a fixed set of nodes.
#[derive(Debug)]
pub struct RegisterArray<V> {
    vector: Vector<Register<V>>,
}

impl<V> View for RegisterArray<V> {
    type V = Map<NodeId, Register<V>>;

    open spec fn view(&self) -> Map<NodeId, Register<V>> {
        self.spec_vector()@
    }
}

/// What merging `other` into `old` leaves at `node_id`: `other`'s register when
/// its timestamp is larger, else `old`'s register unchanged.
pub open spec fn register_merged<V: Clone>(old: Map<NodeId, Register<V>>, other: Map<NodeId, Register<V>>, merged: Map<NodeId, Register<V>>, node_id: NodeId) -> bool {
    if other[node_id].ts > old[node_id].ts {
        &&& merged[node_id].ts == other[node_id].ts
        &&& cloned(other[node_id].val, merged[node_id].val)
    } else {
        merged[node_id] == old[node_id]
    }
}

impl<V> RegisterArray<V> {
    /// The underlying vector of registers.
    pub closed spec fn spec_vector(&self) -> Vector<Register<V>> {
        self.vector
    }

    /// The array holds a register for exactly the nodes it was made for.
    pub open spec fn wf(&self) -> bool {
        self.spec_vector().wf()
    }
}

impl<V: Default + Clone> RegisterArray<V> {
    /// An array over `node_ids`, each register never written: timestamp -1 and
    /// `V`'s default value.
    pub fn new(node_ids: &HashSet<NodeId>) -> (array: RegisterArray<V>)
        ensures
            array.wf(),
            array@.dom() == node_ids@,
            forall|id: NodeId| #[trigger] array@.contains_key(id) ==> {
                &&& array@[id].ts == -1
                &&& call_ensures(V::default, (), array@[id].val)
            },
    {
        RegisterArray { vector: Vector::new(node_ids) }
    }

    /// Whether an entry is held for `node_id`.
    pub fn contains_node_id(&self, node_id: NodeId) -> (contains: bool)
        ensures
            contains == self@.contains_key(node_id),
    {
        self.vector.contains_node_id(node_id)
    }

    /// The nodes held, each once, in no particular order.
    pub fn node_id_list(&self) -> (node_ids: Vec<NodeId>)
        ensures
            node_ids@.to_set() == self@.dom(),
            node_ids@.no_duplicates(),
    {
        self.vector.node_id_list()
    }

    /// The register held for `node_id`.
    pub fn get(&self, node_id: NodeId) -> (register: &Register<V>)
        requires
            self@.contains_key(node_id),
        ensures
            *register == self@[node_id],
    {
        self.vector.get(node_id)
    }

    /// Replaces the register held for `node_id`.
    pub fn set(&mut self, node_id: NodeId, register: Register<V>)
        requires
            old(self)@.contains_key(node_id),
        ensures
            final(self)@ == old(self)@.insert(node_id, register),
            old(self).wf() ==> final(self).wf(),
    {
        self.vector.set(node_id, register);
    }

    /// Takes over `other`'s register for each node where it has a larger timestamp.
    pub fn merge_to_max_from_register_array(&mut self, other: &RegisterArray<V>)
        requires
            old(self)@.dom().subset_of(other@.dom()),
        ensures
            final(self)@.dom() == old(self)@.dom(),
            old(self).wf() ==> final(self).wf(),
            forall|node_id: NodeId| #[trigger] old(self)@.contains_key(node_id)
                ==> register_merged(old(self)@, other@, final(self)@, node_id),
            forall|node_id: NodeId| #[trigger] old(self)@.contains_key(node_id) ==> {
                let (mine, theirs, merged) = (old(self)@[node_id], other@[node_id], final(self)@[node_id]);
                &&& merged.ts >= mine.ts
                &&& merged.ts >= theirs.ts
                &&& theirs.ts > mine.ts ==> merged.ts == theirs.ts && cloned(theirs.val, merged.val)
                &&& theirs.ts <= mine.ts ==> merged == mine
            },
    {
        self.vector.merge_to_max_from_vector(&other.vector);
    }
}

impl<V> PartialEq for RegisterArray<V> {
    fn eq(&self, other: &Self) -> (equal: bool) {
        self.vector == other.vector
    }
}

impl<V> PartialEqSpecImpl for RegisterArray<V> {
    open spec fn obeys_eq_spec() -> bool {
        true
    }

    open spec fn eq_spec(&self, other: &Self) -> bool {
        maps_equal(self@, other@)
    }
}

impl<V> PartialOrd for RegisterArray<V> {
    fn partial_cmp(&self, other: &Self) -> (order: Option<Ordering>) {
        self.vector.partial_cmp(&other.vector)
    }
}

impl<V> PartialOrdSpecImpl for RegisterArray<V> {
    open spec fn obeys_partial_cmp_spec() -> bool {
        true
    }

    open spec fn partial_cmp_spec(&self, other: &Self) -> Option<Ordering> {
        product_order(self@, other@)
    }
}

/// The timestamp at each node.
pub open spec fn timestamps<V>(m: Map<NodeId, Register<V>>) -> Map<NodeId, Timestamp> {
    Map::new(|id: NodeId| m.contains_key(id), |id: NodeId| m[id].ts)
}

/// Values play no part in comparisons: two maps compare as their timestamps do,
/// and are equal exactly when their timestamps are.
pub proof fn lemma_order_by_timestamps<V>(a: Map<NodeId, Register<V>>, b: Map<NodeId, Register<V>>)
    ensures
        product_order(a, b) == product_order(timestamps(a), timestamps(b)),
        maps_equal(a, b) <==> timestamps(a) == timestamps(b),
{
    let (ta, tb) = (timestamps(a), timestamps(b));
    assert(a.dom() == ta.dom() && b.dom() == tb.dom());
    if a.dom().subset_of(b.dom()) {
        if some_greater(a, b) {
            let id = choose|id: NodeId| #[trigger] a.contains_key(id) && value_gt(a[id], b[id]);
            assert(ta.contains_key(id) && value_gt(ta[id], tb[id]));
        }
        if some_greater(ta, tb) {
            let id = choose|id: NodeId| #[trigger] ta.contains_key(id) && value_gt(ta[id], tb[id]);
            assert(a.contains_key(id) && value_gt(a[id], b[id]));
        }
        if some_less(a, b) {
            let id = choose|id: NodeId| #[trigger] a.contains_key(id) && value_lt(a[id], b[id]);
            assert(ta.contains_key(id) && value_lt(ta[id], tb[id]));
        }
        if some_less(ta, tb) {
            let id = choose|id: NodeId| #[trigger] ta.contains_key(id) && value_lt(ta[id], tb[id]);
            assert(a.contains_key(id) && value_lt(a[id], b[id]));
        }
    }
    if maps_equal(a, b) {
        assert(ta =~= tb);
    }
    if ta == tb {
        assert forall|id: NodeId| #[trigger] a.contains_key(id) implies a[id].ts == b[id].ts by {
            assert(ta[id] == tb[id]);
        }
    }
}

/// Merging takes at each node the newer of the two entries, whole: the larger
/// timestamp, and with a newer timestamp of `other` a copy of `other`'s value.
pub proof fn lemma_merge_takes_max_timestamps<V: Clone>(
    old: Map<NodeId, Register<V>>,
    other: Map<NodeId, Register<V>>,
    merged: Map<NodeId, Register<V>>,
)
    requires
        old.dom().subset_of(other.dom()),
        merged.dom() == old.dom(),
        forall|id: NodeId| #[trigger] old.contains_key(id) ==> register_merged(old, other, merged, id),
    ensures
        timestamps(merged) == clock_max(timestamps(old), timestamps(other)),
        forall|id: NodeId| #[trigger] old.contains_key(id) && other[id].ts > old[id].ts
            ==> merged[id].ts == other[id].ts && cloned(other[id].val, merged[id].val),
        forall|id: NodeId| #[trigger] old.contains_key(id) && other[id].ts <= old[id].ts ==> merged[id] == old[id],
{
    assert(timestamps(merged) =~= clock_max(timestamps(old), timestamps(other)));
}

impl<V: Render> RegisterArray<V> {
    /// The text: one line `<id>: <value>` per node in ascending order of ids,
    /// without trailing white space.
    pub fn to_string(&self) -> (text: String)
        ensures
            nodes_text(self@, text@),
    {
        self.vector.to_string()
    }
}

} // verus!
