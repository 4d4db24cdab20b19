use std::collections::HashSet;

use core::cmp::Ordering;

use vstd::prelude::*;
use vstd::std_specs::cmp::{PartialEqSpecImpl, PartialOrdSpec, PartialOrdSpecImpl};

use crate::data_types::order::{maps_equal, product_order, some_greater, some_less, value_gt, value_lt};
use crate::data_types::vector_clock::clock_max;
use crate::data_types::vector::Vector;
use crate::entry::Entry;
use crate::render::{nodes_text, Render};
use crate::types::{NodeId, Timestamp};

verus! {

/// An entry for each node of a fixed set of nodes.
#[derive(Debug)]
pub struct Register<V> {
    map: Vector<Entry<V>>,
}

impl<V> View for Register<V> {
    type V = Map<NodeId, Entry<V>>;

    open spec fn view(&self) -> Map<NodeId, Entry<V>> {
        self.spec_vector()@
    }
}

/// What merging `other` into `old` leaves at `node_id`: `other`'s entry when its
/// timestamp is larger, else `old`'s entry unchanged.
pub open spec fn entry_merged<V: Clone>(old: Map<NodeId, Entry<V>>, other: Map<NodeId, Entry<V>>, merged: Map<NodeId, Entry<V>>, node_id: NodeId) -> bool {
    if other[node_id].ts > old[node_id].ts {
        &&& merged[node_id].ts == other[node_id].ts
        &&& cloned(other[node_id].val, merged[node_id].val)
    } else {
        merged[node_id] == old[node_id]
    }
}

impl<V> Register<V> {
    /// The underlying vector of entries.
    pub closed spec fn spec_vector(&self) -> Vector<Entry<V>> {
        self.map
    }

    /// The register holds an entry for exactly the nodes it was made for.
    pub open spec fn wf(&self) -> bool {
        self.spec_vector().wf()
    }
}

impl<V: Default + Clone> Register<V> {
    /// A register over `node_ids`, each entry never written: timestamp -1 and
    /// `V`'s default value.
    pub fn new(node_ids: &HashSet<NodeId>) -> (register: Register<V>)
        ensures
            register.wf(),
            register@.dom() == node_ids@,
            forall|id: NodeId| #[trigger] register@.contains_key(id) ==> {
                &&& register@[id].ts == -1
                &&& call_ensures(V::default, (), register@[id].val)
            },
    {
        Register { map: Vector::new(node_ids) }
    }

    /// Whether `self` and `other` hold entries for the same nodes.
    pub fn has_same_node_ids(&self, other: &Register<V>) -> (same: bool)
        ensures
            same == (self@.dom() == other@.dom()),
    {
        self.map.has_same_node_ids(&other.map)
    }

    /// Whether an entry is held for `node_id`.
    pub fn contains_node_id(&self, node_id: NodeId) -> (contains: bool)
        ensures
            contains == self@.contains_key(node_id),
    {
        self.map.contains_node_id(node_id)
    }

    /// The nodes held, each once, in no particular order.
    pub fn node_id_list(&self) -> (node_ids: Vec<NodeId>)
        ensures
            node_ids@.to_set() == self@.dom(),
            node_ids@.no_duplicates(),
    {
        self.map.node_id_list()
    }

    /// The entry held for `node_id`.
    pub fn get(&self, node_id: NodeId) -> (entry: &Entry<V>)
        requires
            self@.contains_key(node_id),
        ensures
            *entry == self@[node_id],
    {
        self.map.get(node_id)
    }

    /// Replaces the entry held for `node_id`.
    pub fn set(&mut self, node_id: NodeId, entry: Entry<V>)
        requires
            old(self)@.contains_key(node_id),
        ensures
            final(self)@ == old(self)@.insert(node_id, entry),
            old(self).wf() ==> final(self).wf(),
    {
        self.map.set(node_id, entry);
    }

    /// Takes over `other`'s entry for each node where it has a larger timestamp.
    pub fn merge_to_max_from_register(&mut self, other: &Register<V>)
        requires
            old(self)@.dom().subset_of(other@.dom()),
        ensures
            final(self)@.dom() == old(self)@.dom(),
            old(self).wf() ==> final(self).wf(),
            forall|node_id: NodeId| #[trigger] old(self)@.contains_key(node_id)
                ==> entry_merged(old(self)@, other@, final(self)@, node_id),
            forall|node_id: NodeId| #[trigger] old(self)@.contains_key(node_id) ==> {
                let (mine, theirs, merged) = (old(self)@[node_id], other@[node_id], final(self)@[node_id]);
                &&& merged.ts >= mine.ts
                &&& merged.ts >= theirs.ts
                &&& theirs.ts > mine.ts ==> merged.ts == theirs.ts && cloned(theirs.val, merged.val)
                &&& theirs.ts <= mine.ts ==> merged == mine
            },
    {
        self.map.merge_to_max_from_vector(&other.map);
    }
}

impl<V> PartialEq for Register<V> {
    fn eq(&self, other: &Self) -> (equal: bool) {
        self.map == other.map
    }
}

impl<V> PartialEqSpecImpl for Register<V> {
    open spec fn obeys_eq_spec() -> bool {
        true
    }

    open spec fn eq_spec(&self, other: &Self) -> bool {
        maps_equal(self@, other@)
    }
}

impl<V> PartialOrd for Register<V> {
    fn partial_cmp(&self, other: &Self) -> (order: Option<Ordering>) {
        self.map.partial_cmp(&other.map)
    }
}

impl<V> PartialOrdSpecImpl for Register<V> {
    open spec fn obeys_partial_cmp_spec() -> bool {
        true
    }

    open spec fn partial_cmp_spec(&self, other: &Self) -> Option<Ordering> {
        product_order(self@, other@)
    }
}

/// The timestamp at each node.
pub open spec fn timestamps<V>(m: Map<NodeId, Entry<V>>) -> Map<NodeId, Timestamp> {
    Map::new(|id: NodeId| m.contains_key(id), |id: NodeId| m[id].ts)
}

/// Values play no part in comparisons: two maps compare as their timestamps do,
/// and are equal exactly when their timestamps are.
pub proof fn lemma_order_by_timestamps<V>(a: Map<NodeId, Entry<V>>, b: Map<NodeId, Entry<V>>)
    ensures
        product_order(a, b) == product_order(timestamps(a), timestamps(b)),
        maps_equal(a, b) <==> timestamps(a) == timestamps(b),
{
    let (ta, tb) = (timestamps(a), timestamps(b));
    assert(a.dom() == ta.dom() && b.dom() == tb.dom());
    if a.dom().subset_of(b.dom()) {
        if some_greater(a, b) {
            let id = choose|id: NodeId| #[trigger] a.contains_key(id) && value_gt(a[id], b[id]);
            assert(ta.contains_key(id) && value_gt(ta[id], tb[id]));
        }
        if some_greater(ta, tb) {
            let id = choose|id: NodeId| #[trigger] ta.contains_key(id) && value_gt(ta[id], tb[id]);
            assert(a.contains_key(id) && value_gt(a[id], b[id]));
        }
        if some_less(a, b) {
            let id = choose|id: NodeId| #[trigger] a.contains_key(id) && value_lt(a[id], b[id]);
            assert(ta.contains_key(id) && value_lt(ta[id], tb[id]));
        }
        if some_less(ta, tb) {
            let id = choose|id: NodeId| #[trigger] ta.contains_key(id) && value_lt(ta[id], tb[id]);
            assert(a.contains_key(id) && value_lt(a[id], b[id]));
        }
    }
    if maps_equal(a, b) {
        assert(ta =~= tb);
    }
    if ta == tb {
        assert forall|id: NodeId| #[trigger] a.contains_key(id) implies a[id].ts == b[id].ts by {
            assert(ta[id] == tb[id]);
        }
    }
}

/// The order of maps of entries, node by node over `a`'s nodes and by
/// timestamps alone: equal when every node's timestamps are equal, greater
/// (less) when some node is newer (older) in `a` and none older (newer), and no
/// order when `b` lacks one of `a`'s nodes or each map is newer somewhere.
pub proof fn lemma_entry_maps_order<V>(a: Map<NodeId, Entry<V>>, b: Map<NodeId, Entry<V>>)
    ensures
        product_order(a, b) == Some(Ordering::Equal) <==> a.dom().subset_of(b.dom())
            && forall|id: NodeId| #[trigger] a.contains_key(id) ==> a[id].ts == b[id].ts,
        product_order(a, b) == Some(Ordering::Greater) <==> a.dom().subset_of(b.dom())
            && (exists|id: NodeId| #[trigger] a.contains_key(id) && a[id].ts > b[id].ts)
            && forall|id: NodeId| #[trigger] a.contains_key(id) ==> a[id].ts >= b[id].ts,
        product_order(a, b) == Some(Ordering::Less) <==> a.dom().subset_of(b.dom())
            && (exists|id: NodeId| #[trigger] a.contains_key(id) && a[id].ts < b[id].ts)
            && forall|id: NodeId| #[trigger] a.contains_key(id) ==> a[id].ts <= b[id].ts,
        product_order(a, b) is None <==> !a.dom().subset_of(b.dom())
            || ((exists|id: NodeId| #[trigger] a.contains_key(id) && a[id].ts > b[id].ts)
                && (exists|id: NodeId| #[trigger] a.contains_key(id) && a[id].ts < b[id].ts)),
{
    let greater = exists|id: NodeId| #[trigger] a.contains_key(id) && a[id].ts > b[id].ts;
    let less = exists|id: NodeId| #[trigger] a.contains_key(id) && a[id].ts < b[id].ts;
    assert(some_greater(a, b) <==> greater) by {
        if some_greater(a, b) {
            let id = choose|id: NodeId| #[trigger] a.contains_key(id) && value_gt(a[id], b[id]);
            assert(a[id].ts > b[id].ts);
        }
        if greater {
            let id = choose|id: NodeId| #[trigger] a.contains_key(id) && a[id].ts > b[id].ts;
            assert(value_gt(a[id], b[id]));
        }
    }
    assert(some_less(a, b) <==> less) by {
        if some_less(a, b) {
            let id = choose|id: NodeId| #[trigger] a.contains_key(id) && value_lt(a[id], b[id]);
            assert(a[id].ts < b[id].ts);
        }
        if less {
            let id = choose|id: NodeId| #[trigger] a.contains_key(id) && a[id].ts < b[id].ts;
            assert(value_lt(a[id], b[id]));
        }
    }
}

/// Registers compare node by node over the first one's nodes and by
/// timestamps alone: equal when every node's timestamps are equal, greater
/// (less) when the first is newer (older) somewhere and older (newer) nowhere,
/// and no order when the second lacks one of the first's nodes or each is newer
/// somewhere.
pub proof fn lemma_register_order<V>(a: Register<V>, b: Register<V>)
    ensures
        PartialOrdSpec::partial_cmp_spec(&a, &b) == Some(Ordering::Equal) <==> a@.dom().subset_of(b@.dom())
            && forall|id: NodeId| #[trigger] a@.contains_key(id) ==> a@[id].ts == b@[id].ts,
        PartialOrdSpec::partial_cmp_spec(&a, &b) == Some(Ordering::Greater) <==> a@.dom().subset_of(b@.dom())
            && (exists|id: NodeId| #[trigger] a@.contains_key(id) && a@[id].ts > b@[id].ts)
            && forall|id: NodeId| #[trigger] a@.contains_key(id) ==> a@[id].ts >= b@[id].ts,
        PartialOrdSpec::partial_cmp_spec(&a, &b) == Some(Ordering::Less) <==> a@.dom().subset_of(b@.dom())
            && (exists|id: NodeId| #[trigger] a@.contains_key(id) && a@[id].ts < b@[id].ts)
            && forall|id: NodeId| #[trigger] a@.contains_key(id) ==> a@[id].ts <= b@[id].ts,
        PartialOrdSpec::partial_cmp_spec(&a, &b) is None <==> !a@.dom().subset_of(b@.dom())
            || ((exists|id: NodeId| #[trigger] a@.contains_key(id) && a@[id].ts > b@[id].ts)
                && (exists|id: NodeId| #[trigger] a@.contains_key(id) && a@[id].ts < b@[id].ts)),
{
    lemma_entry_maps_order(a@, b@);
}

/// Merging takes at each node the newer of the two entries, whole: the larger
/// timestamp, and with a newer timestamp of `other` a copy of `other`'s value.
pub proof fn lemma_merge_takes_max_timestamps<V: Clone>(
    old: Map<NodeId, Entry<V>>,
    other: Map<NodeId, Entry<V>>,
    merged: Map<NodeId, Entry<V>>,
)
    requires
        old.dom().subset_of(other.dom()),
        merged.dom() == old.dom(),
        forall|id: NodeId| #[trigger] old.contains_key(id) ==> entry_merged(old, other, merged, id),
    ensures
        timestamps(merged) == clock_max(timestamps(old), timestamps(other)),
        forall|id: NodeId| #[trigger] old.contains_key(id) && other[id].ts > old[id].ts
            ==> merged[id].ts == other[id].ts && cloned(other[id].val, merged[id].val),
        forall|id: NodeId| #[trigger] old.contains_key(id) && other[id].ts <= old[id].ts ==> merged[id] == old[id],
{
    assert(timestamps(merged) =~= clock_max(timestamps(old), timestamps(other)));
}

impl<V: Render> Register<V> {
    /// The text: one line `<id>: <value>` per node in ascending order of ids,
    /// without trailing white space.
    pub fn to_string(&self) -> (text: String)
        ensures
            nodes_text(self@, text@),
    {
        self.map.to_string()
    }
}

} // verus!
