use std::collections::{HashMap, HashSet};

use vstd::prelude::*;
use vstd::std_specs::iter::IteratorSpec;
use vstd::std_specs::cmp::{PartialEqSpec, PartialEqSpecImpl, PartialOrdSpec, PartialOrdSpecImpl};
use core::cmp::Ordering;

use crate::types::NodeId;
use crate::data_types::order::{orders_by_spec, value_gt, value_lt, some_greater, some_less, product_order, maps_equal};

verus! {

broadcast use vstd::std_specs::hash::group_hash_axioms;

/// A value for each node of a fixed set of nodes.
#[derive(Debug)]
pub struct Vector<V> {
    map: HashMap<NodeId, V>,
    node_ids: HashSet<NodeId>,
}

impl<V> View for Vector<V> {
    type V = Map<NodeId, V>;

    open spec fn view(&self) -> Map<NodeId, V> {
        self.spec_map()
    }
}

impl<V> Vector<V> {
    /// The value held for each node.
    pub closed spec fn spec_map(&self) -> Map<NodeId, V> {
        self.map@
    }

    /// The set of nodes the vector was made for.
    pub closed spec fn spec_node_ids(&self) -> Set<NodeId> {
        self.node_ids@
    }

    /// The vector holds a value for exactly the nodes it was made for.
    pub open spec fn wf(&self) -> bool {
        self@.dom() == self.spec_node_ids()
    }

    /// `post` is `pre` with the value held for `node_id` replaced by `value`.
    pub open spec fn set_to(pre: Self, post: Self, node_id: NodeId, value: V) -> bool {
        &&& post@ == pre@.insert(node_id, value)
        &&& post@.dom() == pre@.dom()
        &&& post.spec_node_ids() == pre.spec_node_ids()
    }
}

impl<V: Default + Clone> Vector<V> {
    /// `vector` is a new vector over `node_ids`, each entry `V::default()`.
    pub open spec fn initial(vector: Self, node_ids: Set<NodeId>) -> bool {
        &&& vector.wf()
        &&& vector@.dom() == node_ids
        &&& vector.spec_node_ids() == node_ids
        &&& forall|id: NodeId| #[trigger] vector@.contains_key(id) ==> call_ensures(V::default, (), vector@[id])
    }

    /// A vector over `node_ids`, each entry set to `V::default()`.
    pub fn new(node_ids: &HashSet<NodeId>) -> (vector: Vector<V>)
        ensures
            Self::initial(vector, node_ids@),
    {
        let mut map: HashMap<NodeId, V> = HashMap::new();
        let mut ids: HashSet<NodeId> = HashSet::new();
        let ghost keys = node_ids.iter().remaining().unref();
        let ghost mut visited: int = 0;
        for node_id in it: node_ids.iter()
            invariant
                keys == it.seq().unref(),
                visited == it.index(),
                map@.dom() == keys.take(visited).to_set(),
                ids@ == keys.take(visited).to_set(),
                forall|id: NodeId| #[trigger] map@.contains_key(id) ==> call_ensures(V::default, (), map@[id]),
        {
            proof {
                assert(keys.take(visited + 1) =~= keys.take(visited).push(*node_id));
                keys.take(visited).lemma_push_to_set_commute(*node_id);
            }
            let value = V::default();
            map.insert(*node_id, value);
            ids.insert(*node_id);
            proof {
                visited = visited + 1;
            }
        }
        assert(keys.take(visited) =~= keys);
        Vector { map, node_ids: ids }
    }
}


impl<V> Vector<V> {
    /// The nodes the vector holds values for, each once, in no particular order.
    pub fn node_id_list(&self) -> (keys: Vec<NodeId>)
        ensures
            keys@.to_set() == self@.dom(),
            keys@.no_duplicates(),
            keys@.len() == self@.dom().len(),
    {
        let mut keys: Vec<NodeId> = Vec::new();
        let ghost all = self.map.keys().remaining().unref();
        let ghost mut visited: int = 0;
        for node_id in it: self.map.keys()
            invariant
                all == it.seq().unref(),
                visited == it.index(),
                keys@ == all.take(visited),
        {
            keys.push(*node_id);
            proof {
                assert(all.take(visited + 1) =~= all.take(visited).push(*node_id));
                visited = visited + 1;
            }
        }
        proof {
            assert(all.take(visited) =~= all);
        }
        keys
    }

    /// Whether `self` and `other` hold values for the same nodes.
    pub fn has_same_node_ids(&self, other: &Vector<V>) -> (same: bool)
        ensures
            same == (self@.dom() == other@.dom()),
    {
        let keys = self.node_id_list();
        let other_keys = other.node_id_list();
        let mut i: usize = 0;
        while i < keys.len()
            invariant
                keys@.to_set() == self@.dom(),
                i <= keys@.len(),
                forall|j: int| 0 <= j < i ==> other@.contains_key(#[trigger] keys@[j]),
            decreases keys@.len() - i,
        {
            let ghost j = i as int;
            assert(keys@.to_set().contains(keys@[j]));
            if !other.contains_node_id(keys[i]) {
                return false;
            }
            i = i + 1;
        }
        let mut k: usize = 0;
        while k < other_keys.len()
            invariant
                other_keys@.to_set() == other@.dom(),
                k <= other_keys@.len(),
                forall|j: int| 0 <= j < k ==> self@.contains_key(#[trigger] other_keys@[j]),
            decreases other_keys@.len() - k,
        {
            let ghost j = k as int;
            assert(other_keys@.to_set().contains(other_keys@[j]));
            if !self.contains_node_id(other_keys[k]) {
                return false;
            }
            k = k + 1;
        }
        proof {
            assert forall|id: NodeId| self@.contains_key(id) <==> other@.contains_key(id) by {
                if self@.contains_key(id) {
                    assert(keys@.to_set().contains(id));
                    let j = keys@.index_of(id);
                }
                if other@.contains_key(id) {
                    assert(other_keys@.to_set().contains(id));
                    let j = other_keys@.index_of(id);
                }
            }
            assert(self@.dom() =~= other@.dom());
        }
        true
    }

    /// Whether the vector holds a value for `node_id`.
    pub fn contains_node_id(&self, node_id: NodeId) -> (contains: bool)
        ensures
            contains == self@.contains_key(node_id),
    {
        self.map.contains_key(&node_id)
    }

    /// The value held for `node_id`.
    pub fn get(&self, node_id: NodeId) -> (value: &V)
        requires
            self@.contains_key(node_id),
        ensures
            *value == self@[node_id],
    {
        self.map.get(&node_id).unwrap()
    }

    /// Replaces the value held for `node_id`.
    pub fn set(&mut self, node_id: NodeId, value: V)
        requires
            old(self)@.contains_key(node_id),
        ensures
            Self::set_to(*old(self), *final(self), node_id, value),
    {
        self.map.insert(node_id, value);
        assert(self@.dom() =~= old(self)@.dom());
    }

    /// The nodes the vector was made for.
    pub fn node_ids(&self) -> (node_ids: &HashSet<NodeId>)
        ensures
            node_ids@ == self.spec_node_ids(),
    {
        &self.node_ids
    }
}

/// What `merge_to_max_from_vector` leaves for `node_id`: `other`'s value where it
/// is greater than the old one, else the old one.
pub open spec fn merged_entry<V: PartialOrd + Clone>(old: Map<NodeId, V>, other: Map<NodeId, V>, merged: Map<NodeId, V>, node_id: NodeId) -> bool {
    if value_gt(other[node_id], old[node_id]) {
        cloned(other[node_id], merged[node_id])
    } else {
        merged[node_id] == old[node_id]
    }
}

impl<V: PartialOrd + Clone> Vector<V> {
    /// `post` is `pre` with each value raised to `other`'s for the same node
    /// where that is greater.
    pub open spec fn merged_from(pre: Self, post: Self, other: Self) -> bool {
        &&& post@.dom() == pre@.dom()
        &&& post.spec_node_ids() == pre.spec_node_ids()
        &&& orders_by_spec::<V>() ==> forall|node_id: NodeId| #[trigger] pre@.contains_key(node_id)
            ==> merged_entry(pre@, other@, post@, node_id)
    }
    /// Raises each entry to `other`'s entry for the same node where that is greater.
    pub fn merge_to_max_from_vector(&mut self, other: &Vector<V>)
        requires
            old(self)@.dom().subset_of(other@.dom()),
        ensures
            Self::merged_from(*old(self), *final(self), *other),
    {
        let keys = self.node_id_list();
        let ghost start = self@;
        let mut i: usize = 0;
        while i < keys.len()
            invariant
                start == old(self)@,
                keys@.to_set() == start.dom(),
                keys@.no_duplicates(),
                i <= keys@.len(),
                start.dom().subset_of(other@.dom()),
                self@.dom() == start.dom(),
                self.spec_node_ids() == old(self).spec_node_ids(),
                forall|j: int| 0 <= j < i ==> orders_by_spec::<V>() ==> merged_entry(start, other@, self@, #[trigger] keys@[j]),
                forall|j: int| i <= j < keys@.len() ==> self@[#[trigger] keys@[j]] == start[keys@[j]],
            decreases keys@.len() - i,
        {
            let node_id = keys[i];
            assert(keys@.to_set().contains(keys@[i as int]));
            let other_value = other.map.get(&node_id).unwrap();
            let value = self.map.get(&node_id).unwrap();
            if other_value > value {
                let new_value = other_value.clone();
                self.map.insert(node_id, new_value);
            }
            proof {
                assert forall|j: int| i < j < keys@.len() implies self@[#[trigger] keys@[j]] == start[keys@[j]] by {
                    assert(keys@[j] != keys@[i as int]);
                }
                assert forall|j: int| 0 <= j < i && orders_by_spec::<V>() implies merged_entry(start, other@, self@, #[trigger] keys@[j]) by {
                    assert(keys@[j] != keys@[i as int]);
                }
            }
            i = i + 1;
        }
        proof {
            assert forall|node_id: NodeId| #[trigger] old(self)@.contains_key(node_id) && orders_by_spec::<V>() implies merged_entry(old(self)@, other@, self@, node_id) by {
                assert(keys@.to_set().contains(node_id));
                let j = keys@.index_of(node_id);
                assert(keys@[j] == node_id);
            }
        }
    }
}

impl<V: PartialOrd> Vector<V> {
    /// Whether some node of `self` holds a greater (first) or a smaller (second)
    /// value than in `other`; `None` when `other` lacks one of `self`'s nodes.
    fn order_flags(&self, other: &Vector<V>) -> (flags: Option<(bool, bool)>)
        ensures
            flags is None <==> !self@.dom().subset_of(other@.dom()),
            orders_by_spec::<V>() ==> (flags matches Some((greater, less)) ==> {
                &&& greater == some_greater(self@, other@)
                &&& less == some_less(self@, other@)
            }),
    {
        let keys = self.node_id_list();
        let mut lhs_has_one_greater = false;
        let mut rhs_has_one_greater = false;
        let mut i: usize = 0;
        while i < keys.len()
            invariant
                keys@.to_set() == self@.dom(),
                i <= keys@.len(),
                forall|j: int| 0 <= j < i ==> other@.contains_key(#[trigger] keys@[j]),
                orders_by_spec::<V>() ==> (lhs_has_one_greater <==> exists|j: int| 0 <= j < i && value_gt(self@[#[trigger] keys@[j]], other@[keys@[j]])),
                orders_by_spec::<V>() ==> (rhs_has_one_greater <==> exists|j: int| 0 <= j < i && value_lt(self@[#[trigger] keys@[j]], other@[keys@[j]])),
            decreases keys@.len() - i,
        {
            let node_id = keys[i];
            let ghost j = i as int;
            assert(keys@.to_set().contains(keys@[j]));
            let lhs_val = self.map.get(&node_id).unwrap();
            match other.map.get(&node_id) {
                None => {
                    return None;
                },
                Some(rhs_val) => {
                    if lhs_val > rhs_val {
                        lhs_has_one_greater = true;
                    } else if lhs_val < rhs_val {
                        rhs_has_one_greater = true;
                    }
                },
            }
            i = i + 1;
        }
        proof {
            assert forall|k: NodeId| self@.contains_key(k) implies other@.contains_key(k) by {
                assert(keys@.to_set().contains(k));
                let j = keys@.index_of(k);
            }
            if orders_by_spec::<V>() {
                if some_greater(self@, other@) {
                    let k = choose|k: NodeId| #[trigger] self@.contains_key(k) && value_gt(self@[k], other@[k]);
                    assert(keys@.to_set().contains(k));
                    let j = keys@.index_of(k);
                    assert(keys@[j] == k);
                }
                if some_less(self@, other@) {
                    let k = choose|k: NodeId| #[trigger] self@.contains_key(k) && value_lt(self@[k], other@[k]);
                    assert(keys@.to_set().contains(k));
                    let j = keys@.index_of(k);
                    assert(keys@[j] == k);
                }
                if lhs_has_one_greater {
                    let j = choose|j: int| 0 <= j < keys@.len() && value_gt(self@[#[trigger] keys@[j]], other@[keys@[j]]);
                    assert(self@.contains_key(keys@[j]));
                }
                if rhs_has_one_greater {
                    let j = choose|j: int| 0 <= j < keys@.len() && value_lt(self@[#[trigger] keys@[j]], other@[keys@[j]]);
                    assert(self@.contains_key(keys@[j]));
                }
            }
        }
        Some((lhs_has_one_greater, rhs_has_one_greater))
    }
}

impl<V: PartialEq> PartialEq for Vector<V> {
    fn eq(&self, other: &Self) -> (equal: bool) {
        if self.map.len() != other.map.len() {
            return false;
        }
        let keys = self.node_id_list();
        let mut i: usize = 0;
        while i < keys.len()
            invariant
                keys@.to_set() == self@.dom(),
                self@.len() == other@.len(),
                i <= keys@.len(),
                forall|j: int| 0 <= j < i ==> other@.contains_key(#[trigger] keys@[j]),
                V::obeys_eq_spec() ==> forall|j: int| 0 <= j < i ==> self@[#[trigger] keys@[j]].eq_spec(&other@[keys@[j]]),
            decreases keys@.len() - i,
        {
            let node_id = keys[i];
            let ghost j = i as int;
            assert(keys@.to_set().contains(keys@[j]));
            let lhs_val = self.map.get(&node_id).unwrap();
            match other.map.get(&node_id) {
                None => {
                    return false;
                },
                Some(rhs_val) => {
                    if !(lhs_val == rhs_val) {
                        return false;
                    }
                },
            }
            i = i + 1;
        }
        proof {
            assert forall|k: NodeId| self@.contains_key(k) implies other@.contains_key(k) && (V::obeys_eq_spec() ==> self@[k].eq_spec(&other@[k])) by {
                assert(keys@.to_set().contains(k));
                let j = keys@.index_of(k);
            }
            vstd::set_lib::lemma_subset_equality(self@.dom(), other@.dom());
        }
        true
    }
}

impl<V: PartialEq> PartialEqSpecImpl for Vector<V> {
    open spec fn obeys_eq_spec() -> bool {
        V::obeys_eq_spec()
    }

    open spec fn eq_spec(&self, other: &Self) -> bool {
        maps_equal(self@, other@)
    }
}

impl<V: PartialOrd> PartialOrd for Vector<V> {
    fn partial_cmp(&self, other: &Self) -> (order: Option<Ordering>) {
        match self.order_flags(other) {
            None => None,
            Some((greater, less)) => {
                if !greater && !less {
                    Some(Ordering::Equal)
                } else if greater && !less {
                    Some(Ordering::Greater)
                } else if !greater && less {
                    Some(Ordering::Less)
                } else {
                    None
                }
            },
        }
    }
}

impl<V: PartialOrd> PartialOrdSpecImpl for Vector<V> {
    open spec fn obeys_partial_cmp_spec() -> bool {
        V::obeys_partial_cmp_spec()
    }

    open spec fn partial_cmp_spec(&self, other: &Self) -> Option<Ordering> {
        product_order(self@, other@)
    }
}

/// A call on a vector that changes it.
#[verifier::reject_recursive_types(V)]
pub enum VectorStep<V> {
    /// `set(node_id, value)`.
    SetValue { node_id: NodeId, value: V },
    /// `merge_to_max_from_vector(&other)`.
    MergeMax { other: Vector<V> },
}

/// `step`, called on `pre` where its precondition holds, can leave `post`.
pub open spec fn vector_step<V: PartialOrd + Clone>(pre: Vector<V>, post: Vector<V>, step: VectorStep<V>) -> bool {
    match step {
        VectorStep::SetValue { node_id, value } => pre@.contains_key(node_id) && Vector::set_to(pre, post, node_id, value),
        VectorStep::MergeMax { other } => pre@.dom().subset_of(other@.dom()) && Vector::merged_from(pre, post, other),
    }
}

/// No call adds or drops a node: a vector made by `new` over `node_ids` and
/// then changed by any sequence of `set` and `merge_to_max_from_vector` calls
/// still has `node_ids` as its node set (what `node_ids` returns) and holds a
/// value for exactly those nodes.
pub proof fn lemma_node_ids_never_change<V: Default + PartialOrd + Clone>(
    run: Seq<Vector<V>>,
    steps: Seq<VectorStep<V>>,
    node_ids: Set<NodeId>,
    i: int,
)
    requires
        run.len() == steps.len() + 1,
        Vector::initial(run[0], node_ids),
        forall|k: int| 0 <= k < steps.len() ==> vector_step(run[k], run[k + 1], #[trigger] steps[k]),
        0 <= i < run.len(),
    ensures
        run[i].spec_node_ids() == node_ids,
        run[i]@.dom() == node_ids,
    decreases i,
{
    if i > 0 {
        lemma_node_ids_never_change(run, steps, node_ids, i - 1);
        let k = i - 1;
        assert(vector_step(run[k], run[k + 1], steps[k]));
        assert(k + 1 == i);
    }
}

} // verus!
