use std::collections::HashSet;

use core::cmp::Ordering;

use vstd::prelude::*;
use vstd::std_specs::cmp::{PartialEqSpecImpl, PartialOrdSpec, PartialOrdSpecImpl};

use crate::data_types::order::{maps_equal, product_order};
use crate::data_types::vector::Vector;
use crate::entry::Entry;
use crate::register::lemma_entry_maps_order;
use crate::types::NodeId;

verus! {

/// A register that nodes send each other whole: an entry for each node of a
/// fixed set of nodes.
#[derive(Debug)]
pub struct Register<V> {
    map: Vector<Entry<V>>,
}

impl<V> View for Register<V> {
    type V = Map<NodeId, Entry<V>>;

    open spec fn view(&self) -> Map<NodeId, Entry<V>> {
        self.spec_vector()@
    }
}

/// What merging `other` into `old` leaves at `node_id`: a copy of the entry
/// with the larger timestamp, `other`'s when the two are equal.
pub open spec fn entry_maximum<V: Clone>(
    old: Map<NodeId, Entry<V>>,
    other: Map<NodeId, Entry<V>>,
    merged: Map<NodeId, Entry<V>>,
    node_id: NodeId,
) -> bool {
    if other[node_id].ts >= old[node_id].ts {
        &&& merged[node_id].ts == other[node_id].ts
        &&& cloned(other[node_id].val, merged[node_id].val)
    } else {
        &&& merged[node_id].ts == old[node_id].ts
        &&& cloned(old[node_id].val, merged[node_id].val)
    }
}

/// An order read the other way round: `Less` for `Greater` and back.
pub open spec fn reversed(order: Option<Ordering>) -> Option<Ordering> {
    match order {
        Some(Ordering::Less) => Some(Ordering::Greater),
        Some(Ordering::Greater) => Some(Ordering::Less),
        _ => order,
    }
}

impl<V> Register<V> {
    /// The underlying vector of entries.
    pub closed spec fn spec_vector(&self) -> Vector<Entry<V>> {
        self.map
    }

    /// The register holds an entry for exactly the nodes it was made for.
    pub open spec fn wf(&self) -> bool {
        self.spec_vector().wf()
    }
}

impl<V: Default + Clone> Register<V> {
    /// A register over `node_ids`, each entry never written: timestamp -1 and
    /// `V`'s default value.
    pub fn new(node_ids: HashSet<NodeId>) -> (register: Register<V>)
        ensures
            register.wf(),
            register@.dom() == node_ids@,
            forall|id: NodeId| #[trigger] register@.contains_key(id) ==> {
                &&& register@[id].ts == -1
                &&& call_ensures(V::default, (), register@[id].val)
            },
    {
        Register { map: Vector::new(&node_ids) }
    }

    /// The entry held for `node_id`, if any.
    pub fn get(&self, node_id: NodeId) -> (entry: Option<&Entry<V>>)
        ensures
            entry == if self@.contains_key(node_id) {
                Some(&self@[node_id])
            } else {
                None
            },
    {
        if self.map.contains_node_id(node_id) {
            Some(self.map.get(node_id))
        } else {
            None
        }
    }

    /// The nodes held, each once, in no particular order.
    pub fn node_id_list(&self) -> (node_ids: Vec<NodeId>)
        ensures
            node_ids@.to_set() == self@.dom(),
            node_ids@.no_duplicates(),
    {
        self.map.node_id_list()
    }

    /// Replaces the entry held for `node_id`.
    pub fn set(&mut self, node_id: NodeId, entry: Entry<V>)
        requires
            old(self)@.contains_key(node_id),
        ensures
            final(self)@ == old(self)@.insert(node_id, entry),
            old(self).wf() ==> final(self).wf(),
    {
        self.map.set(node_id, entry);
    }

    /// Replaces each entry by a copy of the larger of it and `other`'s entry
    /// for the same node, by timestamp; `other`'s when the two are equal.
    pub fn merge_to_max_from_register(&mut self, other: &Register<V>)
        requires
            old(self)@.dom().subset_of(other@.dom()),
        ensures
            final(self)@.dom() == old(self)@.dom(),
            old(self).wf() ==> final(self).wf(),
            forall|node_id: NodeId| #[trigger] old(self)@.contains_key(node_id)
                ==> entry_maximum(old(self)@, other@, final(self)@, node_id),
            forall|node_id: NodeId| #[trigger] old(self)@.contains_key(node_id) ==> {
                let (mine, theirs, merged) = (old(self)@[node_id], other@[node_id], final(self)@[node_id]);
                &&& merged.ts >= mine.ts
                &&& merged.ts >= theirs.ts
                &&& theirs.ts >= mine.ts ==> merged.ts == theirs.ts && cloned(theirs.val, merged.val)
                &&& theirs.ts < mine.ts ==> merged.ts == mine.ts && cloned(mine.val, merged.val)
            },
    {
        let keys = self.map.node_id_list();
        let ghost start = self@;
        let mut i: usize = 0;
        while i < keys.len()
            invariant
                start == old(self)@,
                keys@.to_set() == start.dom(),
                keys@.no_duplicates(),
                i <= keys@.len(),
                start.dom().subset_of(other@.dom()),
                self@.dom() == start.dom(),
                self.spec_vector().spec_node_ids() == old(self).spec_vector().spec_node_ids(),
                forall|j: int| 0 <= j < i ==> entry_maximum(start, other@, self@, #[trigger] keys@[j]),
                forall|j: int| i <= j < keys@.len() ==> self@[#[trigger] keys@[j]] == start[keys@[j]],
            decreases keys@.len() - i,
        {
            let node_id = keys[i];
            assert(keys@.to_set().contains(keys@[i as int]));
            let mine = self.map.get(node_id);
            let theirs = other.map.get(node_id);
            let larger = if theirs.ts >= mine.ts {
                theirs.clone()
            } else {
                mine.clone()
            };
            self.map.set(node_id, larger);
            proof {
                assert forall|j: int| i < j < keys@.len() implies self@[#[trigger] keys@[j]] == start[keys@[j]] by {
                    assert(keys@[j] != keys@[i as int]);
                }
                assert forall|j: int| 0 <= j < i implies entry_maximum(start, other@, self@, #[trigger] keys@[j]) by {
                    assert(keys@[j] != keys@[i as int]);
                }
            }
            i = i + 1;
        }
        proof {
            assert forall|node_id: NodeId| #[trigger] old(self)@.contains_key(node_id)
                implies entry_maximum(old(self)@, other@, self@, node_id) by {
                assert(keys@.to_set().contains(node_id));
                let j = keys@.index_of(node_id);
                assert(keys@[j] == node_id);
            }
        }
    }
}

impl<V> PartialEq for Register<V> {
    fn eq(&self, other: &Self) -> (equal: bool) {
        self.map == other.map
    }
}

impl<V> PartialEqSpecImpl for Register<V> {
    open spec fn obeys_eq_spec() -> bool {
        true
    }

    open spec fn eq_spec(&self, other: &Self) -> bool {
        maps_equal(self@, other@)
    }
}

/// Registers compare node by node over the first register's nodes, the other
/// way round from the product order: a register with some newer entry and no
/// older one is `Less`, one with some older entry and no newer one `Greater`.
impl<V> PartialOrd for Register<V> {
    fn partial_cmp(&self, other: &Self) -> (order: Option<Ordering>) {
        match self.map.partial_cmp(&other.map) {
            Some(Ordering::Less) => Some(Ordering::Greater),
            Some(Ordering::Greater) => Some(Ordering::Less),
            order => order,
        }
    }
}

impl<V> PartialOrdSpecImpl for Register<V> {
    open spec fn obeys_partial_cmp_spec() -> bool {
        true
    }

    open spec fn partial_cmp_spec(&self, other: &Self) -> Option<Ordering> {
        reversed(product_order(self@, other@))
    }
}

/// Exchanged registers compare node by node over the first one's nodes and by
/// timestamps alone, the other way round from the product order: equal when
/// every node's timestamps are equal, `Less` when the first is newer somewhere
/// and older nowhere, `Greater` when older somewhere and newer nowhere, and no
/// order when the second lacks one of the first's nodes or each is newer
/// somewhere.
pub proof fn lemma_exchanged_order<V>(a: Register<V>, b: Register<V>)
    ensures
        PartialOrdSpec::partial_cmp_spec(&a, &b) == Some(Ordering::Equal) <==> a@.dom().subset_of(b@.dom())
            && forall|id: NodeId| #[trigger] a@.contains_key(id) ==> a@[id].ts == b@[id].ts,
        PartialOrdSpec::partial_cmp_spec(&a, &b) == Some(Ordering::Less) <==> a@.dom().subset_of(b@.dom())
            && (exists|id: NodeId| #[trigger] a@.contains_key(id) && a@[id].ts > b@[id].ts)
            && forall|id: NodeId| #[trigger] a@.contains_key(id) ==> a@[id].ts >= b@[id].ts,
        PartialOrdSpec::partial_cmp_spec(&a, &b) == Some(Ordering::Greater) <==> a@.dom().subset_of(b@.dom())
            && (exists|id: NodeId| #[trigger] a@.contains_key(id) && a@[id].ts < b@[id].ts)
            && forall|id: NodeId| #[trigger] a@.contains_key(id) ==> a@[id].ts <= b@[id].ts,
        PartialOrdSpec::partial_cmp_spec(&a, &b) is None <==> !a@.dom().subset_of(b@.dom())
            || ((exists|id: NodeId| #[trigger] a@.contains_key(id) && a@[id].ts > b@[id].ts)
                && (exists|id: NodeId| #[trigger] a@.contains_key(id) && a@[id].ts < b@[id].ts)),
{
    lemma_entry_maps_order(a@, b@);
}

/// The kinds of messages that carry a whole register.
#[derive(Debug, PartialEq, Eq, Structural, Hash, Clone, Copy)]
pub enum MessageType {
    WriteMessage,
    WriteAckMessage,
    ReadMessage,
    ReadAckMessage,
}

/// A message of some kind from `sender`, carrying its register.
#[derive(Debug)]
pub struct Message<V> {
    pub sender: NodeId,
    pub message_type: MessageType,
    pub register: Register<V>,
}

/// Asks the receiver to merge `register` into its own.
#[derive(Debug)]
pub struct WriteMessage<V> {
    pub sender: NodeId,
    pub register: Register<V>,
}

/// Answers a write message with the sender's register after the merge.
#[derive(Debug)]
pub struct WriteAckMessage<V> {
    pub sender: NodeId,
    pub register: Register<V>,
}

/// Asks the receiver for its register, sending the reader's.
#[derive(Debug)]
pub struct ReadMessage<V> {
    pub sender: NodeId,
    pub register: Register<V>,
}

/// Answers a read message with the sender's register.
#[derive(Debug)]
pub struct ReadAckMessage<V> {
    pub sender: NodeId,
    pub register: Register<V>,
}

} // verus!
