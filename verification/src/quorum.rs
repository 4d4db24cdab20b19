use std::collections::HashSet;

use vstd::prelude::*;

use crate::types::{Int, NodeId};

verus! {

broadcast use vstd::std_specs::hash::group_hash_axioms;

/// The number of nodes that form a majority among `n` nodes: `n / 2 + 1`, the
/// division rounding toward zero.
pub open spec fn majority_size(n: int) -> int {
    if n >= 0 {
        n / 2 + 1
    } else {
        -((-n) / 2) + 1
    }
}

/// The bookkeeping of one quorum access: which nodes have acknowledged it, and
/// whether an access is under way.
#[derive(Debug)]
pub struct Quorum {
    acking_nodes: HashSet<NodeId>,
    accessing: bool,
    number_of_nodes: Int,
}

impl Quorum {
    /// The nodes that have acknowledged the current access.
    pub closed spec fn spec_acking_nodes(&self) -> Set<NodeId> {
        self.acking_nodes@
    }

    /// An access is under way.
    pub closed spec fn spec_accessing(&self) -> bool {
        self.accessing
    }

    /// The number of nodes in the system.
    pub closed spec fn spec_number_of_nodes(&self) -> Int {
        self.number_of_nodes
    }

    /// The acknowledging nodes form a majority, their count taken as an `Int`.
    pub open spec fn spec_has_ack_from_majority(&self) -> bool {
        (self.spec_acking_nodes().len() as Int) >= majority_size(self.spec_number_of_nodes() as int)
    }

    /// No acknowledgement is pending and no access is under way.
    pub open spec fn spec_is_idle(&self) -> bool {
        self.spec_acking_nodes().is_empty() && !self.spec_accessing()
    }

    /// An idle quorum for a system of `number_of_nodes` nodes.
    pub fn new(number_of_nodes: Int) -> (quorum: Quorum)
        ensures
            quorum.spec_acking_nodes() == Set::<NodeId>::empty(),
            !quorum.spec_accessing(),
            quorum.spec_number_of_nodes() == number_of_nodes,
    {
        Quorum { acking_nodes: HashSet::new(), accessing: false, number_of_nodes: number_of_nodes }
    }

    /// Records that `node_id` acknowledged the current access.
    pub fn insert_node_to_acking_nodes(&mut self, node_id: NodeId)
        ensures
            final(self).spec_acking_nodes() == old(self).spec_acking_nodes().insert(node_id),
            final(self).spec_accessing() == old(self).spec_accessing(),
            final(self).spec_number_of_nodes() == old(self).spec_number_of_nodes(),
    {
        self.acking_nodes.insert(node_id);
    }

    /// Whether an access is under way.
    pub fn accessing(&self) -> (accessing: bool)
        ensures
            accessing == self.spec_accessing(),
    {
        self.accessing
    }

    /// Marks an access as under way.
    pub fn start_access(&mut self)
        ensures
            final(self).spec_accessing(),
            final(self).spec_acking_nodes() == old(self).spec_acking_nodes(),
            final(self).spec_number_of_nodes() == old(self).spec_number_of_nodes(),
    {
        self.accessing = true;
    }

    /// Whether no acknowledgement is pending and no access is under way.
    pub fn is_idle(&self) -> (idle: bool)
        ensures
            idle == self.spec_is_idle(),
    {
        self.acking_nodes.is_empty() && !self.accessing
    }

    /// When a majority has acknowledged, ends the access: forgets the
    /// acknowledgements, marks the access as over and returns `true` (the
    /// waiting client is then to be woken). Otherwise changes nothing and
    /// returns `false`.
    pub fn notify_if_has_ack_from_majority(&mut self) -> (reached: bool)
        ensures
            reached == old(self).spec_has_ack_from_majority(),
            reached ==> final(self).spec_is_idle(),
            !reached ==> *final(self) == *old(self),
            final(self).spec_number_of_nodes() == old(self).spec_number_of_nodes(),
    {
        if self.has_ack_from_majority() {
            self.acking_nodes.clear();
            self.accessing = false;
            true
        } else {
            false
        }
    }

    /// Whether the acknowledging nodes form a majority.
    pub fn has_ack_from_majority(&self) -> (majority: bool)
        ensures
            majority == self.spec_has_ack_from_majority(),
    {
        (self.acking_nodes.len() as Int) >= self.number_of_nodes_in_a_majority()
    }

    /// The number of nodes that form a majority: half the nodes, rounded toward
    /// zero, plus one.
    pub fn number_of_nodes_in_a_majority(&self) -> (size: Int)
        ensures
            size == majority_size(self.spec_number_of_nodes() as int),
            self.spec_number_of_nodes() >= 0 ==> 2 * (size - 1) <= self.spec_number_of_nodes() < 2 * size,
    {
        self.number_of_nodes / 2 + 1
    }
}

/// What a client waiting for a quorum does after one wait: whether it sends
/// its request again, and whether it goes on waiting.
#[derive(Debug, PartialEq, Eq, Structural, Clone, Copy)]
pub struct AfterWait {
    pub resend: bool,
    pub keep_waiting: bool,
}

/// The decision after one wait for a quorum: the request is sent again when
/// the wait timed out, and the client waits on while the access is under way.
pub fn after_quorum_wait(accessing: bool, timed_out: bool) -> (next: AfterWait)
    ensures
        next.resend == timed_out,
        next.keep_waiting == accessing,
{
    AfterWait { resend: timed_out, keep_waiting: accessing }
}

/// What an acknowledgement from `sender` does to a quorum going from `old` to
/// `new`, when it `counts` (it answers the access under way): the sender joins
/// the acknowledging nodes, and once these form a majority the access is
/// `completed` and the quorum idle again. An acknowledgement that does not count
/// changes nothing.
pub open spec fn acknowledged(old: Quorum, new: Quorum, counts: bool, sender: NodeId, completed: bool) -> bool {
    let acked = old.spec_acking_nodes().insert(sender);
    let majority = (acked.len() as Int) >= majority_size(old.spec_number_of_nodes() as int);
    &&& completed == (counts && majority)
    &&& completed ==> new.spec_is_idle()
    &&& (counts && !majority) ==> new.spec_acking_nodes() == acked && new.spec_accessing()
    &&& !counts ==> new == old
    &&& new.spec_number_of_nodes() == old.spec_number_of_nodes()
}

/// A majority of `n` nodes is the least count of which any two sets of `n`
/// nodes share one: twice one less than it is `n` itself or one short of `n`
/// (for a negative count, as the division rounds toward zero, `n` or one more).
/// So for `n >= 0`, two sets of a majority each cannot be disjoint, while two
/// disjoint sets one short of a majority each can fit in `n` nodes.
pub proof fn lemma_majority_size_is_least(n: int)
    ensures
        n >= 0 ==> (2 * (majority_size(n) - 1) == n || 2 * (majority_size(n) - 1) == n - 1),
        n < 0 ==> (2 * (majority_size(n) - 1) == n || 2 * (majority_size(n) - 1) == n + 1),
        n >= 0 ==> 2 * majority_size(n) > n,
        n >= 0 ==> 2 * (majority_size(n) - 1) <= n,
{
}

/// Any two majorities of the same nodes share a node. This is why a read, whose
/// quorum is a majority, meets every write that completed before it: some node
/// of the read's quorum acknowledged that write.
pub proof fn lemma_majorities_intersect(nodes: Set<NodeId>, first: Set<NodeId>, second: Set<NodeId>)
    requires
        nodes.finite(),
        first.subset_of(nodes),
        second.subset_of(nodes),
        first.len() >= majority_size(nodes.len() as int),
        second.len() >= majority_size(nodes.len() as int),
    ensures
        exists|id: NodeId| first.contains(id) && second.contains(id),
{
    vstd::set_lib::lemma_len_subset(first, nodes);
    vstd::set_lib::lemma_len_subset(second, nodes);
    if first.disjoint(second) {
        vstd::set_lib::lemma_set_disjoint_lens(first, second);
        vstd::set_lib::lemma_len_subset(first + second, nodes);
        assert(false);
    } else {
        let id = choose|id: NodeId| !(!(first.contains(id) && second.contains(id)));
        assert(first.contains(id) && second.contains(id));
    }
}

} // verus!
