use vstd::prelude::*;

use crate::abd_node::{AbdNode, Value};
use crate::messages::{Read1AckMessage, Read1Message, Read2AckMessage, Read2Message, WriteAckMessage, WriteMessage};
use crate::quorum::{lemma_majorities_intersect, majority_size};
use crate::types::{Int, NodeId};

verus! {

/// An operation that completed: the timestamp it wrote (a write) or wrote
/// back (a read), and the majority of nodes whose acknowledgements completed it.
pub struct CompletedOperation {
    pub timestamp: int,
    pub holders: Set<NodeId>,
}

/// Where the read of one node stands.
pub enum ReadPhase {
    /// No read under way.
    Idle,
    /// The first phase is under way; `before` are the operations that had
    /// completed when the read started.
    First { before: Set<CompletedOperation> },
    /// The first phase completed and the second has not started.
    Between { before: Set<CompletedOperation> },
    /// The second phase is under way, writing back `written_back`.
    Second { before: Set<CompletedOperation>, written_back: int },
    /// Both phases completed; the read is yet to return.
    Returning { before: Set<CompletedOperation>, written_back: int },
}

/// A read that returned: who read, what had completed before it started, the
/// timestamp it wrote back and the timestamp of the value it returned (the
/// node's `read_timestamp` when the read returns).
pub struct FinishedRead {
    pub reader: NodeId,
    pub before: Set<CompletedOperation>,
    pub written_back: int,
    pub returned: int,
}

/// A system of ABD nodes with one writer, seen from outside: each node's
/// state, every message ever sent (the network may lose, repeat and reorder
/// them), each node's read, and the operations that completed. Requests are
/// broadcast; answers are paired with the node they are sent to. The laws
/// speak of timestamps: values travel by `clone`, of which a generic value type
/// promises nothing, and a node's value changes only with its timestamp.
#[verifier::reject_recursive_types(V)]
pub struct AbdSystem<V> {
    pub nodes: Map<NodeId, AbdNode<V>>,
    pub writer: NodeId,
    pub write_messages: Set<WriteMessage<V>>,
    pub write_acks: Set<(NodeId, WriteAckMessage)>,
    pub read1_messages: Set<Read1Message>,
    pub read1_acks: Set<(NodeId, Read1AckMessage<V>)>,
    pub read2_messages: Set<Read2Message<V>>,
    pub read2_acks: Set<(NodeId, Read2AckMessage)>,
    pub reads: Map<NodeId, ReadPhase>,
    pub completed: Set<CompletedOperation>,
    pub finished: Set<FinishedRead>,
}

/// One step of the system: a call of one of the node's operations on one node.
#[verifier::reject_recursive_types(V)]
#[allow(inconsistent_fields)]
pub enum Step<V> {
    /// The writer starts a write of `value`, broadcasting `message`.
    Write { value: V, message: WriteMessage<V> },
    /// `node` handles a sent write message and answers it with `ack`.
    ReceiveWrite { node: NodeId, message: WriteMessage<V>, ack: WriteAckMessage },
    /// `node` handles a write acknowledgement sent to it.
    ReceiveWriteAck { node: NodeId, ack: WriteAckMessage, completed: bool },
    /// `node` starts a read, broadcasting `message`.
    StartRead { node: NodeId, message: Read1Message },
    /// `node` handles a sent first-phase read message and answers it with `ack`.
    ReceiveRead1 { node: NodeId, message: Read1Message, ack: Read1AckMessage<V> },
    /// `node` handles a first-phase answer sent to it.
    ReceiveRead1Ack { node: NodeId, ack: Read1AckMessage<V>, completed: bool },
    /// `node` starts the second phase of its read, broadcasting `message`.
    StartReadPhase2 { node: NodeId, message: Read2Message<V> },
    /// `node` handles a sent second-phase read message and answers it with `ack`.
    ReceiveRead2 { node: NodeId, message: Read2Message<V>, ack: Read2AckMessage },
    /// `node` handles a second-phase acknowledgement sent to it.
    ReceiveRead2Ack { node: NodeId, ack: Read2AckMessage, completed: bool },
    /// `node`'s read returns the node's value.
    ReturnRead { node: NodeId },
}

/// The operations that had completed when a read started.
pub open spec fn read_before(phase: ReadPhase) -> Set<CompletedOperation> {
    match phase {
        ReadPhase::Idle => Set::empty(),
        ReadPhase::First { before } => before,
        ReadPhase::Between { before } => before,
        ReadPhase::Second { before, .. } => before,
        ReadPhase::Returning { before, .. } => before,
    }
}

impl<V: Value> AbdSystem<V> {
    /// The node's timestamp.
    pub open spec fn ts(self, n: NodeId) -> int {
        self.nodes[n].spec_timestamp() as int
    }

    /// The system as it starts: every node of the finite set of nodes (which
    /// includes the writer, and whose size fits the quorums' counts) as
    /// `AbdNode::new` makes it, no message sent, no read under way and nothing
    /// completed.
    pub open spec fn init(self) -> bool {
        &&& self.nodes.dom().finite()
        &&& self.nodes.dom().len() <= Int::MAX
        &&& self.nodes.dom().contains(self.writer)
        &&& forall|n: NodeId| #[trigger] self.nodes.dom().contains(n)
            ==> AbdNode::initial(self.nodes[n], n, self.nodes.dom())
        &&& self.write_messages.is_empty()
        &&& self.write_acks.is_empty()
        &&& self.read1_messages.is_empty()
        &&& self.read1_acks.is_empty()
        &&& self.read2_messages.is_empty()
        &&& self.read2_acks.is_empty()
        &&& self.reads.dom() == self.nodes.dom()
        &&& forall|n: NodeId| #[trigger] self.reads.dom().contains(n) ==> self.reads[n] is Idle
        &&& self.completed.is_empty()
        &&& self.finished.is_empty()
    }

    /// `post` is `self` with node `n` replaced by `post.nodes[n]`.
    pub open spec fn only_node_changes(self, post: Self, n: NodeId) -> bool {
        &&& self.nodes.dom().contains(n)
        &&& post.nodes == self.nodes.insert(n, post.nodes[n])
        &&& post.writer == self.writer
    }

    /// The step `step` takes the system from `self` to `post`. Each node's
    /// change is exactly what the contract of the operation called says; the
    /// operations that have a precondition are called only where it holds.
    pub open spec fn step(self, post: Self, step: Step<V>) -> bool {
        match step {
            Step::Write { value, message } => {
                let n = self.writer;
                &&& self.only_node_changes(post, n)
                &&& self.nodes[n].spec_write_quorum().spec_is_idle()
                &&& self.nodes[n].spec_timestamp() < Int::MAX
                &&& AbdNode::wrote(self.nodes[n], post.nodes[n], value, message)
                &&& post.write_messages == self.write_messages.insert(message)
                &&& post.write_acks == self.write_acks
                &&& post.read1_messages == self.read1_messages
                &&& post.read1_acks == self.read1_acks
                &&& post.read2_messages == self.read2_messages
                &&& post.read2_acks == self.read2_acks
                &&& post.reads == self.reads
                &&& post.completed == self.completed
                &&& post.finished == self.finished
            },
            Step::ReceiveWrite { node, message, ack } => {
                &&& self.only_node_changes(post, node)
                &&& self.write_messages.contains(message)
                &&& AbdNode::answered_write(self.nodes[node], post.nodes[node], message, ack)
                &&& post.write_messages == self.write_messages
                &&& post.write_acks == self.write_acks.insert((message.sender, ack))
                &&& post.read1_messages == self.read1_messages
                &&& post.read1_acks == self.read1_acks
                &&& post.read2_messages == self.read2_messages
                &&& post.read2_acks == self.read2_acks
                &&& post.reads == self.reads
                &&& post.completed == self.completed
                &&& post.finished == self.finished
            },
            Step::ReceiveWriteAck { node, ack, completed } => {
                &&& self.only_node_changes(post, node)
                &&& self.write_acks.contains((node, ack))
                &&& AbdNode::took_write_ack(self.nodes[node], post.nodes[node], ack, completed)
                &&& post.write_messages == self.write_messages
                &&& post.write_acks == self.write_acks
                &&& post.read1_messages == self.read1_messages
                &&& post.read1_acks == self.read1_acks
                &&& post.read2_messages == self.read2_messages
                &&& post.read2_acks == self.read2_acks
                &&& post.reads == self.reads
                &&& post.completed == if completed {
                    self.completed.insert(CompletedOperation {
                        timestamp: self.ts(node),
                        holders: self.nodes[node].spec_write_quorum().spec_acking_nodes().insert(ack.sender),
                    })
                } else {
                    self.completed
                }
                &&& post.finished == self.finished
            },
            Step::StartRead { node, message } => {
                &&& self.only_node_changes(post, node)
                &&& self.reads[node] is Idle
                &&& self.nodes[node].spec_read1_quorum().spec_is_idle()
                &&& self.nodes[node].spec_read2_quorum().spec_is_idle()
                &&& self.nodes[node].spec_read1_sequence_number() < Int::MAX
                &&& AbdNode::started_read(self.nodes[node], post.nodes[node], message)
                &&& post.write_messages == self.write_messages
                &&& post.write_acks == self.write_acks
                &&& post.read1_messages == self.read1_messages.insert(message)
                &&& post.read1_acks == self.read1_acks
                &&& post.read2_messages == self.read2_messages
                &&& post.read2_acks == self.read2_acks
                &&& post.reads == self.reads.insert(node, ReadPhase::First { before: self.completed })
                &&& post.completed == self.completed
                &&& post.finished == self.finished
            },
            Step::ReceiveRead1 { node, message, ack } => {
                &&& self.only_node_changes(post, node)
                &&& self.read1_messages.contains(message)
                &&& post.nodes[node] == self.nodes[node]
                &&& AbdNode::answered_read1(self.nodes[node], message, ack)
                &&& post.write_messages == self.write_messages
                &&& post.write_acks == self.write_acks
                &&& post.read1_messages == self.read1_messages
                &&& post.read1_acks == self.read1_acks.insert((message.sender, ack))
                &&& post.read2_messages == self.read2_messages
                &&& post.read2_acks == self.read2_acks
                &&& post.reads == self.reads
                &&& post.completed == self.completed
                &&& post.finished == self.finished
            },
            Step::ReceiveRead1Ack { node, ack, completed } => {
                &&& self.only_node_changes(post, node)
                &&& self.read1_acks.contains((node, ack))
                &&& AbdNode::took_read1_ack(self.nodes[node], post.nodes[node], ack, completed)
                &&& post.write_messages == self.write_messages
                &&& post.write_acks == self.write_acks
                &&& post.read1_messages == self.read1_messages
                &&& post.read1_acks == self.read1_acks
                &&& post.read2_messages == self.read2_messages
                &&& post.read2_acks == self.read2_acks
                &&& post.reads == if completed {
                    self.reads.insert(node, ReadPhase::Between { before: read_before(self.reads[node]) })
                } else {
                    self.reads
                }
                &&& post.completed == self.completed
                &&& post.finished == self.finished
            },
            Step::StartReadPhase2 { node, message } => {
                &&& self.only_node_changes(post, node)
                &&& self.reads[node] is Between
                &&& self.nodes[node].spec_read2_sequence_number() < Int::MAX
                &&& AbdNode::started_read_phase2(self.nodes[node], post.nodes[node], message)
                &&& post.write_messages == self.write_messages
                &&& post.write_acks == self.write_acks
                &&& post.read1_messages == self.read1_messages
                &&& post.read1_acks == self.read1_acks
                &&& post.read2_messages == self.read2_messages.insert(message)
                &&& post.read2_acks == self.read2_acks
                &&& post.reads == self.reads.insert(node, ReadPhase::Second {
                    before: read_before(self.reads[node]),
                    written_back: message.timestamp as int,
                })
                &&& post.completed == self.completed
                &&& post.finished == self.finished
            },
            Step::ReceiveRead2 { node, message, ack } => {
                &&& self.only_node_changes(post, node)
                &&& self.read2_messages.contains(message)
                &&& AbdNode::answered_read2(self.nodes[node], post.nodes[node], message, ack)
                &&& post.write_messages == self.write_messages
                &&& post.write_acks == self.write_acks
                &&& post.read1_messages == self.read1_messages
                &&& post.read1_acks == self.read1_acks
                &&& post.read2_messages == self.read2_messages
                &&& post.read2_acks == self.read2_acks.insert((message.sender, ack))
                &&& post.reads == self.reads
                &&& post.completed == self.completed
                &&& post.finished == self.finished
            },
            Step::ReceiveRead2Ack { node, ack, completed } => {
                let phase = self.reads[node];
                &&& self.only_node_changes(post, node)
                &&& self.read2_acks.contains((node, ack))
                &&& AbdNode::took_read2_ack(self.nodes[node], post.nodes[node], ack, completed)
                &&& post.write_messages == self.write_messages
                &&& post.write_acks == self.write_acks
                &&& post.read1_messages == self.read1_messages
                &&& post.read1_acks == self.read1_acks
                &&& post.read2_messages == self.read2_messages
                &&& post.read2_acks == self.read2_acks
                &&& post.reads == if completed {
                    self.reads.insert(node, ReadPhase::Returning {
                        before: read_before(phase),
                        written_back: phase->Second_written_back,
                    })
                } else {
                    self.reads
                }
                &&& post.completed == if completed {
                    self.completed.insert(CompletedOperation {
                        timestamp: phase->Second_written_back,
                        holders: self.nodes[node].spec_read2_quorum().spec_acking_nodes().insert(ack.sender),
                    })
                } else {
                    self.completed
                }
                &&& post.finished == self.finished
            },
            Step::ReturnRead { node } => {
                let phase = self.reads[node];
                &&& self.only_node_changes(post, node)
                &&& phase is Returning
                &&& post.nodes[node] == self.nodes[node]
                &&& post.write_messages == self.write_messages
                &&& post.write_acks == self.write_acks
                &&& post.read1_messages == self.read1_messages
                &&& post.read1_acks == self.read1_acks
                &&& post.read2_messages == self.read2_messages
                &&& post.read2_acks == self.read2_acks
                &&& post.reads == self.reads.insert(node, ReadPhase::Idle)
                &&& post.completed == self.completed
                &&& post.finished == self.finished.insert(FinishedRead {
                    reader: node,
                    before: read_before(phase),
                    written_back: phase->Returning_written_back,
                    returned: self.nodes[node].spec_read_timestamp() as int,
                })
            },
        }
    }

    /// The nodes are those of the system, each knowing its id and counting
    /// majorities of all of them; no node is ahead of the writer, and only the
    /// writer ever has a write under way.
    pub open spec fn structure(self) -> bool {
        &&& self.nodes.dom().finite()
        &&& self.nodes.dom().len() <= Int::MAX
        &&& self.nodes.dom().contains(self.writer)
        &&& self.reads.dom() == self.nodes.dom()
        &&& forall|n: NodeId| #[trigger] self.nodes.dom().contains(n) ==> {
            &&& self.nodes[n].spec_node_id() == n
            &&& self.nodes[n].wf()
            &&& self.nodes[n].spec_number_of_nodes() == self.nodes.dom().len() as Int
            &&& self.ts(n) <= self.ts(self.writer)
            &&& n != self.writer ==> !self.nodes[n].spec_write_quorum().spec_accessing()
        }
    }

    /// No message carries a timestamp ahead of the writer's, and first-phase
    /// answers come from nodes of the system.
    pub open spec fn messages_bounded(self) -> bool {
        &&& forall|m: WriteMessage<V>| #[trigger] self.write_messages.contains(m)
            ==> m.timestamp <= self.ts(self.writer)
        &&& forall|d: NodeId, a: Read1AckMessage<V>| #[trigger] self.read1_acks.contains((d, a))
            ==> a.timestamp <= self.ts(self.writer) && self.nodes.dom().contains(a.sender)
        &&& forall|m: Read2Message<V>| #[trigger] self.read2_messages.contains(m)
            ==> m.timestamp <= self.ts(self.writer)
    }

    /// The sender of a write acknowledgement holds the acknowledged timestamp,
    /// and the nodes counted for the writer's write hold its timestamp.
    pub open spec fn writes_held(self) -> bool {
        &&& forall|d: NodeId, a: WriteAckMessage| #[trigger] self.write_acks.contains((d, a))
            ==> self.nodes.dom().contains(a.sender) && self.ts(a.sender) >= a.timestamp
        &&& forall|x: NodeId| #[trigger] self.nodes[self.writer].spec_write_quorum().spec_acking_nodes().contains(x)
            ==> self.nodes.dom().contains(x) && self.ts(x) >= self.ts(self.writer)
    }

    /// Every completed operation's timestamp is held by a majority of the nodes.
    pub open spec fn completed_held(self) -> bool {
        forall|op: CompletedOperation| #[trigger] self.completed.contains(op) ==> {
            &&& op.holders.subset_of(self.nodes.dom())
            &&& op.holders.len() >= majority_size(self.nodes.dom().len() as int)
            &&& forall|x: NodeId| #[trigger] op.holders.contains(x) ==> self.ts(x) >= op.timestamp
        }
    }

    /// No read message of `r`, and no answer to one, carries a sequence number
    /// ahead of `r`'s.
    pub open spec fn fresh(self, r: NodeId) -> bool {
        let node = self.nodes[r];
        &&& forall|m: Read1Message| #[trigger] self.read1_messages.contains(m) && m.sender == r
            ==> m.sequence_number <= node.spec_read1_sequence_number()
        &&& forall|a: Read1AckMessage<V>| #[trigger] self.read1_acks.contains((r, a))
            ==> a.sequence_number <= node.spec_read1_sequence_number()
        &&& forall|m: Read2Message<V>| #[trigger] self.read2_messages.contains(m) && m.sender == r
            ==> m.sequence_number <= node.spec_read2_sequence_number()
        &&& forall|a: Read2AckMessage| #[trigger] self.read2_acks.contains((r, a))
            ==> a.sequence_number <= node.spec_read2_sequence_number()
    }

    /// What holds of `r`'s read in each of its phases.
    pub open spec fn read_ok(self, r: NodeId) -> bool {
        let node = self.nodes[r];
        let q1 = node.spec_read1_quorum();
        let q2 = node.spec_read2_quorum();
        &&& self.fresh(r)
        &&& match self.reads[r] {
            ReadPhase::Idle => q1.spec_is_idle() && q2.spec_is_idle(),
            ReadPhase::First { before } => {
                &&& q1.spec_accessing()
                &&& q2.spec_is_idle()
                &&& before.subset_of(self.completed)
                &&& forall|a: Read1AckMessage<V>, op: CompletedOperation|
                    #[trigger] self.read1_acks.contains((r, a)) && #[trigger] before.contains(op)
                    && a.sequence_number == node.spec_read1_sequence_number() && op.holders.contains(a.sender)
                    ==> a.timestamp >= op.timestamp
                &&& forall|x: NodeId| #[trigger] q1.spec_acking_nodes().contains(x) ==> self.nodes.dom().contains(x)
                &&& forall|x: NodeId, op: CompletedOperation|
                    #[trigger] q1.spec_acking_nodes().contains(x) && #[trigger] before.contains(op)
                    && op.holders.contains(x) ==> self.ts(r) >= op.timestamp
            },
            ReadPhase::Between { before } => {
                &&& q1.spec_is_idle()
                &&& q2.spec_is_idle()
                &&& forall|op: CompletedOperation| #[trigger] before.contains(op) ==> self.ts(r) >= op.timestamp
            },
            ReadPhase::Second { before, written_back } => {
                &&& q1.spec_is_idle()
                &&& q2.spec_accessing()
                &&& forall|op: CompletedOperation| #[trigger] before.contains(op) ==> written_back >= op.timestamp
                &&& self.ts(r) >= written_back
                &&& node.spec_read_timestamp() as int == written_back
                &&& forall|m: Read2Message<V>| #[trigger] self.read2_messages.contains(m) && m.sender == r
                    && m.sequence_number == node.spec_read2_sequence_number() ==> m.timestamp == written_back
                &&& forall|a: Read2AckMessage| #[trigger] self.read2_acks.contains((r, a))
                    && a.sequence_number == node.spec_read2_sequence_number()
                    ==> self.nodes.dom().contains(a.sender) && self.ts(a.sender) >= written_back
                &&& forall|x: NodeId| #[trigger] q2.spec_acking_nodes().contains(x)
                    ==> self.nodes.dom().contains(x) && self.ts(x) >= written_back
            },
            ReadPhase::Returning { before, written_back } => {
                &&& q1.spec_is_idle()
                &&& q2.spec_is_idle()
                &&& forall|op: CompletedOperation| #[trigger] before.contains(op) ==> written_back >= op.timestamp
                &&& self.ts(r) >= written_back
                &&& node.spec_read_timestamp() as int == written_back
                &&& exists|op: CompletedOperation| #[trigger] self.completed.contains(op) && op.timestamp == written_back
            },
        }
    }

    /// Every read that returned wrote back a timestamp at least that of each
    /// operation completed before it started, returned the value it wrote back,
    /// and is itself a completed operation of the timestamp it wrote back.
    pub open spec fn finished_ok(self) -> bool {
        forall|f: FinishedRead| #[trigger] self.finished.contains(f) ==> {
            &&& forall|op: CompletedOperation| #[trigger] f.before.contains(op) ==> f.written_back >= op.timestamp
            &&& f.returned == f.written_back
            &&& exists|op: CompletedOperation| #[trigger] self.completed.contains(op) && op.timestamp == f.written_back
        }
    }

    /// The invariant of the system.
    pub open spec fn inv(self) -> bool {
        &&& self.structure()
        &&& self.messages_bounded()
        &&& self.writes_held()
        &&& self.completed_held()
        &&& forall|r: NodeId| #[trigger] self.nodes.dom().contains(r) ==> self.read_ok(r)
        &&& self.finished_ok()
    }

    /// Some step takes the system from `self` to `post`.
    pub open spec fn next(self, post: Self) -> bool {
        exists|step: Step<V>| self.step(post, step)
    }
}

/// A run of the system: states from the start, each following from the one
/// before by a step.
pub open spec fn is_run<V: Value>(run: Seq<AbdSystem<V>>) -> bool {
    &&& run.len() > 0
    &&& run[0].init()
    &&& forall|i: int| 0 <= i < run.len() - 1 ==> #[trigger] run[i].next(run[i + 1])
}

/// The system starts in a state of the invariant.
pub proof fn lemma_init_inv<V: Value>(s: AbdSystem<V>)
    requires
        s.init(),
    ensures
        s.inv(),
{
    assert forall|n: NodeId| #[trigger] s.nodes.dom().contains(n) implies s.ts(n) <= s.ts(s.writer) by {
        assert(AbdNode::initial(s.nodes[n], n, s.nodes.dom()));
        assert(AbdNode::initial(s.nodes[s.writer], s.writer, s.nodes.dom()));
    }
    assert forall|r: NodeId| #[trigger] s.nodes.dom().contains(r) implies s.read_ok(r) by {
        assert(s.reads.dom().contains(r));
        assert(AbdNode::initial(s.nodes[r], r, s.nodes.dom()));
    }
    assert(AbdNode::initial(s.nodes[s.writer], s.writer, s.nodes.dom()));
}

/// Timestamps only grow from `s` to `s2` where only node `n` changes and its
/// timestamp does not go down.
proof fn lemma_timestamps_grow<V: Value>(s: AbdSystem<V>, s2: AbdSystem<V>, n: NodeId)
    requires
        s.only_node_changes(s2, n),
        s2.ts(n) >= s.ts(n),
    ensures
        s2.nodes.dom() == s.nodes.dom(),
        forall|x: NodeId| #[trigger] s2.ts(x) >= s.ts(x),
        forall|x: NodeId| x != n ==> #[trigger] s2.nodes[x] == s.nodes[x],
{
    assert(s2.nodes.dom() =~= s.nodes.dom());
    assert forall|x: NodeId| #[trigger] s2.ts(x) >= s.ts(x) by {
        if x != n {
            assert(s2.nodes[x] == s.nodes[x]);
        }
    }
}

/// What completed stays completed, so the completed operations that stand for
/// returned reads are still there.
proof fn lemma_completed_kept<V: Value>(s: AbdSystem<V>, s2: AbdSystem<V>)
    requires
        s.finished_ok(),
        s2.finished == s.finished,
        s.completed.subset_of(s2.completed),
    ensures
        forall|f: FinishedRead| #[trigger] s2.finished.contains(f) ==>
            exists|op: CompletedOperation| #[trigger] s2.completed.contains(op) && op.timestamp == f.written_back,
{
    assert forall|f: FinishedRead| #[trigger] s2.finished.contains(f) implies
        (exists|op: CompletedOperation| #[trigger] s2.completed.contains(op) && op.timestamp == f.written_back) by {
        let op = choose|op: CompletedOperation| #[trigger] s.completed.contains(op) && op.timestamp == f.written_back;
        assert(s2.completed.contains(op));
    }
}

/// A completed operation of timestamp `t` stays completed.
proof fn lemma_witness_kept(before: Set<CompletedOperation>, after: Set<CompletedOperation>, t: int)
    requires
        exists|op: CompletedOperation| #[trigger] before.contains(op) && op.timestamp == t,
        before.subset_of(after),
    ensures
        exists|op: CompletedOperation| #[trigger] after.contains(op) && op.timestamp == t,
{
    let op = choose|op: CompletedOperation| #[trigger] before.contains(op) && op.timestamp == t;
    assert(after.contains(op));
}

proof fn lemma_write_step<V: Value>(s: AbdSystem<V>, s2: AbdSystem<V>, value: V, message: WriteMessage<V>)
    requires
        s.inv(),
        s.step(s2, Step::Write { value, message }),
    ensures
        s2.inv(),
{
    let w = s.writer;
    lemma_timestamps_grow(s, s2, w);
    assert(s2.ts(w) == s.ts(w) + 1);
    assert forall|n: NodeId| #[trigger] s2.nodes.dom().contains(n) implies {
        &&& s2.nodes[n].spec_node_id() == n
        &&& s2.nodes[n].wf()
        &&& s2.nodes[n].spec_number_of_nodes() == s2.nodes.dom().len() as Int
        &&& s2.ts(n) <= s2.ts(s2.writer)
        &&& n != s2.writer ==> !s2.nodes[n].spec_write_quorum().spec_accessing()
    } by {
        assert(s.nodes.dom().contains(n));
    }
    assert forall|r: NodeId| #[trigger] s2.nodes.dom().contains(r) implies s2.read_ok(r) by {
        assert(s.read_ok(r));
        assert(s2.reads[r] == s.reads[r]);
        assert(s2.nodes[r].spec_read1_quorum() == s.nodes[r].spec_read1_quorum());
        assert(s2.nodes[r].spec_read2_quorum() == s.nodes[r].spec_read2_quorum());
        assert(s2.nodes[r].spec_read1_sequence_number() == s.nodes[r].spec_read1_sequence_number());
        assert(s2.nodes[r].spec_read2_sequence_number() == s.nodes[r].spec_read2_sequence_number());
    }
    assert forall|m: WriteMessage<V>| #[trigger] s2.write_messages.contains(m) implies m.timestamp <= s2.ts(s2.writer) by {
        if m != message {
            assert(s.write_messages.contains(m));
        }
    }
    assert forall|op: CompletedOperation| #[trigger] s2.completed.contains(op) implies {
        &&& op.holders.subset_of(s2.nodes.dom())
        &&& op.holders.len() >= majority_size(s2.nodes.dom().len() as int)
        &&& forall|x: NodeId| #[trigger] op.holders.contains(x) ==> s2.ts(x) >= op.timestamp
    } by {
        assert(s.completed.contains(op));
    }
}

proof fn lemma_receive_write_step<V: Value>(
    s: AbdSystem<V>,
    s2: AbdSystem<V>,
    node: NodeId,
    message: WriteMessage<V>,
    ack: WriteAckMessage,
)
    requires
        s.inv(),
        s.step(s2, Step::ReceiveWrite { node, message, ack }),
    ensures
        s2.inv(),
{
    let w = s.writer;
    lemma_timestamps_grow(s, s2, node);
    assert(message.timestamp <= s.ts(w));
    assert(s2.ts(w) == s.ts(w));
    assert forall|n: NodeId| #[trigger] s2.nodes.dom().contains(n) implies {
        &&& s2.nodes[n].spec_node_id() == n
        &&& s2.nodes[n].wf()
        &&& s2.nodes[n].spec_number_of_nodes() == s2.nodes.dom().len() as Int
        &&& s2.ts(n) <= s2.ts(s2.writer)
        &&& n != s2.writer ==> !s2.nodes[n].spec_write_quorum().spec_accessing()
    } by {
        assert(s.nodes.dom().contains(n));
    }
    assert forall|op: CompletedOperation| #[trigger] s2.completed.contains(op) implies {
        &&& op.holders.subset_of(s2.nodes.dom())
        &&& op.holders.len() >= majority_size(s2.nodes.dom().len() as int)
        &&& forall|x: NodeId| #[trigger] op.holders.contains(x) ==> s2.ts(x) >= op.timestamp
    } by {
        assert(s.completed.contains(op));
    }
    assert forall|r: NodeId| #[trigger] s2.nodes.dom().contains(r) implies s2.read_ok(r) by {
        assert(s.read_ok(r));
        assert(s2.nodes[r].spec_read1_quorum() == s.nodes[r].spec_read1_quorum());
        assert(s2.nodes[r].spec_read2_quorum() == s.nodes[r].spec_read2_quorum());
        assert(s2.nodes[r].spec_read1_sequence_number() == s.nodes[r].spec_read1_sequence_number());
        assert(s2.nodes[r].spec_read2_sequence_number() == s.nodes[r].spec_read2_sequence_number());
    }
    assert forall|d: NodeId, a: WriteAckMessage| #[trigger] s2.write_acks.contains((d, a))
        implies s2.nodes.dom().contains(a.sender) && s2.ts(a.sender) >= a.timestamp by {
        if (d, a) != (message.sender, ack) {
            assert(s.write_acks.contains((d, a)));
        }
    }
    assert(s2.nodes[w].spec_write_quorum() == s.nodes[w].spec_write_quorum());
}

proof fn lemma_receive_read1_step<V: Value>(
    s: AbdSystem<V>,
    s2: AbdSystem<V>,
    node: NodeId,
    message: Read1Message,
    ack: Read1AckMessage<V>,
)
    requires
        s.inv(),
        s.step(s2, Step::ReceiveRead1 { node, message, ack }),
    ensures
        s2.inv(),
{
    let w = s.writer;
    lemma_timestamps_grow(s, s2, node);
    assert(s2.nodes =~= s.nodes);
    assert forall|d: NodeId, a: Read1AckMessage<V>| #[trigger] s2.read1_acks.contains((d, a))
        implies a.timestamp <= s2.ts(s2.writer) by {
        if (d, a) != (message.sender, ack) {
            assert(s.read1_acks.contains((d, a)));
        }
    }
    assert forall|d: NodeId, a: Read1AckMessage<V>| #[trigger] s2.read1_acks.contains((d, a))
        implies s2.nodes.dom().contains(a.sender) by {
        if (d, a) != (message.sender, ack) {
            assert(s.read1_acks.contains((d, a)));
        }
    }
    assert forall|r: NodeId| #[trigger] s2.nodes.dom().contains(r) implies s2.read_ok(r) by {
        assert(s.read_ok(r));
        assert forall|a: Read1AckMessage<V>| #[trigger] s2.read1_acks.contains((r, a))
            implies a.sequence_number <= s2.nodes[r].spec_read1_sequence_number() by {
            if (r, a) != (message.sender, ack) {
                assert(s.read1_acks.contains((r, a)));
            } else {
                assert(s.read1_messages.contains(message) && message.sender == r);
            }
        }
        match s.reads[r] {
            ReadPhase::First { before } => {
                assert forall|a: Read1AckMessage<V>, op: CompletedOperation|
                    #[trigger] s2.read1_acks.contains((r, a)) && #[trigger] before.contains(op)
                    && a.sequence_number == s2.nodes[r].spec_read1_sequence_number() && op.holders.contains(a.sender)
                    implies a.timestamp >= op.timestamp by {
                    if (r, a) != (message.sender, ack) {
                        assert(s.read1_acks.contains((r, a)));
                    } else {
                        assert(s.completed.contains(op));
                    }
                }
            },
            _ => {},
        }
    }
}

proof fn lemma_receive_read2_step<V: Value>(
    s: AbdSystem<V>,
    s2: AbdSystem<V>,
    node: NodeId,
    message: Read2Message<V>,
    ack: Read2AckMessage,
)
    requires
        s.inv(),
        s.step(s2, Step::ReceiveRead2 { node, message, ack }),
    ensures
        s2.inv(),
{
    let w = s.writer;
    lemma_timestamps_grow(s, s2, node);
    assert(message.timestamp <= s.ts(w));
    assert(s2.ts(w) == s.ts(w));
    assert(s2.ts(node) >= message.timestamp);
    assert forall|n: NodeId| #[trigger] s2.nodes.dom().contains(n) implies {
        &&& s2.nodes[n].spec_node_id() == n
        &&& s2.nodes[n].wf()
        &&& s2.nodes[n].spec_number_of_nodes() == s2.nodes.dom().len() as Int
        &&& s2.ts(n) <= s2.ts(s2.writer)
        &&& n != s2.writer ==> !s2.nodes[n].spec_write_quorum().spec_accessing()
    } by {
        assert(s.nodes.dom().contains(n));
    }
    assert forall|op: CompletedOperation| #[trigger] s2.completed.contains(op) implies {
        &&& op.holders.subset_of(s2.nodes.dom())
        &&& op.holders.len() >= majority_size(s2.nodes.dom().len() as int)
        &&& forall|x: NodeId| #[trigger] op.holders.contains(x) ==> s2.ts(x) >= op.timestamp
    } by {
        assert(s.completed.contains(op));
    }
    assert(s2.nodes[w].spec_write_quorum() == s.nodes[w].spec_write_quorum());
    assert forall|r: NodeId| #[trigger] s2.nodes.dom().contains(r) implies s2.read_ok(r) by {
        assert(s.read_ok(r));
        assert(s2.nodes[r].spec_read1_quorum() == s.nodes[r].spec_read1_quorum());
        assert(s2.nodes[r].spec_read2_quorum() == s.nodes[r].spec_read2_quorum());
        assert(s2.nodes[r].spec_read1_sequence_number() == s.nodes[r].spec_read1_sequence_number());
        assert(s2.nodes[r].spec_read2_sequence_number() == s.nodes[r].spec_read2_sequence_number());
        assert forall|a: Read2AckMessage| #[trigger] s2.read2_acks.contains((r, a))
            implies a.sequence_number <= s2.nodes[r].spec_read2_sequence_number() by {
            if (r, a) != (message.sender, ack) {
                assert(s.read2_acks.contains((r, a)));
            } else {
                assert(s.read2_messages.contains(message) && message.sender == r);
            }
        }
        match s.reads[r] {
            ReadPhase::Second { before, written_back } => {
                assert forall|a: Read2AckMessage| #[trigger] s2.read2_acks.contains((r, a))
                    && a.sequence_number == s2.nodes[r].spec_read2_sequence_number()
                    implies s2.nodes.dom().contains(a.sender) && s2.ts(a.sender) >= written_back by {
                    if (r, a) != (message.sender, ack) {
                        assert(s.read2_acks.contains((r, a)));
                    } else {
                        assert(s.read2_messages.contains(message) && message.sender == r);
                    }
                }
            },
            _ => {},
        }
    }
}

/// A set of nodes counted as a majority, from an `Int` count, has at least a
/// majority of the nodes.
proof fn lemma_counted_majority(acked: Set<NodeId>, nodes: Set<NodeId>)
    requires
        nodes.finite(),
        nodes.len() <= Int::MAX,
        acked.subset_of(nodes),
        (acked.len() as Int) >= majority_size((nodes.len() as Int) as int),
    ensures
        acked.len() >= majority_size(nodes.len() as int),
{
    vstd::set_lib::lemma_len_subset(acked, nodes);
}

proof fn lemma_receive_write_ack_step<V: Value>(
    s: AbdSystem<V>,
    s2: AbdSystem<V>,
    node: NodeId,
    ack: WriteAckMessage,
    completed: bool,
)
    requires
        s.inv(),
        s.step(s2, Step::ReceiveWriteAck { node, ack, completed }),
    ensures
        s2.inv(),
{
    let w = s.writer;
    lemma_timestamps_grow(s, s2, node);
    assert(forall|x: NodeId| #[trigger] s2.ts(x) == s.ts(x));
    let pre = s.nodes[node];
    let post = s2.nodes[node];
    let acked = pre.spec_write_quorum().spec_acking_nodes().insert(ack.sender);
    assert(s.write_acks.contains((node, ack)));
    assert(s.nodes.dom().contains(ack.sender) && s.ts(ack.sender) >= ack.timestamp);
    if node != w {
        assert(s.nodes.dom().contains(node));
        assert(!pre.spec_write_quorum().spec_accessing());
        assert(post.spec_write_quorum() == pre.spec_write_quorum());
    }
    assert forall|n: NodeId| #[trigger] s2.nodes.dom().contains(n) implies {
        &&& s2.nodes[n].spec_node_id() == n
        &&& s2.nodes[n].wf()
        &&& s2.nodes[n].spec_number_of_nodes() == s2.nodes.dom().len() as Int
        &&& s2.ts(n) <= s2.ts(s2.writer)
        &&& n != s2.writer ==> !s2.nodes[n].spec_write_quorum().spec_accessing()
    } by {
        assert(s.nodes.dom().contains(n));
    }
    assert forall|x: NodeId| #[trigger] s2.nodes[w].spec_write_quorum().spec_acking_nodes().contains(x)
        implies s2.nodes.dom().contains(x) && s2.ts(x) >= s2.ts(w) by {
        if x != ack.sender || node != w {
            assert(s.nodes[w].spec_write_quorum().spec_acking_nodes().contains(x));
        }
    }
    if completed {
        assert(node == w);
        assert(acked.subset_of(s.nodes.dom()));
        lemma_counted_majority(acked, s.nodes.dom());
        assert forall|x: NodeId| #[trigger] acked.contains(x) implies s2.ts(x) >= s.ts(node) by {
            if x != ack.sender {
                assert(s.nodes[w].spec_write_quorum().spec_acking_nodes().contains(x));
            }
        }
    }
    assert forall|op: CompletedOperation| #[trigger] s2.completed.contains(op) implies {
        &&& op.holders.subset_of(s2.nodes.dom())
        &&& op.holders.len() >= majority_size(s2.nodes.dom().len() as int)
        &&& forall|x: NodeId| #[trigger] op.holders.contains(x) ==> s2.ts(x) >= op.timestamp
    } by {
        if !s.completed.contains(op) {
            assert(completed);
        }
    }
    lemma_completed_kept(s, s2);
    assert forall|r: NodeId| #[trigger] s2.nodes.dom().contains(r) implies s2.read_ok(r) by {
        assert(s.read_ok(r));
        if s.reads[r] is Returning {
            lemma_witness_kept(s.completed, s2.completed, s.reads[r]->Returning_written_back);
        }
        assert(s2.nodes[r].spec_read1_quorum() == s.nodes[r].spec_read1_quorum());
        assert(s2.nodes[r].spec_read2_quorum() == s.nodes[r].spec_read2_quorum());
        assert(s2.nodes[r].spec_read1_sequence_number() == s.nodes[r].spec_read1_sequence_number());
        assert(s2.nodes[r].spec_read2_sequence_number() == s.nodes[r].spec_read2_sequence_number());
        match s.reads[r] {
            ReadPhase::First { before } => {
                assert(before.subset_of(s2.completed));
            },
            _ => {},
        }
    }
}

proof fn lemma_start_read_step<V: Value>(s: AbdSystem<V>, s2: AbdSystem<V>, node: NodeId, message: Read1Message)
    requires
        s.inv(),
        s.step(s2, Step::StartRead { node, message }),
    ensures
        s2.inv(),
{
    let w = s.writer;
    lemma_timestamps_grow(s, s2, node);
    assert(forall|x: NodeId| #[trigger] s2.ts(x) == s.ts(x));
    assert forall|n: NodeId| #[trigger] s2.nodes.dom().contains(n) implies {
        &&& s2.nodes[n].spec_node_id() == n
        &&& s2.nodes[n].wf()
        &&& s2.nodes[n].spec_number_of_nodes() == s2.nodes.dom().len() as Int
        &&& s2.ts(n) <= s2.ts(s2.writer)
        &&& n != s2.writer ==> !s2.nodes[n].spec_write_quorum().spec_accessing()
    } by {
        assert(s.nodes.dom().contains(n));
    }
    assert(s2.nodes[w].spec_write_quorum() == s.nodes[w].spec_write_quorum());
    assert forall|op: CompletedOperation| #[trigger] s2.completed.contains(op) implies {
        &&& op.holders.subset_of(s2.nodes.dom())
        &&& op.holders.len() >= majority_size(s2.nodes.dom().len() as int)
        &&& forall|x: NodeId| #[trigger] op.holders.contains(x) ==> s2.ts(x) >= op.timestamp
    } by {
        assert(s.completed.contains(op));
    }
    assert forall|r: NodeId| #[trigger] s2.nodes.dom().contains(r) implies s2.read_ok(r) by {
        assert(s.read_ok(r));
        if r == node {
            assert forall|m: Read1Message| #[trigger] s2.read1_messages.contains(m) && m.sender == r
                implies m.sequence_number <= s2.nodes[r].spec_read1_sequence_number() by {
                if m != message {
                    assert(s.read1_messages.contains(m));
                }
            }
            assert forall|a: Read1AckMessage<V>, op: CompletedOperation|
                #[trigger] s2.read1_acks.contains((r, a)) && #[trigger] s.completed.contains(op)
                && a.sequence_number == s2.nodes[r].spec_read1_sequence_number() && op.holders.contains(a.sender)
                implies a.timestamp >= op.timestamp by {
                assert(s.read1_acks.contains((r, a)));
            }
        } else {
            assert(s2.nodes[r] == s.nodes[r]);
            assert(s2.reads[r] == s.reads[r]);
            assert forall|m: Read1Message| #[trigger] s2.read1_messages.contains(m) && m.sender == r
                implies m.sequence_number <= s2.nodes[r].spec_read1_sequence_number() by {
                assert(s.read1_messages.contains(m));
            }
        }
    }
}

proof fn lemma_receive_read1_ack_step<V: Value>(
    s: AbdSystem<V>,
    s2: AbdSystem<V>,
    node: NodeId,
    ack: Read1AckMessage<V>,
    completed: bool,
)
    requires
        s.inv(),
        s.step(s2, Step::ReceiveRead1Ack { node, ack, completed }),
    ensures
        s2.inv(),
{
    let w = s.writer;
    let pre = s.nodes[node];
    let post = s2.nodes[node];
    assert(s.read1_acks.contains((node, ack)));
    assert(ack.timestamp <= s.ts(w) && s.nodes.dom().contains(ack.sender));
    let counts = ack.sequence_number == pre.spec_read1_sequence_number() && pre.spec_read1_quorum().spec_accessing();
    assert(s2.ts(node) >= s.ts(node));
    lemma_timestamps_grow(s, s2, node);
    assert(s2.ts(w) == s.ts(w));
    assert(counts ==> s2.ts(node) >= ack.timestamp);
    assert forall|n: NodeId| #[trigger] s2.nodes.dom().contains(n) implies {
        &&& s2.nodes[n].spec_node_id() == n
        &&& s2.nodes[n].wf()
        &&& s2.nodes[n].spec_number_of_nodes() == s2.nodes.dom().len() as Int
        &&& s2.ts(n) <= s2.ts(s2.writer)
        &&& n != s2.writer ==> !s2.nodes[n].spec_write_quorum().spec_accessing()
    } by {
        assert(s.nodes.dom().contains(n));
    }
    assert(s2.nodes[w].spec_write_quorum() == s.nodes[w].spec_write_quorum());
    assert forall|op: CompletedOperation| #[trigger] s2.completed.contains(op) implies {
        &&& op.holders.subset_of(s2.nodes.dom())
        &&& op.holders.len() >= majority_size(s2.nodes.dom().len() as int)
        &&& forall|x: NodeId| #[trigger] op.holders.contains(x) ==> s2.ts(x) >= op.timestamp
    } by {
        assert(s.completed.contains(op));
    }
    assert(s.read_ok(node));
    if counts {
        assert(s.reads[node] is First);
    }
    assert forall|r: NodeId| #[trigger] s2.nodes.dom().contains(r) implies s2.read_ok(r) by {
        assert(s.read_ok(r));
        if r == node {
            match s.reads[r] {
                ReadPhase::First { before } => {
                    let acked = pre.spec_read1_quorum().spec_acking_nodes().insert(ack.sender);
                    if counts {
                        assert forall|x: NodeId, op: CompletedOperation|
                            #[trigger] acked.contains(x) && #[trigger] before.contains(op) && op.holders.contains(x)
                            implies s2.ts(r) >= op.timestamp by {
                            if x != ack.sender {
                                assert(pre.spec_read1_quorum().spec_acking_nodes().contains(x));
                            }
                        }
                    }
                    if completed {
                        assert(acked.subset_of(s.nodes.dom()));
                        lemma_counted_majority(acked, s.nodes.dom());
                        assert forall|op: CompletedOperation| #[trigger] before.contains(op)
                            implies s2.ts(r) >= op.timestamp by {
                            assert(s.completed.contains(op));
                            lemma_majorities_intersect(s.nodes.dom(), op.holders, acked);
                            let x = choose|x: NodeId| op.holders.contains(x) && acked.contains(x);
                        }
                    }
                },
                _ => {},
            }
        } else {
            assert(s2.nodes[r] == s.nodes[r]);
            assert(s2.reads[r] == s.reads[r]);
        }
    }
}

proof fn lemma_start_read_phase2_step<V: Value>(
    s: AbdSystem<V>,
    s2: AbdSystem<V>,
    node: NodeId,
    message: Read2Message<V>,
)
    requires
        s.inv(),
        s.step(s2, Step::StartReadPhase2 { node, message }),
    ensures
        s2.inv(),
{
    let w = s.writer;
    lemma_timestamps_grow(s, s2, node);
    assert(forall|x: NodeId| #[trigger] s2.ts(x) == s.ts(x));
    assert forall|n: NodeId| #[trigger] s2.nodes.dom().contains(n) implies {
        &&& s2.nodes[n].spec_node_id() == n
        &&& s2.nodes[n].wf()
        &&& s2.nodes[n].spec_number_of_nodes() == s2.nodes.dom().len() as Int
        &&& s2.ts(n) <= s2.ts(s2.writer)
        &&& n != s2.writer ==> !s2.nodes[n].spec_write_quorum().spec_accessing()
    } by {
        assert(s.nodes.dom().contains(n));
    }
    assert(s2.nodes[w].spec_write_quorum() == s.nodes[w].spec_write_quorum());
    assert forall|op: CompletedOperation| #[trigger] s2.completed.contains(op) implies {
        &&& op.holders.subset_of(s2.nodes.dom())
        &&& op.holders.len() >= majority_size(s2.nodes.dom().len() as int)
        &&& forall|x: NodeId| #[trigger] op.holders.contains(x) ==> s2.ts(x) >= op.timestamp
    } by {
        assert(s.completed.contains(op));
    }
    assert forall|m: Read2Message<V>| #[trigger] s2.read2_messages.contains(m) implies m.timestamp <= s2.ts(s2.writer) by {
        if m != message {
            assert(s.read2_messages.contains(m));
        } else {
            assert(s.nodes.dom().contains(node));
        }
    }
    assert forall|r: NodeId| #[trigger] s2.nodes.dom().contains(r) implies s2.read_ok(r) by {
        assert(s.read_ok(r));
        if r == node {
            assert forall|m: Read2Message<V>| #[trigger] s2.read2_messages.contains(m) && m.sender == r
                implies m.sequence_number <= s2.nodes[r].spec_read2_sequence_number() by {
                if m != message {
                    assert(s.read2_messages.contains(m));
                }
            }
            assert forall|m: Read2Message<V>| #[trigger] s2.read2_messages.contains(m) && m.sender == r
                && m.sequence_number == s2.nodes[r].spec_read2_sequence_number()
                implies m.timestamp == message.timestamp by {
                if m != message {
                    assert(s.read2_messages.contains(m));
                }
            }
            assert forall|a: Read2AckMessage| #[trigger] s2.read2_acks.contains((r, a))
                implies a.sequence_number < s2.nodes[r].spec_read2_sequence_number() by {
                assert(s.read2_acks.contains((r, a)));
            }
        } else {
            assert(s2.nodes[r] == s.nodes[r]);
            assert(s2.reads[r] == s.reads[r]);
            assert forall|m: Read2Message<V>| #[trigger] s2.read2_messages.contains(m) && m.sender == r
                implies m.sequence_number <= s2.nodes[r].spec_read2_sequence_number() by {
                assert(s.read2_messages.contains(m));
            }
            match s.reads[r] {
                ReadPhase::Second { before, written_back } => {
                    assert forall|m: Read2Message<V>| #[trigger] s2.read2_messages.contains(m) && m.sender == r
                        && m.sequence_number == s2.nodes[r].spec_read2_sequence_number()
                        implies m.timestamp == written_back by {
                        assert(s.read2_messages.contains(m));
                    }
                },
                _ => {},
            }
        }
    }
}

proof fn lemma_receive_read2_ack_step<V: Value>(
    s: AbdSystem<V>,
    s2: AbdSystem<V>,
    node: NodeId,
    ack: Read2AckMessage,
    completed: bool,
)
    requires
        s.inv(),
        s.step(s2, Step::ReceiveRead2Ack { node, ack, completed }),
    ensures
        s2.inv(),
{
    let w = s.writer;
    let pre = s.nodes[node];
    let counts = ack.sequence_number == pre.spec_read2_sequence_number() && pre.spec_read2_quorum().spec_accessing();
    lemma_timestamps_grow(s, s2, node);
    assert(forall|x: NodeId| #[trigger] s2.ts(x) == s.ts(x));
    assert(s.read2_acks.contains((node, ack)));
    assert forall|n: NodeId| #[trigger] s2.nodes.dom().contains(n) implies {
        &&& s2.nodes[n].spec_node_id() == n
        &&& s2.nodes[n].wf()
        &&& s2.nodes[n].spec_number_of_nodes() == s2.nodes.dom().len() as Int
        &&& s2.ts(n) <= s2.ts(s2.writer)
        &&& n != s2.writer ==> !s2.nodes[n].spec_write_quorum().spec_accessing()
    } by {
        assert(s.nodes.dom().contains(n));
    }
    assert(s2.nodes[w].spec_write_quorum() == s.nodes[w].spec_write_quorum());
    assert(s.read_ok(node));
    if counts {
        assert(s.reads[node] is Second);
    }
    let acked = pre.spec_read2_quorum().spec_acking_nodes().insert(ack.sender);
    if completed {
        let written_back = s.reads[node]->Second_written_back;
        assert(acked.subset_of(s.nodes.dom()));
        lemma_counted_majority(acked, s.nodes.dom());
        assert forall|x: NodeId| #[trigger] acked.contains(x) implies s2.ts(x) >= written_back by {
            if x != ack.sender {
                assert(pre.spec_read2_quorum().spec_acking_nodes().contains(x));
            }
        }
    }
    assert forall|op: CompletedOperation| #[trigger] s2.completed.contains(op) implies {
        &&& op.holders.subset_of(s2.nodes.dom())
        &&& op.holders.len() >= majority_size(s2.nodes.dom().len() as int)
        &&& forall|x: NodeId| #[trigger] op.holders.contains(x) ==> s2.ts(x) >= op.timestamp
    } by {
        if !s.completed.contains(op) {
            assert(completed);
        }
    }
    lemma_completed_kept(s, s2);
    assert forall|r: NodeId| #[trigger] s2.nodes.dom().contains(r) implies s2.read_ok(r) by {
        assert(s.read_ok(r));
        if s.reads[r] is Returning {
            lemma_witness_kept(s.completed, s2.completed, s.reads[r]->Returning_written_back);
        }
        if r == node {
            match s.reads[r] {
                ReadPhase::Second { before, written_back } => {
                    if completed {
                        assert(s2.completed.contains(CompletedOperation { timestamp: written_back, holders: acked }));
                    }
                    if counts && !completed {
                        assert forall|x: NodeId| #[trigger] acked.contains(x)
                            implies s2.nodes.dom().contains(x) && s2.ts(x) >= written_back by {
                            if x != ack.sender {
                                assert(pre.spec_read2_quorum().spec_acking_nodes().contains(x));
                            }
                        }
                    }
                },
                ReadPhase::First { before } => {
                    assert(before.subset_of(s2.completed));
                },
                _ => {},
            }
        } else {
            assert(s2.nodes[r] == s.nodes[r]);
            assert(s2.reads[r] == s.reads[r]);
            match s.reads[r] {
                ReadPhase::First { before } => {
                    assert(before.subset_of(s2.completed));
                },
                _ => {},
            }
        }
    }
}

proof fn lemma_return_read_step<V: Value>(s: AbdSystem<V>, s2: AbdSystem<V>, node: NodeId)
    requires
        s.inv(),
        s.step(s2, Step::ReturnRead { node }),
    ensures
        s2.inv(),
{
    let w = s.writer;
    lemma_timestamps_grow(s, s2, node);
    assert(s2.nodes =~= s.nodes);
    assert(s.read_ok(node));
    assert forall|r: NodeId| #[trigger] s2.nodes.dom().contains(r) implies s2.read_ok(r) by {
        assert(s.read_ok(r));
    }
    assert forall|f: FinishedRead| #[trigger] s2.finished.contains(f) implies {
        &&& forall|op: CompletedOperation| #[trigger] f.before.contains(op) ==> f.written_back >= op.timestamp
        &&& f.returned == f.written_back
    } by {
        if !s.finished.contains(f) {
            assert(f.before == read_before(s.reads[node]));
        }
    }
}

/// No node ever goes back in time: in every step, every node's timestamp
/// stays or grows, whatever message it handles.
pub proof fn lemma_timestamps_never_go_back<V: Value>(s: AbdSystem<V>, s2: AbdSystem<V>)
    requires
        s.next(s2),
    ensures
        s2.nodes.dom() == s.nodes.dom(),
        forall|x: NodeId| #[trigger] s2.ts(x) >= s.ts(x),
{
    let step = choose|step: Step<V>| s.step(s2, step);
    let n = match step {
        Step::Write { .. } => s.writer,
        Step::ReceiveWrite { node, .. } => node,
        Step::ReceiveWriteAck { node, .. } => node,
        Step::StartRead { node, .. } => node,
        Step::ReceiveRead1 { node, .. } => node,
        Step::ReceiveRead1Ack { node, .. } => node,
        Step::StartReadPhase2 { node, .. } => node,
        Step::ReceiveRead2 { node, .. } => node,
        Step::ReceiveRead2Ack { node, .. } => node,
        Step::ReturnRead { node } => node,
    };
    lemma_timestamps_grow(s, s2, n);
}

/// Every step keeps the invariant.
pub proof fn lemma_next_inv<V: Value>(s: AbdSystem<V>, s2: AbdSystem<V>)
    requires
        s.inv(),
        s.next(s2),
    ensures
        s2.inv(),
{
    let step = choose|step: Step<V>| s.step(s2, step);
    match step {
        Step::Write { value, message } => lemma_write_step(s, s2, value, message),
        Step::ReceiveWrite { node, message, ack } => lemma_receive_write_step(s, s2, node, message, ack),
        Step::ReceiveWriteAck { node, ack, completed } => lemma_receive_write_ack_step(s, s2, node, ack, completed),
        Step::StartRead { node, message } => lemma_start_read_step(s, s2, node, message),
        Step::ReceiveRead1 { node, message, ack } => lemma_receive_read1_step(s, s2, node, message, ack),
        Step::ReceiveRead1Ack { node, ack, completed } => lemma_receive_read1_ack_step(s, s2, node, ack, completed),
        Step::StartReadPhase2 { node, message } => lemma_start_read_phase2_step(s, s2, node, message),
        Step::ReceiveRead2 { node, message, ack } => lemma_receive_read2_step(s, s2, node, message, ack),
        Step::ReceiveRead2Ack { node, ack, completed } => lemma_receive_read2_ack_step(s, s2, node, ack, completed),
        Step::ReturnRead { node } => lemma_return_read_step(s, s2, node),
    }
}

/// Every state of a run satisfies the invariant, and what completed by one
/// state stays completed in every later one.
pub proof fn lemma_run_inv<V: Value>(run: Seq<AbdSystem<V>>, i: int)
    requires
        is_run(run),
        0 <= i < run.len(),
    ensures
        run[i].inv(),
        forall|j: int| 0 <= j <= i ==> run[j].completed.subset_of(#[trigger] run[i].completed),
    decreases i,
{
    if i == 0 {
        lemma_init_inv(run[0]);
    } else {
        lemma_run_inv(run, i - 1);
        let k = i - 1;
        assert(run[k].next(run[k + 1]));
        assert(k + 1 == i);
        lemma_next_inv(run[i - 1], run[i]);
        let pre = run[i - 1];
        let post = run[i];
        let step = choose|step: Step<V>| pre.step(post, step);
        assert(pre.step(post, step));
        assert(pre.completed.subset_of(post.completed));
        assert forall|j: int| 0 <= j <= i implies run[j].completed.subset_of(#[trigger] run[i].completed) by {
            if j < i {
                assert(run[j].completed.subset_of(run[i - 1].completed));
            }
        }
    }
}

/// A read sees every operation that completed before it started: in any run,
/// a read that returned wrote back a timestamp at least that of every write or
/// read that had completed when it started, and returned the value it wrote
/// back.
pub proof fn lemma_read_sees_completed_operations<V: Value>(
    run: Seq<AbdSystem<V>>,
    i: int,
    read: FinishedRead,
    operation: CompletedOperation,
)
    requires
        is_run(run),
        0 <= i < run.len(),
        run[i].finished.contains(read),
        read.before.contains(operation),
    ensures
        read.written_back >= operation.timestamp,
        read.returned == read.written_back,
{
    lemma_run_inv(run, i);
}

/// A read that returned is a completed operation of the timestamp it wrote
/// back: there is one from the state it returned in on.
pub proof fn lemma_returned_read_completed<V: Value>(run: Seq<AbdSystem<V>>, i: int, j: int, read: FinishedRead)
    requires
        is_run(run),
        0 <= i <= j < run.len(),
        run[i].finished.contains(read),
    ensures
        exists|op: CompletedOperation| #[trigger] run[j].completed.contains(op) && op.timestamp == read.written_back,
{
    lemma_run_inv(run, i);
    lemma_run_inv(run, j);
    lemma_witness_kept(run[i].completed, run[j].completed, read.written_back);
}

/// No new-old inversion between reads: when a read `later` started after a
/// read `earlier` returned (all that had completed when `earlier` returned had
/// completed when `later` started), `later` returns a value of a timestamp at
/// least that of the value `earlier` returned, and each read returns the value
/// it wrote back.
pub proof fn lemma_read_after_read<V: Value>(
    run: Seq<AbdSystem<V>>,
    i: int,
    j: int,
    earlier: FinishedRead,
    later: FinishedRead,
)
    requires
        is_run(run),
        0 <= i < run.len(),
        0 <= j < run.len(),
        run[i].finished.contains(earlier),
        run[j].finished.contains(later),
        run[i].completed.subset_of(later.before),
    ensures
        later.returned >= earlier.returned,
        later.written_back >= earlier.written_back,
        earlier.returned == earlier.written_back,
        later.returned == later.written_back,
{
    lemma_run_inv(run, i);
    lemma_run_inv(run, j);
    let op = choose|op: CompletedOperation| #[trigger] run[i].completed.contains(op) && op.timestamp == earlier.written_back;
    assert(later.before.contains(op));
}

/// A read that started after a write completed (all that had completed when
/// the write completed had completed when the read started) returns a value
/// of a timestamp at least the write's.
pub proof fn lemma_read_after_write<V: Value>(
    run: Seq<AbdSystem<V>>,
    i: int,
    j: int,
    write: CompletedOperation,
    read: FinishedRead,
)
    requires
        is_run(run),
        0 <= i < run.len(),
        0 <= j < run.len(),
        run[i].completed.contains(write),
        run[j].finished.contains(read),
        run[i].completed.subset_of(read.before),
    ensures
        read.written_back >= write.timestamp,
        read.returned >= write.timestamp,
{
    lemma_run_inv(run, j);
}

} // verus!
