use std::collections::HashSet;

use vstd::prelude::*;
use vstd::std_specs::iter::IteratorSpec;

use crate::messages::{message_kind, MessageKind, json_is_kind};
use crate::types::{Int, NodeId};

verus! {

broadcast use vstd::std_specs::hash::group_hash_axioms;

/// The message counts of one kind of message, and the nodes such messages came from.
#[derive(Debug)]
pub struct MessageTypeResult {
    pub sent: Int,
    pub received: Int,
    pub nodes_received_from: HashSet<NodeId>,
}

impl MessageTypeResult {
    pub fn new() -> (result: MessageTypeResult)
        ensures
            result.sent == 0,
            result.received == 0,
            result.nodes_received_from@ == Set::<NodeId>::empty(),
    {
        MessageTypeResult { sent: 0, received: 0, nodes_received_from: HashSet::new() }
    }

    /// Counts one more message sent.
    pub fn count_sent(&mut self)
        requires
            old(self).sent < Int::MAX,
        ensures
            final(self).sent == old(self).sent + 1,
            final(self).received == old(self).received,
            final(self).nodes_received_from@ == old(self).nodes_received_from@,
    {
        self.sent = self.sent + 1;
    }

    /// Counts one more message received, from `sender`.
    pub fn count_received(&mut self, sender: NodeId)
        requires
            old(self).received < Int::MAX,
        ensures
            final(self).sent == old(self).sent,
            final(self).received == old(self).received + 1,
            final(self).nodes_received_from@ == old(self).nodes_received_from@.insert(sender),
    {
        self.received = self.received + 1;
        self.nodes_received_from.insert(sender);
    }
}

/// Who recorded a run result, and in which role.
#[derive(Debug)]
pub struct Metadata {
    pub node_id: NodeId,
    pub is_reader: bool,
    pub is_writer: bool,
    pub run_length: Int,
}

impl Metadata {
    pub fn new() -> (metadata: Metadata)
        ensures
            metadata.node_id == 0,
            !metadata.is_reader,
            !metadata.is_writer,
            metadata.run_length == 0,
    {
        Metadata { node_id: 0, is_reader: false, is_writer: false, run_length: 0 }
    }
}

/// What one node records of a run: the operations it performed and the messages
/// of each kind it sent and received.
#[derive(Debug)]
pub struct RunResult {
    pub write_ops: Int,
    pub write_quorum_accesses: Int,
    pub read_ops: Int,
    pub read_quorum_accesses: Int,
    pub write_message: MessageTypeResult,
    pub write_ack_message: MessageTypeResult,
    pub read1_message: MessageTypeResult,
    pub read1_ack_message: MessageTypeResult,
    pub read2_message: MessageTypeResult,
    pub read2_ack_message: MessageTypeResult,
    pub metadata: Metadata,
}

/// The nodes of a system of `number_of_nodes` nodes: ids 1 to `number_of_nodes`.
pub open spec fn all_nodes(number_of_nodes: int) -> Set<NodeId> {
    Set::new(|id: NodeId| 1 <= id <= number_of_nodes)
}

/// `a` implies `b`.
pub open spec fn implies(a: bool, b: bool) -> bool {
    a ==> b
}

impl RunResult {
    /// The counts kept of messages of `kind`.
    pub open spec fn message_result(&self, kind: MessageKind) -> MessageTypeResult {
        match kind {
            MessageKind::Write => self.write_message,
            MessageKind::WriteAck => self.write_ack_message,
            MessageKind::Read1 => self.read1_message,
            MessageKind::Read1Ack => self.read1_ack_message,
            MessageKind::Read2 => self.read2_message,
            MessageKind::Read2Ack => self.read2_ack_message,
        }
    }

    /// `self` and `other` differ at most in their message counts.
    pub open spec fn same_except_messages(&self, other: &RunResult) -> bool {
        &&& self.write_ops == other.write_ops
        &&& self.write_quorum_accesses == other.write_quorum_accesses
        &&& self.read_ops == other.read_ops
        &&& self.read_quorum_accesses == other.read_quorum_accesses
        &&& self.metadata == other.metadata
    }

    /// A result is sound for a system of `number_of_nodes` nodes when a node is
    /// a writer or a reader but not both, a writer heard write acknowledgements
    /// from every node, a reader heard both kinds of read acknowledgements from
    /// every node, and a node heard no acknowledgement of an operation it did
    /// not perform.
    pub open spec fn spec_is_sound(&self, number_of_nodes: int) -> bool {
        let all = all_nodes(number_of_nodes);
        &&& implies(self.metadata.is_writer, self.write_ack_message.nodes_received_from@ == all)
        &&& implies(self.metadata.is_reader, self.read1_ack_message.nodes_received_from@ == all)
        &&& implies(self.metadata.is_reader, self.read2_ack_message.nodes_received_from@ == all)
        &&& implies(self.metadata.is_writer, !self.metadata.is_reader)
        &&& implies(self.metadata.is_reader, !self.metadata.is_writer)
        &&& implies(!self.metadata.is_writer, self.write_ack_message.nodes_received_from@.is_empty())
        &&& implies(!self.metadata.is_reader, self.read1_ack_message.nodes_received_from@.is_empty())
        &&& implies(!self.metadata.is_reader, self.read2_ack_message.nodes_received_from@.is_empty())
    }

    pub fn new() -> (result: RunResult)
        ensures
            result.write_ops == 0,
            result.write_quorum_accesses == 0,
            result.read_ops == 0,
            result.read_quorum_accesses == 0,
            forall|kind: MessageKind| {
                &&& (#[trigger] result.message_result(kind)).sent == 0
                &&& result.message_result(kind).received == 0
                &&& result.message_result(kind).nodes_received_from@ == Set::<NodeId>::empty()
            },
            result.metadata.node_id == 0,
            !result.metadata.is_reader,
            !result.metadata.is_writer,
            result.metadata.run_length == 0,
    {
        RunResult {
            write_ops: 0,
            write_quorum_accesses: 0,
            read_ops: 0,
            read_quorum_accesses: 0,
            write_message: MessageTypeResult::new(),
            write_ack_message: MessageTypeResult::new(),
            read1_message: MessageTypeResult::new(),
            read1_ack_message: MessageTypeResult::new(),
            read2_message: MessageTypeResult::new(),
            read2_ack_message: MessageTypeResult::new(),
            metadata: Metadata::new(),
        }
    }

    /// Whether the result is sound for a system of `number_of_nodes` nodes.
    pub fn is_sound(&self, number_of_nodes: Int) -> (sound: bool)
        requires
            number_of_nodes < Int::MAX,
        ensures
            sound == self.spec_is_sound(number_of_nodes as int),
            sound == sound_per_role(*self, number_of_nodes as int),
    {
        proof {
            lemma_soundness_per_role(*self, number_of_nodes as int);
        }
        let mut sound = true;

        let condition = Self::implies(
            self.metadata.is_writer,
            Self::is_all_nodes_set(&self.write_ack_message.nodes_received_from, number_of_nodes),
        );
        sound = sound && condition;
        let condition = Self::implies(
            self.metadata.is_reader,
            Self::is_all_nodes_set(&self.read1_ack_message.nodes_received_from, number_of_nodes),
        );
        sound = sound && condition;
        let condition = Self::implies(
            self.metadata.is_reader,
            Self::is_all_nodes_set(&self.read2_ack_message.nodes_received_from, number_of_nodes),
        );
        sound = sound && condition;
        let condition = Self::implies(self.metadata.is_writer, !self.metadata.is_reader);
        sound = sound && condition;
        let condition = Self::implies(self.metadata.is_reader, !self.metadata.is_writer);
        sound = sound && condition;
        let condition = Self::implies(
            !self.metadata.is_writer,
            self.write_ack_message.nodes_received_from.is_empty(),
        );
        sound = sound && condition;
        let condition = Self::implies(
            !self.metadata.is_reader,
            self.read1_ack_message.nodes_received_from.is_empty(),
        );
        sound = sound && condition;
        let condition = Self::implies(
            !self.metadata.is_reader,
            self.read2_ack_message.nodes_received_from.is_empty(),
        );
        sound = sound && condition;

        sound
    }

    fn implies(a: bool, b: bool) -> (r: bool)
        ensures
            r == implies(a, b),
    {
        if a {
            b
        } else {
            true
        }
    }

    /// Whether `set` holds exactly the ids 1 to `number_of_nodes`.
    fn is_all_nodes_set(set: &HashSet<NodeId>, number_of_nodes: Int) -> (all: bool)
        requires
            number_of_nodes < Int::MAX,
        ensures
            all == (set@ == all_nodes(number_of_nodes as int)),
    {
        proof {
            lemma_all_nodes_len(number_of_nodes as int);
        }
        if number_of_nodes <= 0 {
            assert(all_nodes(number_of_nodes as int) =~= Set::<NodeId>::empty());
            return set.is_empty();
        }
        if set.len() != number_of_nodes as usize {
            return false;
        }
        let mut id: NodeId = 1;
        while id <= number_of_nodes
            invariant
                1 <= id <= number_of_nodes + 1,
                number_of_nodes < Int::MAX,
                set@.len() == number_of_nodes,
                forall|j: NodeId| 1 <= j < id ==> set@.contains(j),
            decreases number_of_nodes + 1 - id,
        {
            if !set.contains(&id) {
                assert(all_nodes(number_of_nodes as int).contains(id));
                return false;
            }
            id = id + 1;
        }
        proof {
            lemma_hash_set_finite(set);
            assert(all_nodes(number_of_nodes as int).subset_of(set@));
            vstd::set_lib::lemma_subset_equality(all_nodes(number_of_nodes as int), set@);
        }
        true
    }

    /// Counts one more write operation performed.
    pub fn count_write_operation(&mut self)
        requires
            old(self).write_ops < Int::MAX,
        ensures
            final(self).write_ops == old(self).write_ops + 1,
            final(self).write_quorum_accesses == old(self).write_quorum_accesses,
            final(self).read_ops == old(self).read_ops,
            final(self).read_quorum_accesses == old(self).read_quorum_accesses,
            forall|kind: MessageKind| #[trigger] final(self).message_result(kind) == old(self).message_result(kind),
            final(self).metadata == old(self).metadata,
    {
        self.write_ops = self.write_ops + 1;
    }

    /// Counts one more read operation performed.
    pub fn count_read_operation(&mut self)
        requires
            old(self).read_ops < Int::MAX,
        ensures
            final(self).read_ops == old(self).read_ops + 1,
            final(self).write_ops == old(self).write_ops,
            final(self).write_quorum_accesses == old(self).write_quorum_accesses,
            final(self).read_quorum_accesses == old(self).read_quorum_accesses,
            forall|kind: MessageKind| #[trigger] final(self).message_result(kind) == old(self).message_result(kind),
            final(self).metadata == old(self).metadata,
    {
        self.read_ops = self.read_ops + 1;
    }

    /// The number of messages of `kind` sent.
    pub fn sent_count(&self, kind: MessageKind) -> (count: Int)
        ensures
            count == self.message_result(kind).sent,
    {
        match kind {
            MessageKind::Write => self.write_message.sent,
            MessageKind::WriteAck => self.write_ack_message.sent,
            MessageKind::Read1 => self.read1_message.sent,
            MessageKind::Read1Ack => self.read1_ack_message.sent,
            MessageKind::Read2 => self.read2_message.sent,
            MessageKind::Read2Ack => self.read2_ack_message.sent,
        }
    }

    /// The number of messages of `kind` received.
    pub fn received_count(&self, kind: MessageKind) -> (count: Int)
        ensures
            count == self.message_result(kind).received,
    {
        match kind {
            MessageKind::Write => self.write_message.received,
            MessageKind::WriteAck => self.write_ack_message.received,
            MessageKind::Read1 => self.read1_message.received,
            MessageKind::Read1Ack => self.read1_ack_message.received,
            MessageKind::Read2 => self.read2_message.received,
            MessageKind::Read2Ack => self.read2_ack_message.received,
        }
    }

    /// Counts the message `json` as sent, under the first kind it is judged to be
    /// of, in the order write, write ack, read1, read1 ack, read2, read2 ack.
    pub fn count_sent_json(&mut self, json: &str)
        requires
            forall|kind: MessageKind| #[trigger] old(self).message_result(kind).sent < Int::MAX,
        ensures
            forall|kind: MessageKind| {
                &&& (#[trigger] final(self).message_result(kind)).received == old(self).message_result(kind).received
                &&& final(self).message_result(kind).nodes_received_from@ == old(self).message_result(kind).nodes_received_from@
                &&& json_is_kind(json@, kind) ==> final(self).message_result(kind).sent == old(self).message_result(kind).sent + 1
                &&& !json_is_kind(json@, kind) ==> final(self).message_result(kind).sent == old(self).message_result(kind).sent
            },
            final(self).same_except_messages(old(self)),
    {
        let kind = message_kind(json);
        if let Some(kind) = kind {
            self.count_sent(kind);
            proof {
                assert forall|k: MessageKind| json_is_kind(json@, k) implies k == kind by {
                    crate::messages::lemma_json_kinds_exclusive(json@, k, kind);
                }
            }
        }
    }

    /// Counts one more message of `kind` sent.
    pub fn count_sent(&mut self, kind: MessageKind)
        requires
            old(self).message_result(kind).sent < Int::MAX,
        ensures
            forall|k: MessageKind| {
                &&& (#[trigger] final(self).message_result(k)).received == old(self).message_result(k).received
                &&& final(self).message_result(k).nodes_received_from@ == old(self).message_result(k).nodes_received_from@
                &&& final(self).message_result(k).sent == old(self).message_result(k).sent + if k == kind { 1int } else { 0int }
            },
            final(self).same_except_messages(old(self)),
    {
        match kind {
            MessageKind::Write => self.write_message.count_sent(),
            MessageKind::WriteAck => self.write_ack_message.count_sent(),
            MessageKind::Read1 => self.read1_message.count_sent(),
            MessageKind::Read1Ack => self.read1_ack_message.count_sent(),
            MessageKind::Read2 => self.read2_message.count_sent(),
            MessageKind::Read2Ack => self.read2_ack_message.count_sent(),
        }
    }

    /// Counts one more message of `kind` received, from `sender`.
    pub fn count_received(&mut self, kind: MessageKind, sender: NodeId)
        requires
            old(self).message_result(kind).received < Int::MAX,
        ensures
            forall|k: MessageKind| {
                &&& (#[trigger] final(self).message_result(k)).sent == old(self).message_result(k).sent
                &&& final(self).message_result(k).received == old(self).message_result(k).received + if k == kind { 1int } else { 0int }
                &&& final(self).message_result(k).nodes_received_from@ == if k == kind {
                    old(self).message_result(k).nodes_received_from@.insert(sender)
                } else {
                    old(self).message_result(k).nodes_received_from@
                }
            },
            final(self).same_except_messages(old(self)),
    {
        match kind {
            MessageKind::Write => self.write_message.count_received(sender),
            MessageKind::WriteAck => self.write_ack_message.count_received(sender),
            MessageKind::Read1 => self.read1_message.count_received(sender),
            MessageKind::Read1Ack => self.read1_ack_message.count_received(sender),
            MessageKind::Read2 => self.read2_message.count_received(sender),
            MessageKind::Read2Ack => self.read2_ack_message.count_received(sender),
        }
    }
}

/// What soundness asks of each role, with the nodes 1 to `n` written out: the
/// node is not both reader and writer, a writer heard write acknowledgements
/// from each of the nodes 1 to `n` and from no other, a reader heard both first-
/// and second-phase read acknowledgements from exactly those nodes, and a node
/// heard no acknowledgement of an operation it does not perform.
pub open spec fn sound_per_role(result: RunResult, n: int) -> bool {
    let writer = result.metadata.is_writer;
    let reader = result.metadata.is_reader;
    let write_acks = result.write_ack_message.nodes_received_from@;
    let read1_acks = result.read1_ack_message.nodes_received_from@;
    let read2_acks = result.read2_ack_message.nodes_received_from@;
    &&& !(writer && reader)
    &&& writer ==> forall|id: NodeId| write_acks.contains(id) <==> 1 <= id <= n
    &&& reader ==> forall|id: NodeId| read1_acks.contains(id) <==> 1 <= id <= n
    &&& reader ==> forall|id: NodeId| read2_acks.contains(id) <==> 1 <= id <= n
    &&& !writer ==> write_acks.is_empty()
    &&& !reader ==> read1_acks.is_empty()
    &&& !reader ==> read2_acks.is_empty()
}

/// A result is sound exactly when it meets what soundness asks of each role.
pub proof fn lemma_soundness_per_role(result: RunResult, n: int)
    ensures
        result.spec_is_sound(n) <==> sound_per_role(result, n),
{
    let all = Set::new(|id: NodeId| 1 <= id <= n);
    let write_acks = result.write_ack_message.nodes_received_from@;
    let read1_acks = result.read1_ack_message.nodes_received_from@;
    let read2_acks = result.read2_ack_message.nodes_received_from@;
    assert((forall|id: NodeId| write_acks.contains(id) <==> 1 <= id <= n) <==> write_acks == all) by {
        if forall|id: NodeId| write_acks.contains(id) <==> 1 <= id <= n {
            assert(write_acks =~= all);
        }
    }
    assert((forall|id: NodeId| read1_acks.contains(id) <==> 1 <= id <= n) <==> read1_acks == all) by {
        if forall|id: NodeId| read1_acks.contains(id) <==> 1 <= id <= n {
            assert(read1_acks =~= all);
        }
    }
    assert((forall|id: NodeId| read2_acks.contains(id) <==> 1 <= id <= n) <==> read2_acks == all) by {
        if forall|id: NodeId| read2_acks.contains(id) <==> 1 <= id <= n {
            assert(read2_acks =~= all);
        }
    }
}

/// The view of a `HashSet` is finite.
pub proof fn lemma_hash_set_finite(set: &HashSet<NodeId>)
    ensures
        set@.finite(),
{
    let keys = vstd::std_specs::hash::spec_hash_keys_iter(set).remaining().unref();
    vstd::seq_lib::seq_to_set_is_finite(keys);
}

/// The ids 1 to `n` form a finite set of `n` ids (none when `n` is not positive).
pub proof fn lemma_all_nodes_len(n: int)
    requires
        n < Int::MAX,
    ensures
        all_nodes(n).finite(),
        all_nodes(n).len() == if n > 0 { n } else { 0 },
    decreases if n > 0 { n } else { 0 },
{
    if n <= 0 {
        assert(all_nodes(n) =~= Set::<NodeId>::empty());
    } else {
        lemma_all_nodes_len(n - 1);
        assert(all_nodes(n) =~= all_nodes(n - 1).insert(n as NodeId));
    }
}

/// The first node, in the order of `results`, whose result is not sound for a
/// system of `number_of_nodes` nodes; `None` when all are sound.
pub fn first_unsound_node(results: &Vec<(NodeId, RunResult)>, number_of_nodes: Int) -> (node: Option<NodeId>)
    requires
        number_of_nodes < Int::MAX,
    ensures
        node is None <==> forall|i: int| 0 <= i < results@.len() ==> (#[trigger] results@[i]).1.spec_is_sound(number_of_nodes as int),
        node matches Some(id) ==> exists|i: int| {
            &&& 0 <= i < results@.len()
            &&& (#[trigger] results@[i]).0 == id
            &&& !results@[i].1.spec_is_sound(number_of_nodes as int)
            &&& forall|j: int| 0 <= j < i ==> (#[trigger] results@[j]).1.spec_is_sound(number_of_nodes as int)
        },
{
    let mut i: usize = 0;
    while i < results.len()
        invariant
            i <= results@.len(),
            number_of_nodes < Int::MAX,
            forall|j: int| 0 <= j < i ==> (#[trigger] results@[j]).1.spec_is_sound(number_of_nodes as int),
        decreases results@.len() - i,
    {
        let (node_id, result) = &results[i];
        if !result.is_sound(number_of_nodes) {
            return Some(*node_id);
        }
        i = i + 1;
    }
    None
}

} // verus!
