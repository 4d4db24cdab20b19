use std::collections::HashSet;

use vstd::prelude::*;

use crate::configuration_manager::{copy_node_ids, id_list};
use crate::messages::{
    json_is_kind, receivers_for_json, received_kinds, MessageKind,
    Read1AckMessage, Read1Message, Read2AckMessage, Read2Message, WriteAckMessage, WriteMessage,
};
use crate::quorum::{acknowledged, Quorum};
use crate::types::{Int, NodeId, Timestamp};

verus! {

/// One node of the ABD algorithm, which emulates a single-writer multi-reader
/// register over message passing. The node holds the newest timestamp and value
/// it knows of, and one quorum for each kind of access: writes, and the two
/// phases of a read. Each method takes one event (a client request or a received
/// message) and gives back what is to be sent; waiting for a quorum and sending
/// belong to the caller.
#[derive(Debug)]
pub struct AbdNode<V> {
    node_id: NodeId,
    node_ids: HashSet<NodeId>,
    timestamp: Timestamp,
    value: V,
    read1_sequence_number: Timestamp,
    read2_sequence_number: Timestamp,
    read_timestamp: Timestamp,
    read_value: V,
    write_quorum: Quorum,
    read1_quorum: Quorum,
    read2_quorum: Quorum,
}

/// The values a node can hold.
pub trait Value: Default + Clone {}

impl<V: Default + Clone> Value for V {}

impl<V> AbdNode<V> {
    /// The handlers a received serialized message is to be passed to, in order;
    /// a write message is handled twice.
    pub fn json_received(&self, json: &str) -> (kinds: Vec<MessageKind>)
        ensures
            kinds@ == received_kinds(json@),
            forall|k: MessageKind| json_is_kind(json@, k) ==> kinds@ == if k == MessageKind::Write {
                seq![MessageKind::Write, MessageKind::Write]
            } else {
                seq![k]
            },
            (forall|k: MessageKind| !json_is_kind(json@, k)) ==> kinds@.len() == 0,
    {
        receivers_for_json(json)
    }

    pub closed spec fn spec_node_id(&self) -> NodeId {
        self.node_id
    }

    /// The nodes of the system, to which the node's requests go.
    pub closed spec fn spec_node_ids(&self) -> Set<NodeId> {
        self.node_ids@
    }

    pub closed spec fn spec_timestamp(&self) -> Timestamp {
        self.timestamp
    }

    pub closed spec fn spec_value(&self) -> V {
        self.value
    }

    pub closed spec fn spec_read1_sequence_number(&self) -> Timestamp {
        self.read1_sequence_number
    }

    pub closed spec fn spec_read2_sequence_number(&self) -> Timestamp {
        self.read2_sequence_number
    }

    /// The timestamp the latest read wrote back.
    pub closed spec fn spec_read_timestamp(&self) -> Timestamp {
        self.read_timestamp
    }

    /// The value the latest read wrote back, which it returns.
    pub closed spec fn spec_read_value(&self) -> V {
        self.read_value
    }

    pub closed spec fn spec_write_quorum(&self) -> Quorum {
        self.write_quorum
    }

    pub closed spec fn spec_read1_quorum(&self) -> Quorum {
        self.read1_quorum
    }

    pub closed spec fn spec_read2_quorum(&self) -> Quorum {
        self.read2_quorum
    }

    /// The number of nodes each of the node's quorums counts a majority of.
    pub open spec fn spec_number_of_nodes(&self) -> Int {
        self.spec_write_quorum().spec_number_of_nodes()
    }

    /// The three quorums count majorities of the same number of nodes.
    pub open spec fn wf(&self) -> bool {
        &&& self.spec_read1_quorum().spec_number_of_nodes() == self.spec_number_of_nodes()
        &&& self.spec_read2_quorum().spec_number_of_nodes() == self.spec_number_of_nodes()
    }

    /// `self` and `other` differ at most in their timestamp and value.
    pub open spec fn same_except_register(&self, other: &Self) -> bool {
        &&& self.spec_node_id() == other.spec_node_id()
        &&& self.spec_node_ids() == other.spec_node_ids()
        &&& self.spec_read1_sequence_number() == other.spec_read1_sequence_number()
        &&& self.spec_read2_sequence_number() == other.spec_read2_sequence_number()
        &&& self.spec_read_timestamp() == other.spec_read_timestamp()
        &&& self.spec_read_value() == other.spec_read_value()
        &&& self.spec_write_quorum() == other.spec_write_quorum()
        &&& self.spec_read1_quorum() == other.spec_read1_quorum()
        &&& self.spec_read2_quorum() == other.spec_read2_quorum()
    }

    /// `new` holds what `old` adopts of a timestamp `ts` and value `value` it is
    /// told of: both when `ts` is newer than its own, else nothing.
    pub open spec fn adopted(old: &Self, new: &Self, ts: Timestamp, value: V) -> bool
        where V: Clone
    {
        if ts > old.spec_timestamp() {
            &&& new.spec_timestamp() == ts
            &&& cloned(value, new.spec_value())
        } else {
            &&& new.spec_timestamp() == old.spec_timestamp()
            &&& new.spec_value() == old.spec_value()
        }
    }

    /// The node's id.
    pub fn node_id(&self) -> (node_id: NodeId)
        ensures
            node_id == self.spec_node_id(),
    {
        self.node_id
    }

    /// The nodes of the system, to which the node's requests go.
    pub fn node_ids(&self) -> (node_ids: &HashSet<NodeId>)
        ensures
            node_ids@ == self.spec_node_ids(),
    {
        &self.node_ids
    }

    /// The nodes a request of the node is broadcast to: every node of the
    /// system, each once.
    pub fn receivers(&self) -> (receivers: Vec<NodeId>)
        ensures
            receivers@.to_set() == self.spec_node_ids(),
            receivers@.no_duplicates(),
    {
        id_list(&self.node_ids)
    }

    /// The timestamp the latest read wrote back, whose value it returns.
    pub fn read_timestamp(&self) -> (timestamp: Timestamp)
        ensures
            timestamp == self.spec_read_timestamp(),
    {
        self.read_timestamp
    }

    /// The newest timestamp the node knows of.
    pub fn timestamp(&self) -> (timestamp: Timestamp)
        ensures
            timestamp == self.spec_timestamp(),
    {
        self.timestamp
    }

    /// The value that goes with the node's timestamp.
    pub fn value(&self) -> (value: &V)
        ensures
            *value == self.spec_value(),
    {
        &self.value
    }

    /// The sequence number of the latest first-phase read.
    pub fn read1_sequence_number(&self) -> (sequence_number: Timestamp)
        ensures
            sequence_number == self.spec_read1_sequence_number(),
    {
        self.read1_sequence_number
    }

    /// The sequence number of the latest second-phase read.
    pub fn read2_sequence_number(&self) -> (sequence_number: Timestamp)
        ensures
            sequence_number == self.spec_read2_sequence_number(),
    {
        self.read2_sequence_number
    }

    /// The quorum of the write under way, if any.
    pub fn write_quorum(&self) -> (quorum: &Quorum)
        ensures
            *quorum == self.spec_write_quorum(),
    {
        &self.write_quorum
    }

    /// The quorum of the first phase of a read.
    pub fn read1_quorum(&self) -> (quorum: &Quorum)
        ensures
            *quorum == self.spec_read1_quorum(),
    {
        &self.read1_quorum
    }

    /// The quorum of the second phase of a read.
    pub fn read2_quorum(&self) -> (quorum: &Quorum)
        ensures
            *quorum == self.spec_read2_quorum(),
    {
        &self.read2_quorum
    }
}

impl<V: Value> AbdNode<V> {
    /// `node` is node `node_id` of the system of the nodes `node_ids` as it
    /// starts.
    pub open spec fn initial(node: Self, node_id: NodeId, node_ids: Set<NodeId>) -> bool {
        &&& node.wf()
        &&& node.spec_node_id() == node_id
        &&& node.spec_node_ids() == node_ids
        &&& node.spec_timestamp() == 0
        &&& call_ensures(V::default, (), node.spec_value())
        &&& node.spec_read1_sequence_number() == 0
        &&& node.spec_read2_sequence_number() == 0
        &&& node.spec_number_of_nodes() == node_ids.len() as Int
        &&& node.spec_write_quorum().spec_is_idle()
        &&& node.spec_read1_quorum().spec_is_idle()
        &&& node.spec_read2_quorum().spec_is_idle()
    }

    /// Node `node_id` of the system of the nodes `node_ids`, at timestamp 0
    /// with `V`'s default value, both sequence numbers 0 and all quorums idle,
    /// counting majorities of the number of nodes.
    pub fn new(node_id: NodeId, node_ids: &HashSet<NodeId>) -> (node: AbdNode<V>)
        ensures
            Self::initial(node, node_id, node_ids@),
    {
        let number_of_nodes = node_ids.len() as Int;
        AbdNode {
            node_id: node_id,
            node_ids: copy_node_ids(node_ids),
            timestamp: 0,
            value: V::default(),
            read1_sequence_number: 0,
            read2_sequence_number: 0,
            read_timestamp: 0,
            read_value: V::default(),
            write_quorum: Quorum::new(number_of_nodes),
            read1_quorum: Quorum::new(number_of_nodes),
            read2_quorum: Quorum::new(number_of_nodes),
        }
    }
}

impl<V: Clone> AbdNode<V> {
    /// `post` is `pre` after starting a write of `value`, which sent `message`.
    pub open spec fn wrote(pre: Self, post: Self, value: V, message: WriteMessage<V>) -> bool {
        &&& post.spec_timestamp() == pre.spec_timestamp() + 1
        &&& post.spec_value() == value
        &&& post.spec_write_quorum().spec_accessing()
        &&& post.spec_write_quorum().spec_acking_nodes().is_empty()
        &&& post.spec_write_quorum().spec_number_of_nodes() == pre.spec_write_quorum().spec_number_of_nodes()
        &&& post.spec_node_id() == pre.spec_node_id()
        &&& post.spec_node_ids() == pre.spec_node_ids()
        &&& post.spec_read1_sequence_number() == pre.spec_read1_sequence_number()
        &&& post.spec_read2_sequence_number() == pre.spec_read2_sequence_number()
        &&& post.spec_read_timestamp() == pre.spec_read_timestamp()
        &&& post.spec_read_value() == pre.spec_read_value()
        &&& post.spec_read1_quorum() == pre.spec_read1_quorum()
        &&& post.spec_read2_quorum() == pre.spec_read2_quorum()
        &&& message.sender == pre.spec_node_id()
        &&& message.timestamp == post.spec_timestamp()
        &&& cloned(value, message.value)
    }

    /// `post` is `pre` after handling `write_message`, answered with `ack`.
    pub open spec fn answered_write(pre: Self, post: Self, write_message: WriteMessage<V>, ack: WriteAckMessage) -> bool {
        &&& Self::adopted(&pre, &post, write_message.timestamp, write_message.value)
        &&& post.same_except_register(&pre)
        &&& ack.sender == pre.spec_node_id()
        &&& ack.timestamp == write_message.timestamp
    }

    /// `post` is `pre` after handling `write_ack_message`, which `completed` the write or not.
    pub open spec fn took_write_ack(pre: Self, post: Self, write_ack_message: WriteAckMessage, completed: bool) -> bool {
        &&& acknowledged(
            pre.spec_write_quorum(),
            post.spec_write_quorum(),
            write_ack_message.timestamp == pre.spec_timestamp() && pre.spec_write_quorum().spec_accessing(),
            write_ack_message.sender,
            completed,
        )
        &&& post.spec_timestamp() == pre.spec_timestamp()
        &&& post.spec_value() == pre.spec_value()
        &&& post.spec_node_id() == pre.spec_node_id()
        &&& post.spec_node_ids() == pre.spec_node_ids()
        &&& post.spec_read1_sequence_number() == pre.spec_read1_sequence_number()
        &&& post.spec_read2_sequence_number() == pre.spec_read2_sequence_number()
        &&& post.spec_read_timestamp() == pre.spec_read_timestamp()
        &&& post.spec_read_value() == pre.spec_read_value()
        &&& post.spec_read1_quorum() == pre.spec_read1_quorum()
        &&& post.spec_read2_quorum() == pre.spec_read2_quorum()
    }

    /// `post` is `pre` after starting a read, which sent `message`.
    pub open spec fn started_read(pre: Self, post: Self, message: Read1Message) -> bool {
        &&& post.spec_read1_sequence_number() == pre.spec_read1_sequence_number() + 1
        &&& post.spec_read1_quorum().spec_accessing()
        &&& post.spec_read1_quorum().spec_acking_nodes().is_empty()
        &&& post.spec_read1_quorum().spec_number_of_nodes() == pre.spec_read1_quorum().spec_number_of_nodes()
        &&& post.spec_timestamp() == pre.spec_timestamp()
        &&& post.spec_value() == pre.spec_value()
        &&& post.spec_node_id() == pre.spec_node_id()
        &&& post.spec_node_ids() == pre.spec_node_ids()
        &&& post.spec_read2_sequence_number() == pre.spec_read2_sequence_number()
        &&& post.spec_read_timestamp() == pre.spec_read_timestamp()
        &&& post.spec_read_value() == pre.spec_read_value()
        &&& post.spec_write_quorum() == pre.spec_write_quorum()
        &&& post.spec_read2_quorum() == pre.spec_read2_quorum()
        &&& message.sender == pre.spec_node_id()
        &&& message.sequence_number == post.spec_read1_sequence_number()
    }

    /// `post` is `pre` after starting the second phase of a read, which sent `message`.
    pub open spec fn started_read_phase2(pre: Self, post: Self, message: Read2Message<V>) -> bool {
        &&& post.spec_read2_sequence_number() == pre.spec_read2_sequence_number() + 1
        &&& post.spec_read_timestamp() == pre.spec_timestamp()
        &&& cloned(pre.spec_value(), post.spec_read_value())
        &&& post.spec_read2_quorum().spec_accessing()
        &&& post.spec_read2_quorum().spec_acking_nodes() == pre.spec_read2_quorum().spec_acking_nodes()
        &&& post.spec_read2_quorum().spec_number_of_nodes() == pre.spec_read2_quorum().spec_number_of_nodes()
        &&& post.spec_timestamp() == pre.spec_timestamp()
        &&& post.spec_value() == pre.spec_value()
        &&& post.spec_node_id() == pre.spec_node_id()
        &&& post.spec_node_ids() == pre.spec_node_ids()
        &&& post.spec_read1_sequence_number() == pre.spec_read1_sequence_number()
        &&& post.spec_write_quorum() == pre.spec_write_quorum()
        &&& post.spec_read1_quorum() == pre.spec_read1_quorum()
        &&& message.sender == pre.spec_node_id()
        &&& message.timestamp == pre.spec_timestamp()
        &&& cloned(pre.spec_value(), message.value)
        &&& message.sequence_number == post.spec_read2_sequence_number()
    }

    /// `node` answers `read1_message` with `ack`.
    pub open spec fn answered_read1(node: Self, read1_message: Read1Message, ack: Read1AckMessage<V>) -> bool {
        &&& ack.sender == node.spec_node_id()
        &&& ack.timestamp == node.spec_timestamp()
        &&& cloned(node.spec_value(), ack.value)
        &&& ack.sequence_number == read1_message.sequence_number
    }

    /// `post` is `pre` after handling `read1_ack_message`, which `completed` the first phase or not.
    pub open spec fn took_read1_ack(pre: Self, post: Self, read1_ack_message: Read1AckMessage<V>, completed: bool) -> bool {
        &&& ({
            let counts = read1_ack_message.sequence_number == pre.spec_read1_sequence_number()
                && pre.spec_read1_quorum().spec_accessing();
            &&& acknowledged(
                pre.spec_read1_quorum(),
                post.spec_read1_quorum(),
                counts,
                read1_ack_message.sender,
                completed,
            )
            &&& counts ==> Self::adopted(&pre, &post, read1_ack_message.timestamp, read1_ack_message.value)
            &&& !counts ==> post.spec_timestamp() == pre.spec_timestamp()
                && post.spec_value() == pre.spec_value()
        })
        &&& post.spec_node_id() == pre.spec_node_id()
        &&& post.spec_node_ids() == pre.spec_node_ids()
        &&& post.spec_read1_sequence_number() == pre.spec_read1_sequence_number()
        &&& post.spec_read2_sequence_number() == pre.spec_read2_sequence_number()
        &&& post.spec_read_timestamp() == pre.spec_read_timestamp()
        &&& post.spec_read_value() == pre.spec_read_value()
        &&& post.spec_write_quorum() == pre.spec_write_quorum()
        &&& post.spec_read2_quorum() == pre.spec_read2_quorum()
    }

    /// `post` is `pre` after handling `read2_message`, answered with `ack`.
    pub open spec fn answered_read2(pre: Self, post: Self, read2_message: Read2Message<V>, ack: Read2AckMessage) -> bool {
        &&& Self::adopted(&pre, &post, read2_message.timestamp, read2_message.value)
        &&& post.same_except_register(&pre)
        &&& ack.sender == pre.spec_node_id()
        &&& ack.sequence_number == read2_message.sequence_number
    }

    /// `post` is `pre` after handling `read2_ack_message`, which `completed` the read or not.
    pub open spec fn took_read2_ack(pre: Self, post: Self, read2_ack_message: Read2AckMessage, completed: bool) -> bool {
        &&& acknowledged(
            pre.spec_read2_quorum(),
            post.spec_read2_quorum(),
            read2_ack_message.sequence_number == pre.spec_read2_sequence_number()
                && pre.spec_read2_quorum().spec_accessing(),
            read2_ack_message.sender,
            completed,
        )
        &&& post.spec_timestamp() == pre.spec_timestamp()
        &&& post.spec_value() == pre.spec_value()
        &&& post.spec_node_id() == pre.spec_node_id()
        &&& post.spec_node_ids() == pre.spec_node_ids()
        &&& post.spec_read1_sequence_number() == pre.spec_read1_sequence_number()
        &&& post.spec_read2_sequence_number() == pre.spec_read2_sequence_number()
        &&& post.spec_read_timestamp() == pre.spec_read_timestamp()
        &&& post.spec_read_value() == pre.spec_read_value()
        &&& post.spec_write_quorum() == pre.spec_write_quorum()
        &&& post.spec_read1_quorum() == pre.spec_read1_quorum()
    }
}

impl<V: Clone> AbdNode<V> {
    //
    // Write, client side
    //

    /// Starts a write of `value`: the node takes the next timestamp and the
    /// value, opens the write quorum, and returns the write message to send to
    /// every node. The write is over once `receive_write_ack_message` reports
    /// that a majority acknowledged it.
    pub fn write(&mut self, value: V) -> (message: WriteMessage<V>)
        requires
            old(self).spec_write_quorum().spec_is_idle(),
            old(self).spec_timestamp() < Timestamp::MAX,
        ensures
            Self::wrote(*old(self), *final(self), value, message),
    {
        self.update_local_timestamp_and_value(value);
        let message = self.construct_write_message();
        self.write_quorum.start_access();
        message
    }

    /// Takes the next timestamp and `new_value`.
    pub fn update_local_timestamp_and_value(&mut self, new_value: V)
        requires
            old(self).spec_timestamp() < Timestamp::MAX,
        ensures
            final(self).spec_timestamp() == old(self).spec_timestamp() + 1,
            final(self).spec_value() == new_value,
            final(self).same_except_register(old(self)),
    {
        self.timestamp = self.timestamp + 1;
        self.value = new_value;
    }

    /// The write message for the node's timestamp and value.
    pub fn construct_write_message(&self) -> (message: WriteMessage<V>)
        ensures
            message.sender == self.spec_node_id(),
            message.timestamp == self.spec_timestamp(),
            cloned(self.spec_value(), message.value),
    {
        WriteMessage { sender: self.node_id, timestamp: self.timestamp, value: self.value.clone() }
    }

    //
    // Write, server side
    //

    /// Handles a write message: adopts its timestamp and value if newer, and
    /// returns the acknowledgement to send back to its sender.
    pub fn receive_write_message(&mut self, write_message: &WriteMessage<V>) -> (ack: WriteAckMessage)
        ensures
            Self::answered_write(*old(self), *final(self), *write_message, ack),
    {
        self.update_local_timestamp_and_value_from_message(write_message.timestamp, &write_message.value);
        self.construct_write_ack_message(write_message.timestamp)
    }

    /// Adopts `timestamp` and `value` if `timestamp` is newer than the node's.
    pub fn update_local_timestamp_and_value_from_message(&mut self, timestamp: Timestamp, value: &V)
        ensures
            Self::adopted(old(self), final(self), timestamp, *value),
            final(self).same_except_register(old(self)),
    {
        if timestamp > self.timestamp {
            self.timestamp = timestamp;
            self.value = value.clone();
        }
    }

    /// The acknowledgement of the write message with `timestamp`.
    pub fn construct_write_ack_message(&self, timestamp: Timestamp) -> (ack: WriteAckMessage)
        ensures
            ack.sender == self.spec_node_id(),
            ack.timestamp == timestamp,
    {
        WriteAckMessage { sender: self.node_id, timestamp: timestamp }
    }

    /// Handles a write acknowledgement. It counts only when a write is under way
    /// and it acknowledges the node's current timestamp; then its sender joins
    /// the write quorum. Returns whether that completed the write, which then
    /// leaves the write quorum idle.
    pub fn receive_write_ack_message(&mut self, write_ack_message: &WriteAckMessage) -> (completed: bool)
        ensures
            Self::took_write_ack(*old(self), *final(self), *write_ack_message, completed),
    {
        let accessing = self.write_quorum.accessing();
        if write_ack_message.timestamp == self.timestamp && accessing {
            self.write_quorum.insert_node_to_acking_nodes(write_ack_message.sender);
            self.write_quorum.notify_if_has_ack_from_majority()
        } else {
            false
        }
    }
}

impl<V: Clone> AbdNode<V> {
    //
    // Read, client side
    //

    /// Starts a read with its first phase: takes the next first-phase sequence
    /// number, opens the first-phase quorum, and returns the message asking every
    /// node for its timestamp and value. Once `receive_read1_ack_message`
    /// reports the phase complete, `read_phase2` starts the second phase.
    pub fn read(&mut self) -> (message: Read1Message)
        requires
            old(self).spec_read1_quorum().spec_is_idle(),
            old(self).spec_read2_quorum().spec_is_idle(),
            old(self).spec_read1_sequence_number() < Timestamp::MAX,
        ensures
            Self::started_read(*old(self), *final(self), message),
    {
        self.read_phase1()
    }

    /// Starts the first phase of a read.
    pub fn read_phase1(&mut self) -> (message: Read1Message)
        requires
            old(self).spec_read1_sequence_number() < Timestamp::MAX,
        ensures
            final(self).spec_read1_sequence_number() == old(self).spec_read1_sequence_number() + 1,
            final(self).spec_read1_quorum().spec_accessing(),
            final(self).spec_read1_quorum().spec_acking_nodes() == old(self).spec_read1_quorum().spec_acking_nodes(),
            final(self).spec_read1_quorum().spec_number_of_nodes() == old(self).spec_read1_quorum().spec_number_of_nodes(),
            final(self).spec_timestamp() == old(self).spec_timestamp(),
            final(self).spec_value() == old(self).spec_value(),
            final(self).spec_node_id() == old(self).spec_node_id(),
            final(self).spec_node_ids() == old(self).spec_node_ids(),
            final(self).spec_read2_sequence_number() == old(self).spec_read2_sequence_number(),
            final(self).spec_read_timestamp() == old(self).spec_read_timestamp(),
            final(self).spec_read_value() == old(self).spec_read_value(),
            final(self).spec_write_quorum() == old(self).spec_write_quorum(),
            final(self).spec_read2_quorum() == old(self).spec_read2_quorum(),
            message.sender == old(self).spec_node_id(),
            message.sequence_number == final(self).spec_read1_sequence_number(),
    {
        let message = self.construct_read1_message();
        self.read1_quorum.start_access();
        message
    }

    /// Takes the next first-phase sequence number and returns the message of it.
    pub fn construct_read1_message(&mut self) -> (message: Read1Message)
        requires
            old(self).spec_read1_sequence_number() < Timestamp::MAX,
        ensures
            final(self).spec_read1_sequence_number() == old(self).spec_read1_sequence_number() + 1,
            final(self).spec_timestamp() == old(self).spec_timestamp(),
            final(self).spec_value() == old(self).spec_value(),
            final(self).spec_node_id() == old(self).spec_node_id(),
            final(self).spec_node_ids() == old(self).spec_node_ids(),
            final(self).spec_read2_sequence_number() == old(self).spec_read2_sequence_number(),
            final(self).spec_read_timestamp() == old(self).spec_read_timestamp(),
            final(self).spec_read_value() == old(self).spec_read_value(),
            final(self).spec_write_quorum() == old(self).spec_write_quorum(),
            final(self).spec_read1_quorum() == old(self).spec_read1_quorum(),
            final(self).spec_read2_quorum() == old(self).spec_read2_quorum(),
            message.sender == old(self).spec_node_id(),
            message.sequence_number == final(self).spec_read1_sequence_number(),
    {
        self.read1_sequence_number = self.read1_sequence_number + 1;
        Read1Message { sender: self.node_id, sequence_number: self.read1_sequence_number }
    }

    /// Starts the second phase of a read: takes the next second-phase sequence
    /// number, opens the second-phase quorum, and returns the message telling
    /// every node the node's timestamp and value. Once
    /// `receive_read2_ack_message` reports the phase complete, `read_result` is
    /// the value read.
    pub fn read_phase2(&mut self) -> (message: Read2Message<V>)
        requires
            old(self).spec_read2_sequence_number() < Timestamp::MAX,
        ensures
            Self::started_read_phase2(*old(self), *final(self), message),
    {
        let message = self.construct_read2_message();
        self.read2_quorum.start_access();
        message
    }

    /// Takes the next second-phase sequence number and returns the message of it,
    /// carrying the node's timestamp and value.
    pub fn construct_read2_message(&mut self) -> (message: Read2Message<V>)
        requires
            old(self).spec_read2_sequence_number() < Timestamp::MAX,
        ensures
            final(self).spec_read2_sequence_number() == old(self).spec_read2_sequence_number() + 1,
            final(self).spec_read_timestamp() == old(self).spec_timestamp(),
            cloned(old(self).spec_value(), final(self).spec_read_value()),
            final(self).spec_timestamp() == old(self).spec_timestamp(),
            final(self).spec_value() == old(self).spec_value(),
            final(self).spec_node_id() == old(self).spec_node_id(),
            final(self).spec_node_ids() == old(self).spec_node_ids(),
            final(self).spec_read1_sequence_number() == old(self).spec_read1_sequence_number(),
            final(self).spec_write_quorum() == old(self).spec_write_quorum(),
            final(self).spec_read1_quorum() == old(self).spec_read1_quorum(),
            final(self).spec_read2_quorum() == old(self).spec_read2_quorum(),
            message.sender == old(self).spec_node_id(),
            message.timestamp == old(self).spec_timestamp(),
            cloned(old(self).spec_value(), message.value),
            message.sequence_number == final(self).spec_read2_sequence_number(),
    {
        self.read2_sequence_number = self.read2_sequence_number + 1;
        self.read_timestamp = self.timestamp;
        self.read_value = self.value.clone();
        Read2Message {
            sender: self.node_id,
            timestamp: self.timestamp,
            value: self.value.clone(),
            sequence_number: self.read2_sequence_number,
        }
    }

    /// The value a completed read returns: the value its second phase wrote
    /// back to a majority.
    pub fn read_result(&self) -> (value: V)
        ensures
            cloned(self.spec_read_value(), value),
    {
        self.read_value.clone()
    }

    //
    // Read, server side
    //

    /// Handles a first-phase read message: returns the answer to send back to
    /// its sender, carrying the node's timestamp and value.
    pub fn receive_read1_message(&self, read1_message: &Read1Message) -> (ack: Read1AckMessage<V>)
        ensures
            Self::answered_read1(*self, *read1_message, ack),
    {
        self.construct_read1_ack_message(read1_message.sequence_number)
    }

    /// The answer to the first-phase read message with `sequence_number`.
    pub fn construct_read1_ack_message(&self, sequence_number: Timestamp) -> (ack: Read1AckMessage<V>)
        ensures
            ack.sender == self.spec_node_id(),
            ack.timestamp == self.spec_timestamp(),
            cloned(self.spec_value(), ack.value),
            ack.sequence_number == sequence_number,
    {
        Read1AckMessage {
            sender: self.node_id,
            timestamp: self.timestamp,
            value: self.value.clone(),
            sequence_number: sequence_number,
        }
    }

    /// Handles an answer to a first-phase read message. It counts only when the
    /// first phase is under way and it answers the current sequence number; then
    /// the node adopts its timestamp and value if newer, and its sender joins
    /// the first-phase quorum. Returns whether that completed the phase.
    pub fn receive_read1_ack_message(&mut self, read1_ack_message: &Read1AckMessage<V>) -> (completed: bool)
        ensures
            Self::took_read1_ack(*old(self), *final(self), *read1_ack_message, completed),
    {
        let accessing = self.read1_quorum.accessing();
        if read1_ack_message.sequence_number == self.read1_sequence_number && accessing {
            self.update_local_timestamp_and_value_from_message(read1_ack_message.timestamp, &read1_ack_message.value);
            self.read1_quorum.insert_node_to_acking_nodes(read1_ack_message.sender);
            self.read1_quorum.notify_if_has_ack_from_majority()
        } else {
            false
        }
    }

    /// Handles a second-phase read message: adopts its timestamp and value if
    /// newer, and returns the acknowledgement to send back to its sender.
    pub fn receive_read2_message(&mut self, read2_message: &Read2Message<V>) -> (ack: Read2AckMessage)
        ensures
            Self::answered_read2(*old(self), *final(self), *read2_message, ack),
    {
        self.update_local_timestamp_and_value_from_message(read2_message.timestamp, &read2_message.value);
        self.construct_read2_ack_message(read2_message.sequence_number)
    }

    /// The acknowledgement of the second-phase read message with `sequence_number`.
    pub fn construct_read2_ack_message(&self, sequence_number: Timestamp) -> (ack: Read2AckMessage)
        ensures
            ack.sender == self.spec_node_id(),
            ack.sequence_number == sequence_number,
    {
        Read2AckMessage { sender: self.node_id, sequence_number: sequence_number }
    }

    /// Handles an acknowledgement of a second-phase read message. It counts only
    /// when the second phase is under way and it acknowledges the current
    /// sequence number; then its sender joins the second-phase quorum. Returns
    /// whether that completed the phase, and with it the read.
    pub fn receive_read2_ack_message(&mut self, read2_ack_message: &Read2AckMessage) -> (completed: bool)
        ensures
            Self::took_read2_ack(*old(self), *final(self), *read2_ack_message, completed),
    {
        let accessing = self.read2_quorum.accessing();
        if read2_ack_message.sequence_number == self.read2_sequence_number && accessing {
            self.read2_quorum.insert_node_to_acking_nodes(read2_ack_message.sender);
            self.read2_quorum.notify_if_has_ack_from_majority()
        } else {
            false
        }
    }
}

/// A node never goes back in time: adopting a timestamp and value leaves it at
/// the newer of its own timestamp and the one it was told of, and its value
/// changes only along with its timestamp.
pub proof fn lemma_adopting_keeps_the_newest<V: Clone>(old: &AbdNode<V>, new: &AbdNode<V>, ts: Timestamp, value: V)
    requires
        AbdNode::adopted(old, new, ts, value),
    ensures
        new.spec_timestamp() >= old.spec_timestamp(),
        new.spec_timestamp() >= ts,
        new.spec_timestamp() == old.spec_timestamp() || new.spec_timestamp() == ts,
        new.spec_timestamp() == old.spec_timestamp() ==> new.spec_value() == old.spec_value(),
{
}

} // verus!
