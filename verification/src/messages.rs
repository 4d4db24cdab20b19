use vstd::prelude::*;

use crate::text::starts_with;
use crate::types::{NodeId, Timestamp};

verus! {

/// Tells the receiver to adopt `value` if `timestamp` is newer than its own.
#[derive(Debug, PartialEq)]
pub struct WriteMessage<V> {
    pub sender: NodeId,
    pub timestamp: Timestamp,
    pub value: V,
}

/// Acknowledges the write message with timestamp `timestamp`.
#[derive(Debug, PartialEq)]
pub struct WriteAckMessage {
    pub sender: NodeId,
    pub timestamp: Timestamp,
}

/// Asks the receiver for its timestamp and value, in the first phase of a read.
#[derive(Debug, PartialEq)]
pub struct Read1Message {
    pub sender: NodeId,
    pub sequence_number: Timestamp,
}

/// Answers a first-phase read message with the sender's timestamp and value.
#[derive(Debug, PartialEq)]
pub struct Read1AckMessage<V> {
    pub sender: NodeId,
    pub timestamp: Timestamp,
    pub value: V,
    pub sequence_number: Timestamp,
}

/// Tells the receiver, in the second phase of a read, to adopt `value` if
/// `timestamp` is newer than its own.
#[derive(Debug, PartialEq)]
pub struct Read2Message<V> {
    pub sender: NodeId,
    pub timestamp: Timestamp,
    pub value: V,
    pub sequence_number: Timestamp,
}

/// Acknowledges a second-phase read message.
#[derive(Debug, PartialEq)]
pub struct Read2AckMessage {
    pub sender: NodeId,
    pub sequence_number: Timestamp,
}

/// The kinds of messages the nodes exchange.
#[derive(Debug, Clone, Copy, PartialEq, Eq)]
pub enum MessageKind {
    Write,
    WriteAck,
    Read1,
    Read1Ack,
    Read2,
    Read2Ack,
}

/// The text a serialized message of `kind` begins with: an object whose first
/// key is the kind's name.
pub open spec fn json_prefix(kind: MessageKind) -> Seq<char> {
    match kind {
        MessageKind::Write => "{\"WriteMessage\":"@,
        MessageKind::WriteAck => "{\"WriteAckMessage\":"@,
        MessageKind::Read1 => "{\"Read1Message\":"@,
        MessageKind::Read1Ack => "{\"Read1AckMessage\":"@,
        MessageKind::Read2 => "{\"Read2Message\":"@,
        MessageKind::Read2Ack => "{\"Read2AckMessage\":"@,
    }
}

/// `json` is the serialization of a message of `kind`, judged by how it begins.
pub open spec fn json_is_kind(json: Seq<char>, kind: MessageKind) -> bool {
    json_prefix(kind).is_prefix_of(json)
}

pub fn json_is_write_message(json: &str) -> (is_write: bool)
    ensures
        is_write == json_is_kind(json@, MessageKind::Write),
{
    starts_with(json, "{\"WriteMessage\":")
}

pub fn json_is_write_ack_message(json: &str) -> (is_write_ack: bool)
    ensures
        is_write_ack == json_is_kind(json@, MessageKind::WriteAck),
{
    starts_with(json, "{\"WriteAckMessage\":")
}

pub fn json_is_read1_message(json: &str) -> (is_read1: bool)
    ensures
        is_read1 == json_is_kind(json@, MessageKind::Read1),
{
    starts_with(json, "{\"Read1Message\":")
}

pub fn json_is_read1_ack_message(json: &str) -> (is_read1_ack: bool)
    ensures
        is_read1_ack == json_is_kind(json@, MessageKind::Read1Ack),
{
    starts_with(json, "{\"Read1AckMessage\":")
}

pub fn json_is_read2_message(json: &str) -> (is_read2: bool)
    ensures
        is_read2 == json_is_kind(json@, MessageKind::Read2),
{
    starts_with(json, "{\"Read2Message\":")
}

pub fn json_is_read2_ack_message(json: &str) -> (is_read2_ack: bool)
    ensures
        is_read2_ack == json_is_kind(json@, MessageKind::Read2Ack),
{
    starts_with(json, "{\"Read2AckMessage\":")
}

/// A serialized message is judged to be of at most one kind: no kind's prefix
/// is compatible with another's.
pub proof fn lemma_json_kinds_exclusive(json: Seq<char>, first: MessageKind, second: MessageKind)
    requires
        json_is_kind(json, first),
        json_is_kind(json, second),
    ensures
        first == second,
{
    reveal_strlit("{\"WriteMessage\":");
    reveal_strlit("{\"WriteAckMessage\":");
    reveal_strlit("{\"Read1Message\":");
    reveal_strlit("{\"Read1AckMessage\":");
    reveal_strlit("{\"Read2Message\":");
    reveal_strlit("{\"Read2AckMessage\":");
    let p1 = json_prefix(first);
    let p2 = json_prefix(second);
    assert(p1[2] == json[2] && p2[2] == json[2]);
    assert(p1[6] == json[6] && p2[6] == json[6]);
    assert(p1[7] == json[7] && p2[7] == json[7]);
}

/// The kind of the serialized message `json`, found by testing the kinds in the
/// order write, write ack, read1, read1 ack, read2, read2 ack; `None` when it is
/// of no kind.
pub fn message_kind(json: &str) -> (kind: Option<MessageKind>)
    ensures
        kind matches Some(k) ==> json_is_kind(json@, k),
        kind is None <==> forall|k: MessageKind| !json_is_kind(json@, k),
{
    if json_is_write_message(json) {
        Some(MessageKind::Write)
    } else if json_is_write_ack_message(json) {
        Some(MessageKind::WriteAck)
    } else if json_is_read1_message(json) {
        Some(MessageKind::Read1)
    } else if json_is_read1_ack_message(json) {
        Some(MessageKind::Read1Ack)
    } else if json_is_read2_message(json) {
        Some(MessageKind::Read2)
    } else if json_is_read2_ack_message(json) {
        Some(MessageKind::Read2Ack)
    } else {
        proof {
            assert forall|k: MessageKind| !json_is_kind(json@, k) by {
                match k {
                    MessageKind::Write => {},
                    MessageKind::WriteAck => {},
                    MessageKind::Read1 => {},
                    MessageKind::Read1Ack => {},
                    MessageKind::Read2 => {},
                    MessageKind::Read2Ack => {},
                }
            }
        }
        None
    }
}

/// The handlers a received serialized message is passed to, in order: the write
/// handler twice, then the write ack, read1, read1 ack, read2 and read2 ack
/// handlers, each only when `json` is of its kind.
pub open spec fn received_kinds(json: Seq<char>) -> Seq<MessageKind> {
    (if json_is_kind(json, MessageKind::Write) { seq![MessageKind::Write, MessageKind::Write] } else { Seq::empty() })
    + (if json_is_kind(json, MessageKind::WriteAck) { seq![MessageKind::WriteAck] } else { Seq::empty() })
    + (if json_is_kind(json, MessageKind::Read1) { seq![MessageKind::Read1] } else { Seq::empty() })
    + (if json_is_kind(json, MessageKind::Read1Ack) { seq![MessageKind::Read1Ack] } else { Seq::empty() })
    + (if json_is_kind(json, MessageKind::Read2) { seq![MessageKind::Read2] } else { Seq::empty() })
    + (if json_is_kind(json, MessageKind::Read2Ack) { seq![MessageKind::Read2Ack] } else { Seq::empty() })
}

/// A serialized message of a kind goes to that kind's handler and to no other:
/// a write message to the write handler twice, any other to its handler once.
pub proof fn lemma_received_kinds_of_a_kind(json: Seq<char>, kind: MessageKind)
    requires
        json_is_kind(json, kind),
    ensures
        received_kinds(json) == if kind == MessageKind::Write {
            seq![MessageKind::Write, MessageKind::Write]
        } else {
            seq![kind]
        },
{
    assert forall|k: MessageKind| k != kind implies !json_is_kind(json, k) by {
        if json_is_kind(json, k) {
            lemma_json_kinds_exclusive(json, k, kind);
        }
    }
    assert(!json_is_kind(json, MessageKind::Write) || kind == MessageKind::Write);
    assert(!json_is_kind(json, MessageKind::WriteAck) || kind == MessageKind::WriteAck);
    assert(!json_is_kind(json, MessageKind::Read1) || kind == MessageKind::Read1);
    assert(!json_is_kind(json, MessageKind::Read1Ack) || kind == MessageKind::Read1Ack);
    assert(!json_is_kind(json, MessageKind::Read2) || kind == MessageKind::Read2);
    assert(!json_is_kind(json, MessageKind::Read2Ack) || kind == MessageKind::Read2Ack);
    match kind {
        MessageKind::Write => {
            assert(received_kinds(json) =~= seq![MessageKind::Write, MessageKind::Write]);
        },
        _ => {
            assert(received_kinds(json) =~= seq![kind]);
        },
    }
}

/// A text of no message kind goes to no handler.
pub proof fn lemma_received_kinds_of_no_kind(json: Seq<char>)
    requires
        forall|k: MessageKind| !json_is_kind(json, k),
    ensures
        received_kinds(json).len() == 0,
{
    assert(!json_is_kind(json, MessageKind::Write));
    assert(!json_is_kind(json, MessageKind::WriteAck));
    assert(!json_is_kind(json, MessageKind::Read1));
    assert(!json_is_kind(json, MessageKind::Read1Ack));
    assert(!json_is_kind(json, MessageKind::Read2));
    assert(!json_is_kind(json, MessageKind::Read2Ack));
}

/// The handlers a received serialized message `json` is passed to, in order.
pub fn receivers_for_json(json: &str) -> (kinds: Vec<MessageKind>)
    ensures
        kinds@ == received_kinds(json@),
        forall|k: MessageKind| json_is_kind(json@, k) ==> kinds@ == if k == MessageKind::Write {
            seq![MessageKind::Write, MessageKind::Write]
        } else {
            seq![k]
        },
        (forall|k: MessageKind| !json_is_kind(json@, k)) ==> kinds@.len() == 0,
{
    proof {
        assert forall|k: MessageKind| json_is_kind(json@, k) implies received_kinds(json@) == if k == MessageKind::Write {
            seq![MessageKind::Write, MessageKind::Write]
        } else {
            seq![k]
        } by {
            lemma_received_kinds_of_a_kind(json@, k);
        }
        if forall|k: MessageKind| !json_is_kind(json@, k) {
            lemma_received_kinds_of_no_kind(json@);
        }
    }
    let mut kinds: Vec<MessageKind> = Vec::new();
    if json_is_write_message(json) {
        kinds.push(MessageKind::Write);
        kinds.push(MessageKind::Write);
    }
    if json_is_write_ack_message(json) {
        kinds.push(MessageKind::WriteAck);
    }
    if json_is_read1_message(json) {
        kinds.push(MessageKind::Read1);
    }
    if json_is_read1_ack_message(json) {
        kinds.push(MessageKind::Read1Ack);
    }
    if json_is_read2_message(json) {
        kinds.push(MessageKind::Read2);
    }
    if json_is_read2_ack_message(json) {
        kinds.push(MessageKind::Read2Ack);
    }
    assert(kinds@ =~= received_kinds(json@));
    kinds
}

} // verus!
