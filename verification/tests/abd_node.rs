use std::collections::HashSet;

use distributed_swmr_registers::abd_node::AbdNode;
use distributed_swmr_registers::messages::{MessageKind, WriteAckMessage, WriteMessage};
use distributed_swmr_registers::quorum::after_quorum_wait;
use distributed_swmr_registers::types::NodeId;

fn node_ids_for_tests() -> HashSet<NodeId> {
    let mut node_ids = HashSet::new();
    node_ids.insert(1);
    node_ids.insert(2);
    node_ids.insert(3);
    node_ids.insert(4);
    node_ids
}

fn create_node() -> AbdNode<String> {
    let node_id = 1;
    AbdNode::new(node_id, &node_ids_for_tests())
}

/// Starts a write of "Haskell" and delivers acknowledgements from `node_ids`;
/// returns the node, the write message, and whether the write completed.
fn perform_write_and_ack_from_node_ids(node_ids: HashSet<NodeId>) -> (AbdNode<String>, WriteMessage<String>, bool) {
    let mut node = create_node();
    let write_message = node.write("Haskell".to_string());
    let completed = send_write_ack_message_from_node_ids(&mut node, node_ids);
    (node, write_message, completed)
}

/// The serialized form of a write message, as the nodes send it.
fn write_message_json(message: &WriteMessage<String>) -> String {
    format!(
        "{{\"WriteMessage\":{},\"timestamp\":{},\"value\":{}}}",
        message.sender,
        message.timestamp,
        serde_json::to_string(&message.value).unwrap()
    )
}

/// The serialized form of a write acknowledgement, as the nodes send it.
fn write_ack_message_json(message: &WriteAckMessage) -> String {
    format!("{{\"WriteAckMessage\":{},\"timestamp\":{}}}", message.sender, message.timestamp)
}

/// Hands a received serialized message to the node: `json_received` names the
/// handlers, and each gets the message read back from the JSON. Returns whether
/// a handler reported a completed write.
fn deliver_json(node: &mut AbdNode<String>, json: &str) -> bool {
    let fields: serde_json::Value = serde_json::from_str(json).unwrap();
    let mut completed = false;
    for kind in node.json_received(json) {
        match kind {
            MessageKind::Write => {
                let message = WriteMessage {
                    sender: fields["WriteMessage"].as_i64().unwrap() as NodeId,
                    timestamp: fields["timestamp"].as_i64().unwrap() as i32,
                    value: fields["value"].as_str().unwrap().to_string(),
                };
                node.receive_write_message(&message);
            },
            MessageKind::WriteAck => {
                let message = WriteAckMessage {
                    sender: fields["WriteAckMessage"].as_i64().unwrap() as NodeId,
                    timestamp: fields["timestamp"].as_i64().unwrap() as i32,
                };
                completed = node.receive_write_ack_message(&message) || completed;
            },
            _ => panic!("unexpected message kind"),
        }
    }
    completed
}

/// The write messages a write sends: the first broadcast to the node's
/// receivers, then one more broadcast after each of `timed_out_waits` waits that
/// timed out, for as long as the write is under way.
fn write_with_timed_out_waits(node: &mut AbdNode<String>, timed_out_waits: usize) -> Vec<(NodeId, String)> {
    let message = node.write("Haskell".to_string());
    let json = write_message_json(&message);
    let mut sent: Vec<(NodeId, String)> = node.receivers().into_iter().map(|id| (id, json.clone())).collect();
    for _ in 0..timed_out_waits {
        let next = after_quorum_wait(node.write_quorum().accessing(), true);
        if next.resend {
            sent.extend(node.receivers().into_iter().map(|id| (id, json.clone())));
        }
        if !next.keep_waiting {
            break;
        }
    }
    sent
}

fn send_write_ack_message_from_node_ids(node: &mut AbdNode<String>, node_ids: HashSet<NodeId>) -> bool {
    let timestamp = node.timestamp();
    let mut completed = false;
    let mut ids: Vec<NodeId> = node_ids.into_iter().collect();
    ids.sort();
    for node_id in ids {
        let write_ack_message = WriteAckMessage { sender: node_id, timestamp: timestamp };
        completed = deliver_json(node, &write_ack_message_json(&write_ack_message)) || completed;
    }
    completed
}
#[test]
fn test_that_value_is_default() {
    let node = create_node();
    assert_eq!(*node.value(), String::default());
}

#[test]
fn test_that_timestamp_is_0() {
    let node = create_node();
    assert_eq!(node.timestamp(), 0);
}

#[test]
fn test_that_read1_sequence_number_is_0() {
    let node = create_node();
    assert_eq!(node.read1_sequence_number(), 0);
}

#[test]
fn test_that_read2_sequence_number_is_0() {
    let node = create_node();
    assert_eq!(node.read2_sequence_number(), 0);
}

#[test]
fn test_that_quorums_are_idle() {
    let node = create_node();

    assert!(node.write_quorum().is_idle());
    assert!(node.read1_quorum().is_idle());
    assert!(node.read2_quorum().is_idle());
}

#[test]
fn test_that_write_sends_correct_write_messages() {
    let (node, write_message, _) = perform_write_and_ack_from_node_ids(node_ids_for_tests());
    let expected_write_message = WriteMessage {
        sender: node.node_id(),
        timestamp: node.timestamp(),
        value: node.value().clone(),
    };

    assert_eq!(write_message, expected_write_message);
}

#[test]
fn test_that_write_sends_write_messages_to_the_correct_nodes() {
    let mut node = create_node();
    let sent = write_with_timed_out_waits(&mut node, 0);
    let receivers: HashSet<NodeId> = sent.iter().map(|(id, _)| *id).collect();
    assert_eq!(receivers, node_ids_for_tests());
    assert_eq!(sent.len(), node_ids_for_tests().len());
    assert!(sent.iter().all(|(_, json)| json.starts_with("{\"WriteMessage\":1,")));
}

#[test]
fn test_that_write_terminates() {
    let (node, _, completed) = perform_write_and_ack_from_node_ids(node_ids_for_tests());
    assert!(completed);
    assert!(node.write_quorum().is_idle());
}

#[test]
fn test_that_write_terminates_even_if_not_all_nodes_ack() {
    let mut node_ids = HashSet::new();
    node_ids.insert(1);
    node_ids.insert(2);
    node_ids.insert(3);

    let (node, _, completed) = perform_write_and_ack_from_node_ids(node_ids);
    assert!(completed);
    assert!(node.write_quorum().is_idle());
}

/// Waits that time out until more than three rounds of write messages went
/// out; the write must still be under way then.
fn check_that_write_fails(node: &mut AbdNode<String>, sent: &mut Vec<(NodeId, String)>, json: &str) {
    while sent.len() <= node_ids_for_tests().len() * 3 {
        let next = after_quorum_wait(node.write_quorum().accessing(), true);
        assert!(next.resend);
        assert!(next.keep_waiting);
        sent.extend(node.receivers().into_iter().map(|id| (id, json.to_string())));
    }
    assert!(node.write_quorum().accessing());
}

#[test]
fn test_that_write_does_not_terminate_without_acks() {
    let mut node = create_node();
    let mut sent = write_with_timed_out_waits(&mut node, 0);
    let json = sent[0].1.clone();

    check_that_write_fails(&mut node, &mut sent, &json);
}

#[test]
fn test_that_write_does_not_terminate_without_acks_from_majority() {
    let mut node = create_node();
    let mut sent = write_with_timed_out_waits(&mut node, 0);
    let json = sent[0].1.clone();

    let mut node_ids = HashSet::new();
    node_ids.insert(2);
    node_ids.insert(3);
    let completed = send_write_ack_message_from_node_ids(&mut node, node_ids);
    assert!(!completed);

    check_that_write_fails(&mut node, &mut sent, &json);
}

#[test]
fn write_stops_resending_once_a_majority_acknowledged() {
    let mut node = create_node();
    let message = node.write("Haskell".to_string());
    for id in [1, 2, 3] {
        deliver_json(&mut node, &write_ack_message_json(&WriteAckMessage { sender: id, timestamp: message.timestamp }));
    }
    let next = after_quorum_wait(node.write_quorum().accessing(), false);
    assert!(!next.keep_waiting);
    assert!(!next.resend);
}

#[test]
fn test_that_local_timestamp_and_value_are_updated_correctly_on_write() {
    let mut node = create_node();
    node.write("Haskell".to_string());

    assert_eq!(node.timestamp(), 1);
    assert_eq!(node.value(), "Haskell");
}

/// A node at timestamp 20 with the default value.
fn node_at_timestamp_20() -> AbdNode<String> {
    let mut node = create_node();
    let setup = WriteMessage { sender: 2, timestamp: 20, value: String::default() };
    deliver_json(&mut node, &write_message_json(&setup));
    assert_eq!(node.timestamp(), 20);
    node
}

#[test]
fn test_that_a_write_message_updates_local_timestamp_and_value_if_greater() {
    let mut node = node_at_timestamp_20();

    let write_message = WriteMessage { sender: 2, timestamp: 30, value: "Rust".to_string() };
    deliver_json(&mut node, &write_message_json(&write_message));

    assert_eq!(node.timestamp(), 30);
    assert_eq!(*node.value(), "Rust".to_string());
}

#[test]
fn test_that_a_write_message_does_not_updates_local_timestamp_and_value_if_equal() {
    let mut node = node_at_timestamp_20();

    let write_message = WriteMessage { sender: 2, timestamp: 20, value: "Rust".to_string() };
    deliver_json(&mut node, &write_message_json(&write_message));

    assert_eq!(node.timestamp(), 20);
    assert_eq!(*node.value(), "".to_string());
}

#[test]
fn test_that_a_write_message_does_not_updates_local_timestamp_and_value_if_smaller() {
    let mut node = node_at_timestamp_20();

    let write_message = WriteMessage { sender: 2, timestamp: 3, value: "Rust".to_string() };
    deliver_json(&mut node, &write_message_json(&write_message));

    assert_eq!(node.timestamp(), 20);
    assert_eq!(*node.value(), "".to_string());
}
