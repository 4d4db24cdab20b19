use std::collections::HashSet;

use distributed_swmr_registers::abd_node::AbdNode;
use distributed_swmr_registers::messages::{
    json_is_read1_ack_message, json_is_read1_message, json_is_read2_ack_message, json_is_read2_message,
    json_is_write_ack_message, json_is_write_message, message_kind, receivers_for_json, MessageKind,
    Read1AckMessage, Read1Message, Read2AckMessage, Read2Message, WriteAckMessage, WriteMessage,
};
use distributed_swmr_registers::quorum::Quorum;
use distributed_swmr_registers::types::NodeId;

fn node_ids(n: NodeId) -> HashSet<NodeId> {
    (1..=n).collect()
}

#[test]
fn majority_sizes() {
    assert_eq!(Quorum::new(4).number_of_nodes_in_a_majority(), 3);
    assert_eq!(Quorum::new(5).number_of_nodes_in_a_majority(), 3);
    assert_eq!(Quorum::new(1).number_of_nodes_in_a_majority(), 1);
    assert_eq!(Quorum::new(0).number_of_nodes_in_a_majority(), 1);
    assert_eq!(Quorum::new(-3).number_of_nodes_in_a_majority(), 0);
}

#[test]
fn quorum_completes_at_a_majority_and_becomes_idle() {
    let mut quorum = Quorum::new(5);
    assert!(quorum.is_idle());
    quorum.start_access();
    assert!(!quorum.is_idle());
    quorum.insert_node_to_acking_nodes(1);
    quorum.insert_node_to_acking_nodes(2);
    assert!(!quorum.has_ack_from_majority());
    assert!(!quorum.notify_if_has_ack_from_majority());
    assert!(quorum.accessing());
    quorum.insert_node_to_acking_nodes(2);
    assert!(!quorum.notify_if_has_ack_from_majority());
    quorum.insert_node_to_acking_nodes(5);
    assert!(quorum.has_ack_from_majority());
    assert!(quorum.notify_if_has_ack_from_majority());
    assert!(quorum.is_idle());
}

#[test]
fn two_majorities_of_five_nodes_share_a_node() {
    let first: HashSet<NodeId> = [1, 2, 3].into_iter().collect();
    let second: HashSet<NodeId> = [3, 4, 5].into_iter().collect();
    let majority = Quorum::new(5).number_of_nodes_in_a_majority() as usize;
    assert!(first.len() >= majority && second.len() >= majority);
    assert!(first.intersection(&second).count() >= 1);
}

#[test]
fn a_read_adopts_the_newest_answer_and_returns_it() {
    let mut node: AbdNode<String> = AbdNode::new(1, &node_ids(3));
    let read1 = node.read();
    assert_eq!(read1, Read1Message { sender: 1, sequence_number: 1 });
    assert!(node.read1_quorum().accessing());

    let older = Read1AckMessage { sender: 2, timestamp: 4, value: "old".to_string(), sequence_number: 1 };
    let newer = Read1AckMessage { sender: 3, timestamp: 9, value: "new".to_string(), sequence_number: 1 };
    assert!(!node.receive_read1_ack_message(&newer));
    assert_eq!(node.timestamp(), 9);
    assert!(node.receive_read1_ack_message(&older));
    assert_eq!(node.timestamp(), 9);
    assert_eq!(node.value(), "new");
    assert!(node.read1_quorum().is_idle());

    let read2 = node.read_phase2();
    assert_eq!(
        read2,
        Read2Message { sender: 1, timestamp: 9, value: "new".to_string(), sequence_number: 1 }
    );
    assert!(!node.receive_read2_ack_message(&Read2AckMessage { sender: 1, sequence_number: 1 }));
    assert!(node.receive_read2_ack_message(&Read2AckMessage { sender: 2, sequence_number: 1 }));
    assert!(node.read2_quorum().is_idle());
    assert_eq!(node.read_result(), "new".to_string());
}

#[test]
fn answers_of_another_read_do_not_count() {
    let mut node: AbdNode<String> = AbdNode::new(1, &node_ids(3));
    node.read();
    let stale = Read1AckMessage { sender: 2, timestamp: 50, value: "x".to_string(), sequence_number: 7 };
    assert!(!node.receive_read1_ack_message(&stale));
    assert_eq!(node.timestamp(), 0);
    assert!(node.read1_quorum().accessing());
}

#[test]
fn write_acks_for_another_timestamp_do_not_count() {
    let mut node: AbdNode<String> = AbdNode::new(1, &node_ids(3));
    node.write("a".to_string());
    for sender in 1..=3 {
        assert!(!node.receive_write_ack_message(&WriteAckMessage { sender: sender, timestamp: 7 }));
    }
    assert!(node.write_quorum().accessing());
    assert!(!node.receive_write_ack_message(&WriteAckMessage { sender: 1, timestamp: 1 }));
    assert!(node.receive_write_ack_message(&WriteAckMessage { sender: 2, timestamp: 1 }));
}

#[test]
fn server_side_answers() {
    let mut node: AbdNode<String> = AbdNode::new(2, &node_ids(3));
    let ack = node.receive_write_message(&WriteMessage { sender: 1, timestamp: 5, value: "v".to_string() });
    assert_eq!(ack, WriteAckMessage { sender: 2, timestamp: 5 });
    let answer = node.receive_read1_message(&Read1Message { sender: 3, sequence_number: 11 });
    assert_eq!(answer, Read1AckMessage { sender: 2, timestamp: 5, value: "v".to_string(), sequence_number: 11 });
    let ack2 = node.receive_read2_message(&Read2Message { sender: 3, timestamp: 4, value: "w".to_string(), sequence_number: 12 });
    assert_eq!(ack2, Read2AckMessage { sender: 2, sequence_number: 12 });
    assert_eq!(node.timestamp(), 5);
    assert_eq!(node.value(), "v");
    node.receive_read2_message(&Read2Message { sender: 3, timestamp: 6, value: "w".to_string(), sequence_number: 13 });
    assert_eq!(node.timestamp(), 6);
    assert_eq!(node.value(), "w");
}

#[test]
fn timestamps_never_go_back() {
    let mut node: AbdNode<String> = AbdNode::new(1, &node_ids(3));
    let mut last = node.timestamp();
    for ts in [3, 1, 8, 8, 2, 10] {
        node.receive_write_message(&WriteMessage { sender: 2, timestamp: ts, value: ts.to_string() });
        assert!(node.timestamp() >= last);
        assert!(node.timestamp() >= ts);
        last = node.timestamp();
    }
    assert_eq!(node.value(), "10");
}

#[test]
fn json_kinds() {
    let write = "{\"WriteMessage\":1,\"timestamp\":2,\"value\":\"\"}";
    let write_ack = "{\"WriteAckMessage\":1,\"timestamp\":2}";
    let read1 = "{\"Read1Message\":1,\"sequence_number\":2}";
    let read1_ack = "{\"Read1AckMessage\":1,\"timestamp\":2,\"value\":\"\",\"sequence_number\":3}";
    let read2 = "{\"Read2Message\":1,\"timestamp\":2,\"value\":\"\",\"sequence_number\":3}";
    let read2_ack = "{\"Read2AckMessage\":1,\"sequence_number\":3}";
    assert!(json_is_write_message(write) && !json_is_write_ack_message(write));
    assert!(json_is_write_ack_message(write_ack) && !json_is_write_message(write_ack));
    assert!(json_is_read1_message(read1) && !json_is_read1_ack_message(read1));
    assert!(json_is_read1_ack_message(read1_ack) && !json_is_read1_message(read1_ack));
    assert!(json_is_read2_message(read2) && !json_is_read2_ack_message(read2));
    assert!(json_is_read2_ack_message(read2_ack) && !json_is_read2_message(read2_ack));
    assert_eq!(message_kind(read1_ack), Some(MessageKind::Read1Ack));
    assert_eq!(message_kind("{\"Other\":1}"), None);
    assert_eq!(message_kind(""), None);
    assert_eq!(receivers_for_json(write), vec![MessageKind::Write, MessageKind::Write]);
    assert_eq!(receivers_for_json(read2_ack), vec![MessageKind::Read2Ack]);
    assert_eq!(receivers_for_json("{}"), Vec::<MessageKind>::new());
    let node: AbdNode<String> = AbdNode::new(1, &node_ids(2));
    assert_eq!(node.json_received(write_ack), vec![MessageKind::WriteAck]);
}

#[test]
fn a_read_at_another_node_sees_a_completed_write() {
    let ids = node_ids(3);
    let mut nodes: Vec<AbdNode<String>> = (1..=3).map(|id| AbdNode::new(id, &ids)).collect();

    // Node 1 writes; only nodes 1 and 2 hear of it, which is a majority.
    let write = nodes[0].write("value".to_string());
    let mut completed = false;
    for k in [0, 1] {
        let ack = nodes[k].receive_write_message(&write);
        completed = nodes[0].receive_write_ack_message(&ack);
    }
    assert!(completed);
    assert_eq!(nodes[2].timestamp(), 0);

    // Node 3 reads; only nodes 2 and 3 answer, a majority that shares node 2
    // with the write's.
    let read1 = nodes[2].read();
    let mut phase1_done = false;
    for k in [2, 1] {
        let answer = nodes[k].receive_read1_message(&read1);
        phase1_done = nodes[2].receive_read1_ack_message(&answer);
    }
    assert!(phase1_done);
    assert_eq!(nodes[2].timestamp(), 1);

    let read2 = nodes[2].read_phase2();
    let mut phase2_done = false;
    for k in [2, 0] {
        let ack = nodes[k].receive_read2_message(&read2);
        phase2_done = nodes[2].receive_read2_ack_message(&ack);
    }
    assert!(phase2_done);
    assert_eq!(nodes[2].read_result(), "value".to_string());
}

#[test]
fn a_read_after_a_read_writes_back_no_older_timestamp() {
    let ids = node_ids(3);
    let mut nodes: Vec<AbdNode<String>> = (1..=3).map(|id| AbdNode::new(id, &ids)).collect();

    // Node 1 writes, heard only by node 1 and node 2 before completing.
    let write = nodes[0].write("first".to_string());
    for k in [0, 1] {
        let ack = nodes[k].receive_write_message(&write);
        nodes[0].receive_write_ack_message(&ack);
    }

    // Node 2 reads and writes back timestamp 1 to nodes 2 and 3.
    let read1 = nodes[1].read();
    for k in [1, 2] {
        let answer = nodes[k].receive_read1_message(&read1);
        nodes[1].receive_read1_ack_message(&answer);
    }
    let read2 = nodes[1].read_phase2();
    assert_eq!(read2.timestamp, 1);
    for k in [1, 2] {
        let ack = nodes[k].receive_read2_message(&read2);
        nodes[1].receive_read2_ack_message(&ack);
    }
    assert_eq!(nodes[1].read_result(), "first".to_string());

    // Node 3 already holds timestamp 1 from node 2's write-back, before it
    // reads; its read, answered by nodes 3 and 1, writes back no older one.
    assert_eq!(nodes[2].timestamp(), 1);
    let read1 = nodes[2].read();
    for k in [2, 0] {
        let answer = nodes[k].receive_read1_message(&read1);
        nodes[2].receive_read1_ack_message(&answer);
    }
    let read2 = nodes[2].read_phase2();
    assert!(read2.timestamp >= 1);
    assert_eq!(nodes[2].timestamp(), 1);
}

#[test]
fn a_read_returns_the_value_it_wrote_back() {
    let ids = node_ids(3);
    let mut reader: AbdNode<String> = AbdNode::new(2, &ids);
    let read1 = reader.read();
    for sender in [2, 3] {
        let answer = Read1AckMessage { sender, timestamp: 4, value: "old".to_string(), sequence_number: read1.sequence_number };
        reader.receive_read1_ack_message(&answer);
    }
    let read2 = reader.read_phase2();
    assert_eq!(read2.timestamp, 4);
    // A newer write reaches the reader during its second phase.
    reader.receive_write_message(&WriteMessage { sender: 1, timestamp: 5, value: "new".to_string() });
    assert_eq!(reader.timestamp(), 5);
    for sender in [2, 3] {
        reader.receive_read2_ack_message(&Read2AckMessage { sender, sequence_number: read2.sequence_number });
    }
    // The read returns what it wrote back to a majority, not the newer value
    // that only the reader holds.
    assert_eq!(reader.read_timestamp(), 4);
    assert_eq!(reader.read_result(), "old".to_string());
}
