use std::collections::HashSet;

use distributed_swmr_registers::data_types::vector_clock::VectorClock;
use distributed_swmr_registers::messages::MessageKind;
use distributed_swmr_registers::run_result::{first_unsound_node, MessageTypeResult, Metadata, RunResult};
use distributed_swmr_registers::types::NodeId;

fn all(n: NodeId) -> HashSet<NodeId> {
    (1..=n).collect()
}

fn writer_result(n: NodeId) -> RunResult {
    let mut result = RunResult::new();
    result.metadata.is_writer = true;
    for id in 1..=n {
        result.count_received(MessageKind::WriteAck, id);
    }
    result
}

#[test]
fn fresh_results_are_zero() {
    let result = RunResult::new();
    assert_eq!(result.write_ops, 0);
    assert_eq!(result.read2_ack_message.sent, 0);
    let message = MessageTypeResult::new();
    assert_eq!((message.sent, message.received), (0, 0));
    assert!(message.nodes_received_from.is_empty());
    let metadata = Metadata::new();
    assert_eq!((metadata.node_id, metadata.is_reader, metadata.is_writer, metadata.run_length), (0, false, false, 0));
}

#[test]
fn soundness_of_results() {
    assert!(RunResult::new().is_sound(3));
    let writer = writer_result(3);
    assert_eq!(writer.write_ack_message.nodes_received_from, all(3));
    assert!(writer.is_sound(3));
    assert!(!writer.is_sound(4));
    let mut both = writer_result(3);
    both.metadata.is_reader = true;
    assert!(!both.is_sound(3));
    let mut reader = RunResult::new();
    reader.metadata.is_reader = true;
    assert!(!reader.is_sound(2));
    for id in 1..=2 {
        reader.count_received(MessageKind::Read1Ack, id);
        reader.count_received(MessageKind::Read2Ack, id);
    }
    assert!(reader.is_sound(2));
    let mut idle = RunResult::new();
    idle.count_received(MessageKind::WriteAck, 1);
    assert!(!idle.is_sound(1));
    let results = vec![(1, RunResult::new()), (2, idle), (3, both)];
    assert_eq!(first_unsound_node(&results, 1), Some(2));
    assert_eq!(first_unsound_node(&vec![(4, RunResult::new())], 1), None);
}

#[test]
fn counting_messages() {
    let mut result = RunResult::new();
    result.count_sent_json("{\"Read1Message\":1,\"sequence_number\":2}");
    result.count_sent_json("{\"WriteAckMessage\":1,\"timestamp\":2}");
    result.count_sent_json("not a message");
    assert_eq!(result.read1_message.sent, 1);
    assert_eq!(result.write_ack_message.sent, 1);
    assert_eq!(result.write_message.sent, 0);
    result.count_received(MessageKind::Read2, 4);
    result.count_received(MessageKind::Read2, 4);
    assert_eq!(result.read2_message.received, 2);
    assert_eq!(result.read2_message.nodes_received_from, [4].into_iter().collect());
}

fn clocks() -> (VectorClock, VectorClock) {
    let mut first = VectorClock::new(&all(3));
    let mut second = VectorClock::new(&all(3));
    first.set(1, 5);
    second.set(2, 7);
    second.set(1, 2);
    (first, second)
}

#[test]
fn vector_clocks() {
    assert_eq!(*VectorClock::new(&all(3)).get(2), 0);
    let (first, second) = clocks();
    assert!(!(first <= second) && !(second <= first));
    let (mut merged, _) = clocks();
    merged.merge_to_max_from_vector_clock(&second);
    assert_eq!((*merged.get(1), *merged.get(2), *merged.get(3)), (5, 7, 0));
    assert!(first <= merged && second <= merged);
    let (_, mut other_way) = clocks();
    other_way.merge_to_max_from_vector_clock(&first);
    assert_eq!(merged, other_way);
    assert_eq!(merged.to_string(), "1: 5\n2: 7\n3: 0");
    let (mut idempotent, _) = clocks();
    idempotent.merge_to_max_from_vector_clock(&first);
    assert_eq!(idempotent, first);
}

#[test]
fn operations_are_counted_one_at_a_time() {
    let mut result = RunResult::new();
    result.count_write_operation();
    result.count_write_operation();
    result.count_read_operation();
    assert_eq!((result.write_ops, result.read_ops), (2, 1));
    assert_eq!((result.write_quorum_accesses, result.read_quorum_accesses), (0, 0));
}
