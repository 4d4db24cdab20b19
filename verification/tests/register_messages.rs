use std::collections::HashSet;

use distributed_swmr_registers::entry::Entry;
use distributed_swmr_registers::register_messages::{Message, MessageType, Register, WriteMessage};
use distributed_swmr_registers::types::NodeId;

fn node_ids_for_tests() -> HashSet<NodeId> {
    let mut node_ids = HashSet::new();
    node_ids.insert(1);
    node_ids.insert(2);
    node_ids.insert(3);
    node_ids.insert(4);
    node_ids
}

#[test]
fn exchanged_register_test_that_new_contains_provided_node_ids() {
    let reg: Register<String> = Register::new(node_ids_for_tests());

    for &node_id in node_ids_for_tests().iter() {
        assert!(reg.get(node_id).is_some());
    }
}

#[test]
fn exchanged_register_test_that_new_contains_no_other_node_ids() {
    let reg: Register<String> = Register::new(node_ids_for_tests());

    for node_id in reg.node_id_list() {
        assert!(node_ids_for_tests().contains(&node_id));
    }
    for node_id in [0, 5, -1, 100] {
        assert!(reg.get(node_id).is_none());
    }
}

#[test]
fn exchanged_register_test_that_from_new_timestamps_are_default() {
    let reg: Register<String> = Register::new(node_ids_for_tests());

    for node_id in reg.node_id_list() {
        assert_eq!(reg.get(node_id).unwrap().ts, -1);
        assert_eq!(reg.get(node_id).unwrap().val, String::default());
    }
}

#[test]
fn exchanged_register_set_and_get() {
    let mut reg: Register<String> = Register::new(node_ids_for_tests());
    reg.set(2, Entry::new(7, "Rust".to_string()));
    let entry = reg.get(2).unwrap();
    assert_eq!((entry.ts, entry.val.as_str()), (7, "Rust"));
}

#[test]
fn exchanged_register_merge_takes_the_larger_entry_and_the_other_on_ties() {
    let mut mine: Register<String> = Register::new(node_ids_for_tests());
    let mut theirs: Register<String> = Register::new(node_ids_for_tests());
    mine.set(1, Entry::new(5, "mine".to_string()));
    theirs.set(1, Entry::new(3, "theirs".to_string()));
    mine.set(2, Entry::new(4, "mine".to_string()));
    theirs.set(2, Entry::new(9, "theirs".to_string()));
    mine.set(3, Entry::new(6, "mine".to_string()));
    theirs.set(3, Entry::new(6, "theirs".to_string()));

    mine.merge_to_max_from_register(&theirs);

    let entry = |id: NodeId| {
        let e = mine.get(id).unwrap();
        (e.ts, e.val.clone())
    };
    assert_eq!(entry(1), (5, "mine".to_string()));
    assert_eq!(entry(2), (9, "theirs".to_string()));
    assert_eq!(entry(3), (6, "theirs".to_string()));
    assert_eq!(entry(4), (-1, String::new()));
}

#[test]
fn exchanged_registers_compare_the_other_way_round() {
    let newer_one: Register<String> = {
        let mut reg = Register::new(node_ids_for_tests());
        reg.set(1, Entry::new(2, "x".to_string()));
        reg
    };
    let fresh: Register<String> = Register::new(node_ids_for_tests());
    assert!(newer_one < fresh);
    assert!(fresh > newer_one);
    assert!(fresh <= Register::new(node_ids_for_tests()));
    assert!(newer_one == newer_one);
    assert!(newer_one != fresh);
}

#[test]
fn register_messages_carry_their_kind_and_register() {
    let message = Message { sender: 3, message_type: MessageType::ReadMessage, register: Register::<String>::new(node_ids_for_tests()) };
    assert_eq!(message.message_type, MessageType::ReadMessage);
    assert!(message.register.get(4).is_some());
    let write = WriteMessage { sender: 1, register: Register::<String>::new(node_ids_for_tests()) };
    assert_eq!(write.sender, 1);
}
