use std::collections::HashSet;

use distributed_swmr_registers::entry::{self, Entry};
use distributed_swmr_registers::register::Register;
use distributed_swmr_registers::types::{NodeId, Timestamp};

fn node_ids_for_tests() -> HashSet<NodeId> {
    let mut node_ids = HashSet::new();
    node_ids.insert(1);
    node_ids.insert(2);
    node_ids.insert(3);
    node_ids.insert(4);
    node_ids
}

fn timestamp_for_tests() -> Timestamp {
    10
}

fn value_for_tests() -> String {
    String::from("Rust")
}

fn register_for_tests() -> Register<String> {
    let mut reg = Register::new(&node_ids_for_tests());
    for &node_id in node_ids_for_tests().iter() {
        reg.set(node_id, Entry::new(timestamp_for_tests(), value_for_tests()));
    }

    reg
}

#[test]
fn register_test_that_new_contains_provided_node_ids() {
    let reg = register_for_tests();

    for node_id in node_ids_for_tests().iter() {
        assert!(reg.contains_node_id(*node_id));
    }
}

#[test]
fn register_test_that_new_contains_no_other_node_ids() {
    let reg = register_for_tests();

    for node_id in reg.node_id_list().iter() {
        assert!(node_ids_for_tests().contains(node_id));
    }
}

#[test]
fn register_test_that_from_new_timestamps_are_default() {
    let reg: Register<String> = Register::new(&node_ids_for_tests());

    for node_id in reg.node_id_list().iter() {
        assert_eq!(reg.get(*node_id).ts, entry::default_timestamp());
    }
}

#[test]
fn register_test_that_get_works_for_existing_node_id() {
    let reg = register_for_tests();

    assert_eq!(*reg.get(1), Entry::new(timestamp_for_tests(), value_for_tests()));
}

#[test]
fn register_test_that_set_works_for_existing_node_id() {
    let mut reg = register_for_tests();
    let entry = Entry::new(timestamp_for_tests(), String::from("Hi"));
    reg.set(1, entry.clone());

    assert_eq!(*reg.get(1), entry);
}

#[test]
fn test_display_register() {
    let mut reg = register_for_tests();
    reg.set(2, Entry::new(7, String::from("Hi")));
    let string = reg.to_string();
    let correct = String::from(format!("1: [ts = {}, val = {}]\n2: [ts = 7, val = Hi]\n3: [ts = {}, val = {}]\n4: [ts = {}, val = {}]", timestamp_for_tests(), value_for_tests(), timestamp_for_tests(), value_for_tests(), timestamp_for_tests(), value_for_tests()));

    assert_eq!(string, correct);
}

#[test]
fn test_registers_equal() {
    let reg1 = register_for_tests();
    let reg2 = register_for_tests();

    assert_eq!(reg1, reg2);
}

#[test]
fn test_registers_inequal_entries() {
    let reg1 = register_for_tests();
    let mut reg2 = register_for_tests();
    reg2.set(1, Entry::new(7, value_for_tests()));

    assert_ne!(reg1, reg2);
}

#[test]
fn test_registers_leq_for_equal() {
    let reg1 = register_for_tests();
    let reg2 = register_for_tests();

    assert!(reg2 <= reg1);
}

#[test]
fn test_registers_leq_for_one_less_entry() {
    let reg1 = register_for_tests();
    let mut reg2 = register_for_tests();
    reg2.set(1, Entry::new(timestamp_for_tests() - 1, value_for_tests()));

    assert!(reg2 <= reg1);
}

#[test]
fn test_registers_leq_for_one_less_and_one_greater_entry() {
    let reg1 = register_for_tests();
    let mut reg2 = register_for_tests();
    reg2.set(1, Entry::new(timestamp_for_tests() - 1, value_for_tests()));
    reg2.set(2, Entry::new(timestamp_for_tests() + 1, value_for_tests()));

    assert!(!(reg2 <= reg1));
}

#[test]
fn test_registers_le_for_equal() {
    let reg1 = register_for_tests();
    let reg2 = register_for_tests();

    assert!(!(reg2 < reg1));
}

#[test]
fn test_registers_le_for_one_less_entry() {
    let reg1 = register_for_tests();
    let mut reg2 = register_for_tests();
    reg2.set(1, Entry::new(timestamp_for_tests() - 1, value_for_tests()));

    assert!(reg2 < reg1);
}

#[test]
fn register_test_merge_to_max_overwrites_lower() {
    let mut reg1 = register_for_tests();
    let mut reg2 = register_for_tests();

    reg1.set(1, Entry::new(timestamp_for_tests() - 1, value_for_tests()));
    reg2.set(2, Entry::new(timestamp_for_tests() + 1, value_for_tests()));

    reg1.merge_to_max_from_register(&reg2);

    assert_eq!(*reg1.get(1), Entry::new(timestamp_for_tests(), value_for_tests()));
}

#[test]
fn register_test_merge_to_max_includes_higher() {
    let mut reg1 = register_for_tests();
    let mut reg2 = register_for_tests();

    reg1.set(1, Entry::new(timestamp_for_tests() - 1, value_for_tests()));
    reg2.set(2, Entry::new(timestamp_for_tests() + 1, value_for_tests()));

    reg1.merge_to_max_from_register(&reg2);

    assert_eq!(*reg1.get(2), Entry::new(timestamp_for_tests() + 1, value_for_tests()));
}

#[test]
fn register_test_merge_to_max_keeps_equals_intact() {
    let mut reg1 = register_for_tests();
    let mut reg2 = register_for_tests();

    reg1.set(1, Entry::new(timestamp_for_tests() - 1, value_for_tests()));
    reg2.set(2, Entry::new(timestamp_for_tests() + 1, value_for_tests()));

    reg1.merge_to_max_from_register(&reg2);

    assert_eq!(*reg1.get(3), Entry::new(timestamp_for_tests(), value_for_tests()));
}
