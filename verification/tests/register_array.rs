use std::collections::HashSet;

use distributed_swmr_registers::data_types::register::Register;
use distributed_swmr_registers::register_array::RegisterArray;
use distributed_swmr_registers::types::{NodeId, Timestamp};

fn node_ids_for_tests() -> HashSet<NodeId> {
    let mut node_ids = HashSet::new();
    node_ids.insert(1);
    node_ids.insert(2);
    node_ids.insert(3);
    node_ids.insert(4);
    node_ids
}

fn timestamp_for_tests() -> Timestamp {
    10
}

fn value_for_tests() -> String {
    String::from("Rust")
}

fn register_array_for_tests() -> RegisterArray<String> {
    let mut reg_array = RegisterArray::new(&node_ids_for_tests());
    for &node_id in node_ids_for_tests().iter() {
        reg_array.set(node_id, Register::new(timestamp_for_tests(), value_for_tests()));
    }

    reg_array
} 


#[test]
fn register_array_test_that_get_works_for_existing_node_id() {
    let reg_array= register_array_for_tests();

    assert_eq!(*reg_array.get(1), Register::new(timestamp_for_tests(), value_for_tests()));
}

#[test]
fn register_array_test_that_set_works_for_existing_node_id() {
    let mut reg_array= register_array_for_tests();
    let register = Register::new(timestamp_for_tests(), String::from("Hi"));
    reg_array.set(1, register.clone());

    assert_eq!(*reg_array.get(1), register);
}

#[test]
fn test_display_register_array() {
    let mut reg_array= register_array_for_tests();
    reg_array.set(2, Register::new(7, String::from("Hi")));
    let string = reg_array.to_string();
    let correct = String::from(format!("1: [ts = {}, val = {}]\n2: [ts = 7, val = Hi]\n3: [ts = {}, val = {}]\n4: [ts = {}, val = {}]", timestamp_for_tests(), value_for_tests(), timestamp_for_tests(), value_for_tests(), timestamp_for_tests(), value_for_tests()));

    assert_eq!(string, correct);
}

#[test]
fn test_register_arrays_equal() {
    let reg_array1 = register_array_for_tests();
    let reg_array2 = register_array_for_tests();

    assert_eq!(reg_array1, reg_array2);
}

#[test]
fn test_register_arrays_inequal_entries() {
    let reg_array1 = register_array_for_tests();
    let mut reg_array2 = register_array_for_tests();
    reg_array2.set(1, Register::new(7, value_for_tests()));

    assert_ne!(reg_array1, reg_array2);
}

#[test]
fn test_register_arrays_leq_for_equal() {
    let reg1 = register_array_for_tests();
    let reg_array2 = register_array_for_tests();

    assert!(reg_array2 <= reg1);
}

#[test]
fn test_register_arrays_leq_for_one_less_register() {
    let reg1 = register_array_for_tests();
    let mut reg_array2 = register_array_for_tests();
    reg_array2.set(1, Register::new(timestamp_for_tests() - 1, value_for_tests()));

    assert!(reg_array2 <= reg1);
}

#[test]
fn test_register_arrays_leq_for_one_less_and_one_greater_register() {
    let reg1 = register_array_for_tests();
    let mut reg_array2 = register_array_for_tests();
    reg_array2.set(1, Register::new(timestamp_for_tests() - 1, value_for_tests()));
    reg_array2.set(2, Register::new(timestamp_for_tests() + 1, value_for_tests()));

    assert!(!(reg_array2 <= reg1));
}

#[test]
fn test_register_arrays_le_for_equal() {
    let reg1 = register_array_for_tests();
    let reg_array2 = register_array_for_tests();

    assert!(!(reg_array2 < reg1));
}

#[test]
fn test_register_arrays_le_for_one_less_register() {
    let reg1 = register_array_for_tests();
    let mut reg_array2 = register_array_for_tests();
    reg_array2.set(1, Register::new(timestamp_for_tests() - 1, value_for_tests()));

    assert!(reg_array2 < reg1);
}

#[test]
fn register_array_test_merge_to_max_overwrites_lower() {
    let mut reg_array1 = register_array_for_tests();
    let mut reg_array2 = register_array_for_tests();

    reg_array1.set(1, Register::new(timestamp_for_tests() - 1, value_for_tests()));
    reg_array2.set(2, Register::new(timestamp_for_tests() + 1, value_for_tests()));

    reg_array1.merge_to_max_from_register_array(&reg_array2);

    assert_eq!(*reg_array1.get(1), Register::new(timestamp_for_tests(), value_for_tests()));
}

#[test]
fn register_array_test_merge_to_max_includes_higher() {
    let mut reg_array1 = register_array_for_tests();
    let mut reg_array2 = register_array_for_tests();

    reg_array1.set(1, Register::new(timestamp_for_tests() - 1, value_for_tests()));
    reg_array2.set(2, Register::new(timestamp_for_tests() + 1, value_for_tests()));

    reg_array1.merge_to_max_from_register_array(&reg_array2);

    assert_eq!(*reg_array1.get(2), Register::new(timestamp_for_tests() + 1, value_for_tests()));
}

#[test]
fn register_array_test_merge_to_max_keeps_equals_intact() {
    let mut reg_array1 = register_array_for_tests();
    let mut reg_array2 = register_array_for_tests();

    reg_array1.set(1, Register::new(timestamp_for_tests() - 1, value_for_tests()));
    reg_array2.set(2, Register::new(timestamp_for_tests() + 1, value_for_tests()));

    reg_array1.merge_to_max_from_register_array(&reg_array2);

    assert_eq!(*reg_array1.get(3), Register::new(timestamp_for_tests(), value_for_tests()));
}
