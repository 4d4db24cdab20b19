use std::collections::HashSet;

use distributed_swmr_registers::data_types::vector::Vector;
use distributed_swmr_registers::types::{Int, NodeId};

fn node_ids_for_tests() -> HashSet<NodeId> {
    let mut node_ids = HashSet::new();
    node_ids.insert(1);
    node_ids.insert(2);
    node_ids.insert(3);
    node_ids.insert(4);
    node_ids
}

fn value_for_tests() -> Int {
    10
}

fn vector_for_tests() -> Vector<Int> {
    let mut vec = Vector::new(&node_ids_for_tests());
    for &node_id in node_ids_for_tests().iter() {
        vec.set(node_id, value_for_tests());
    }

    vec
}

#[test]
fn vector_test_that_new_contains_provided_node_ids() {
    let vec = vector_for_tests();

    for node_id in node_ids_for_tests().iter() {
        assert!(vec.contains_node_id(*node_id));
    }
}

#[test]
fn vector_test_that_new_contains_no_other_node_ids() {
    let vec = vector_for_tests();

    for node_id in vec.node_id_list().iter() {
        assert!(node_ids_for_tests().contains(node_id));
    }
}

#[test]
fn vector_test_that_get_works_for_existing_node_id() {
    let vec = vector_for_tests();

    assert_eq!(*vec.get(1), value_for_tests());
}

#[test]
fn vector_test_that_set_works_for_existing_node_id() {
    let mut vec = vector_for_tests();
    vec.set(1, 7);

    assert_eq!(*vec.get(1), 7);
}

#[test]
fn vector_test_display() {
    let mut vec = vector_for_tests();
    vec.set(2, 7);
    let string = vec.to_string();
    let correct = String::from(format!(
        "1: {}\n2: 7\n3: {}\n4: {}",
        value_for_tests(),
        value_for_tests(),
        value_for_tests()
    ));

    assert_eq!(string, correct);
}

#[test]
fn test_vectors_equal() {
    let vec1 = vector_for_tests();
    let vec2 = vector_for_tests();

    assert_eq!(vec1, vec2);
}

#[test]
fn test_vectors_inequal_entries() {
    let vec1 = vector_for_tests();
    let mut vec2 = vector_for_tests();
    vec2.set(1, 7);

    assert_ne!(vec1, vec2);
}

#[test]
fn test_vectors_leq_for_equal() {
    let vec1 = vector_for_tests();
    let vec2 = vector_for_tests();

    assert!(vec2 <= vec1);
}

#[test]
fn test_vectors_leq_for_one_less_value() {
    let vec1 = vector_for_tests();
    let mut vec2 = vector_for_tests();
    vec2.set(1, value_for_tests() - 1);

    assert!(vec2 <= vec1);
}

#[test]
fn test_vectors_leq_for_one_less_and_one_greater_value() {
    let vec1 = vector_for_tests();
    let mut vec2 = vector_for_tests();
    vec2.set(1, value_for_tests() - 1);
    vec2.set(2, value_for_tests() + 1);

    assert!(!(vec2 <= vec1));
}

#[test]
fn test_vectors_le_for_equal() {
    let vec1 = vector_for_tests();
    let vec2 = vector_for_tests();

    assert!(!(vec2 < vec1));
}

#[test]
fn test_vectors_le_for_one_less_value() {
    let vec1 = vector_for_tests();
    let mut vec2 = vector_for_tests();
    vec2.set(1, value_for_tests() - 1);

    assert!(vec2 < vec1);
}

#[test]
fn vector_test_merge_to_max_overwrites_lower() {
    let mut vec1 = vector_for_tests();
    let mut vec2 = vector_for_tests();

    vec1.set(1, value_for_tests() - 1);
    vec2.set(2, value_for_tests() + 1);

    vec1.merge_to_max_from_vector(&vec2);

    assert_eq!(*vec1.get(1), value_for_tests());
}

#[test]
fn vector_test_merge_to_max_includes_higher() {
    let mut vec1 = vector_for_tests();
    let mut vec2 = vector_for_tests();

    vec1.set(1, value_for_tests() - 1);
    vec2.set(2, value_for_tests() + 1);

    vec1.merge_to_max_from_vector(&vec2);

    assert_eq!(*vec1.get(2), value_for_tests() + 1);
}

#[test]
fn vector_test_merge_to_max_keeps_equals_intact() {
    let mut vec1 = vector_for_tests();
    let mut vec2 = vector_for_tests();

    vec1.set(1, value_for_tests() - 1);
    vec2.set(2, value_for_tests() + 1);

    vec1.merge_to_max_from_vector(&vec2);

    assert_eq!(*vec1.get(3), value_for_tests());
}
