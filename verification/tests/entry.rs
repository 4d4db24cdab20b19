use distributed_swmr_registers::data_types::register::Register;
use distributed_swmr_registers::entry::Entry;

#[test]
fn entry_test_display() {
    let correct = "[ts = 2, val = Rust]";
    let entry = Entry::new(2, "Rust");

    assert_eq!(entry.to_string(), correct);
}

#[test]
fn entry_value_does_not_affect_eq() {
    let entry1 = Entry::new(3, "Rust");
    let entry2 = Entry::new(3, "Haskell");

    assert_eq!(entry1, entry2);
}

#[test]
fn entry_eq_is_same_as_timestamp_eq() {
    for i in 0..100 {
        for j in 0..100 {
            assert_eq!(Entry::new(i, "") == Entry::new(j, ""), i == j);
        }
    }
}

#[test]
fn entry_leq_is_same_as_timestamp_leq() {
    for i in 0..100 {
        for j in 0..100 {
            assert_eq!(Entry::new(i, "") <= Entry::new(j, ""), i <= j);
        }
    }
}

#[test]
fn entry_le_is_same_as_timestamp_le() {
    for i in 0..100 {
        for j in 0..100 {
            assert_eq!(Entry::new(i, "") < Entry::new(j, ""), i < j);
        }
    }
}

#[test]
fn register_test_display() {
    let correct = "[ts = 2, val = Rust]";
    let register = Register::new(2, "Rust");

    assert_eq!(register.to_string(), correct);
}

#[test]
fn register_value_does_not_affect_eq() {
    let register1 = Register::new(3, "Rust");
    let register2 = Register::new(3, "Haskell");

    assert_eq!(register1, register2);
}

#[test]
fn register_eq_is_same_as_timestamp_eq() {
    for i in 0..100 {
        for j in 0..100 {
            assert_eq!(Register::new(i, "") == Register::new(j, ""), i == j);
        }
    }
}

#[test]
fn register_leq_is_same_as_timestamp_leq() {
    for i in 0..100 {
        for j in 0..100 {
            assert_eq!(Register::new(i, "") <= Register::new(j, ""), i <= j);
        }
    }
}

#[test]
fn register_le_is_same_as_timestamp_le() {
    for i in 0..100 {
        for j in 0..100 {
            assert_eq!(Register::new(i, "") < Register::new(j, ""), i < j);
        }
    }
}
