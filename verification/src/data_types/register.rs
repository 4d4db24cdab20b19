use core::cmp::Ordering;

use vstd::prelude::*;
use vstd::std_specs::cmp::{PartialEqSpecImpl, PartialOrdSpecImpl};

use crate::entry::timestamp_order;
use crate::types::Timestamp;

verus! {

/// The timestamp of a register that was never written.
pub fn default_timestamp() -> (ts: Timestamp)
    ensures
        ts == -1,
{
    -1
}

/// A register: a value together with the timestamp it was written at. Registers
/// are compared by their timestamps alone.
#[derive(Debug)]
pub struct Register<V> {
    pub ts: Timestamp,
    pub val: V,
}

impl<V> Register<V> {
    pub fn new(ts: Timestamp, val: V) -> (register: Register<V>)
        ensures
            register.ts == ts,
            register.val == val,
    {
        Register { ts: ts, val: val }
    }
}

impl<V: Default> Default for Register<V> {
    /// A register that was never written: the default timestamp and `V`'s default value.
    fn default() -> (register: Self)
        ensures
            register.ts == -1,
            call_ensures(V::default, (), register.val),
    {
        Register::new(default_timestamp(), V::default())
    }
}

impl<V: Clone> Clone for Register<V> {
    fn clone(&self) -> (copy: Self)
        ensures
            copy.ts == self.ts,
            cloned(self.val, copy.val),
    {
        Register { ts: self.ts, val: self.val.clone() }
    }
}

impl<V> PartialEq for Register<V> {
    fn eq(&self, other: &Self) -> (equal: bool) {
        self.ts == other.ts
    }
}

impl<V> PartialEqSpecImpl for Register<V> {
    open spec fn obeys_eq_spec() -> bool {
        true
    }

    open spec fn eq_spec(&self, other: &Self) -> bool {
        self.ts == other.ts
    }
}

impl<V> Eq for Register<V> {}

impl<V> PartialOrd for Register<V> {
    fn partial_cmp(&self, other: &Self) -> (order: Option<Ordering>) {
        if self.ts < other.ts {
            Some(Ordering::Less)
        } else if self.ts == other.ts {
            Some(Ordering::Equal)
        } else {
            Some(Ordering::Greater)
        }
    }
}

impl<V> PartialOrdSpecImpl for Register<V> {
    open spec fn obeys_partial_cmp_spec() -> bool {
        true
    }

    open spec fn partial_cmp_spec(&self, other: &Self) -> Option<Ordering> {
        timestamp_order(self.ts, other.ts)
    }
}

} // verus!
