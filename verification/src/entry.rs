use core::cmp::Ordering;

use vstd::prelude::*;
use vstd::std_specs::cmp::{PartialEqSpecImpl, PartialOrdSpecImpl};

use crate::types::Timestamp;

verus! {

/// The timestamp of an entry that was never written.
pub fn default_timestamp() -> (ts: Timestamp)
    ensures
        ts == -1,
{
    -1
}

/// A value together with the timestamp it was written at. Entries are compared
/// by their timestamps alone.
#[derive(Debug)]
pub struct Entry<V> {
    pub ts: Timestamp,
    pub val: V,
}

impl<V> Entry<V> {
    pub fn new(ts: Timestamp, val: V) -> (entry: Entry<V>)
        ensures
            entry.ts == ts,
            entry.val == val,
    {
        Entry { ts: ts, val: val }
    }
}

/// The order of two timestamps.
pub open spec fn timestamp_order(a: Timestamp, b: Timestamp) -> Option<Ordering> {
    if a < b {
        Some(Ordering::Less)
    } else if a == b {
        Some(Ordering::Equal)
    } else {
        Some(Ordering::Greater)
    }
}

impl<V: Default> Default for Entry<V> {
    /// An entry that was never written: the default timestamp and `V`'s default value.
    fn default() -> (entry: Self)
        ensures
            entry.ts == -1,
            call_ensures(V::default, (), entry.val),
    {
        Entry::new(default_timestamp(), V::default())
    }
}

impl<V: Clone> Clone for Entry<V> {
    fn clone(&self) -> (copy: Self)
        ensures
            copy.ts == self.ts,
            cloned(self.val, copy.val),
    {
        Entry { ts: self.ts, val: self.val.clone() }
    }
}

impl<V> PartialEq for Entry<V> {
    fn eq(&self, other: &Self) -> (equal: bool) {
        self.ts == other.ts
    }
}

impl<V> PartialEqSpecImpl for Entry<V> {
    open spec fn obeys_eq_spec() -> bool {
        true
    }

    open spec fn eq_spec(&self, other: &Self) -> bool {
        self.ts == other.ts
    }
}

impl<V> Eq for Entry<V> {}

impl<V> PartialOrd for Entry<V> {
    fn partial_cmp(&self, other: &Self) -> (order: Option<Ordering>) {
        if self.ts < other.ts {
            Some(Ordering::Less)
        } else if self.ts == other.ts {
            Some(Ordering::Equal)
        } else {
            Some(Ordering::Greater)
        }
    }
}

impl<V> PartialOrdSpecImpl for Entry<V> {
    open spec fn obeys_partial_cmp_spec() -> bool {
        true
    }

    open spec fn partial_cmp_spec(&self, other: &Self) -> Option<Ordering> {
        timestamp_order(self.ts, other.ts)
    }
}

} // verus!
