use vstd::prelude::*;

verus! {

/// The integer type used for counters and sizes.
pub type Int = i32;

/// The identifier of a node in the system.
pub type NodeId = i32;

/// A logical timestamp attached to a written value.
pub type Timestamp = i32;

} // verus!
