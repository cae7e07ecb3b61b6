//! Load generation and measurement for a cluster of CKB nodes: fanning capacity out
//! to worker accounts and back, turning spendable units into signed transactions,
//! spreading submissions over the nodes, watching the cluster's load, and reading the
//! two node protocol versions in one shape.
use vstd::prelude::*;

pub mod allocator;
pub mod case;
pub mod pipeline;
pub mod shim;
pub mod signing;
pub mod watcher;

verus! {

} // verus!
