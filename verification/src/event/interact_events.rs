//! Interactions and pickups. Both do nothing by themselves: what happens is
//! up to the response of the target.

use vstd::prelude::*;

verus! {

/// `source` interacts with the target.
#[derive(Debug, Clone, Copy, PartialEq, Eq, Structural)]
pub struct InteractEvent {
    pub source: usize,
}

/// `source` walks over the target.
#[derive(Debug, Clone, Copy, PartialEq, Eq, Structural)]
pub struct PickupEvent {
    pub source: usize,
}

} // verus!
