//! Components without data: their presence alone marks an entity.

use vstd::prelude::*;

verus! {

/// Implemented by the components that carry no data.
pub trait Tag {
}

/// Marks a hostile creature.
#[derive(Debug, Clone, Copy, PartialEq, Eq, Structural)]
pub struct Monster;

impl Tag for Monster {
}

/// Marks the entity that the player steers.
#[derive(Debug, Clone, Copy, PartialEq, Eq, Structural)]
pub struct Player;

impl Tag for Player {
}

/// Marks a door.
#[derive(Debug, Clone, Copy, PartialEq, Eq, Structural)]
pub struct Door;

impl Tag for Door {
}

/// Marks the stairs to the next level.
#[derive(Debug, Clone, Copy, PartialEq, Eq, Structural)]
pub struct StairsDown;

impl Tag for StairsDown {
}

/// Marks something that is costly to walk through.
#[derive(Debug, Clone, Copy, PartialEq, Eq, Structural)]
pub struct Hazard;

impl Tag for Hazard {
}

} // verus!
