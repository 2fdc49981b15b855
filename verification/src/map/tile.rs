//! Tiles and what may pass or see through them.

use vstd::prelude::*;
use crate::resources::id::ImageID;
use crate::resources::DEFAULT_IMAGE_ID;

verus! {

/// How a tile or an entity may be crossed.
#[derive(Debug, Clone, Copy, PartialEq, Eq, Structural)]
pub enum Passable {
    Walk,
    Swim,
    Fly,
    /// Nothing passes.
    Impassable,
}

/// What a tile or an entity does to a line of sight.
#[derive(Debug, Clone, Copy, PartialEq, Eq, Structural)]
pub enum Los {
    Block,
    Obstruct,
    Clear,
}

/// The definition of a kind of tile.
#[derive(Debug)]
pub struct GameTile {
    pub name: String,
    pub image: ImageID,
    pub passable: Passable,
    pub los: Los,
}

impl GameTile {
    /// A copy of the tile.
    pub fn duplicate(&self) -> (t: GameTile)
        ensures
            t == *self,
    {
        GameTile { name: self.name.clone(), image: self.image, passable: self.passable, los: self.los }
    }
}

impl Clone for GameTile {
    fn clone(&self) -> (t: GameTile)
        ensures
            t == *self,
    {
        self.duplicate()
    }
}

impl Default for GameTile {
    /// The void: nothing passes, and nothing blocks the view.
    fn default() -> (t: GameTile)
        ensures
            t.name@ == "Void"@,
            t.image == ImageID(DEFAULT_IMAGE_ID),
            t.passable == Passable::Impassable,
            t.los == Los::Clear,
    {
        GameTile {
            name: String::from_str("Void"),
            image: ImageID(DEFAULT_IMAGE_ID),
            passable: Passable::Impassable,
            los: Los::Clear,
        }
    }
}

} // verus!
