//! A tile as it is written in the game data: with its identifier.

use vstd::prelude::*;
use super::id::{ImageID, TileID};
use crate::map::tile::{GameTile, Los, Passable};

verus! {

/// A tile together with the identifier under which it is filed.
#[derive(Debug)]
pub struct SerializedGameTile {
    pub id: TileID,
    pub name: String,
    pub image: ImageID,
    pub passable: Passable,
    pub los: Los,
}

impl SerializedGameTile {
    /// `tile` as it is written under `id`.
    pub fn new(id: TileID, tile: GameTile) -> (s: SerializedGameTile)
        ensures
            s.id == id,
            s.name == tile.name,
            s.image == tile.image,
            s.passable == tile.passable,
            s.los == tile.los,
    {
        SerializedGameTile {
            id,
            name: tile.name,
            image: tile.image,
            passable: tile.passable,
            los: tile.los,
        }
    }

    /// The identifier and the tile.
    pub fn decompose(self) -> (r: (TileID, GameTile))
        ensures
            r.0 == self.id,
            r.1 == (GameTile {
                name: self.name,
                image: self.image,
                passable: self.passable,
                los: self.los,
            }),
    {
        (
            self.id,
            GameTile { name: self.name, image: self.image, passable: self.passable, los: self.los },
        )
    }
}

} // verus!
