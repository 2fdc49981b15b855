//! An entry of the spawn tables as it is written in the game data: with its
//! identifier.

use vstd::prelude::*;
use super::id::SpawnEntryID;
use crate::spawning::spawnentry::SpawnEntryType;

verus! {

/// An entry of the spawn tables together with the identifier under which it
/// is filed.
#[derive(Debug)]
pub struct SerializedSpawnEntry {
    pub id: SpawnEntryID,
    pub category: SpawnEntryType,
}

impl SerializedSpawnEntry {
    /// `spawn_entry` as it is written under `id`.
    pub fn new(id: SpawnEntryID, spawn_entry: SpawnEntryType) -> (s: SerializedSpawnEntry)
        ensures
            s.id == id,
            s.category == spawn_entry,
    {
        SerializedSpawnEntry { id, category: spawn_entry }
    }

    /// The identifier and the entry.
    pub fn decompose(self) -> (r: (SpawnEntryID, SpawnEntryType))
        ensures
            r.0 == self.id,
            r.1 == self.category,
    {
        (self.id, self.category)
    }
}

} // verus!
