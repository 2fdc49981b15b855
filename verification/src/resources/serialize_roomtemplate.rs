//! A room template as it is written in the game data: with its identifier.

use vstd::prelude::*;
use super::id::{RoomTemplateID, SpawnEntryID};
use crate::spawning::roomtemplate::{RoomCriterion, RoomTemplate};

verus! {

/// A room template together with the identifier under which it is filed.
#[derive(Debug)]
pub struct SerializedRoomTemplate {
    pub id: RoomTemplateID,
    pub requirements: Vec<RoomCriterion>,
    pub spawns: Vec<SpawnEntryID>,
}

impl SerializedRoomTemplate {
    /// `template` as it is written under `id`.
    pub fn new(id: RoomTemplateID, template: RoomTemplate) -> (s: SerializedRoomTemplate)
        ensures
            s.id == id,
            s.requirements == template.requirements,
            s.spawns == template.spawns,
    {
        SerializedRoomTemplate { id, requirements: template.requirements, spawns: template.spawns }
    }

    /// The identifier and the template.
    pub fn decompose(self) -> (r: (RoomTemplateID, RoomTemplate))
        ensures
            r.0 == self.id,
            r.1 == (RoomTemplate { requirements: self.requirements, spawns: self.spawns }),
    {
        (self.id, RoomTemplate { requirements: self.requirements, spawns: self.spawns })
    }
}

} // verus!
