//! A spawnable as it is written in the game data: with its identifier.

use vstd::prelude::*;
use super::id::SpawnableID;
use crate::spawning::entitytemplate::EntityTemplateEnum;

verus! {

/// The templates of a spawnable together with the identifier under which
/// they are filed.
#[derive(Debug)]
pub struct SerializedEntityTemplate {
    pub id: SpawnableID,
    pub data: Vec<EntityTemplateEnum>,
}

impl SerializedEntityTemplate {
    /// `data` as it is written under `id`.
    pub fn new(id: SpawnableID, data: Vec<EntityTemplateEnum>) -> (s: SerializedEntityTemplate)
        ensures
            s.id == id,
            s.data == data,
    {
        SerializedEntityTemplate { id, data }
    }

    /// The identifier and the templates.
    pub fn decompose(self) -> (r: (SpawnableID, Vec<EntityTemplateEnum>))
        ensures
            r.0 == self.id,
            r.1 == self.data,
    {
        (self.id, self.data)
    }
}

} // verus!
