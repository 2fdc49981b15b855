//! Typed identifiers. Each wraps the index under which a definition is filed.

use vstd::prelude::*;

verus! {

/// Identifies a room template.
#[derive(Debug, Clone, Copy, PartialEq, Eq, Structural, Hash)]
pub struct RoomTemplateID(pub usize);

/// Identifies an entry of the spawn tables.
#[derive(Debug, Clone, Copy, PartialEq, Eq, Structural, Hash)]
pub struct SpawnEntryID(pub usize);

/// Identifies a list of entity templates that are spawned together.
#[derive(Debug, Clone, Copy, PartialEq, Eq, Structural, Hash)]
pub struct SpawnableID(pub usize);

/// Identifies a kind of tile.
#[derive(Debug, Clone, Copy, PartialEq, Eq, Structural, Hash)]
pub struct TileID(pub usize);

/// Identifies an image of the tile set.
#[derive(Debug, Clone, Copy, PartialEq, Eq, Structural, Hash)]
pub struct ImageID(pub usize);

/// Identifies a spell that an entity holds.
#[derive(Debug, Clone, Copy, PartialEq, Eq, Structural, Hash)]
pub struct SpellInstanceId(pub usize);

/// Identifies the definition of a spell.
#[derive(Debug, Clone, Copy, PartialEq, Eq, Structural, Hash)]
pub struct SpellDefinitionId(pub usize);

} // verus!
