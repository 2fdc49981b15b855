//! The definition of a spell as the game data gives it.

use vstd::prelude::*;
use crate::component::image::ImageState;
use crate::component::spell::SpellEffectName;
use crate::component::Name;
use crate::system::TimeSlot;

verus! {

/// A spell as it is defined: what it is called, what it does, how often it
/// can be cast, and when its casts come back.
#[derive(Debug)]
pub struct SpellDefinition {
    pub name: Name,
    pub effect: SpellEffectName,
    pub icon_states: ImageState,
    pub casts: u32,
    pub reset_time_slot: TimeSlot,
}

} // verus!
