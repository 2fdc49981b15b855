//! The names under which the arguments of a response are filed in the game
//! data.
//!
//! Every argument shapes how an entity differs from others of its kind. A
//! value that is left unset gives way to the default of the event. Override
//! values, and only those, are for passing changes of an entity's behavior;
//! the others are changed at run time only where the change is to last.

use vstd::prelude::*;

verus! {

pub const ARG_DAMAGE_MULTIPLIER: &'static str = "DMG_MULTIPLIER";

pub const ARG_DAMAGE_MULTIPLIER_OVERRIDE: &'static str = "DMG_MULTIPLIER_OVERRIDE";

pub const MSG_ARG_ATTACKER: &'static str = "ATTACKER_ENTITY";

pub const MSG_ARG_ATTACK_MESSAGE: &'static str = "ATTACK_MSG";

pub const MSG_ARG_ADDENDUM: &'static str = "EVENT_ADDENDUM";

pub const MSG_ARG_ADDENDUM_OVERRIDE: &'static str = "EVENT_ADDENDUM_OVERRIDE";

} // verus!
