//! Hit points.

use vstd::prelude::*;
use super::items::{adjust_for_depth, adjusted_for_depth};
use crate::random::roll;

verus! {

/// By how much the hit points of monsters grow per level of depth, in
/// thousandths.
pub const DEPTH_MULTIPLIER: u32 = 1100;

/// How far chance moves the hit points from the listed amount, in thousandths.
pub const RNG_SPAN: u32 = 100;

/// The hit points listed for a monster, raised for the depth at which it
/// spawns and moved by chance by up to a tenth in either direction.
pub fn get_adjusted_health(listed_health: u32, depth: u32) -> (health: u32)
    requires
        depth >= 1,
    ensures
        exists|factor: u32|
            1000 - RNG_SPAN <= factor < 1000 + RNG_SPAN && health == #[trigger] adjusted_for_depth(
                listed_health,
                depth,
                DEPTH_MULTIPLIER,
                factor,
            ),
{
    let factor = roll(1000 - RNG_SPAN, 1000 + RNG_SPAN - 1);
    adjust_for_depth(listed_health, depth, DEPTH_MULTIPLIER, factor)
}

/// Hit points: the current amount, then the maximum.
#[derive(Debug, Clone, Copy, PartialEq, Eq, Structural)]
pub struct Health(pub u32, pub u32);

/// By how much the maximum grows at a level-up, in thousandths.
pub const LEVEL_UP_MULTIPLIER: u32 = 1150;

impl Health {
    /// What is left of `current` hit points after `amount` damage: never
    /// below zero.
    pub open spec fn after_damage(current: u32, amount: u32) -> u32 {
        if current > amount {
            (current - amount) as u32
        } else {
            0
        }
    }

    /// Full health with the given maximum.
    pub fn new(max: u32) -> (h: Health)
        ensures
            h == Health(max, max),
    {
        Health(max, max)
    }

    /// Raises the current amount and the maximum by `amount`.
    pub fn add_max(&mut self, amount: u32)
        requires
            old(self).0 + amount <= u32::MAX,
            old(self).1 + amount <= u32::MAX,
        ensures
            final(self).0 == old(self).0 + amount,
            final(self).1 == old(self).1 + amount,
    {
        self.0 += amount;
        self.1 += amount;
    }

    /// Heals by `amount`, up to the maximum.
    pub fn add_current(&mut self, amount: u32)
        requires
            old(self).0 + amount <= u32::MAX,
        ensures
            final(self).1 == old(self).1,
            final(self).0 == if old(self).0 + amount <= old(self).1 {
                (old(self).0 + amount) as u32
            } else {
                old(self).1
            },
    {
        self.0 = (self.0 + amount).min(self.1)
    }

    /// Takes `amount` damage; the current amount stops at zero.
    pub fn sub_current(&mut self, amount: u32)
        ensures
            final(self).1 == old(self).1,
            final(self).0 == Health::after_damage(old(self).0, amount),
    {
        if self.0 > amount {
            self.0 = self.0 - amount;
        } else {
            self.0 = 0;
        }
    }

    /// Heals fully.
    pub fn reset_to_max(&mut self)
        ensures
            *final(self) == Health(old(self).1, old(self).1),
    {
        self.0 = self.1
    }
}

/// A summary of hit points.
#[derive(Debug, Clone, Copy, PartialEq, Eq, Structural)]
pub enum HealthStatus {
    Full,
    Hurt,
    Dead,
}

impl HealthStatus {
    /// The status of `value`: full where the current amount equals the
    /// maximum, else dead where nothing is left, else hurt.
    pub open spec fn of(value: Health) -> HealthStatus {
        if value.0 == value.1 {
            HealthStatus::Full
        } else if value.0 == 0 {
            HealthStatus::Dead
        } else {
            HealthStatus::Hurt
        }
    }
}

impl From<Health> for HealthStatus {
    fn from(value: Health) -> (s: HealthStatus) {
        if value.0 == value.1 {
            HealthStatus::Full
        } else if value.0 == 0 {
            HealthStatus::Dead
        } else {
            HealthStatus::Hurt
        }
    }
}

impl vstd::std_specs::convert::FromSpecImpl<Health> for HealthStatus {
    open spec fn obeys_from_spec() -> bool {
        true
    }

    open spec fn from_spec(value: Health) -> HealthStatus {
        HealthStatus::of(value)
    }
}

} // verus!
