//! What an entity carries.

use vstd::prelude::*;
use super::combat::Attack;
use crate::random::{grow, grown, roll, GROWTH_CAP};

verus! {

/// By how much the coins found grow per level of depth, in thousandths.
pub const DEPTH_MULTIPLIER: u32 = 1200;

/// How far chance moves the coins found from the listed amount, in thousandths.
pub const RNG_SPAN: u32 = 200;

/// The things that an entity carries; nothing is kept of them yet.
#[derive(Debug, Clone, Copy, PartialEq, Eq, Structural)]
pub struct Inventory;

/// A purse.
#[derive(Debug, Clone, Copy, PartialEq, Eq, Structural)]
pub struct Coins(pub u32);

impl Coins {
    /// Both purses together.
    pub fn plus(self, rhs: Coins) -> (c: Coins)
        requires
            self.0 + rhs.0 <= u32::MAX,
        ensures
            c.0 == self.0 + rhs.0,
    {
        Coins(self.0 + rhs.0)
    }
}

/// The damage of an attack after the attacker's items are counted in: they
/// add nothing.
pub fn item_damage_boost(in_damage: u32, attack: &Attack, stats: &Inventory) -> (damage: u32)
    ensures
        damage == in_damage,
{
    in_damage
}

/// `listed`, grown over the levels below `depth` at `rate` thousandths per
/// level, then taken times `factor` thousandths, in whole units and cut to
/// `u32::MAX`. The growth is worked out in millionths.
pub open spec fn adjusted_for_depth(listed: u32, depth: u32, rate: u32, factor: u32) -> nat {
    let value = grown(
        listed as nat * 1_000_000,
        (depth - 1) as nat,
        rate as nat,
        GROWTH_CAP as nat,
    ) / 1000 * factor as nat / 1_000_000;
    if value > u32::MAX {
        u32::MAX as nat
    } else {
        value
    }
}

/// Works out `adjusted_for_depth`.
pub fn adjust_for_depth(listed: u32, depth: u32, rate: u32, factor: u32) -> (value: u32)
    requires
        depth >= 1,
        rate <= 4000,
        factor <= 4000,
    ensures
        value == adjusted_for_depth(listed, depth, rate, factor),
{
    let start: u64 = listed as u64 * 1_000_000;
    let grown_value: u64 = grow(start, depth - 1, rate) / 1000;
    assert(grown_value * factor <= 4_294_967_295_000 * 4000) by (nonlinear_arith)
        requires
            grown_value <= 4_294_967_295_000,
            factor <= 4000,
    ;
    let value: u64 = grown_value * (factor as u64) / 1_000_000;
    if value > u32::MAX as u64 {
        u32::MAX
    } else {
        value as u32
    }
}

/// The coins listed for a spawn, raised for the depth at which it spawns and
/// moved by chance by up to a fifth in either direction.
pub fn get_adjusted_coins(listed_coins: u32, depth: u32) -> (coins: u32)
    requires
        depth >= 1,
    ensures
        exists|factor: u32|
            1000 - RNG_SPAN <= factor < 1000 + RNG_SPAN && coins == #[trigger] adjusted_for_depth(
                listed_coins,
                depth,
                DEPTH_MULTIPLIER,
                factor,
            ),
{
    let factor = roll(1000 - RNG_SPAN, 1000 + RNG_SPAN - 1);
    adjust_for_depth(listed_coins, depth, DEPTH_MULTIPLIER, factor)
}

} // verus!
