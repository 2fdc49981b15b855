//! Attributes and experience, and what they add to damage.

use vstd::prelude::*;
use super::combat::{Attack, AttackType};

verus! {

/// What each point of might above the minimum adds to melee damage, in tenths.
pub const MIGHT_ATTACK_BONUS: u64 = 24;

/// What each point of skill above the minimum adds to ranged damage, in tenths.
pub const SKILL_ATTACK_BONUS: u64 = 16;

/// What each point of wit above the minimum adds to spell damage, in tenths.
pub const WIT_DAMAGE_BONUS: u64 = 36;

/// The value of an attribute that gives no bonus.
pub const ATTRIBUTE_MINIMUM: u32 = 1;

/// The three attributes of a character.
#[derive(Debug, Clone, Copy, PartialEq, Eq, Structural)]
pub struct Attributes {
    pub might: u32,
    pub wit: u32,
    pub skill: u32,
}

/// Whether the experience collected suffices for the next level.
#[derive(Debug, Clone, Copy, PartialEq, Eq, Structural)]
pub enum XpStatus {
    LevelUp,
    Default,
}

/// One of the three attributes.
#[derive(Debug, Clone, Copy, PartialEq, Eq, Structural)]
pub enum Attribute {
    Might,
    Wit,
    Skill,
}

/// Experience: the level reached, the points collected and the points that
/// the next level asks for.
#[derive(Debug, Clone, Copy, PartialEq, Eq, Structural)]
pub struct Xp {
    pub level: u32,
    pub current: u32,
    pub max: u32,
    pub status: XpStatus,
}

/// The points that the level after `level` asks for: a hundred times the sum
/// of the numbers from 0 to `level`.
pub open spec fn level_requirement(level: nat) -> nat {
    level * (level + 1) / 2 * 100
}

/// By how many points `stat` exceeds the minimum.
pub open spec fn points_above_minimum(stat: u32) -> nat {
    if stat < ATTRIBUTE_MINIMUM {
        0
    } else {
        (stat - ATTRIBUTE_MINIMUM) as nat
    }
}

/// `value`, or `u32::MAX` where it is larger.
pub open spec fn capped_u32(value: int) -> u32 {
    if value > u32::MAX {
        u32::MAX
    } else if value < 0 {
        0
    } else {
        value as u32
    }
}

/// The bonus, in tenths per point, that `stats` gives to an attack of the
/// given type, times the points above the minimum, in tenths of damage.
pub open spec fn attack_bonus_tenths(attack_type: AttackType, stats: Attributes) -> nat {
    match attack_type {
        AttackType::Melee => points_above_minimum(stats.might) * MIGHT_ATTACK_BONUS as nat,
        AttackType::Ranged => points_above_minimum(stats.skill) * SKILL_ATTACK_BONUS as nat,
    }
}

/// The damage of an attack that rolled `in_damage`, with the bonus of the
/// attacker's attributes, cut to a whole number and to `u32::MAX`.
pub open spec fn boosted_attack_damage(in_damage: u32, attack_type: AttackType, stats: Attributes)
    -> u32 {
    capped_u32(in_damage + attack_bonus_tenths(attack_type, stats) / 10)
}

/// The damage that `stats` adds to a spell.
pub open spec fn spell_bonus(stats: Attributes) -> u32 {
    capped_u32((points_above_minimum(stats.wit) * WIT_DAMAGE_BONUS as nat / 10) as int)
}

impl Xp {
    /// No experience yet at `level`.
    pub fn new(level: u32) -> (xp: Xp)
        requires
            level_requirement(level as nat) <= u32::MAX,
        ensures
            xp == (Xp {
                level,
                current: 0,
                max: level_requirement(level as nat) as u32,
                status: XpStatus::Default,
            }),
    {
        Xp { level, current: 0, max: next_level_requirement(level), status: XpStatus::Default }
    }
}

fn points_above(stat: u32) -> (p: u64)
    ensures
        p == points_above_minimum(stat),
{
    if stat < ATTRIBUTE_MINIMUM {
        0
    } else {
        (stat - ATTRIBUTE_MINIMUM) as u64
    }
}

fn cap_u32(value: u64) -> (c: u32)
    ensures
        c == capped_u32(value as int),
{
    if value > u32::MAX as u64 {
        u32::MAX
    } else {
        value as u32
    }
}

/// The damage of `attack` after it rolled `in_damage`, raised by might for a
/// melee attack and by skill for a ranged one.
pub fn attack_damage_boost(in_damage: u32, attack: &Attack, stats: &Attributes) -> (damage: u32)
    ensures
        damage == boosted_attack_damage(in_damage, attack.attack_type, *stats),
{
    let (original_stat, per_stat_bonus) = match attack.attack_type {
        AttackType::Melee => (stats.might, MIGHT_ATTACK_BONUS),
        AttackType::Ranged => (stats.skill, SKILL_ATTACK_BONUS),
    };
    let extra_stat: u64 = points_above(original_stat);
    assert(extra_stat * per_stat_bonus <= 0xffff_ffff * 24) by (nonlinear_arith)
        requires
            extra_stat <= 0xffff_ffff,
            per_stat_bonus <= 24,
    ;
    cap_u32(in_damage as u64 + extra_stat * per_stat_bonus / 10)
}

/// The damage that wit adds to a spell.
pub fn spell_damage_boost(stats: &Attributes) -> (bonus: u32)
    ensures
        bonus == spell_bonus(*stats),
{
    let extra_wit: u64 = points_above(stats.wit);
    cap_u32(extra_wit * WIT_DAMAGE_BONUS / 10)
}

/// Whether the requirement of `level` is a `u32`.
pub fn level_requirement_fits(level: u32) -> (b: bool)
    ensures
        b == (level_requirement(level as nat) <= u32::MAX),
{
    let l: u64 = level as u64;
    assert(l * (l + 1) <= 0xffff_ffff * 0x1_0000_0000) by (nonlinear_arith)
        requires
            l <= 0xffff_ffff,
    ;
    let triangle: u64 = l * (l + 1) / 2;
    triangle <= 42_949_672
}

/// The points that the level after `level` asks for.
pub fn next_level_requirement(level: u32) -> (points: u32)
    requires
        level_requirement(level as nat) <= u32::MAX,
    ensures
        points == level_requirement(level as nat),
{
    let l: u64 = level as u64;
    assert(l * (l + 1) <= 0xffff_ffff * 0x1_0000_0000) by (nonlinear_arith)
        requires
            l <= 0xffff_ffff,
    ;
    let triangle: u64 = l * (l + 1) / 2;
    (triangle * 100) as u32
}

} // verus!
