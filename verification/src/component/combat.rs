//! Attacks and how their damage is worked out.

use vstd::prelude::*;
use super::attributes::{attack_damage_boost, boosted_attack_damage, Attributes};
use super::items::{item_damage_boost, Inventory};
use crate::error::Error;
use crate::random::{grow, grown, roll, GROWTH_CAP};

verus! {

/// By how much the damage bonus of monsters grows per level of depth, in
/// thousandths.
pub const DEPTH_MULTIPLIER: u32 = 1100;

/// What is added to every range, in quarters of a tile, so that a target
/// on the rim of the range is still within it.
pub const RANGE_EPSILON: u32 = 1;

/// The least and the largest damage of an attack or a spell.
#[derive(Debug, Clone, Copy, PartialEq, Eq, Structural)]
pub struct DamageRange(pub u32, pub u32);

impl DamageRange {
    /// Both bounds raised by `rhs`.
    pub fn plus(self, rhs: u32) -> (r: DamageRange)
        requires
            self.0 + rhs <= u32::MAX,
            self.1 + rhs <= u32::MAX,
        ensures
            r.0 == self.0 + rhs,
            r.1 == self.1 + rhs,
    {
        DamageRange(self.0 + rhs, self.1 + rhs)
    }

    /// The bounds of both ranges added up.
    pub fn plus_range(self, rhs: DamageRange) -> (r: DamageRange)
        requires
            self.0 + rhs.0 <= u32::MAX,
            self.1 + rhs.1 <= u32::MAX,
        ensures
            r.0 == self.0 + rhs.0,
            r.1 == self.1 + rhs.1,
    {
        DamageRange(self.0 + rhs.0, self.1 + rhs.1)
    }
}

impl Default for DamageRange {
    fn default() -> (r: DamageRange)
        ensures
            r == DamageRange(0, 0),
    {
        DamageRange(0, 0)
    }
}

/// What kind of harm an attack does.
#[derive(Debug, Clone, Copy, PartialEq, Eq, Structural)]
pub enum DamageType {
    Physical,
    Burning,
    Magical,
}

/// Whether an attack is made at arm's length or from afar.
#[derive(Debug, Clone, Copy, PartialEq, Eq, Structural)]
pub enum AttackType {
    Melee,
    Ranged,
}

/// An attack. Its range is kept in quarters of a tile.
#[derive(Debug, Clone, Copy, PartialEq, Eq, Structural)]
pub struct Attack {
    pub damage_min: u32,
    pub damage_max: u32,
    pub damage_type: DamageType,
    pub attack_type: AttackType,
    pub range: u32,
}

impl Attack {
    /// An attack that reaches `range` tiles, and a quarter tile more.
    pub fn new(min: u32, max: u32, damage_type: DamageType, attack_type: AttackType, range: u32) -> (a:
        Attack)
        requires
            4 * range + RANGE_EPSILON <= u32::MAX,
        ensures
            a == (Attack {
                damage_min: min,
                damage_max: max,
                damage_type,
                attack_type,
                range: (4 * range + RANGE_EPSILON) as u32,
            }),
    {
        Attack {
            damage_min: min,
            damage_max: max,
            damage_type,
            attack_type,
            range: 4 * range + RANGE_EPSILON,
        }
    }

    /// A physical melee attack that reaches one tile, as a value of
    /// specifications.
    pub open spec fn spec_melee(min: u32, max: u32) -> Attack {
        Attack {
            damage_min: min,
            damage_max: max,
            damage_type: DamageType::Physical,
            attack_type: AttackType::Melee,
            range: 5,
        }
    }

    /// A physical ranged attack that reaches five tiles, as a value of
    /// specifications.
    pub open spec fn spec_ranged(min: u32, max: u32) -> Attack {
        Attack {
            damage_min: min,
            damage_max: max,
            damage_type: DamageType::Physical,
            attack_type: AttackType::Ranged,
            range: 21,
        }
    }

    /// A physical melee attack that reaches one tile.
    pub fn new_melee(min: u32, max: u32) -> (a: Attack)
        ensures
            a == (Attack {
                damage_min: min,
                damage_max: max,
                damage_type: DamageType::Physical,
                attack_type: AttackType::Melee,
                range: 5,
            }),
    {
        Attack {
            damage_min: min,
            damage_max: max,
            damage_type: DamageType::Physical,
            attack_type: AttackType::Melee,
            range: 4 + RANGE_EPSILON,
        }
    }

    /// A physical ranged attack that reaches five tiles.
    pub fn new_ranged(min: u32, max: u32) -> (a: Attack)
        ensures
            a == (Attack {
                damage_min: min,
                damage_max: max,
                damage_type: DamageType::Physical,
                attack_type: AttackType::Ranged,
                range: 21,
            }),
    {
        Attack {
            damage_min: min,
            damage_max: max,
            damage_type: DamageType::Physical,
            attack_type: AttackType::Ranged,
            range: 20 + RANGE_EPSILON,
        }
    }

    /// A melee attack with the given damage, if there is one.
    pub fn optional_melee(values: Option<DamageRange>) -> (a: Option<Attack>)
        ensures
            a == match values {
                Some(range) => Some(
                    Attack {
                        damage_min: range.0,
                        damage_max: range.1,
                        damage_type: DamageType::Physical,
                        attack_type: AttackType::Melee,
                        range: 5,
                    },
                ),
                None => None,
            },
    {
        match values {
            Some(DamageRange(min, max)) => Some(Attack::new_melee(min, max)),
            None => None,
        }
    }

    /// A ranged attack with the given damage, if there is one.
    pub fn optional_ranged(values: Option<DamageRange>) -> (a: Option<Attack>)
        ensures
            a == match values {
                Some(range) => Some(
                    Attack {
                        damage_min: range.0,
                        damage_max: range.1,
                        damage_type: DamageType::Physical,
                        attack_type: AttackType::Ranged,
                        range: 21,
                    },
                ),
                None => None,
            },
    {
        match values {
            Some(DamageRange(min, max)) => Some(Attack::new_ranged(min, max)),
            None => None,
        }
    }
}

/// The attacks that an entity can make.
#[derive(Debug, Clone, Copy, PartialEq, Eq, Structural)]
pub struct Combat {
    pub melee_attack: Option<Attack>,
    pub ranged_attack: Option<Attack>,
}

impl Combat {
    /// The attack of the given type, if the entity has one.
    pub open spec fn attack_of(self, attack_type: AttackType) -> Option<Attack> {
        match attack_type {
            AttackType::Melee => self.melee_attack,
            AttackType::Ranged => self.ranged_attack,
        }
    }

    pub fn new(melee: Option<Attack>, ranged: Option<Attack>) -> (c: Combat)
        ensures
            c == (Combat { melee_attack: melee, ranged_attack: ranged }),
    {
        Combat { melee_attack: melee, ranged_attack: ranged }
    }

    pub fn new_melee(attack: Attack) -> (c: Combat)
        ensures
            c == (Combat { melee_attack: Some(attack), ranged_attack: None }),
    {
        Combat { melee_attack: Some(attack), ranged_attack: None }
    }

    pub fn new_ranged(attack: Attack) -> (c: Combat)
        ensures
            c == (Combat { melee_attack: None, ranged_attack: Some(attack) }),
    {
        Combat { melee_attack: None, ranged_attack: Some(attack) }
    }

    /// The attack of the given type, if the entity has one.
    pub fn get_attack(&self, attack_type: AttackType) -> (a: Option<Attack>)
        ensures
            a == self.attack_of(attack_type),
    {
        match attack_type {
            AttackType::Melee => self.melee_attack,
            AttackType::Ranged => self.ranged_attack,
        }
    }
}

/// The verb with which a hit of the given type is told.
#[derive(Debug, Clone, Copy, PartialEq, Eq, Structural)]
pub enum HitMessage {
    Attacked,
    Shot,
}

impl HitMessage {
    /// The verb as text.
    pub fn as_str(self) -> (s: &'static str)
        ensures
            s@ == match self {
                HitMessage::Attacked => "attacked"@,
                HitMessage::Shot => "shot"@,
            },
    {
        match self {
            HitMessage::Attacked => "attacked",
            HitMessage::Shot => "shot",
        }
    }
}

/// What an attack came to.
#[derive(Debug, Clone, Copy, PartialEq, Eq, Structural)]
pub struct AttackReport {
    pub damage: u32,
    pub damage_type: DamageType,
    pub attack_type: AttackType,
    pub hit_message: HitMessage,
}

/// The attributes behind the reference, if there are any.
pub open spec fn owned(stats: Option<&Attributes>) -> Option<Attributes> {
    match stats {
        Some(s) => Some(*s),
        None => None,
    }
}

/// The damage of `attack` where the die showed `rolled`: raised by the
/// attacker's attributes, if it has any. Items add nothing.
pub open spec fn attack_damage(attack: Attack, stats: Option<Attributes>, rolled: u32) -> u32 {
    match stats {
        Some(stats) => boosted_attack_damage(rolled, attack.attack_type, stats),
        None => rolled,
    }
}

/// The report of `attack` where the die showed `rolled`.
pub open spec fn attack_report(attack: Attack, stats: Option<Attributes>, rolled: u32)
    -> AttackReport {
    AttackReport {
        damage: attack_damage(attack, stats, rolled),
        damage_type: attack.damage_type,
        attack_type: attack.attack_type,
        hit_message: match attack.attack_type {
            AttackType::Melee => HitMessage::Attacked,
            AttackType::Ranged => HitMessage::Shot,
        },
    }
}

/// Works out `attack` for a die that showed `rolled`.
pub fn calculate_attack_with(
    attack: &Attack,
    stats: Option<&Attributes>,
    items: Option<&Inventory>,
    rolled: u32,
) -> (report: AttackReport)
    ensures
        report == attack_report(
            *attack,
            owned(stats),
            rolled,
        ),
{
    let hit_message = match attack.attack_type {
        AttackType::Melee => HitMessage::Attacked,
        AttackType::Ranged => HitMessage::Shot,
    };
    let mut damage: u32 = rolled;
    if let Some(stats) = stats {
        damage = attack_damage_boost(damage, attack, stats);
    }
    if let Some(items) = items {
        damage = item_damage_boost(damage, attack, items);
    }
    AttackReport {
        damage,
        damage_type: attack.damage_type,
        attack_type: attack.attack_type,
        hit_message,
    }
}

/// Rolls the damage of `attack` between its two bounds and works it out.
pub fn calculate_attack(attack: &Attack, stats: Option<&Attributes>, items: Option<&Inventory>) -> (report:
    AttackReport)
    requires
        attack.damage_min <= attack.damage_max,
    ensures
        exists|rolled: u32|
            attack.damage_min <= rolled <= attack.damage_max && report == #[trigger] attack_report(
                *attack,
                owned(stats),
                rolled,
            ),
{
    let rolled = roll(attack.damage_min, attack.damage_max);
    calculate_attack_with(attack, stats, items, rolled)
}

/// Works out the melee attack of `combat`; fails where it has none.
pub fn calculate_melee_attack(combat: &Combat, stats: Option<&Attributes>, items: Option<&Inventory>) -> (r:
    Result<AttackReport, Error>)
    requires
        combat.melee_attack is Some ==> combat.melee_attack->0.damage_min
            <= combat.melee_attack->0.damage_max,
    ensures
        combat.melee_attack is None ==> r == Err::<AttackReport, Error>(
            Error::NoAttack(AttackType::Melee),
        ),
        combat.melee_attack is Some ==> r is Ok && exists|rolled: u32|
            combat.melee_attack->0.damage_min <= rolled <= combat.melee_attack->0.damage_max
                && r->Ok_0
                == #[trigger] attack_report(
                combat.melee_attack->0,
                owned(stats),
                rolled,
            ),
{
    match &combat.melee_attack {
        Some(attack) => Ok(calculate_attack(attack, stats, items)),
        None => Err(Error::NoAttack(AttackType::Melee)),
    }
}

/// Works out the ranged attack of `combat`; fails where it has none.
pub fn calculate_ranged_attack(combat: &Combat, stats: Option<&Attributes>, items: Option<&Inventory>) -> (r:
    Result<AttackReport, Error>)
    requires
        combat.ranged_attack is Some ==> combat.ranged_attack->0.damage_min
            <= combat.ranged_attack->0.damage_max,
    ensures
        combat.ranged_attack is None ==> r == Err::<AttackReport, Error>(
            Error::NoAttack(AttackType::Ranged),
        ),
        combat.ranged_attack is Some ==> r is Ok && exists|rolled: u32|
            combat.ranged_attack->0.damage_min <= rolled <= combat.ranged_attack->0.damage_max
                && r->Ok_0 == #[trigger] attack_report(
                combat.ranged_attack->0,
                owned(stats),
                rolled,
            ),
{
    match &combat.ranged_attack {
        Some(attack) => Ok(calculate_attack(attack, stats, items)),
        None => Err(Error::NoAttack(AttackType::Ranged)),
    }
}

/// The damage that is left of `attack` after armor: all of it.
pub fn calculate_armor_reduction(
    attack: &AttackReport,
    stats: Option<&Attributes>,
    items: Option<&Inventory>,
) -> (damage: u32)
    ensures
        damage == attack.damage,
{
    attack.damage
}

/// By how much the damage of monsters is raised at `depth`: the whole part
/// of 1.1 to the power of the levels below the first.
pub open spec fn depth_damage_bonus(depth: u32) -> nat {
    grown(1_000_000, (depth - 1) as nat, DEPTH_MULTIPLIER as nat, GROWTH_CAP as nat) / 1_000_000
}

/// The damage listed for a monster, raised for the depth at which it spawns.
pub fn get_adjusted_damage(listed_damage: u32, depth: u32) -> (damage: u32)
    requires
        depth >= 1,
        listed_damage + depth_damage_bonus(depth) <= u32::MAX,
    ensures
        damage == listed_damage + depth_damage_bonus(depth),
{
    let damage_increase: u64 = grow(1_000_000, depth - 1, DEPTH_MULTIPLIER) / 1_000_000;
    (listed_damage as u64 + damage_increase) as u32
}

/// The damage listed for a monster, raised for the depth at which it spawns;
/// `None` where the depth is zero or the sum is no `u32`.
pub fn checked_adjusted_damage(listed_damage: u32, depth: u32) -> (damage: Option<u32>)
    ensures
        damage is Some <==> depth >= 1 && listed_damage + depth_damage_bonus(depth) <= u32::MAX,
        damage is Some ==> damage->0 == listed_damage + depth_damage_bonus(depth),
{
    if depth == 0 {
        return None;
    }
    let damage_increase: u64 = grow(1_000_000, depth - 1, DEPTH_MULTIPLIER) / 1_000_000;
    if listed_damage as u64 + damage_increase > u32::MAX as u64 {
        None
    } else {
        Some(get_adjusted_damage(listed_damage, depth))
    }
}

} // verus!
