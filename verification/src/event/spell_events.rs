//! Spells that strike a target.

use vstd::prelude::*;
use super::combat_events::{default_addendum, health_of, scale_damage, scaled_damage};
use super::stealth_events::missing;
use super::{display_name, Arguments, Told};
use crate::component::combat::DamageRange;
use crate::component::health::Health;
use crate::component::{Component, ComponentType, ComponentView, Name};
use crate::error::Error;
use crate::logger::{generate_take_damage_message, take_damage_message, MessageLog};
use crate::random::roll;
use crate::world::World;

verus! {

/// What a spell does to the target that it strikes.
#[derive(Debug, Clone, Copy, PartialEq, Eq, Structural)]
pub enum SpellEffect {
    /// Damage between the two bounds.
    Damage(DamageRange),
}

/// A spell of `source` strikes the target.
#[derive(Debug, Clone, Copy, PartialEq, Eq, Structural)]
pub struct SpellEvent {
    pub source: usize,
    pub effect: SpellEffect,
}

impl SpellEvent {
    pub fn new(source: usize, effect: SpellEffect) -> (e: SpellEvent)
        ensures
            e.source == source,
            e.effect == effect,
    {
        SpellEvent { source, effect }
    }
}

/// The state after a spell took its damage from `target`, where the die
/// showed `rolled`.
pub open spec fn spell_damage_outcome(pre: Told, target: usize, args: Arguments, rolled: u32)
    -> Told {
    let damage = scaled_damage(rolled, args.effective_multiplier());
    Told {
        world: pre.world.with_component(
            target,
            ComponentView::Health(
                Health(
                    Health::after_damage(health_of(pre.world, target).0, damage),
                    health_of(pre.world, target).1,
                ),
            ),
        ),
        log: pre.log.push(
            take_damage_message(
                display_name(pre.world, target),
                damage,
                default_addendum(args.effective_multiplier()),
            ),
        ),
    }
}

/// Whether `post` and `r` are what the damage of a spell may leave of
/// `pre`: a failure and `pre`, where the bounds of the damage are out of
/// order or the target has no health; else the outcome for a number between
/// the bounds.
pub open spec fn spell_damage_applies(
    pre: Told,
    post: Told,
    damage: DamageRange,
    target: usize,
    args: Arguments,
    r: Result<(), Error>,
) -> bool {
    if damage.0 > damage.1 {
        r == Err::<(), Error>(Error::EmptyRange) && post == pre
    } else if !pre.world.has(ComponentType::Health, target) {
        r == Err::<(), Error>(missing(target, ComponentType::Health)) && post == pre
    } else {
        r is Ok && exists|rolled: u32|
            damage.0 <= rolled <= damage.1 && post == #[trigger] spell_damage_outcome(
                pre,
                target,
                args,
                rolled,
            )
    }
}

/// Takes the damage of a spell from `target`: a number between the bounds,
/// times the multiplier that applies.
pub fn apply_spell_damage(
    damage: DamageRange,
    world: &mut World,
    log: &mut MessageLog,
    target: usize,
    args: &Arguments,
) -> (r: Result<(), Error>)
    requires
        old(world).wf(),
    ensures
        final(world).wf(),
        spell_damage_applies(
            Told { world: old(world)@, log: old(log)@ },
            Told { world: final(world)@, log: final(log)@ },
            damage,
            target,
            *args,
            r,
        ),
{
    proof {
        world.lemma_wf();
    }
    if damage.0 > damage.1 {
        return Err(Error::EmptyRange);
    }
    let rolled = roll(damage.0, damage.1);
    let multiplier = args.multiplier();
    let dealt = scale_damage(rolled, multiplier);
    let mut health = match world.borrow_entity_component(ComponentType::Health, target) {
        Some(Component::Health(h)) => *h,
        _ => {
            return Err(Error::MissingComponent { entity: target, component: ComponentType::Health });
        },
    };
    health.sub_current(dealt);
    let addendum = if multiplier > 1050 {
        "It's very effective."
    } else if multiplier < 950 {
        "It seems to have little effect."
    } else {
        ""
    };
    let name: Option<&Name> = match world.borrow_entity_component(ComponentType::Name, target) {
        Some(Component::Name(n)) => Some(n),
        _ => None,
    };
    let msg = generate_take_damage_message(name, dealt, addendum);
    let _ = world.add_component(target, Component::Health(health));
    log.queue_message(msg.as_str());
    proof {
        let pre = Told { world: old(world)@, log: old(log)@ };
        assert(world@ == spell_damage_outcome(pre, target, *args, rolled).world);
        assert(log@ == spell_damage_outcome(pre, target, *args, rolled).log);
    }
    Ok(())
}

} // verus!
