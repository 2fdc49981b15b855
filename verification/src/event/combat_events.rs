//! Attacks, shots and deaths.

use vstd::prelude::*;
use super::{
    attributes_of, display_name, Arguments, Told, MessageArguments, MessageArgumentsView,
};
use crate::component::attributes::{capped_u32, Attributes};
use crate::component::combat::{
    attack_report, calculate_attack_with, Attack, AttackType, Combat,
};
use crate::component::health::Health;
use crate::component::items::Inventory;
use crate::component::{Component, ComponentType, ComponentView, Name};
use crate::error::Error;
use crate::logger::{attack_message, generate_attack_message, MessageLog};
use crate::random::roll;
use crate::world::{World, WorldView};

verus! {

/// A melee attack by `source`.
#[derive(Debug, Clone, Copy, PartialEq, Eq, Structural)]
pub struct AttackEvent {
    pub source: usize,
}

impl AttackEvent {
    pub fn new(source: usize) -> (e: AttackEvent)
        ensures
            e.source == source,
    {
        AttackEvent { source }
    }
}

/// A ranged attack by `source`.
#[derive(Debug, Clone, Copy, PartialEq, Eq, Structural)]
pub struct ShootEvent {
    pub source: usize,
}

impl ShootEvent {
    pub fn new(source: usize) -> (e: ShootEvent)
        ensures
            e.source == source,
    {
        ShootEvent { source }
    }
}

/// The death of the target. `source` is who caused it.
#[derive(Debug, Clone, Copy, PartialEq, Eq, Structural)]
pub struct DeathEvent {
    pub source: usize,
}

/// `damage` times `multiplier` thousandths, cut to a whole number and to
/// `u32::MAX`.
pub open spec fn scaled_damage(damage: u32, multiplier: u32) -> u32 {
    capped_u32(damage * multiplier / 1000)
}

/// What is said of a hit that no addendum is given for: that it was very
/// effective where the multiplier is above 1.05, that it had little effect
/// where the multiplier is below 0.95, and else nothing.
pub open spec fn default_addendum(multiplier: u32) -> Seq<char> {
    if multiplier > 1050 {
        "It's very effective."@
    } else if multiplier < 950 {
        "It seems to have little effect."@
    } else {
        ""@
    }
}

/// The addendum of the message: the override where there is one, else the
/// lasting addendum, else the one that goes by the multiplier.
pub open spec fn addendum_of(msg_args: MessageArgumentsView, multiplier: u32) -> Seq<char> {
    match msg_args.addendum_override {
        Some(s) => s,
        None => match msg_args.addendum {
            Some(s) => s,
            None => default_addendum(multiplier),
        },
    }
}

/// Why the attack of `source` on `target` fails, if it does: the source has
/// no combat component or no attack of the type, the bounds of the damage
/// are out of order, no health was ever inserted, or the target has none.
pub open spec fn attack_failure(
    world: WorldView,
    source: usize,
    target: usize,
    attack_type: AttackType,
) -> Option<Error> {
    match world.component(ComponentType::Combat, source) {
        Some(ComponentView::Combat(combat)) => match combat.attack_of(attack_type) {
            None => Some(Error::NoAttack(attack_type)),
            Some(attack) => if attack.damage_min > attack.damage_max {
                Some(Error::EmptyRange)
            } else if !world.columns.contains_key(ComponentType::Health) {
                Some(Error::MissingColumn(ComponentType::Health))
            } else if !world.has(ComponentType::Health, target) {
                Some(Error::MissingComponent { entity: target, component: ComponentType::Health })
            } else {
                None
            },
        },
        _ => Some(Error::MissingComponent { entity: source, component: ComponentType::Combat }),
    }
}

/// The attack of the given type that `source` has.
pub open spec fn attack_of(world: WorldView, source: usize, attack_type: AttackType) -> Attack {
    world.component(ComponentType::Combat, source)->0->Combat_0.attack_of(attack_type)->0
}

/// The hit points of `entity`.
pub open spec fn health_of(world: WorldView, entity: usize) -> Health {
    world.component(ComponentType::Health, entity)->0->Health_0
}

/// The damage that the target takes where the die showed `rolled`: the
/// damage of the attack with the attacker's bonus, times the multiplier that
/// applies.
pub open spec fn damage_dealt(
    world: WorldView,
    source: usize,
    attack_type: AttackType,
    args: Arguments,
    rolled: u32,
) -> u32 {
    scaled_damage(
        attack_report(
            attack_of(world, source, attack_type),
            attributes_of(world, source),
            rolled,
        ).damage,
        args.effective_multiplier(),
    )
}

/// The message about the attack.
pub open spec fn attack_told(
    world: WorldView,
    source: usize,
    target: usize,
    attack_type: AttackType,
    args: Arguments,
    msg_args: MessageArgumentsView,
    rolled: u32,
) -> Seq<char> {
    attack_message(
        match msg_args.attacker {
            Some(entity) => display_name(world, entity),
            None => display_name(world, source),
        },
        display_name(world, target),
        match msg_args.attack_message {
            Some(verb) => verb,
            None => match attack_of(world, source, attack_type).attack_type {
                AttackType::Melee => "attacked"@,
                AttackType::Ranged => "shot"@,
            },
        },
        addendum_of(msg_args, args.effective_multiplier()),
        damage_dealt(world, source, attack_type, args, rolled),
    )
}

/// The state after an attack that does not fail, where the die showed
/// `rolled`: the target has lost the damage, and the attack is told.
pub open spec fn attack_outcome(
    pre: Told,
    source: usize,
    target: usize,
    attack_type: AttackType,
    args: Arguments,
    msg_args: MessageArgumentsView,
    rolled: u32,
) -> Told {
    Told {
        world: pre.world.with_component(
            target,
            ComponentView::Health(
                Health(
                    Health::after_damage(
                        health_of(pre.world, target).0,
                        damage_dealt(pre.world, source, attack_type, args, rolled),
                    ),
                    health_of(pre.world, target).1,
                ),
            ),
        ),
        log: pre.log.push(
            attack_told(pre.world, source, target, attack_type, args, msg_args, rolled),
        ),
    }
}

/// Whether `post` and `r` are what an attack of `source` on `target` may
/// leave of `pre`: the failure and `pre`, where the attack fails; else the
/// outcome for a number between the bounds of the damage.
pub open spec fn attack_applies(
    pre: Told,
    post: Told,
    source: usize,
    target: usize,
    attack_type: AttackType,
    args: Arguments,
    msg_args: MessageArgumentsView,
    r: Result<(), Error>,
) -> bool {
    match attack_failure(pre.world, source, target, attack_type) {
        Some(e) => r == Err::<(), Error>(e) && post == pre,
        None => r is Ok && exists|rolled: u32|
            attack_of(pre.world, source, attack_type).damage_min <= rolled <= attack_of(
                pre.world,
                source,
                attack_type,
            ).damage_max && post == #[trigger] attack_outcome(
                pre,
                source,
                target,
                attack_type,
                args,
                msg_args,
                rolled,
            ),
    }
}

/// `damage` times `multiplier` thousandths.
pub fn scale_damage(damage: u32, multiplier: u32) -> (scaled: u32)
    ensures
        scaled == scaled_damage(damage, multiplier),
{
    assert(damage * multiplier <= 0xffff_ffff * 0xffff_ffff) by (nonlinear_arith)
        requires
            damage <= 0xffff_ffff,
            multiplier <= 0xffff_ffff,
    ;
    let product: u64 = damage as u64 * multiplier as u64 / 1000;
    if product > u32::MAX as u64 {
        u32::MAX
    } else {
        product as u32
    }
}

fn name_of(world: &World, entity: usize) -> (name: Option<&Name>)
    requires
        world.wf(),
    ensures
        crate::logger::name_or_someone(name) == display_name(world@, entity),
{
    match world.borrow_entity_component(ComponentType::Name, entity) {
        Some(Component::Name(n)) => Some(n),
        _ => None,
    }
}

/// The attack of `source` on `target` for a die that showed `rolled`.
/// Fails, and changes nothing, where `attack_failure` says so.
pub fn apply_attack_with(
    world: &mut World,
    log: &mut MessageLog,
    source: usize,
    target: usize,
    attack_type: AttackType,
    args: &Arguments,
    msg_args: &MessageArguments,
    rolled: u32,
) -> (r: Result<(), Error>)
    requires
        old(world).wf(),
    ensures
        final(world).wf(),
        match attack_failure(old(world)@, source, target, attack_type) {
            Some(e) => r == Err::<(), Error>(e) && final(world)@ == old(world)@
                && final(log)@ == old(log)@,
            None => r is Ok && (Told { world: final(world)@, log: final(log)@ }) == attack_outcome(
                Told { world: old(world)@, log: old(log)@ },
                source,
                target,
                attack_type,
                *args,
                msg_args@,
                rolled,
            ),
        },
{
    proof {
        world.lemma_wf();
    }
    let combat = match world.borrow_entity_component(ComponentType::Combat, source) {
        Some(Component::Combat(c)) => *c,
        _ => {
            return Err(
                Error::MissingComponent { entity: source, component: ComponentType::Combat },
            );
        },
    };
    let attributes: Option<Attributes> = match world.borrow_entity_component(
        ComponentType::Attributes,
        source,
    ) {
        Some(Component::Attributes(a)) => Some(*a),
        _ => None,
    };
    let items: Option<Inventory> = match world.borrow_entity_component(
        ComponentType::Inventory,
        source,
    ) {
        Some(Component::Inventory(i)) => Some(*i),
        _ => None,
    };
    let attack = match combat.get_attack(attack_type) {
        Some(a) => a,
        None => {
            return Err(Error::NoAttack(attack_type));
        },
    };
    if attack.damage_min > attack.damage_max {
        return Err(Error::EmptyRange);
    }
    let attack_report = calculate_attack_with(&attack, attributes.as_ref(), items.as_ref(), rolled);
    let multiplier = args.multiplier();

    if world.borrow_component_vec(ComponentType::Health).is_none() {
        return Err(Error::MissingColumn(ComponentType::Health));
    }
    let mut health = match world.borrow_entity_component(ComponentType::Health, target) {
        Some(Component::Health(h)) => *h,
        _ => {
            return Err(
                Error::MissingComponent { entity: target, component: ComponentType::Health },
            );
        },
    };
    let damage = scale_damage(attack_report.damage, multiplier);
    health.sub_current(damage);

    let mut addendum = String::new();
    match &msg_args.addendum_override {
        Some(text) => {
            addendum = text.clone();
        },
        None => match &msg_args.addendum {
            Some(text) => {
                addendum = text.clone();
            },
            None => {
                if multiplier > 1050 {
                    addendum = String::from_str("It's very effective.");
                } else if multiplier < 950 {
                    addendum = String::from_str("It seems to have little effect.");
                } else {
                    addendum = String::from_str("");
                }
            },
        },
    }
    let attacker_name = match msg_args.attacker {
        Some(entity) => name_of(world, entity),
        None => name_of(world, source),
    };
    let defender_name = name_of(world, target);
    let log_msg = match &msg_args.attack_message {
        Some(verb) => generate_attack_message(
            attacker_name,
            defender_name,
            verb.as_str(),
            addendum.as_str(),
            damage,
        ),
        None => generate_attack_message(
            attacker_name,
            defender_name,
            attack_report.hit_message.as_str(),
            addendum.as_str(),
            damage,
        ),
    };
    let _ = world.add_component(target, Component::Health(health));
    log.queue_message(log_msg.as_str());
    proof {
        let pre = Told { world: old(world)@, log: old(log)@ };
        let post = attack_outcome(pre, source, target, attack_type, *args, msg_args@, rolled);
        assert(world@ == post.world);
        assert(log@ == post.log);
    }
    Ok(())
}

/// The attack of `source` on `target`: rolls the damage between the bounds
/// of the attack and applies it.
pub fn apply_attack(
    world: &mut World,
    log: &mut MessageLog,
    source: usize,
    target: usize,
    attack_type: AttackType,
    args: &Arguments,
    msg_args: &MessageArguments,
) -> (r: Result<(), Error>)
    requires
        old(world).wf(),
    ensures
        final(world).wf(),
        attack_applies(
            Told { world: old(world)@, log: old(log)@ },
            Told { world: final(world)@, log: final(log)@ },
            source,
            target,
            attack_type,
            *args,
            msg_args@,
            r,
        ),
{
    let rolled: u32 = match world.borrow_entity_component(ComponentType::Combat, source) {
        Some(Component::Combat(c)) => match c.get_attack(attack_type) {
            Some(a) => if a.damage_min <= a.damage_max {
                roll(a.damage_min, a.damage_max)
            } else {
                0
            },
            None => 0,
        },
        _ => 0,
    };
    apply_attack_with(world, log, source, target, attack_type, args, msg_args, rolled)
}

/// Where the arguments hold an override of the damage multiplier, the
/// lasting multiplier does not count: whatever it is, the damage is the
/// damage of the attack times the override, and the outcome is the same.
pub proof fn lemma_override_precedence(
    pre: Told,
    source: usize,
    target: usize,
    attack_type: AttackType,
    override_multiplier: u32,
    base: Option<u32>,
    other_base: Option<u32>,
    msg_args: MessageArgumentsView,
    rolled: u32,
)
    ensures
        damage_dealt(
            pre.world,
            source,
            attack_type,
            Arguments {
                damage_multiplier: base,
                damage_multiplier_override: Some(override_multiplier),
            },
            rolled,
        ) == scaled_damage(
            attack_report(
                attack_of(pre.world, source, attack_type),
                attributes_of(pre.world, source),
                rolled,
            ).damage,
            override_multiplier,
        ),
        attack_outcome(
            pre,
            source,
            target,
            attack_type,
            Arguments {
                damage_multiplier: base,
                damage_multiplier_override: Some(override_multiplier),
            },
            msg_args,
            rolled,
        ) == attack_outcome(
            pre,
            source,
            target,
            attack_type,
            Arguments {
                damage_multiplier: other_base,
                damage_multiplier_override: Some(override_multiplier),
            },
            msg_args,
            rolled,
        ),
{
}

/// Where the message arguments hold an override of the addendum, neither
/// the lasting addendum nor the multiplier counts for what is added to the
/// message.
pub proof fn lemma_addendum_override_precedence(
    msg_args: MessageArgumentsView,
    override_text: Seq<char>,
    multiplier: u32,
)
    requires
        msg_args.addendum_override == Some(override_text),
    ensures
        addendum_of(msg_args, multiplier) == override_text,
{
}

} // verus!
