//! Events and the names of the reactions to them.
//!
//! An event says that something happened, caused by a source entity. The
//! target's response component of the matching kind names the reaction and
//! carries the arguments that are handed to the event when it is applied.

pub mod argument_names;
pub mod named_arguments;
pub mod combat_events;
pub mod interact_events;
pub mod spell_events;
pub mod stealth_events;

pub mod response_functions;

use vstd::prelude::*;
use self::combat_events::{apply_attack, attack_applies, AttackEvent, DeathEvent, ShootEvent};
use self::interact_events::{InteractEvent, PickupEvent};
use self::spell_events::{apply_spell_damage, spell_damage_applies, SpellEffect, SpellEvent};
use self::stealth_events::{try_wake_up, wake_failure, woken, NoiseEvent};
use crate::component::attributes::Attributes;
use crate::component::combat::AttackType;
use crate::component::{ComponentType, ComponentView};
use crate::error::Error;
use crate::logger::MessageLog;
use crate::map::utils::Coordinate;
use crate::world::{World, WorldView};

verus! {

/// What an event may change: the world, the cells that the player has seen,
/// and the messages that wait to be shown.
pub struct GameState {
    pub world: WorldView,
    pub explored: Set<Coordinate>,
    pub log: Seq<Seq<char>>,
}

/// The world and the messages that wait to be shown: what the effect of an
/// event on its target may change.
pub struct Told {
    pub world: WorldView,
    pub log: Seq<Seq<char>>,
}

impl GameState {
    /// The world and the messages of the state.
    pub open spec fn told(self) -> Told {
        Told { world: self.world, log: self.log }
    }
}

/// The name under which `entity` is told of: its name, or `Someone` where it
/// has none.
pub open spec fn display_name(world: WorldView, entity: usize) -> Seq<char> {
    match world.component(ComponentType::Name, entity) {
        Some(ComponentView::Name(n)) => n.0@,
        _ => "Someone"@,
    }
}

/// The attributes of `entity`, if it has any.
pub open spec fn attributes_of(world: WorldView, entity: usize) -> Option<Attributes> {
    match world.component(ComponentType::Attributes, entity) {
        Some(ComponentView::Attributes(a)) => Some(a),
        _ => None,
    }
}

/// The reactions that a response may name.
#[derive(Debug, Clone, Copy, PartialEq, Eq, Structural)]
pub enum ResponseFuctionName {
    /// No reaction: the event counts as handled and is not applied.
    Ignore,
    /// The event is applied to the responding entity.
    Default,
    /// The event is applied to its own source.
    ReflectAll,
    /// The event is applied to its own source with the given chance, in
    /// thousandths, and to the responding entity otherwise. A chance of a
    /// thousand or more is certain.
    ReflectSome(u32),
    OpenDoor,
    OpenChest,
    RevealRoom,
    Close,
    Pickup,
    GrantLevelUp,
    DropInventory,
}

impl Default for ResponseFuctionName {
    fn default() -> (n: ResponseFuctionName)
        ensures
            n == ResponseFuctionName::Default,
    {
        ResponseFuctionName::Default
    }
}

/// The multiplier that leaves damage as it is, in thousandths.
pub const NEUTRAL_MULTIPLIER: u32 = 1000;

/// The numeric arguments of a response. Multipliers are in thousandths.
#[derive(Debug, Clone, Copy, PartialEq, Eq, Structural)]
pub struct Arguments {
    /// The lasting damage multiplier of the entity.
    pub damage_multiplier: Option<u32>,
    /// A passing damage multiplier, which goes before the lasting one.
    pub damage_multiplier_override: Option<u32>,
}

impl Arguments {
    /// The multiplier that applies: the override where there is one, else
    /// the lasting multiplier, else the neutral one.
    pub open spec fn effective_multiplier(self) -> u32 {
        match self.damage_multiplier_override {
            Some(m) => m,
            None => match self.damage_multiplier {
                Some(m) => m,
                None => NEUTRAL_MULTIPLIER,
            },
        }
    }

    /// No arguments, as a value of specifications.
    pub open spec fn spec_new() -> Arguments {
        Arguments { damage_multiplier: None, damage_multiplier_override: None }
    }

    /// No arguments.
    #[verifier::when_used_as_spec(spec_new)]
    pub fn new() -> (a: Arguments)
        ensures
            a == (Arguments { damage_multiplier: None, damage_multiplier_override: None }),
    {
        Arguments { damage_multiplier: None, damage_multiplier_override: None }
    }

    /// The multiplier that applies to damage.
    pub fn multiplier(&self) -> (m: u32)
        ensures
            m == self.effective_multiplier(),
    {
        match self.damage_multiplier_override {
            Some(m) => m,
            None => match self.damage_multiplier {
                Some(m) => m,
                None => NEUTRAL_MULTIPLIER,
            },
        }
    }
}

impl Default for Arguments {
    fn default() -> (a: Arguments)
        ensures
            a == (Arguments { damage_multiplier: None, damage_multiplier_override: None }),
    {
        Arguments::new()
    }
}

/// The arguments of a response that shape the message about the event.
#[derive(Debug)]
pub struct MessageArguments {
    /// The entity that is named as the one who acts, in place of the source.
    pub attacker: Option<usize>,
    /// The verb of the message, in place of the one that the attack has.
    pub attack_message: Option<String>,
    /// The sentence that is added to the message.
    pub addendum: Option<String>,
    /// A passing addendum, which goes before the lasting one.
    pub addendum_override: Option<String>,
}

/// What callers see of `MessageArguments`: the texts as sequences of
/// characters.
pub struct MessageArgumentsView {
    pub attacker: Option<usize>,
    pub attack_message: Option<Seq<char>>,
    pub addendum: Option<Seq<char>>,
    pub addendum_override: Option<Seq<char>>,
}

/// The characters of the text, if there is one.
pub open spec fn text_view(text: Option<String>) -> Option<Seq<char>> {
    match text {
        Some(s) => Some(s@),
        None => None,
    }
}

impl View for MessageArguments {
    type V = MessageArgumentsView;

    open spec fn view(&self) -> MessageArgumentsView {
        MessageArgumentsView {
            attacker: self.attacker,
            attack_message: text_view(self.attack_message),
            addendum: text_view(self.addendum),
            addendum_override: text_view(self.addendum_override),
        }
    }
}

/// A copy of the text, if there is one.
pub fn duplicate_text(text: &Option<String>) -> (t: Option<String>)
    ensures
        t == *text,
{
    match text {
        Some(s) => Some(s.clone()),
        None => None,
    }
}

impl MessageArguments {
    /// No arguments, as a value of specifications.
    pub open spec fn spec_new() -> MessageArguments {
        MessageArguments {
            attacker: None,
            attack_message: None,
            addendum: None,
            addendum_override: None,
        }
    }

    /// No arguments.
    #[verifier::when_used_as_spec(spec_new)]
    pub fn new() -> (a: MessageArguments)
        ensures
            a == (MessageArguments {
                attacker: None,
                attack_message: None,
                addendum: None,
                addendum_override: None,
            }),
    {
        MessageArguments {
            attacker: None,
            attack_message: None,
            addendum: None,
            addendum_override: None,
        }
    }
}

impl Clone for MessageArguments {
    fn clone(&self) -> (a: MessageArguments)
        ensures
            a == *self,
    {
        MessageArguments {
            attacker: self.attacker,
            attack_message: duplicate_text(&self.attack_message),
            addendum: duplicate_text(&self.addendum),
            addendum_override: duplicate_text(&self.addendum_override),
        }
    }
}

impl Default for MessageArguments {
    fn default() -> (a: MessageArguments)
        ensures
            a == (MessageArguments {
                attacker: None,
                attack_message: None,
                addendum: None,
                addendum_override: None,
            }),
    {
        MessageArguments::new()
    }
}

/// Something that happened, caused by a source entity.
#[derive(Debug, Clone, Copy, PartialEq, Eq, Structural)]
pub enum Event {
    Attack(AttackEvent),
    Shoot(ShootEvent),
    Death(DeathEvent),
    Interact(InteractEvent),
    Pickup(PickupEvent),
    Spell(SpellEvent),
    Noise(NoiseEvent),
}

impl Event {
    /// The entity that caused the event.
    pub open spec fn spec_source(&self) -> usize {
        match self {
            Event::Attack(e) => e.source,
            Event::Shoot(e) => e.source,
            Event::Death(e) => e.source,
            Event::Interact(e) => e.source,
            Event::Pickup(e) => e.source,
            Event::Spell(e) => e.source,
            Event::Noise(e) => e.source,
        }
    }

    /// The type of the response that a target of the event reacts with.
    pub open spec fn spec_response_type(&self) -> ComponentType {
        match self {
            Event::Attack(_) => ComponentType::AttackResponse,
            Event::Shoot(_) => ComponentType::ShootResponse,
            Event::Death(_) => ComponentType::DeathResponse,
            Event::Interact(_) => ComponentType::InteractResponse,
            Event::Pickup(_) => ComponentType::PickupResponse,
            Event::Spell(_) => ComponentType::SpellResponse,
            Event::Noise(_) => ComponentType::NoiseResponse,
        }
    }

    /// Whether `post` and `r` are what the event may leave of `pre` when it
    /// is applied to `target` in the name of `source` with the given
    /// arguments. Deaths, interactions and pickups leave everything as it is.
    pub open spec fn applies(
        self,
        pre: Told,
        post: Told,
        source: usize,
        target: usize,
        args: Arguments,
        msg_args: MessageArgumentsView,
        r: Result<(), Error>,
    ) -> bool {
        match self {
            Event::Attack(_) => attack_applies(
                pre,
                post,
                source,
                target,
                AttackType::Melee,
                args,
                msg_args,
                r,
            ),
            Event::Shoot(_) => attack_applies(
                pre,
                post,
                source,
                target,
                AttackType::Ranged,
                args,
                msg_args,
                r,
            ),
            Event::Death(_) => r is Ok && post == pre,
            Event::Interact(_) => r is Ok && post == pre,
            Event::Pickup(_) => r is Ok && post == pre,
            Event::Spell(e) => match e.effect {
                SpellEffect::Damage(damage) => spell_damage_applies(pre, post, damage, target, args, r),
            },
            Event::Noise(e) => match wake_failure(pre.world, target, source) {
                Some(error) => r == Err::<(), Error>(error) && post == pre,
                None => r is Ok && post == (Told { world: woken(pre.world, target), log: pre.log }),
            },
        }
    }

    /// The entity that caused the event.
    #[verifier::when_used_as_spec(spec_source)]
    pub fn source(&self) -> (s: usize)
        ensures
            s == self.spec_source(),
    {
        match self {
            Event::Attack(e) => e.source,
            Event::Shoot(e) => e.source,
            Event::Death(e) => e.source,
            Event::Interact(e) => e.source,
            Event::Pickup(e) => e.source,
            Event::Spell(e) => e.source,
            Event::Noise(e) => e.source,
        }
    }

    /// The type of the response that a target of the event reacts with.
    #[verifier::when_used_as_spec(spec_response_type)]
    pub fn response_type(&self) -> (t: ComponentType)
        ensures
            t == self.spec_response_type(),
    {
        match self {
            Event::Attack(_) => ComponentType::AttackResponse,
            Event::Shoot(_) => ComponentType::ShootResponse,
            Event::Death(_) => ComponentType::DeathResponse,
            Event::Interact(_) => ComponentType::InteractResponse,
            Event::Pickup(_) => ComponentType::PickupResponse,
            Event::Spell(_) => ComponentType::SpellResponse,
            Event::Noise(_) => ComponentType::NoiseResponse,
        }
    }

    /// Applies the event to `target` in the name of `source`.
    pub fn apply(
        &self,
        world: &mut World,
        log: &mut MessageLog,
        source: usize,
        target: usize,
        args: &Arguments,
        msg_args: &MessageArguments,
    ) -> (r: Result<(), Error>)
        requires
            old(world).wf(),
        ensures
            final(world).wf(),
            final(world)@.entity_count == old(world)@.entity_count,
            final(world)@.bsp == old(world)@.bsp,
            final(world)@.player == old(world)@.player,
            self.applies(
                Told { world: old(world)@, log: old(log)@ },
                Told { world: final(world)@, log: final(log)@ },
                source,
                target,
                *args,
                msg_args@,
                r,
            ),
    {
        proof {
            lemma_applies_frame(
                *self,
                Told { world: old(world)@, log: old(log)@ },
                source,
                target,
                *args,
                msg_args@,
            );
        }
        match self {
            Event::Attack(_) => apply_attack(
                world,
                log,
                source,
                target,
                AttackType::Melee,
                args,
                msg_args,
            ),
            Event::Shoot(_) => apply_attack(
                world,
                log,
                source,
                target,
                AttackType::Ranged,
                args,
                msg_args,
            ),
            Event::Death(_) => Ok(()),
            Event::Interact(_) => Ok(()),
            Event::Pickup(_) => Ok(()),
            Event::Spell(e) => match e.effect {
                SpellEffect::Damage(damage) => apply_spell_damage(damage, world, log, target, args),
            },
            Event::Noise(e) => try_wake_up(target, source, e.magnitude, world),
        }
    }
}

/// No event makes, moves or marks an entity when it is applied.
pub proof fn lemma_applies_frame(
    event: Event,
    pre: Told,
    source: usize,
    target: usize,
    args: Arguments,
    msg_args: MessageArgumentsView,
)
    ensures
        forall|post: Told, r: Result<(), Error>| #[trigger]
            event.applies(pre, post, source, target, args, msg_args, r) ==> post.world.entity_count
                == pre.world.entity_count && post.world.bsp == pre.world.bsp && post.world.player
                == pre.world.player,
{
}

} // verus!
