//! Spells: the spells that an entity knows and the casts it has left.

use vstd::prelude::*;
use super::attributes::{spell_bonus, spell_damage_boost, Attributes};
use super::combat::DamageRange;
use super::image::{ImageState, ImageStateView};
use super::items::Inventory;
use super::{ComponentType, Name};
use crate::error::Error;
use crate::event::response_functions::{dispatched, passed, state_of, MAX_CASCADE_DEPTH};
use crate::event::spell_events::{SpellEffect, SpellEvent};
use crate::event::stealth_events::missing;
use crate::event::{Event, GameState};
use crate::logger::MessageLog;
use crate::map::los::{line_of_sight, sees};
use crate::map::room::Room;
use crate::map::utils::{
    distance_squared, strictly_within_quarters, within_quarters, Coordinate,
};
use crate::map::{explored_with, first_room_at, GameMap, Ground};
use crate::resources::id::SpellDefinitionId;
use crate::resources::serialize_spell::SpellDefinition;
use crate::resources::ResourceManager;
use crate::system::TimeSlot;
use crate::world::{World, WorldView};

verus! {

/// The effects that a spell may have.
#[derive(Debug, Clone, Copy, PartialEq, Eq, Structural)]
pub enum SpellEffectName {
    Fireball,
    Scry,
}

/// A spell that an entity knows.
#[derive(Debug)]
pub struct SpellInstance {
    pub name: Name,
    pub icon_states: ImageState,
    pub effect: SpellEffectName,
    pub casts_left: u32,
    pub casts_max: u32,
    pub reset_timeslot: TimeSlot,
}

/// What callers see of a `SpellInstance`.
pub struct SpellInstanceView {
    pub name: Seq<char>,
    pub icon_states: ImageStateView,
    pub effect: SpellEffectName,
    pub casts_left: u32,
    pub casts_max: u32,
    pub reset_timeslot: TimeSlot,
}

impl SpellInstanceView {
    /// The spell with all of its casts back, where `time_slot` is when they
    /// come back; else the spell as it is.
    pub open spec fn reset_at(self, time_slot: TimeSlot) -> SpellInstanceView {
        if self.reset_timeslot == time_slot {
            SpellInstanceView { casts_left: self.casts_max, ..self }
        } else {
            self
        }
    }

    /// The spell with `amount` more casts, left and at most.
    pub open spec fn with_more_casts(self, amount: u32) -> SpellInstanceView {
        SpellInstanceView {
            casts_left: (self.casts_left + amount) as u32,
            casts_max: (self.casts_max + amount) as u32,
            ..self
        }
    }

    /// The spell after one cast: one cast less, unless none was left.
    pub open spec fn after_cast(self) -> SpellInstanceView {
        if self.casts_left > 0 {
            SpellInstanceView { casts_left: (self.casts_left - 1) as u32, ..self }
        } else {
            self
        }
    }
}

impl View for SpellInstance {
    type V = SpellInstanceView;

    open spec fn view(&self) -> SpellInstanceView {
        SpellInstanceView {
            name: self.name.0@,
            icon_states: self.icon_states@,
            effect: self.effect,
            casts_left: self.casts_left,
            casts_max: self.casts_max,
            reset_timeslot: self.reset_timeslot,
        }
    }
}

/// The spell that `definition` defines, with all of its casts.
pub open spec fn instance_of(definition: SpellDefinition) -> SpellInstanceView {
    SpellInstanceView {
        name: definition.name.0@,
        icon_states: definition.icon_states@,
        effect: definition.effect,
        casts_left: definition.casts,
        casts_max: definition.casts,
        reset_timeslot: definition.reset_time_slot,
    }
}

impl SpellInstance {
    /// The spell that `definition` defines, with all of its casts.
    pub fn new(definition: &SpellDefinition) -> (spell: SpellInstance)
        ensures
            spell@ == instance_of(*definition),
    {
        SpellInstance {
            name: definition.name.clone(),
            icon_states: definition.icon_states.duplicate(),
            effect: definition.effect,
            casts_left: definition.casts,
            casts_max: definition.casts,
            reset_timeslot: definition.reset_time_slot,
        }
    }

    /// A copy with the same view.
    pub fn duplicate(&self) -> (spell: SpellInstance)
        ensures
            spell@ == self@,
    {
        SpellInstance {
            name: self.name.clone(),
            icon_states: self.icon_states.duplicate(),
            effect: self.effect,
            casts_left: self.casts_left,
            casts_max: self.casts_max,
            reset_timeslot: self.reset_timeslot,
        }
    }
}

impl Clone for SpellInstance {
    fn clone(&self) -> (spell: SpellInstance)
        ensures
            spell@ == self@,
    {
        self.duplicate()
    }
}

/// The spells that an entity knows, in the order in which it learned them.
#[derive(Debug)]
pub struct Spellbook {
    pub spells: Vec<SpellInstance>,
}

impl View for Spellbook {
    type V = Seq<SpellInstanceView>;

    open spec fn view(&self) -> Seq<SpellInstanceView> {
        Seq::new(self.spells@.len(), |i: int| self.spells@[i]@)
    }
}

impl Spellbook {
    /// A book with the spells of `definitions`, in their order.
    pub fn new(definitions: Vec<&SpellDefinition>) -> (book: Spellbook)
        ensures
            book@ == Seq::new(definitions@.len(), |i: int| instance_of(*definitions@[i])),
    {
        let mut spells: Vec<SpellInstance> = Vec::new();
        let mut i: usize = 0;
        while i < definitions.len()
            invariant
                i <= definitions@.len(),
                spells@.len() == i,
                forall|j: int| 0 <= j < i ==> spells@[j]@ == instance_of(*definitions@[j]),
            decreases definitions@.len() - i,
        {
            spells.push(SpellInstance::new(definitions[i]));
            i = i + 1;
        }
        let book = Spellbook { spells };
        assert(book@ =~= Seq::new(definitions@.len(), |i: int| instance_of(*definitions@[i])));
        book
    }

    /// The spells of the book, in their order.
    pub fn get_spells(&self) -> (spells: Vec<&SpellInstance>)
        ensures
            spells@.len() == self@.len(),
            forall|i: int| 0 <= i < spells@.len() ==> *spells@[i] == self.spells@[i],
    {
        let mut spells: Vec<&SpellInstance> = Vec::new();
        let mut i: usize = 0;
        while i < self.spells.len()
            invariant
                i <= self.spells@.len(),
                spells@.len() == i,
                forall|j: int| 0 <= j < i ==> *spells@[j] == self.spells@[j],
            decreases self.spells@.len() - i,
        {
            spells.push(&self.spells[i]);
            i = i + 1;
        }
        spells
    }

    /// Gives every spell whose casts come back at `time_slot` all of its casts.
    pub fn reset_spells(&mut self, time_slot: TimeSlot)
        ensures
            final(self)@ == Seq::new(old(self)@.len(), |i: int| old(self)@[i].reset_at(time_slot)),
    {
        let mut i: usize = 0;
        while i < self.spells.len()
            invariant
                i <= self.spells@.len(),
                self.spells@.len() == old(self).spells@.len(),
                forall|j: int| 0 <= j < i ==> self.spells@[j]@ == old(self)@[j].reset_at(time_slot),
                forall|j: int| i <= j < self.spells@.len()
                    ==> self.spells@[j] == old(self).spells@[j],
            decreases self.spells@.len() - i,
        {
            if self.spells[i].reset_timeslot == time_slot {
                let max = self.spells[i].casts_max;
                self.spells[i].casts_left = max;
            }
            i = i + 1;
        }
        assert(self@ =~= Seq::new(old(self)@.len(), |i: int| old(self)@[i].reset_at(time_slot)));
    }

    /// The spell at `index`, if the book has that many.
    pub fn get_spell(&self, index: usize) -> (spell: Option<&SpellInstance>)
        ensures
            index < self.spells@.len() ==> spell == Some(&self.spells@[index as int]),
            index >= self.spells@.len() ==> spell is None,
    {
        if index < self.spells.len() {
            Some(&self.spells[index])
        } else {
            None
        }
    }

    /// The spell at `index`, to be changed, if the book has that many.
    pub fn get_spell_mut(&mut self, index: usize) -> (spell: Option<&mut SpellInstance>)
        ensures
            index >= old(self).spells@.len() ==> spell is None && *final(self) == *old(self),
            index < old(self).spells@.len() ==> spell is Some
                && *spell->0 == old(self).spells@[index as int]
                && final(self).spells@ == old(self).spells@.update(index as int, *final(spell->0)),
    {
        if index < self.spells.len() {
            Some(&mut self.spells[index])
        } else {
            None
        }
    }

    /// Takes one cast off the spell at `spell_index`, unless it has none
    /// left. Fails where the book has no such spell.
    pub fn register_cast(&mut self, spell_index: usize) -> (r: Result<(), Error>)
        ensures
            spell_index >= old(self)@.len() ==> r == Err::<(), Error>(Error::NoSuchSpell)
                && final(self)@
                == old(self)@,
            spell_index < old(self)@.len() ==> r is Ok && final(self)@ == old(self)@.update(
                spell_index as int,
                old(self)@[spell_index as int].after_cast(),
            ),
    {
        if spell_index >= self.spells.len() {
            return Err(Error::NoSuchSpell);
        }
        if self.spells[spell_index].casts_left > 0 {
            let left = self.spells[spell_index].casts_left;
            self.spells[spell_index].casts_left = left - 1;
        }
        assert(self@ =~= old(self)@.update(
            spell_index as int,
            old(self)@[spell_index as int].after_cast(),
        ));
        Ok(())
    }

    /// Whether every spell of the book can take `amount` more casts.
    pub open spec fn can_take_casts(self, amount: u32) -> bool {
        forall|i: int|
            0 <= i < self@.len() ==> (#[trigger] self@[i]).casts_left + amount <= u32::MAX
                && self@[i].casts_max + amount <= u32::MAX
    }

    /// Whether every spell of the book can take `amount` more casts.
    pub fn takes_casts(&self, amount: u32) -> (b: bool)
        ensures
            b == self.can_take_casts(amount),
    {
        let mut i: usize = 0;
        while i < self.spells.len()
            invariant
                i <= self.spells@.len(),
                forall|k: int|
                    0 <= k < i ==> (#[trigger] self@[k]).casts_left + amount <= u32::MAX
                        && self@[k].casts_max + amount <= u32::MAX,
            decreases self.spells@.len() - i,
        {
            assert(self@[i as int] == self.spells@[i as int]@);
            if self.spells[i].casts_left > u32::MAX - amount || self.spells[i].casts_max
                > u32::MAX - amount {
                return false;
            }
            i = i + 1;
        }
        true
    }

    /// Gives every spell `amount` more casts, left and at most.
    pub fn on_wit_increased(&mut self, amount: u32)
        requires
            old(self).can_take_casts(amount),
        ensures
            final(self)@ == Seq::new(old(self)@.len(), |i: int| old(self)@[i].with_more_casts(amount)),
    {
        let mut i: usize = 0;
        while i < self.spells.len()
            invariant
                i <= self.spells@.len(),
                self.spells@.len() == old(self).spells@.len(),
                old(self).can_take_casts(amount),
                forall|j: int|
                    0 <= j < i ==> self.spells@[j]@ == old(self)@[j].with_more_casts(amount),
                forall|j: int| i <= j < self.spells@.len()
                    ==> self.spells@[j] == old(self).spells@[j],
            decreases self.spells@.len() - i,
        {
            assert(old(self)@[i as int].casts_left + amount <= u32::MAX);
            let left = self.spells[i].casts_left;
            let max = self.spells[i].casts_max;
            self.spells[i].casts_left = left + amount;
            self.spells[i].casts_max = max + amount;
            i = i + 1;
        }
        assert(self@ =~= Seq::new(
            old(self)@.len(),
            |i: int| old(self)@[i].with_more_casts(amount),
        ));
    }

    /// A copy with the same view.
    pub fn duplicate(&self) -> (book: Spellbook)
        ensures
            book@ == self@,
    {
        let mut spells: Vec<SpellInstance> = Vec::new();
        let mut i: usize = 0;
        while i < self.spells.len()
            invariant
                i <= self.spells@.len(),
                spells@.len() == i,
                forall|j: int| 0 <= j < i ==> spells@[j]@ == self.spells@[j]@,
            decreases self.spells@.len() - i,
        {
            spells.push(self.spells[i].duplicate());
            i = i + 1;
        }
        let book = Spellbook { spells };
        assert(book@ =~= self@);
        book
    }
}

impl Clone for Spellbook {
    fn clone(&self) -> (book: Spellbook)
        ensures
            book@ == self@,
    {
        self.duplicate()
    }
}

/// How far a fireball flies, in quarters of a tile.
pub const FIREBALL_RANGE: u32 = 49;

/// How far from its target a fireball strikes, in quarters of a tile.
pub const FIREBALL_RADIUS: u32 = 15;

/// The least damage of a fireball.
pub const FIREBALL_MIN_DAMAGE: u32 = 8;

/// The largest damage of a fireball.
pub const FIREBALL_MAX_DAMAGE: u32 = 14;

impl Spellbook {
    /// Adds the spell that is defined under `id` to the book, with as many
    /// casts more as the caster has wit. Fails where no spell is defined under
    /// `id`, and where the casts would leave the range of `u32`.
    pub fn add_spell(
        &mut self,
        id: SpellDefinitionId,
        stats: Option<&Attributes>,
        items: Option<&Inventory>,
        resources: &ResourceManager,
    ) -> (r: Result<(), Error>)
        ensures
            !resources.spells().contains_key(id.0) ==> r == Err::<(), Error>(Error::NoSuchSpell)
                && final(self)@ == old(self)@,
            resources.spells().contains_key(id.0) && stats is Some && resources.spells()[id.0].casts
                + stats->0.wit > u32::MAX ==> r == Err::<(), Error>(Error::Overflow) && final(self)@
                == old(self)@,
            resources.spells().contains_key(id.0) && !(stats is Some
                && resources.spells()[id.0].casts + stats->0.wit > u32::MAX) ==> r is Ok && final(self)@ == old(self)@.push(
                instance_of(resources.spells()[id.0]).with_more_casts(
                    match stats {
                        Some(a) => a.wit,
                        None => 0,
                    },
                ),
            ),
    {
        let definition = match resources.get_spell(id) {
            Some(d) => d,
            None => {
                return Err(Error::NoSuchSpell);
            },
        };
        let mut spell = SpellInstance::new(definition);
        if let Some(attributes) = stats {
            if spell.casts_left > u32::MAX - attributes.wit {
                return Err(Error::Overflow);
            }
            spell.casts_left += attributes.wit;
            spell.casts_max += attributes.wit;
        }
        self.spells.push(spell);
        assert(self@ =~= old(self)@.push(
            instance_of(resources.spells()[id.0]).with_more_casts(
                match stats {
                    Some(a) => a.wit,
                    None => 0,
                },
            ),
        ));
        Ok(())
    }
}

/// The index of the room whose middle lies nearest to `target`; of several
/// such rooms, the first. The middle of a room is never off the grid.
pub open spec fn nearest_room(rooms: Seq<Room>, target: Coordinate) -> Option<int>
    decreases rooms.len(),
{
    if rooms.len() == 0 {
        None
    } else {
        match nearest_room(rooms.drop_last(), target) {
            None => Some(0),
            Some(best) => if distance_squared(middle_of(rooms.last()), target) < distance_squared(
                middle_of(rooms[best]),
                target,
            ) {
                Some(rooms.len() - 1)
            } else {
                Some(best)
            },
        }
    }
}

/// The cell in the middle of `room`.
pub open spec fn middle_of(room: Room) -> Coordinate {
    Coordinate { x: room.extends.spec_center().0 as i32, y: room.extends.spec_center().1 as i32 }
}

/// Whether `post` and `r` are what scrying at `target` leaves of the seen
/// cells `pre`: the room in whose walls the middle of the nearest room lies
/// is lit. It fails where the map has no rooms.
pub open spec fn scried(map: Ground, target: Coordinate, pre: GameState, post: GameState, r: Result<(), Error>)
    -> bool {
    match nearest_room(map.rooms, target) {
        None => r == Err::<(), Error>(Error::NoTargetRoom) && post == (GameState {
            log: pre.log.push("Casting scry!"@),
            ..pre
        }),
        Some(best) => r is Ok && post == (GameState {
            log: pre.log.push("Casting scry!"@),
            explored: match first_room_at(map.rooms, middle_of(map.rooms[best])) {
                Some(i) => explored_with(pre.explored, map.rooms[i].extends),
                None => pre.explored,
            },
            ..pre
        }),
    }
}

/// Lights the room whose middle lies nearest to `target`.
pub fn scry(target: Coordinate, map: &mut GameMap, log: &mut MessageLog) -> (r: Result<(), Error>)
    ensures
        final(map).same_ground(old(map)),
        forall|world: WorldView|
            scried(
                old(map).ground(),
                target,
                GameState { world, explored: old(map).explored@, log: old(log)@ },
                GameState { world, explored: final(map).explored@, log: final(log)@ },
                r,
            ),
{
    log.queue_message("Casting scry!");
    if map.rooms.len() == 0 {
        return Err(Error::NoTargetRoom);
    }
    let mut best: usize = 0;
    let mut i: usize = 1;
    assert(nearest_room(map.rooms@.take(1), target) == Some(0int)) by {
        reveal_with_fuel(nearest_room, 2);
        assert(map.rooms@.take(1).drop_last() =~= Seq::<Room>::empty());
    }
    while i < map.rooms.len()
        invariant
            1 <= i <= map.rooms@.len(),
            best < i,
            nearest_room(map.rooms@.take(i as int), target) == Some(best as int),
        decreases map.rooms@.len() - i,
    {
        let current = map.rooms[i].extends.center();
        let best_center = map.rooms[best].extends.center();
        proof {
            assert(map.rooms@.take(i as int + 1).drop_last() =~= map.rooms@.take(i as int));
            assert(map.rooms@.take(i as int + 1).last() == map.rooms@[i as int]);
            assert(map.rooms@.take(i as int + 1)[best as int] == map.rooms@[best as int]);
            assert(current == middle_of(map.rooms@[i as int]));
            assert(best_center == middle_of(map.rooms@[best as int]));
        }
        if current.distance_squared(target) < best_center.distance_squared(target) {
            best = i;
        }
        i = i + 1;
    }
    assert(map.rooms@.take(i as int) =~= map.rooms@);
    let room_target = map.rooms[best].extends.center();
    map.explore_room(room_target);
    Ok(())
}

/// The damage of a fireball that a caster with `stats` casts.
pub open spec fn fireball_damage(stats: Option<Attributes>) -> DamageRange {
    match stats {
        Some(s) => DamageRange(
            (FIREBALL_MIN_DAMAGE + spell_bonus(s)) as u32,
            (FIREBALL_MAX_DAMAGE + spell_bonus(s)) as u32,
        ),
        None => DamageRange(FIREBALL_MIN_DAMAGE, FIREBALL_MAX_DAMAGE),
    }
}

/// Why a fireball cannot be cast from `source` at `target`, if it cannot,
/// and what is said of it: the target is unseen, the caster has no position,
/// the target lies out of range or out of sight, or the damage leaves the
/// range of `u32`.
pub open spec fn fireball_failure(
    map: Ground,
    resources: &ResourceManager,
    pre: GameState,
    source: usize,
    target: Coordinate,
    stats: Option<Attributes>,
) -> Option<(Error, Option<Seq<char>>)> {
    if !pre.explored.contains(target) {
        Some((Error::InvalidTarget, Some("Can't cast that in unexplored areas"@)))
    } else if pre.world.position(source) is None {
        Some((missing(source, ComponentType::Position), None))
    } else if !within_quarters(pre.world.position(source)->0, target, FIREBALL_RANGE) {
        Some((Error::InvalidTarget, Some("Target is out of range"@)))
    } else if !sees(map.tiles, pre.world, resources, pre.world.position(source)->0, target) {
        Some((Error::InvalidTarget, Some("Can't see to that tile"@)))
    } else if stats is Some && FIREBALL_MAX_DAMAGE + spell_bonus(stats->0) > u32::MAX {
        Some((Error::Overflow, Some("Casting fireball!"@)))
    } else {
        None
    }
}

/// Whether the fireball at `target` strikes `entity`: it has a position less
/// than the radius from the target, and the target sees it.
pub open spec fn struck(
    map: Ground,
    resources: &ResourceManager,
    world: WorldView,
    target: Coordinate,
    entity: usize,
) -> bool {
    world.position(entity) matches Some(position) && strictly_within_quarters(
        position,
        target,
        FIREBALL_RADIUS,
    ) && sees(map.tiles, world, resources, target, position)
}

/// Whether `post` and `r` are what sending `event` to each of `entities`
/// that is not the player may leave of `pre`, up to the first for which
/// that fails.
pub open spec fn burned(
    entities: Seq<usize>,
    event: Event,
    map: Ground,
    resources: &ResourceManager,
    pre: GameState,
    post: GameState,
    r: Result<(), Error>,
) -> bool
    decreases entities.len(),
{
    if entities.len() == 0 {
        r is Ok && post == pre
    } else if pre.world.has(ComponentType::Player, entities[0]) {
        burned(entities.drop_first(), event, map, resources, pre, post, r)
    } else {
        exists|middle: GameState, first: Result<(), Error>| #[trigger]
            passed(middle, first) && dispatched(
                map,
                resources,
                event,
                entities[0],
                pre,
                middle,
                first,
                MAX_CASCADE_DEPTH as nat,
            ) && if first is Err {
                r == first && post == middle
            } else {
                burned(entities.drop_first(), event, map, resources, middle, post, r)
            }
    }
}

/// Whether `post` and `r` are what a fireball from `source` at `target` may
/// leave of `pre`: where it cannot be cast, the failure, and what is said
/// of it; else the spell strikes every entity of the region of the target
/// that it reaches, but for the player.
pub open spec fn fireball_cast(
    map: Ground,
    resources: &ResourceManager,
    source: usize,
    target: Coordinate,
    stats: Option<Attributes>,
    pre: GameState,
    post: GameState,
    r: Result<(), Error>,
) -> bool {
    match fireball_failure(map, resources, pre, source, target, stats) {
        Some((e, said)) => r == Err::<(), Error>(e) && post == (GameState {
            log: match said {
                Some(text) => pre.log.push(text),
                None => pre.log,
            },
            ..pre
        }),
        None => burned(
            pre.world.bsp.entities_at_leaf(target).filter(
                |e: usize| struck(map, resources, pre.world, target, e),
            ),
            Event::Spell(
                SpellEvent { source, effect: SpellEffect::Damage(fireball_damage(stats)) },
            ),
            map,
            resources,
            GameState { log: pre.log.push("Casting fireball!"@), ..pre },
            post,
            r,
        ),
    }
}

fn burn_from(
    entities: &Vec<usize>,
    from: usize,
    event: &Event,
    world: &mut World,
    map: &mut GameMap,
    resources: &ResourceManager,
    log: &mut MessageLog,
) -> (r: Result<(), Error>)
    requires
        old(world).wf(),
        from <= entities@.len(),
    ensures
        final(world).wf(),
        final(world)@.entity_count >= old(world)@.entity_count,
        final(map).same_ground(old(map)),
        burned(
            entities@.subrange(from as int, entities@.len() as int),
            *event,
            old(map).ground(),
            resources,
            state_of(old(world), old(map), old(log)),
            state_of(final(world), final(map), final(log)),
            r,
        ),
    decreases entities@.len() - from,
{
    let ghost rest = entities@.subrange(from as int, entities@.len() as int);
    if from >= entities.len() {
        return Ok(());
    }
    assert(rest[0] == entities@[from as int]);
    assert(rest.drop_first() =~= entities@.subrange(from as int + 1, entities@.len() as int));
    if world.has_component(ComponentType::Player, entities[from]) {
        return burn_from(entities, from + 1, event, world, map, resources, log);
    }
    let first = world.send_event(map, resources, log, event, entities[from]);
    let ghost middle = state_of(world, map, log);
    assert(passed(middle, first));
    if let Err(e) = first {
        return Err(e);
    }
    burn_from(entities, from + 1, event, world, map, resources, log)
}

/// Casts a fireball from `source` at `target`.
pub fn fireball(
    source: usize,
    target: Coordinate,
    world: &mut World,
    map: &mut GameMap,
    stats: Option<&Attributes>,
    resources: &ResourceManager,
    log: &mut MessageLog,
) -> (r: Result<(), Error>)
    requires
        old(world).wf(),
    ensures
        final(world).wf(),
        final(world)@.entity_count >= old(world)@.entity_count,
        final(map).same_ground(old(map)),
        fireball_cast(
            old(map).ground(),
            resources,
            source,
            target,
            match stats {
                Some(s) => Some(*s),
                None => None,
            },
            state_of(old(world), old(map), old(log)),
            state_of(final(world), final(map), final(log)),
            r,
        ),
{
    if !map.is_tile_explored(target) {
        log.queue_message("Can't cast that in unexplored areas");
        return Err(Error::InvalidTarget);
    }
    let caster_position = match world.position_of(source) {
        Some(c) => c,
        None => {
            return Err(Error::MissingComponent { entity: source, component: ComponentType::Position });
        },
    };
    if !caster_position.within_range(target, FIREBALL_RANGE) {
        log.queue_message("Target is out of range");
        return Err(Error::InvalidTarget);
    }
    if !line_of_sight(caster_position, target, map, world, resources) {
        log.queue_message("Can't see to that tile");
        return Err(Error::InvalidTarget);
    }
    log.queue_message("Casting fireball!");
    let mut damage = DamageRange(FIREBALL_MIN_DAMAGE, FIREBALL_MAX_DAMAGE);
    if let Some(stats) = stats {
        let bonus = spell_damage_boost(stats);
        if bonus > u32::MAX - FIREBALL_MAX_DAMAGE {
            return Err(Error::Overflow);
        }
        damage = damage.plus(bonus);
    }
    let event = Event::Spell(SpellEvent::new(source, SpellEffect::Damage(damage)));

    let mut entities_in_range: Vec<usize> = Vec::new();
    let room = world.get_entities_in_room(target);
    let ghost pred = |e: usize| struck(map.ground(), resources, world@, target, e);
    let mut i: usize = 0;
    proof {
        reveal(Seq::filter);
        assert(room@.take(0).filter(pred) =~= Seq::<usize>::empty());
    }
    while i < room.len()
        invariant
            world.wf(),
            i <= room@.len(),
            pred == |e: usize| struck(map.ground(), resources, world@, target, e),
            entities_in_range@ == room@.take(i as int).filter(pred),
        decreases room@.len() - i,
    {
        let entity = room[i];
        let hit = match world.position_of(entity) {
            Some(pos) => pos.strictly_within_range(target, FIREBALL_RADIUS) && line_of_sight(
                target,
                pos,
                map,
                world,
                resources,
            ),
            None => false,
        };
        proof {
            reveal(Seq::filter);
            assert(room@.take(i as int + 1).drop_last() =~= room@.take(i as int));
            assert(room@.take(i as int + 1).last() == entity);
            assert(hit == pred(entity));
        }
        if hit {
            entities_in_range.push(entity);
        }
        i = i + 1;
    }
    assert(room@.take(i as int) =~= room@);
    assert(entities_in_range@.subrange(0, entities_in_range@.len() as int) =~= entities_in_range@);
    burn_from(&entities_in_range, 0, &event, world, map, resources, log)
}

impl SpellEffectName {
    /// Whether `post` and `r` are what the effect may leave of `pre`.
    pub open spec fn takes_effect(
        self,
        map: Ground,
        resources: &ResourceManager,
        source: usize,
        target: Coordinate,
        stats: Option<Attributes>,
        pre: GameState,
        post: GameState,
        r: Result<(), Error>,
    ) -> bool {
        match self {
            SpellEffectName::Fireball => fireball_cast(
                map,
                resources,
                source,
                target,
                stats,
                pre,
                post,
                r,
            ),
            SpellEffectName::Scry => scried(map, target, pre, post, r),
        }
    }

    /// Lets the effect happen.
    pub fn call(
        &self,
        source: usize,
        target: Coordinate,
        world: &mut World,
        map: &mut GameMap,
        stats: Option<&Attributes>,
        resources: &ResourceManager,
        log: &mut MessageLog,
    ) -> (r: Result<(), Error>)
        requires
            old(world).wf(),
        ensures
            final(world).wf(),
            final(world)@.entity_count >= old(world)@.entity_count,
            final(map).same_ground(old(map)),
            self.takes_effect(
                old(map).ground(),
                resources,
                source,
                target,
                match stats {
                    Some(s) => Some(*s),
                    None => None,
                },
                state_of(old(world), old(map), old(log)),
                state_of(final(world), final(map), final(log)),
                r,
            ),
    {
        match self {
            SpellEffectName::Fireball => fireball(source, target, world, map, stats, resources, log),
            SpellEffectName::Scry => scry(target, map, log),
        }
    }
}

impl SpellInstance {
    /// Casts the spell from `source` at `target`. Fails, and says so, where
    /// no cast is left; the cast is not counted here.
    pub fn cast(
        &self,
        source: usize,
        target: Coordinate,
        world: &mut World,
        map: &mut GameMap,
        stats: Option<&Attributes>,
        resources: &ResourceManager,
        log: &mut MessageLog,
    ) -> (r: Result<(), Error>)
        requires
            old(world).wf(),
        ensures
            final(world).wf(),
            final(world)@.entity_count >= old(world)@.entity_count,
            final(map).same_ground(old(map)),
            self.casts_left == 0 ==> r == Err::<(), Error>(Error::OutOfCasts)
                && final(world)@ == old(world)@ && final(map).explored@ == old(map).explored@
                && final(log)@ == old(log)@.push(
                "You have no more casts of that spell this floor."@,
            ),
            self.casts_left > 0 ==> self.effect.takes_effect(
                old(map).ground(),
                resources,
                source,
                target,
                match stats {
                    Some(s) => Some(*s),
                    None => None,
                },
                state_of(old(world), old(map), old(log)),
                state_of(final(world), final(map), final(log)),
                r,
            ),
    {
        if self.casts_left == 0 {
            log.queue_message("You have no more casts of that spell this floor.");
            return Err(Error::OutOfCasts);
        }
        self.effect.call(source, target, world, map, stats, resources, log)
    }
}

} // verus!
