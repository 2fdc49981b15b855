//! The systems that the scheduler runs.

use vstd::prelude::*;
use crate::component::attributes::{Xp, XpStatus};
use crate::component::behavior::{actions_performed, Behavior};
use crate::component::spell::Spellbook;
use crate::component::{Component, ComponentType, ComponentView};
use crate::error::Error;
use crate::event::combat_events::DeathEvent;
use crate::event::response_functions::{
    dispatched, passed, state_of, xp_of, MAX_CASCADE_DEPTH,
};
use crate::event::stealth_events::missing;
use crate::event::{Event, GameState};
use crate::logger::MessageLog;
use crate::map::{GameMap, Ground};
use crate::resources::ResourceManager;
use crate::system::TimeSlot;
use crate::world::{view_slots, World, WorldView};

verus! {

/// Whether `entity` has hit points and none of them left.
pub open spec fn dead(world: WorldView, entity: usize) -> bool {
    world.component(ComponentType::Health, entity) matches Some(ComponentView::Health(h)) && h.0
        == 0
}

/// The entities below `bound` that are dead, in the order of their ids.
pub open spec fn the_dead(world: WorldView, bound: nat) -> Seq<usize>
    decreases bound,
{
    if bound == 0 {
        Seq::empty()
    } else if dead(world, (bound - 1) as usize) {
        the_dead(world, (bound - 1) as nat).push((bound - 1) as usize)
    } else {
        the_dead(world, (bound - 1) as nat)
    }
}

/// Whether `post` and `r` are what reaping `entities` may leave of `pre`:
/// each of them in turn is sent its death and loses all of its components,
/// up to the first for which the event fails.
pub open spec fn reaped(
    entities: Seq<usize>,
    map: Ground,
    resources: &ResourceManager,
    pre: GameState,
    post: GameState,
    r: Result<(), Error>,
) -> bool
    decreases entities.len(),
{
    if entities.len() == 0 {
        r is Ok && post == pre
    } else {
        exists|middle: GameState, first: Result<(), Error>| #[trigger]
            passed(middle, first) && dispatched(
                map,
                resources,
                Event::Death(DeathEvent { source: 0 }),
                entities[0],
                pre,
                middle,
                first,
                MAX_CASCADE_DEPTH as nat,
            ) && if first is Err {
                r == first && post == middle
            } else {
                reaped(
                    entities.drop_first(),
                    map,
                    resources,
                    GameState { world: middle.world.tombstoned(entities[0]), ..middle },
                    post,
                    r,
                )
            }
    }
}

/// Whether `post` and `r` are what reaping the dead may leave of `pre`: a
/// failure, where no health was ever inserted; else the entities that are
/// dead at the start are reaped in the order of their ids.
pub open spec fn units_reaped(
    map: Ground,
    resources: &ResourceManager,
    pre: GameState,
    post: GameState,
    r: Result<(), Error>,
) -> bool {
    if !pre.world.columns.contains_key(ComponentType::Health) {
        r == Err::<(), Error>(Error::MissingColumn(ComponentType::Health)) && post == pre
    } else {
        reaped(the_dead(pre.world, pre.world.entity_count), map, resources, pre, post, r)
    }
}

fn reap_from(
    entities: &Vec<usize>,
    from: usize,
    world: &mut World,
    map: &mut GameMap,
    resources: &ResourceManager,
    log: &mut MessageLog,
) -> (r: Result<(), Error>)
    requires
        old(world).wf(),
        from <= entities@.len(),
        forall|i: int| 0 <= i < entities@.len() ==> entities@[i] < old(world)@.entity_count,
    ensures
        final(world).wf(),
        final(world)@.entity_count >= old(world)@.entity_count,
        final(map).same_ground(old(map)),
        reaped(
            entities@.subrange(from as int, entities@.len() as int),
            old(map).ground(),
            resources,
            state_of(old(world), old(map), old(log)),
            state_of(final(world), final(map), final(log)),
            r,
        ),
    decreases entities@.len() - from,
{
    let ghost rest = entities@.subrange(from as int, entities@.len() as int);
    if from >= entities.len() {
        return Ok(());
    }
    assert(rest[0] == entities@[from as int]);
    assert(rest.drop_first() =~= entities@.subrange(from as int + 1, entities@.len() as int));
    let event = Event::Death(DeathEvent { source: 0 });
    let first = world.send_event(map, resources, log, &event, entities[from]);
    let ghost middle = state_of(world, map, log);
    assert(passed(middle, first));
    if let Err(e) = first {
        return Err(e);
    }
    let _ = world.remove_entity(entities[from]);
    reap_from(entities, from + 1, world, map, resources, log)
}

/// Reaps the dead: every entity without hit points left is sent its death
/// and loses all of its components.
pub fn reap_units(
    world: &mut World,
    map: &mut GameMap,
    resources: &ResourceManager,
    log: &mut MessageLog,
) -> (r: Result<(), Error>)
    requires
        old(world).wf(),
    ensures
        final(world).wf(),
        final(world)@.entity_count >= old(world)@.entity_count,
        final(map).same_ground(old(map)),
        units_reaped(
            old(map).ground(),
            resources,
            state_of(old(world), old(map), old(log)),
            state_of(final(world), final(map), final(log)),
            r,
        ),
{
    proof {
        world.lemma_wf();
    }
    let mut reaped_entities: Vec<usize> = Vec::new();
    match world.borrow_component_vec(ComponentType::Health) {
        None => {
            return Err(Error::MissingColumn(ComponentType::Health));
        },
        Some(health_components) => {
            let mut entity: usize = 0;
            while entity < health_components.len()
                invariant
                    entity <= health_components@.len(),
                    health_components@.len() == world@.entity_count,
                    view_slots(health_components@) == world@.columns[ComponentType::Health],
                    world@.columns.contains_key(ComponentType::Health),
                    reaped_entities@ == the_dead(world@, entity as nat),
                    forall|i: int|
                        0 <= i < reaped_entities@.len() ==> reaped_entities@[i]
                            < world@.entity_count,
                decreases health_components@.len() - entity,
            {
                assert(view_slots(health_components@)[entity as int] == world@.component(
                    ComponentType::Health,
                    entity,
                ));
                let is_dead = match &health_components[entity] {
                    Some(Component::Health(h)) => h.0 == 0,
                    _ => false,
                };
                if is_dead {
                    reaped_entities.push(entity);
                }
                entity = entity + 1;
            }
        },
    }
    assert(reaped_entities@.subrange(0, reaped_entities@.len() as int) =~= reaped_entities@);
    reap_from(&reaped_entities, 0, world, map, resources, log)
}

/// The behavior of `entity`, if it has one.
pub open spec fn behavior_of(world: WorldView, entity: usize) -> Option<Behavior> {
    match world.component(ComponentType::Behavior, entity) {
        Some(ComponentView::Behavior(b)) => Some(b),
        _ => None,
    }
}

/// The entities below `bound` that have a behavior, in the order of their
/// ids.
pub open spec fn the_monsters(world: WorldView, bound: nat) -> Seq<usize>
    decreases bound,
{
    if bound == 0 {
        Seq::empty()
    } else if behavior_of(world, (bound - 1) as usize) is Some {
        the_monsters(world, (bound - 1) as nat).push((bound - 1) as usize)
    } else {
        the_monsters(world, (bound - 1) as nat)
    }
}

/// Whether `post` and `r` are what the turns of `entities` may leave of
/// `pre`: each of them in turn performs its actions. Where the actions of
/// one fail, the next goes on; where one has lost its behavior by the time
/// that its turn comes, the turns end with that failure.
pub open spec fn turns_taken(
    entities: Seq<usize>,
    map: Ground,
    resources: &ResourceManager,
    pre: GameState,
    post: GameState,
    r: Result<(), Error>,
) -> bool
    decreases entities.len(),
{
    if entities.len() == 0 {
        r is Ok && post == pre
    } else {
        match behavior_of(pre.world, entities[0]) {
            None => r == Err::<(), Error>(missing(entities[0], ComponentType::Behavior)) && post
                == pre,
            Some(behavior) => exists|middle: GameState, first: Result<(), Error>| #[trigger]
                passed(middle, first) && actions_performed(
                    behavior,
                    behavior.action_count as nat,
                    map,
                    resources,
                    entities[0],
                    pre,
                    middle,
                    first,
                ) && turns_taken(entities.drop_first(), map, resources, middle, post, r),
        }
    }
}

/// Whether `post` and `r` are what the turns of the monsters may leave of
/// `pre`: a failure, where no behavior was ever inserted; else the entities
/// that have a behavior at the start take their turns in the order of their
/// ids.
pub open spec fn monsters_moved(
    map: Ground,
    resources: &ResourceManager,
    pre: GameState,
    post: GameState,
    r: Result<(), Error>,
) -> bool {
    if !pre.world.columns.contains_key(ComponentType::Behavior) {
        r == Err::<(), Error>(Error::MissingColumn(ComponentType::Behavior)) && post == pre
    } else {
        turns_taken(the_monsters(pre.world, pre.world.entity_count), map, resources, pre, post, r)
    }
}

fn turns_from(
    entities: &Vec<usize>,
    from: usize,
    world: &mut World,
    map: &mut GameMap,
    resources: &ResourceManager,
    log: &mut MessageLog,
) -> (r: Result<(), Error>)
    requires
        old(world).wf(),
        from <= entities@.len(),
    ensures
        final(world).wf(),
        final(world)@.entity_count >= old(world)@.entity_count,
        final(map).same_ground(old(map)),
        turns_taken(
            entities@.subrange(from as int, entities@.len() as int),
            old(map).ground(),
            resources,
            state_of(old(world), old(map), old(log)),
            state_of(final(world), final(map), final(log)),
            r,
        ),
    decreases entities@.len() - from,
{
    let ghost rest = entities@.subrange(from as int, entities@.len() as int);
    if from >= entities.len() {
        return Ok(());
    }
    assert(rest[0] == entities@[from as int]);
    assert(rest.drop_first() =~= entities@.subrange(from as int + 1, entities@.len() as int));
    let entity = entities[from];
    let behavior = match world.borrow_entity_component(ComponentType::Behavior, entity) {
        Some(Component::Behavior(b)) => *b,
        _ => {
            return Err(Error::MissingComponent { entity, component: ComponentType::Behavior });
        },
    };
    let first = behavior.perform_actions(entity, world, map, resources, log);
    let ghost middle = state_of(world, map, log);
    assert(passed(middle, first));
    turns_from(entities, from + 1, world, map, resources, log)
}

/// Lets every monster take its turn.
pub fn monster_turns(
    world: &mut World,
    map: &mut GameMap,
    resources: &ResourceManager,
    log: &mut MessageLog,
) -> (r: Result<(), Error>)
    requires
        old(world).wf(),
    ensures
        final(world).wf(),
        final(world)@.entity_count >= old(world)@.entity_count,
        final(map).same_ground(old(map)),
        monsters_moved(
            old(map).ground(),
            resources,
            state_of(old(world), old(map), old(log)),
            state_of(final(world), final(map), final(log)),
            r,
        ),
{
    proof {
        world.lemma_wf();
    }
    let mut components_by_entity: Vec<usize> = Vec::new();
    match world.borrow_component_vec(ComponentType::Behavior) {
        None => {
            return Err(Error::MissingColumn(ComponentType::Behavior));
        },
        Some(behavior_components) => {
            let mut entity: usize = 0;
            while entity < behavior_components.len()
                invariant
                    world.wf(),
                    world@.wf(),
                    entity <= behavior_components@.len(),
                    behavior_components@.len() == world@.entity_count,
                    view_slots(behavior_components@) == world@.columns[ComponentType::Behavior],
                    world@.columns.contains_key(ComponentType::Behavior),
                    components_by_entity@ == the_monsters(world@, entity as nat),
                decreases behavior_components@.len() - entity,
            {
                assert(view_slots(behavior_components@)[entity as int] == world@.component(
                    ComponentType::Behavior,
                    entity,
                ));
                if behavior_components[entity].is_some() {
                    components_by_entity.push(entity);
                }
                entity = entity + 1;
            }
        },
    }
    assert(components_by_entity@.subrange(0, components_by_entity@.len() as int)
        =~= components_by_entity@);
    turns_from(&components_by_entity, 0, world, map, resources, log)
}

/// The world after the experience of the player was checked: its status
/// says whether the points collected suffice for the next level. The
/// failure, where no entity is marked as the player or the player has no
/// experience.
pub open spec fn level_checked(world: WorldView) -> (WorldView, Option<Error>) {
    match world.player {
        None => (world, Some(Error::NoPlayerFound)),
        Some(player) => match xp_of(world, player) {
            None => (world, Some(missing(player, ComponentType::Xp))),
            Some(xp) => (
                world.with_component(
                    player,
                    ComponentView::Xp(
                        Xp {
                            status: if xp.current >= xp.max {
                                XpStatus::LevelUp
                            } else {
                                XpStatus::Default
                            },
                            ..xp
                        },
                    ),
                ),
                None,
            ),
        },
    }
}

/// Checks whether the player has collected the experience that the next
/// level asks for, and sets the status of its experience.
pub fn level_up_check(world: &mut World) -> (r: Result<(), Error>)
    requires
        old(world).wf(),
    ensures
        final(world).wf(),
        final(world)@ == level_checked(old(world)@).0,
        r == match level_checked(old(world)@).1 {
            Some(e) => Err::<(), Error>(e),
            None => Ok::<(), Error>(()),
        },
{
    proof {
        world.lemma_wf();
    }
    let player = match world.get_player_id() {
        Ok(p) => p,
        Err(_) => {
            return Err(Error::NoPlayerFound);
        },
    };
    let xp = match world.borrow_entity_component(ComponentType::Xp, player) {
        Some(Component::Xp(xp)) => *xp,
        _ => {
            return Err(Error::MissingComponent { entity: player, component: ComponentType::Xp });
        },
    };
    let status = if xp.current >= xp.max {
        XpStatus::LevelUp
    } else {
        XpStatus::Default
    };
    let _ = world.add_component(
        player,
        Component::Xp(Xp { level: xp.level, current: xp.current, max: xp.max, status }),
    );
    Ok(())
}

/// The slot after the spells of a level came back: a book with all casts
/// of the spells that come back at the end of a level; any other slot as it
/// is.
pub open spec fn cooled_slot(slot: Option<ComponentView>) -> Option<ComponentView> {
    match slot {
        Some(ComponentView::Spellbook(book)) => Some(
            ComponentView::Spellbook(
                Seq::new(book.len(), |i: int| book[i].reset_at(TimeSlot::EndOfLevel)),
            ),
        ),
        other => other,
    }
}

/// The world after the spells of every book came back, up to the entity
/// `bound`.
pub open spec fn cooled(world: WorldView, bound: nat) -> WorldView {
    if !world.columns.contains_key(ComponentType::Spellbook) {
        world
    } else {
        WorldView {
            columns: world.columns.insert(
                ComponentType::Spellbook,
                Seq::new(
                    world.entity_count,
                    |e: int|
                        if e < bound {
                            cooled_slot(world.columns[ComponentType::Spellbook][e])
                        } else {
                            world.columns[ComponentType::Spellbook][e]
                        },
                ),
            ),
            ..world
        }
    }
}

/// Gives every spell of every book that comes back at the end of a level
/// all of its casts.
pub fn spell_cooldowns(world: &mut World) -> (r: Result<(), Error>)
    requires
        old(world).wf(),
    ensures
        final(world).wf(),
        r is Ok,
        final(world)@ == cooled(old(world)@, old(world)@.entity_count),
{
    proof {
        world.lemma_wf();
    }
    if world.borrow_component_vec(ComponentType::Spellbook).is_none() {
        return Ok(());
    }
    let count = world.entity_count();
    let mut entity: usize = 0;
    assert(cooled(old(world)@, 0).columns[ComponentType::Spellbook]
        =~= world@.columns[ComponentType::Spellbook]);
    assert(world@.columns =~= cooled(old(world)@, 0).columns);
    while entity < count
        invariant
            world.wf(),
            old(world)@.wf(),
            count == old(world)@.entity_count,
            entity <= count,
            old(world)@.columns.contains_key(ComponentType::Spellbook),
            world@ == cooled(old(world)@, entity as nat),
        decreases count - entity,
    {
        let book: Option<Spellbook> = match world.borrow_entity_component(
            ComponentType::Spellbook,
            entity,
        ) {
            Some(Component::Spellbook(book)) => Some(book.duplicate()),
            _ => None,
        };
        proof {
            world.lemma_wf();
        }
        let ghost before = world@;
        match book {
            Some(mut book) => {
                book.reset_spells(TimeSlot::EndOfLevel);
                let _ = world.add_component(entity, Component::Spellbook(book));
                assert(world@.columns[ComponentType::Spellbook] =~= cooled(
                    old(world)@,
                    (entity + 1) as nat,
                ).columns[ComponentType::Spellbook]);
                assert(world@.columns =~= cooled(old(world)@, (entity + 1) as nat).columns);
            },
            None => {
                assert(world@.columns[ComponentType::Spellbook] =~= cooled(
                    old(world)@,
                    (entity + 1) as nat,
                ).columns[ComponentType::Spellbook]);
                assert(world@.columns =~= cooled(old(world)@, (entity + 1) as nat).columns);
            },
        }
        entity = entity + 1;
    }
    Ok(())
}

} // verus!
