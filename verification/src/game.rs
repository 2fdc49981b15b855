//! The game: the commands of the player, each of which changes the world
//! and, where it takes a turn, ends it.

use vstd::prelude::*;
use crate::component::attributes::{
    attack_damage_boost, boosted_attack_damage, level_requirement, level_requirement_fits,
    next_level_requirement, Attribute, Attributes, Xp, XpStatus,
};
use crate::component::combat::{Attack, AttackType, Combat};
use crate::component::health::{Health, HealthStatus, LEVEL_UP_MULTIPLIER};
use crate::component::spell::{SpellInstance, SpellInstanceView, Spellbook};
use crate::component::{Component, ComponentType, ComponentView};
use crate::error::Error;
use crate::event::combat_events::{AttackEvent, ShootEvent};
use crate::event::interact_events::{InteractEvent, PickupEvent};
use crate::event::response_functions::{
    dispatched, passed, room_lit, state_of, MAX_CASCADE_DEPTH,
};
use crate::event::{Event, GameState};
use crate::logger::MessageLog;
use crate::map::generation::generate_new;
use crate::map::los::{line_of_sight, sees};
use crate::map::pathfinding::{astar_heuristic_factory, is_walk, pathfind, reachable};
use crate::map::room::{EntityGraph, EntityGraphView};
use crate::map::utils::{within_quarters, Coordinate};
use crate::map::{walkable_on, GameMap, Ground};
use crate::resources::id::{ImageID, TileID};
use crate::resources::{ResourceManager, DEFAULT_IMAGE_ID};
use crate::spawning::entitytemplate::casts_fit;
use crate::spawning::{rooms_spawned, spawn_all_entities};
use crate::system::{systems_ran, Scheduler, SchedulerView, System, TimeSlot};
use crate::ui::{
    InputCommand, MapModel, PlayerModel, PlayerModelView, Popups, Reaction, Refusal,
    SpellbookModel, SpellbookModelView,
};
use crate::world::{World, WorldView};

verus! {

pub const MAP_SIZE_X: u32 = 32;

pub const MAP_SIZE_Y: u32 = 18;

/// How far the player reaches to interact, in quarters of a tile.
pub const INTERACT_RANGE: u32 = 5;

/// How often the making of a level is tried before it is given up.
pub const GENERATION_ATTEMPTS: usize = 6;

/// The running game: the map and the world of the level, the scheduler, and
/// the messages that wait to be shown.
pub struct Game {
    map: GameMap,
    world: World,
    scheduler: Scheduler,
    log: MessageLog,
}

/// Marks the room of the player as seen. Fails where the player has no
/// position.
pub fn explore_player_room(map: &mut GameMap, world: &World) -> (r: Result<(), Error>)
    requires
        world.wf(),
    ensures
        final(map).same_ground(old(map)),
        r is Err <==> world@.player is None || world@.position(world@.player->0) is None,
        r is Err ==> r == Err::<(), Error>(Error::NoPlayerFound)
            && final(map).explored@ == old(map).explored@,
        r is Ok ==> final(map).explored@ == crate::event::response_functions::room_lit(
            old(map).rooms@,
            old(map).explored@,
            world@.position(world@.player->0)->0,
        ),
{
    let position = match world.get_player_position() {
        Ok(p) => p,
        Err(_) => {
            return Err(Error::NoPlayerFound);
        },
    };
    map.explore_room(position);
    Ok(())
}

/// Whether `post` is what the end of a turn may leave of `pre`: the steps
/// that lead towards the player are worked out anew and are `pathing`
/// then, where the player has a position, and the systems of the end of a
/// turn run.
pub open spec fn turn_ended(
    systems: Seq<System>,
    ground: Ground,
    pathing: Map<Coordinate, Coordinate>,
    resources: &ResourceManager,
    pre: GameState,
    post: GameState,
) -> bool {
    (standing(pre.world) is None ==> pathing == ground.pathing) && systems_ran(
        systems,
        Ground { pathing, ..ground },
        resources,
        pre,
        post,
    )
}

/// Where the player stands, if there is a player with a position.
pub open spec fn standing(world: WorldView) -> Option<Coordinate> {
    match world.player {
        None => None,
        Some(p) => world.position(p),
    }
}

/// The state `pre` with `message` behind its messages.
pub open spec fn told(pre: GameState, message: Seq<char>) -> GameState {
    GameState { log: pre.log.push(message), ..pre }
}

/// Whether `post` is what sending `event` to each of `targets`, in order,
/// may leave of `pre`. A target for which that fails does not stop the
/// others.
pub open spec fn broadcast(
    ground: Ground,
    resources: &ResourceManager,
    event: Event,
    targets: Seq<usize>,
    pre: GameState,
    post: GameState,
) -> bool
    decreases targets.len(),
{
    if targets.len() == 0 {
        post == pre
    } else {
        exists|middle: GameState, first: Result<(), Error>| #[trigger]
            passed(middle, first) && dispatched(
                ground,
                resources,
                event,
                targets[0],
                pre,
                middle,
                first,
                MAX_CASCADE_DEPTH as nat,
            ) && broadcast(ground, resources, event, targets.drop_first(), middle, post)
    }
}

/// Whether `post` is what moving the player to `destination` may leave of
/// `pre`: the player is moved, and then picks up what lies there.
pub open spec fn moved_to(
    ground: Ground,
    resources: &ResourceManager,
    destination: Coordinate,
    pre: GameState,
    post: GameState,
) -> bool {
    let player = pre.world.player->0;
    let relocated = pre.world.relocated(player, destination);
    broadcast(
        ground,
        resources,
        Event::Pickup(PickupEvent { source: player }),
        relocated.entities_at(destination),
        GameState { world: relocated, ..pre },
        post,
    )
}

/// What the attack of the player on a cell comes to.
pub enum AttackPlan {
    /// The attack fails before anything is said.
    Fails(Error),
    /// The attack is not made, and the message says why.
    Refused(Seq<char>),
    /// The attack strikes the entity.
    Strikes(usize),
}

/// What the attack of the player on `target` comes to. It is refused where
/// the player has no attack of the type, the target is out of range,
/// nothing blocks the cell, the player itself does, or what does is no
/// monster and `attack_non_hostile` is not set.
pub open spec fn attack_plan(
    world: WorldView,
    target: Coordinate,
    attack_type: AttackType,
    attack_non_hostile: bool,
) -> AttackPlan {
    match standing(world) {
        None => AttackPlan::Fails(Error::NoPlayerFound),
        Some(origin) => match world.component(ComponentType::Combat, world.player->0) {
            Some(ComponentView::Combat(combat)) => match combat.attack_of(attack_type) {
                None => AttackPlan::Refused("You don't have an appropriate attack."@),
                Some(attack) => if !within_quarters(origin, target, attack.range) {
                    AttackPlan::Refused("Target is out of range."@)
                } else {
                    match world.blocking_entity(target) {
                        None => AttackPlan::Refused("Nothing there to attack."@),
                        Some(entity) => if entity == world.player->0 {
                            AttackPlan::Refused("Can't attack yourself."@)
                        } else if world.has(ComponentType::Monster, entity)
                            || attack_non_hostile {
                            AttackPlan::Strikes(entity)
                        } else {
                            AttackPlan::Refused(
                                "Non hostile target, use ctrl to force an attack."@,
                            )
                        },
                    }
                },
            },
            _ => AttackPlan::Fails(
                Error::MissingComponent {
                    entity: world.player->0,
                    component: ComponentType::Combat,
                },
            ),
        },
    }
}

/// The event that an attack of the given type by `source` sends.
pub open spec fn strike(source: usize, attack_type: AttackType) -> Event {
    match attack_type {
        AttackType::Melee => Event::Attack(AttackEvent { source }),
        AttackType::Ranged => Event::Shoot(ShootEvent { source }),
    }
}

/// Whether `post` and `r` are what the attack of the player on `target` may
/// leave of `pre`: an attack that is refused fails with `InvalidTarget` and
/// says why; an attack that strikes sends its event to the entity that
/// blocks the cell.
pub open spec fn attacked(
    ground: Ground,
    resources: &ResourceManager,
    target: Coordinate,
    attack_type: AttackType,
    attack_non_hostile: bool,
    pre: GameState,
    post: GameState,
    r: Result<(), Error>,
) -> bool {
    match attack_plan(pre.world, target, attack_type, attack_non_hostile) {
        AttackPlan::Fails(e) => r == Err::<(), Error>(e) && post == pre,
        AttackPlan::Refused(message) => r == Err::<(), Error>(Error::InvalidTarget) && post
            == told(pre, message),
        AttackPlan::Strikes(entity) => dispatched(
            ground,
            resources,
            strike(pre.world.player->0, attack_type),
            entity,
            pre,
            post,
            r,
            MAX_CASCADE_DEPTH as nat,
        ),
    }
}

/// Whether `post` and `pathing` are what an attack of the player on
/// `target`, and the end of the turn after it, may leave of `pre`. An attack
/// that comes to `InvalidTarget` takes no turn.
pub open spec fn attack_turn(
    systems: Seq<System>,
    ground: Ground,
    pathing: Map<Coordinate, Coordinate>,
    resources: &ResourceManager,
    target: Coordinate,
    attack_type: AttackType,
    attack_non_hostile: bool,
    pre: GameState,
    post: GameState,
) -> bool {
    exists|middle: GameState, first: Result<(), Error>| #[trigger]
        passed(middle, first) && attacked(
            ground,
            resources,
            target,
            attack_type,
            attack_non_hostile,
            pre,
            middle,
            first,
        ) && if first == Err::<(), Error>(Error::InvalidTarget) {
            post == middle && pathing == ground.pathing
        } else {
            turn_ended(systems, ground, pathing, resources, middle, post)
        }
}

/// Whether `post`, `pathing` and `r` are what the player's reaching out to
/// `target` may leave of `pre`: out of reach nothing happens but a message;
/// within reach every entity at the cell gets the event, and the turn ends.
pub open spec fn interacted(
    systems: Seq<System>,
    ground: Ground,
    pathing: Map<Coordinate, Coordinate>,
    resources: &ResourceManager,
    target: Coordinate,
    pre: GameState,
    post: GameState,
    r: Result<(), Error>,
) -> bool {
    match standing(pre.world) {
        None => r == Err::<(), Error>(Error::NoPlayerFound) && post == pre && pathing
            == ground.pathing,
        Some(origin) => r is Ok && if !within_quarters(origin, target, INTERACT_RANGE) {
            post == told(pre, "Too far away to interact"@) && pathing == ground.pathing
        } else {
            exists|middle: GameState| #[trigger]
                passed(middle, target) && broadcast(
                    ground,
                    resources,
                    Event::Interact(InteractEvent { source: pre.world.player->0 }),
                    pre.world.entities_at(target),
                    pre,
                    middle,
                ) && turn_ended(systems, ground, pathing, resources, middle, post)
        },
    }
}

/// Whether `post` and `pathing` are what a step of the player onto
/// `destination` may leave of `pre`: onto a tile that cannot be walked on
/// nothing happens but a message; else the player moves, picks up what
/// lies there, and the turn ends.
pub open spec fn stepped(
    systems: Seq<System>,
    ground: Ground,
    pathing: Map<Coordinate, Coordinate>,
    resources: &ResourceManager,
    destination: Coordinate,
    pre: GameState,
    post: GameState,
) -> bool {
    if !walkable_on(ground.tiles, resources, destination) {
        post == told(pre, "Can't walk there."@) && pathing == ground.pathing
    } else {
        exists|middle: GameState| #[trigger]
            passed(middle, destination) && moved_to(ground, resources, destination, pre, middle)
                && turn_ended(systems, ground, pathing, resources, middle, post)
    }
}

/// Whether `post`, `pathing` and `r` are what the player's acting one step
/// in `direction` may leave of `pre`: it steps where nothing blocks the
/// way, attacks the monster that does, and reaches out to anything else
/// that does.
pub open spec fn acted(
    systems: Seq<System>,
    ground: Ground,
    pathing: Map<Coordinate, Coordinate>,
    resources: &ResourceManager,
    direction: Coordinate,
    pre: GameState,
    post: GameState,
    r: Result<(), Error>,
) -> bool {
    match standing(pre.world) {
        None => r == Err::<(), Error>(Error::NoPlayerFound) && post == pre && pathing
            == ground.pathing,
        Some(origin) => if !origin.can_plus(direction) {
            r == Err::<(), Error>(Error::Overflow) && post == pre && pathing == ground.pathing
        } else {
            let destination = Coordinate {
                x: (origin.x + direction.x) as i32,
                y: (origin.y + direction.y) as i32,
            };
            match pre.world.blocking_entity(destination) {
                None => r is Ok && stepped(
                    systems,
                    ground,
                    pathing,
                    resources,
                    destination,
                    pre,
                    post,
                ),
                Some(entity) => if pre.world.has(ComponentType::Monster, entity) {
                    r is Ok && attack_turn(
                        systems,
                        ground,
                        pathing,
                        resources,
                        destination,
                        AttackType::Melee,
                        false,
                        pre,
                        post,
                    )
                } else {
                    interacted(systems, ground, pathing, resources, destination, pre, post, r)
                },
            }
        },
    }
}

/// Whether `post`, `pathing` and `r` are what a forced attack one step in
/// `direction` may leave of `pre`.
pub open spec fn forced(
    systems: Seq<System>,
    ground: Ground,
    pathing: Map<Coordinate, Coordinate>,
    resources: &ResourceManager,
    direction: Coordinate,
    pre: GameState,
    post: GameState,
    r: Result<(), Error>,
) -> bool {
    match standing(pre.world) {
        None => r == Err::<(), Error>(Error::NoPlayerFound) && post == pre && pathing
            == ground.pathing,
        Some(origin) => if !origin.can_plus(direction) {
            r == Err::<(), Error>(Error::Overflow) && post == pre && pathing == ground.pathing
        } else {
            r is Ok && attack_turn(
                systems,
                ground,
                pathing,
                resources,
                Coordinate {
                    x: (origin.x + direction.x) as i32,
                    y: (origin.y + direction.y) as i32,
                },
                AttackType::Melee,
                true,
                pre,
                post,
            )
        },
    }
}

/// Whether `post`, `pathing` and `r` are what a shot of the player at
/// `target` may leave of `pre`: at a cell that the player has not seen, or
/// does not see, nothing happens but a message.
pub open spec fn shot(
    systems: Seq<System>,
    ground: Ground,
    pathing: Map<Coordinate, Coordinate>,
    resources: &ResourceManager,
    target: Coordinate,
    force_attack: bool,
    pre: GameState,
    post: GameState,
    r: Result<(), Error>,
) -> bool {
    match standing(pre.world) {
        None => r == Err::<(), Error>(Error::NoPlayerFound) && post == pre && pathing
            == ground.pathing,
        Some(origin) => r is Ok && if !pre.explored.contains(target) {
            post == told(pre, "You haven't explored that tile."@) && pathing == ground.pathing
        } else if !sees(ground.tiles, pre.world, resources, origin, target) {
            post == told(pre, "You can't see to that tile."@) && pathing == ground.pathing
        } else {
            attack_turn(
                systems,
                ground,
                pathing,
                resources,
                target,
                AttackType::Ranged,
                force_attack,
                pre,
                post,
            )
        },
    }
}

/// Whether `post`, `pathing` and `r` are what walking along `steps` may
/// leave of `pre`: before each step the player looks out for monsters and
/// stops with a message where it sees one; after each step it picks up what
/// lies there, and the turn ends.
pub open spec fn walked(
    systems: Seq<System>,
    ground: Ground,
    pathing: Map<Coordinate, Coordinate>,
    resources: &ResourceManager,
    steps: Seq<Coordinate>,
    pre: GameState,
    post: GameState,
    r: Result<(), Error>,
) -> bool
    decreases steps.len(),
{
    if steps.len() == 0 {
        r is Ok && post == told(pre, "Arrived at destination."@) && pathing == ground.pathing
    } else {
        match standing(pre.world) {
            None => r == Err::<(), Error>(Error::NoPlayerFound) && post == pre && pathing
                == ground.pathing,
            Some(origin) => if enemies_in_sight(ground.tiles, pre.world, resources, origin) {
                r is Ok && post == told(pre, "Can't auto travel while enemies are in sight."@)
                    && pathing == ground.pathing
            } else if !origin.can_plus(steps[0]) {
                r == Err::<(), Error>(Error::Overflow) && post == pre && pathing
                    == ground.pathing
            } else {
                exists|moved: GameState, ended: GameState, between: Map<Coordinate, Coordinate>|
                 #[trigger]
                    passed(moved, (ended, between)) && moved_to(
                        ground,
                        resources,
                        Coordinate {
                            x: (origin.x + steps[0].x) as i32,
                            y: (origin.y + steps[0].y) as i32,
                        },
                        pre,
                        moved,
                    ) && turn_ended(systems, ground, between, resources, moved, ended) && walked(
                        systems,
                        Ground { pathing: between, ..ground },
                        pathing,
                        resources,
                        steps.drop_first(),
                        ended,
                        post,
                        r,
                    )
            },
        }
    }
}

/// Whether `post`, `pathing` and `r` are what the player's walking to
/// `destination` may leave of `pre`. Nothing happens, but a message, where
/// the destination cannot be walked on, is unseen or blocked, where
/// monsters are in sight, and where no walk leads there; else the player
/// walks along a path that leads there.
pub open spec fn travelled(
    systems: Seq<System>,
    ground: Ground,
    pathing: Map<Coordinate, Coordinate>,
    resources: &ResourceManager,
    destination: Coordinate,
    pre: GameState,
    post: GameState,
    r: Result<(), Error>,
) -> bool {
    match standing(pre.world) {
        None => r == Err::<(), Error>(Error::NoPlayerFound) && post == pre && pathing
            == ground.pathing,
        Some(origin) => if !walkable_on(ground.tiles, resources, destination) {
            r is Ok && post == told(pre, "Destination tile is not walkable."@) && pathing
                == ground.pathing
        } else if !pre.explored.contains(destination) {
            r is Ok && post == told(pre, "You haven't explored that tile."@) && pathing
                == ground.pathing
        } else if pre.world.blocking_entity(destination) is Some {
            r is Ok && post == told(pre, "That tile is blocked."@) && pathing == ground.pathing
        } else if enemies_in_sight(ground.tiles, pre.world, resources, origin) {
            r is Ok && post == told(pre, "Can't auto travel while enemies are in sight."@)
                && pathing == ground.pathing
        } else {
            exists|path: Option<Seq<Coordinate>>| #[trigger]
                passed(path, destination) && match path {
                    None => !reachable(
                        origin,
                        destination,
                        ground.tiles,
                        pre.world,
                        resources,
                        false,
                        false,
                    ) && r is Ok && post == told(pre, "Can't find path to destination."@)
                        && pathing == ground.pathing,
                    Some(steps) => is_walk(
                        steps,
                        origin,
                        destination,
                        ground.tiles,
                        pre.world,
                        resources,
                        false,
                        false,
                    ) && walked(systems, ground, pathing, resources, steps, pre, post, r),
                }
        },
    }
}

/// The spells of `entity`, if it has a book.
pub open spec fn book_of(world: WorldView, entity: usize) -> Option<Seq<SpellInstanceView>> {
    match world.component(ComponentType::Spellbook, entity) {
        Some(ComponentView::Spellbook(book)) => Some(book),
        _ => None,
    }
}

/// Whether `post`, `pathing` and `r` are what the player's casting the
/// spell at `index` of its book at `target` may leave of `pre`: the spell
/// takes effect, the cast is counted in the book as it is then, and the
/// turn ends. A spell without casts fails and says so.
pub open spec fn spell_cast(
    systems: Seq<System>,
    ground: Ground,
    pathing: Map<Coordinate, Coordinate>,
    resources: &ResourceManager,
    index: usize,
    target: Coordinate,
    pre: GameState,
    post: GameState,
    r: Result<(), Error>,
) -> bool {
    match pre.world.player {
        None => r == Err::<(), Error>(Error::NoPlayerFound) && post == pre && pathing
            == ground.pathing,
        Some(player) => match book_of(pre.world, player) {
            None => r == Err::<(), Error>(
                Error::MissingComponent { entity: player, component: ComponentType::Spellbook },
            ) && post == pre && pathing == ground.pathing,
            Some(book) => if index >= book.len() {
                r == Err::<(), Error>(Error::NoSuchSpell) && post == pre && pathing
                    == ground.pathing
            } else if book[index as int].casts_left == 0 {
                r == Err::<(), Error>(Error::OutOfCasts) && post == told(
                    pre,
                    "You have no more casts of that spell this floor."@,
                ) && pathing == ground.pathing
            } else {
                exists|middle: GameState, first: Result<(), Error>| #[trigger]
                    passed(middle, first) && book[index as int].effect.takes_effect(
                        ground,
                        resources,
                        player,
                        target,
                        None,
                        pre,
                        middle,
                        first,
                    ) && cast_counted(
                        systems,
                        ground,
                        pathing,
                        resources,
                        player,
                        index,
                        middle,
                        first,
                        post,
                        r,
                    )
            },
        },
    }
}

/// Whether `post`, `pathing` and `r` are what is left of `middle` after a
/// spell of `player` took effect with the outcome `first`: a failure is
/// handed on; else the cast is counted, and the turn ends.
pub open spec fn cast_counted(
    systems: Seq<System>,
    ground: Ground,
    pathing: Map<Coordinate, Coordinate>,
    resources: &ResourceManager,
    player: usize,
    index: usize,
    middle: GameState,
    first: Result<(), Error>,
    post: GameState,
    r: Result<(), Error>,
) -> bool {
    match first {
        Err(e) => r == Err::<(), Error>(e) && post == middle && pathing == ground.pathing,
        Ok(()) => match book_of(middle.world, player) {
            None => r == Err::<(), Error>(
                Error::MissingComponent { entity: player, component: ComponentType::Spellbook },
            ) && post == middle && pathing == ground.pathing,
            Some(book) => if index >= book.len() {
                r == Err::<(), Error>(Error::NoSuchSpell) && post == middle && pathing
                    == ground.pathing
            } else {
                r is Ok && turn_ended(
                    systems,
                    ground,
                    pathing,
                    resources,
                    GameState {
                        world: middle.world.with_component(
                            player,
                            ComponentView::Spellbook(
                                book.update(index as int, book[index as int].after_cast()),
                            ),
                        ),
                        ..middle
                    },
                    post,
                )
            },
        },
    }
}

/// The attribute that `stat` names.
pub open spec fn stat_of(attributes: Attributes, stat: Attribute) -> u32 {
    match stat {
        Attribute::Might => attributes.might,
        Attribute::Wit => attributes.wit,
        Attribute::Skill => attributes.skill,
    }
}

/// The attributes with `amount` more of what `stat` names.
pub open spec fn trained(attributes: Attributes, stat: Attribute, amount: u32) -> Attributes {
    match stat {
        Attribute::Might => Attributes { might: (attributes.might + amount) as u32, ..attributes },
        Attribute::Wit => Attributes { wit: (attributes.wit + amount) as u32, ..attributes },
        Attribute::Skill => Attributes { skill: (attributes.skill + amount) as u32, ..attributes },
    }
}

/// The book with `amount` more casts of every spell, left and at most.
pub open spec fn studied(book: Seq<SpellInstanceView>, amount: u32) -> Seq<SpellInstanceView> {
    Seq::new(book.len(), |i: int| book[i].with_more_casts(amount))
}

/// The world after the player reached the next level of experience with
/// `amount` more of `stat`, and the outcome. The attribute grows, and with
/// wit the casts of every spell of the player's book; then the level grows
/// by one, and no points count towards the next; then the hit points grow
/// by the multiplier of a level-up and are full. Where a component is
/// missing, what was done before stays done. Where a number would leave the
/// range of `u32`, that step and the steps after it are not taken.
pub open spec fn level_gained(world: WorldView, stat: Attribute, amount: u32) -> (
    WorldView,
    Result<(), Error>,
) {
    match world.player {
        None => (world, Err(Error::NoPlayerFound)),
        Some(player) => match world.component(ComponentType::Attributes, player) {
            Some(ComponentView::Attributes(attributes)) => if stat_of(attributes, stat) + amount
                > u32::MAX || (stat == Attribute::Wit && book_of(world, player) is Some
                && !casts_fit(book_of(world, player)->0, amount)) {
                (world, Err(Error::Overflow))
            } else {
                experience_gained(
                    if stat == Attribute::Wit && book_of(world, player) is Some {
                        world.with_component(
                            player,
                            ComponentView::Attributes(trained(attributes, stat, amount)),
                        ).with_component(
                            player,
                            ComponentView::Spellbook(studied(book_of(world, player)->0, amount)),
                        )
                    } else {
                        world.with_component(
                            player,
                            ComponentView::Attributes(trained(attributes, stat, amount)),
                        )
                    },
                    player,
                )
            },
            _ => (
                world,
                Err(
                    Error::MissingComponent {
                        entity: player,
                        component: ComponentType::Attributes,
                    },
                ),
            ),
        },
    }
}

/// The world after the level of `player` grew by one and its hit points
/// with it, and the outcome.
pub open spec fn experience_gained(world: WorldView, player: usize) -> (
    WorldView,
    Result<(), Error>,
) {
    match world.component(ComponentType::Xp, player) {
        Some(ComponentView::Xp(xp)) => if xp.level == u32::MAX || level_requirement(
            (xp.level + 1) as nat,
        ) > u32::MAX {
            (world, Err(Error::Overflow))
        } else {
            health_gained(
                world.with_component(
                    player,
                    ComponentView::Xp(
                        Xp {
                            level: (xp.level + 1) as u32,
                            max: level_requirement((xp.level + 1) as nat) as u32,
                            status: XpStatus::Default,
                            ..xp
                        },
                    ),
                ),
                player,
            )
        },
        _ => (
            world,
            Err(Error::MissingComponent { entity: player, component: ComponentType::Xp }),
        ),
    }
}

/// The world after the hit points of `player` grew by the multiplier of a
/// level-up, and the outcome.
pub open spec fn health_gained(world: WorldView, player: usize) -> (
    WorldView,
    Result<(), Error>,
) {
    match world.component(ComponentType::Health, player) {
        Some(ComponentView::Health(health)) => if health.1 * LEVEL_UP_MULTIPLIER / 1000
            > u32::MAX {
            (world, Err(Error::Overflow))
        } else {
            (
                world.with_component(
                    player,
                    ComponentView::Health(
                        Health(leveled_health(health.1), leveled_health(health.1)),
                    ),
                ),
                Ok(()),
            )
        },
        _ => (
            world,
            Err(Error::MissingComponent { entity: player, component: ComponentType::Health }),
        ),
    }
}

/// Whether stairs that lead down are at `position`.
pub open spec fn stairs_at(world: WorldView, position: Coordinate) -> bool {
    exists|i: int|
        0 <= i < world.entities_at(position).len() && world.has(
            ComponentType::StairsDown,
            #[trigger] world.entities_at(position)[i],
        )
}

/// Whether the player stands on stairs that lead down.
pub open spec fn on_stairs(world: WorldView) -> bool {
    match standing(world) {
        None => false,
        Some(position) => stairs_at(world, position),
    }
}

/// `hp` times the multiplier of a level-up, cut to a whole number.
pub open spec fn leveled_health(hp: u32) -> u32 {
    (hp * LEVEL_UP_MULTIPLIER / 1000) as u32
}

/// The world without entities on the regions `bsp`.
pub open spec fn empty_world(bsp: EntityGraphView) -> WorldView {
    WorldView {
        entity_count: 0,
        columns: Map::<ComponentType, Seq<Option<ComponentView>>>::empty(),
        bsp,
        player: None,
    }
}

/// The systems of every game: at the end of a turn the dead are taken
/// away, the experience of the player is looked at, and the monsters take
/// their turns; at the end of a level the spells come back.
pub open spec fn the_systems() -> SchedulerView {
    SchedulerView {
        turn_end: seq![System::ReapUnits, System::LevelUpCheck, System::MonsterTurns],
        floor_end: seq![System::SpellCooldowns],
        room_end: Seq::<System>::empty(),
    }
}

/// Whether `r` is what beginning a game on `map` and `bsp` may come to: the
/// entities of the level are spawned, room by room; where that fails, or
/// leaves no player with a position, the game fails; else the room of the
/// player is seen, no message waits, and the systems are those of every
/// game.
pub open spec fn begun(
    map: GameMap,
    bsp: EntityGraphView,
    resources: &ResourceManager,
    r: Result<Game, Error>,
) -> bool {
    exists|spawned: WorldView, first: Result<(), Error>| #[trigger]
        passed(spawned, first) && rooms_spawned(
            map.rooms@,
            map.depth,
            map.map@,
            resources,
            empty_world(bsp),
            spawned,
            first,
        ) && match first {
            Err(e) => r == Err::<Game, Error>(e),
            Ok(()) => match standing(spawned) {
                None => r == Err::<Game, Error>(Error::NoPlayerFound),
                Some(position) => r is Ok && r->Ok_0.wf() && r->Ok_0.systems() == the_systems()
                    && r->Ok_0.the_map().same_ground(&map) && r->Ok_0.state() == (GameState {
                    world: spawned,
                    explored: room_lit(map.rooms@, map.explored@, position),
                    log: Seq::<Seq<char>>::empty(),
                }),
            },
        }
}

/// Whether `after` and `r` are what the player's descending to the level
/// of `new_map` and `new_bsp` may leave of the game `before`. Where the
/// player does not stand on stairs, the descent fails with `InvalidTarget`.
/// Else the entities of the new level are spawned, room by room; the
/// player of the new level gets what the player carries over; the room of
/// the player is seen; and the systems of the end of a level run. Where the
/// spawning fails, or leaves no player with a position, the descent fails.
/// A descent that fails leaves the game as it was.
pub open spec fn descended(
    before: Game,
    new_map: GameMap,
    new_bsp: EntityGraphView,
    resources: &ResourceManager,
    after: Game,
    r: Result<(), Error>,
) -> bool {
    let unchanged = after.state() == before.state() && after.the_map() == before.the_map();
    if !on_stairs(before.state().world) {
        r == Err::<(), Error>(Error::InvalidTarget) && unchanged
    } else {
        exists|spawned: WorldView, first: Result<(), Error>| #[trigger]
            passed(spawned, first) && rooms_spawned(
                new_map.rooms@,
                new_map.depth,
                new_map.map@,
                resources,
                empty_world(new_bsp),
                spawned,
                first,
            ) && match first {
                Err(e) => r == Err::<(), Error>(e) && unchanged,
                Ok(()) => if spawned.player is None {
                    r == Err::<(), Error>(Error::NoPlayerFound) && unchanged
                } else {
                    match standing(spawned.imported(before.state().world)) {
                        None => r == Err::<(), Error>(Error::NoPlayerFound) && unchanged,
                        Some(position) => r is Ok && after.the_map().same_ground(&new_map)
                            && systems_ran(
                            before.systems().floor_end,
                            new_map.ground(),
                            resources,
                            GameState {
                                world: spawned.imported(before.state().world),
                                explored: room_lit(new_map.rooms@, new_map.explored@, position),
                                log: before.state().log,
                            },
                            after.state(),
                        ),
                    }
                },
            }
    }
}

/// The least and the largest damage of `attack` as they are shown: with
/// the bonus of the attributes, where there are any.
pub open spec fn damage_shown(attack: Attack, attributes: Option<Attributes>) -> (u32, u32) {
    match attributes {
        Some(a) => (
            boosted_attack_damage(attack.damage_min, attack.attack_type, a),
            boosted_attack_damage(attack.damage_max, attack.attack_type, a),
        ),
        None => (attack.damage_min, attack.damage_max),
    }
}

/// The attributes of `entity`, if it has any.
pub open spec fn attributes_of(world: WorldView, entity: usize) -> Option<Attributes> {
    match world.component(ComponentType::Attributes, entity) {
        Some(ComponentView::Attributes(a)) => Some(a),
        _ => None,
    }
}

/// What is shown of the player of `world`: of each component what it
/// holds, and a blank or a zero where the player lacks the component, or
/// where there is no player.
pub open spec fn player_shown(world: WorldView) -> PlayerModelView {
    match world.player {
        None => PlayerModelView::blank(),
        Some(p) => PlayerModelView {
            name: match world.component(ComponentType::Name, p) {
                Some(ComponentView::Name(n)) => n.0@,
                _ => Seq::<char>::empty(),
            },
            level: match world.component(ComponentType::Xp, p) {
                Some(ComponentView::Xp(xp)) => xp.level,
                _ => 0,
            },
            coins: match world.component(ComponentType::Coins, p) {
                Some(ComponentView::Coins(c)) => c.0,
                _ => 0,
            },
            xp_current: match world.component(ComponentType::Xp, p) {
                Some(ComponentView::Xp(xp)) => xp.current,
                _ => 0,
            },
            xp_goal: match world.component(ComponentType::Xp, p) {
                Some(ComponentView::Xp(xp)) => xp.max,
                _ => 0,
            },
            hp_current: match world.component(ComponentType::Health, p) {
                Some(ComponentView::Health(h)) => h.0,
                _ => 0,
            },
            hp_max: match world.component(ComponentType::Health, p) {
                Some(ComponentView::Health(h)) => h.1,
                _ => 0,
            },
            might: match attributes_of(world, p) {
                Some(a) => a.might,
                None => 0,
            },
            wit: match attributes_of(world, p) {
                Some(a) => a.wit,
                None => 0,
            },
            skill: match attributes_of(world, p) {
                Some(a) => a.skill,
                None => 0,
            },
            melee_damage: match world.component(ComponentType::Combat, p) {
                Some(ComponentView::Combat(Combat { melee_attack: Some(attack), .. })) => damage_shown(
                    attack,
                    attributes_of(world, p),
                ),
                _ => (0, 0),
            },
            ranged_damage: match world.component(ComponentType::Combat, p) {
                Some(
                    ComponentView::Combat(Combat { ranged_attack: Some(attack), .. }),
                ) => damage_shown(attack, attributes_of(world, p)),
                _ => (0, 0),
            },
        },
    }
}

/// What is shown of the spells of the player of `world`: nothing, where
/// there is no player or it has no book.
pub open spec fn spells_shown(world: WorldView) -> SpellbookModelView {
    match world.player {
        None => SpellbookModelView { names: Seq::empty(), casts: Seq::empty() },
        Some(p) => match book_of(world, p) {
            None => SpellbookModelView { names: Seq::empty(), casts: Seq::empty() },
            Some(book) => SpellbookModelView {
                names: Seq::new(book.len(), |i: int| book[i].name),
                casts: Seq::new(book.len(), |i: int| (book[i].casts_left, book[i].casts_max)),
            },
        },
    }
}

/// The images of those of `entities` that have one, in order.
pub open spec fn images_of(world: WorldView, entities: Seq<usize>) -> Seq<usize>
    decreases entities.len(),
{
    if entities.len() == 0 {
        Seq::empty()
    } else {
        match world.component(ComponentType::ImageID, entities.last()) {
            Some(ComponentView::ImageID(image)) => images_of(world, entities.drop_last()).push(
                image.0,
            ),
            _ => images_of(world, entities.drop_last()),
        }
    }
}

/// The images that are shown on the cell `c`: the image of its tile, or
/// the default image where the tile has no definition, and the images of
/// the entities on it, where the player has seen the cell; and the default
/// image alone where it has not.
pub open spec fn cell_images(
    map: GameMap,
    world: WorldView,
    resources: &ResourceManager,
    c: Coordinate,
) -> Seq<usize> {
    if map.explored@.contains(c) {
        seq![
            if resources.tiles().contains_key(map.tile_at(c).0) {
                resources.tiles()[map.tile_at(c).0].image.0
            } else {
                DEFAULT_IMAGE_ID
            },
        ] + images_of(world, world.entities_at(c))
    } else {
        seq![DEFAULT_IMAGE_ID]
    }
}

/// The cell that stands at `index` when the cells are counted row by row;
/// a number that is no `i32` wraps around.
pub open spec fn cell_at(index: u64, width: u32) -> Coordinate {
    Coordinate { x: (index % width as u64) as i32, y: (index / width as u64) as i32 }
}

/// Whether `r` is what beginning a new game may come to: a level is made
/// from each of the first `GENERATION_ATTEMPTS` of `draws` in turn, until
/// a game begins on one. The game is then on the first level, its player
/// has a position, no message waits, and its systems are those of every
/// game. Where no game begins, the making of a level has failed.
pub open spec fn new_game(resources: &ResourceManager, r: Result<Game, Error>) -> bool {
    match r {
        Err(e) => e == Error::LevelGenerationFailed,
        Ok(game) => game.wf() && game.systems() == the_systems() && game.state().log
            == Seq::<Seq<char>>::empty() && standing(game.state().world) is Some
            && game.the_map().width == MAP_SIZE_X && game.the_map().height == MAP_SIZE_Y
            && game.the_map().depth == 1,
    }
}

/// Whether `after` and `r` are what the player's taking the stairs may
/// leave of the game `before`. Where the player does not stand on stairs,
/// that fails with `InvalidTarget`; where the level below has no number,
/// with `Overflow`; where no level could be made that the player can
/// descend to, with `LevelGenerationFailed`; and a failure leaves the game
/// as it was. Else the player has descended to a level one below.
pub open spec fn stairs_taken(
    before: Game,
    resources: &ResourceManager,
    after: Game,
    r: Result<(), Error>,
) -> bool {
    let unchanged = after.state() == before.state() && after.the_map() == before.the_map();
    if !on_stairs(before.state().world) {
        r == Err::<(), Error>(Error::InvalidTarget) && unchanged
    } else if before.the_map().depth == u32::MAX {
        r == Err::<(), Error>(Error::Overflow) && unchanged
    } else {
        match r {
            Err(e) => e == Error::LevelGenerationFailed && unchanged,
            Ok(()) => exists|new_map: GameMap, new_bsp: EntityGraphView| #[trigger]
                passed(new_map, new_bsp) && new_map.depth == before.the_map().depth + 1
                    && new_map.width == MAP_SIZE_X && new_map.height == MAP_SIZE_Y && descended(
                    before,
                    new_map,
                    new_bsp,
                    resources,
                    after,
                    r,
                ),
        }
    }
}

/// Whether `after` and `reaction` are what the input `command` with the
/// numbers `x`, `y` and `z` may leave of the game `before`. A direction, a
/// position, a shot, a forced attack and a spell take `x` and `y` as a cell
/// or a step, a spell takes `z` as its place in the book, and a level-up
/// takes `x` as the attribute and `y` as the amount. Numbers that name
/// nothing are refused, and so is no command. To wait where stairs lead
/// down is to take them. Where no new game can begin, the game goes on, and
/// a message says so. To quit is left to the caller.
pub open spec fn input_handled(
    before: Game,
    command: InputCommand,
    x: i32,
    y: i32,
    z: i32,
    resources: &ResourceManager,
    after: Game,
    reaction: Reaction,
) -> bool {
    let systems = before.systems().turn_end;
    let ground = before.the_map().ground();
    let pathing = after.the_map().pathing_grid@;
    let cell = Coordinate { x, y };
    let pre = before.state();
    let post = after.state();
    let same_level = after.systems() == before.systems() && after.the_map().same_level(
        &before.the_map(),
    );
    let unchanged = post == pre && after.the_map() == before.the_map() && after.systems()
        == before.systems();
    match command {
        InputCommand::Direction => reaction matches Reaction::Done(r) && same_level && acted(
            systems,
            ground,
            pathing,
            resources,
            cell,
            pre,
            post,
            r,
        ),
        InputCommand::Position => reaction matches Reaction::Done(r) && same_level && travelled(
            systems,
            ground,
            pathing,
            resources,
            cell,
            pre,
            post,
            r,
        ),
        InputCommand::Shoot => reaction matches Reaction::Done(r) && same_level && shot(
            systems,
            ground,
            pathing,
            resources,
            cell,
            false,
            pre,
            post,
            r,
        ),
        InputCommand::ForceShoot => reaction matches Reaction::Done(r) && same_level && shot(
            systems,
            ground,
            pathing,
            resources,
            cell,
            true,
            pre,
            post,
            r,
        ),
        InputCommand::ForceAttack => reaction matches Reaction::Done(r) && same_level && forced(
            systems,
            ground,
            pathing,
            resources,
            cell,
            pre,
            post,
            r,
        ),
        InputCommand::Spell => same_level && if z < 0 {
            reaction == Reaction::Refused(Refusal::SpellIndex) && unchanged
        } else {
            reaction matches Reaction::Done(r) && spell_cast(
                systems,
                ground,
                pathing,
                resources,
                z as usize,
                cell,
                pre,
                post,
                r,
            )
        },
        InputCommand::Descend => reaction matches Reaction::Done(r) && after.systems()
            == before.systems() && stairs_taken(before, resources, after, r),
        InputCommand::Wait => after.systems() == before.systems() && if on_stairs(pre.world) {
            reaction matches Reaction::Done(r) && stairs_taken(before, resources, after, r)
        } else {
            reaction matches Reaction::Done(r) && same_level && r is Ok && turn_ended(
                systems,
                ground,
                pathing,
                resources,
                told(pre, "Waited for a turn."@),
                post,
            )
        },
        InputCommand::LevelUp => same_level && match attribute_numbered(x) {
            None => reaction == Reaction::Refused(Refusal::Attribute) && unchanged,
            Some(stat) => if y < 0 {
                reaction == Reaction::Refused(Refusal::Amount) && unchanged
            } else {
                reaction == Reaction::Done(level_gained(pre.world, stat, y as u32).1)
                    && after.the_map() == before.the_map() && post == (GameState {
                    world: level_gained(pre.world, stat, y as u32).0,
                    ..pre
                })
            },
        },
        InputCommand::Quit => reaction == Reaction::Quit && unchanged,
        InputCommand::Restart => reaction matches Reaction::Done(r) && new_game(
            resources,
            match r {
                Ok(()) => Ok(after),
                Err(e) => Err(e),
            },
        ) && (r is Err ==> after.systems() == before.systems() && after.the_map()
            == before.the_map() && post == told(pre, "Failed to initialize new game."@)),
        InputCommand::Unrecognized => reaction == Reaction::Refused(Refusal::Command)
            && unchanged,
    }
}

/// The attribute that the number names: 0 might, 1 wit, 2 skill.
pub open spec fn attribute_numbered(number: i32) -> Option<Attribute> {
    if number == 0 {
        Some(Attribute::Might)
    } else if number == 1 {
        Some(Attribute::Wit)
    } else if number == 2 {
        Some(Attribute::Skill)
    } else {
        None
    }
}

/// Whether the player of `world` is at full health, hurt or dead; full
/// where there is no player or the player has no health.
pub open spec fn health_status_of(world: WorldView) -> HealthStatus {
    match world.player {
        None => HealthStatus::Full,
        Some(p) => match world.component(ComponentType::Health, p) {
            Some(ComponentView::Health(h)) => HealthStatus::of(h),
            _ => HealthStatus::Full,
        },
    }
}

/// Whether the player of `world` has reached the next level; not, where
/// there is no player or the player has no experience.
pub open spec fn xp_status_of(world: WorldView) -> XpStatus {
    match world.player {
        None => XpStatus::Default,
        Some(p) => match world.component(ComponentType::Xp, p) {
            Some(ComponentView::Xp(xp)) => xp.status,
            _ => XpStatus::Default,
        },
    }
}

impl Game {
    /// Whether the game is well formed.
    pub closed spec fn wf(&self) -> bool {
        self.world.wf()
    }

    /// The world of the level.
    pub closed spec fn world_view(&self) -> crate::world::WorldView {
        self.world@
    }

    /// The messages that wait to be shown.
    pub closed spec fn messages(&self) -> Seq<Seq<char>> {
        self.log@
    }

    /// The map of the level.
    pub closed spec fn the_map(&self) -> GameMap {
        self.map
    }

    /// What a command may change: the world, the cells that the player has
    /// seen, and the messages that wait to be shown.
    pub closed spec fn state(&self) -> GameState {
        state_of(&self.world, &self.map, &self.log)
    }

    /// The systems of the game.
    pub closed spec fn systems(&self) -> SchedulerView {
        self.scheduler@
    }

    /// The state of a game is its world, the seen cells of its map, and its
    /// messages.
    pub proof fn lemma_state(&self)
        ensures
            self.state() == (GameState {
                world: self.world_view(),
                explored: self.the_map().explored@,
                log: self.messages(),
            }),
    {
    }

    /// A new game on a level that is made by chance. The cuts of the level
    /// take their fractions from `draws`: one list for each attempt, of
    /// which there are `GENERATION_ATTEMPTS` at most.
    pub fn new(resources: &ResourceManager, draws: &Vec<Vec<u32>>) -> (r: Result<Game, Error>)
        requires
            resources.wf(),
        ensures
            new_game(resources, r),
    {
        let mut attempt: usize = 0;
        while attempt < draws.len() && attempt < GENERATION_ATTEMPTS
            invariant
                resources.wf(),
            decreases draws@.len() - attempt,
        {
            let (map, bsp) = generate_new(MAP_SIZE_X, MAP_SIZE_Y, 1, resources, &draws[attempt]);
            let ghost given = map;
            if let Ok(game) = Game::new_with(map, bsp, resources) {
                proof {
                    game.lemma_state();
                }
                return Ok(game);
            }
            attempt = attempt + 1;
        }
        Err(Error::LevelGenerationFailed)
    }

    /// The player takes the stairs to a level that is made by chance. The
    /// cuts of the level take their fractions from `draws`: one list for
    /// each attempt, of which there are `GENERATION_ATTEMPTS` at most.
    pub fn descend(&mut self, resources: &ResourceManager, draws: &Vec<Vec<u32>>) -> (r: Result<
        (),
        Error,
    >)
        requires
            old(self).wf(),
            resources.wf(),
        ensures
            final(self).wf(),
            final(self).systems() == old(self).systems(),
            stairs_taken(*old(self), resources, *final(self), r),
    {
        if !self.can_descend() {
            return Err(Error::InvalidTarget);
        }
        let new_depth = match self.next_depth() {
            Some(d) => d,
            None => {
                return Err(Error::Overflow);
            },
        };
        let mut attempt: usize = 0;
        while attempt < draws.len() && attempt < GENERATION_ATTEMPTS
            invariant
                resources.wf(),
                self.wf(),
                self.state() == old(self).state(),
                self.the_map() == old(self).the_map(),
                self.systems() == old(self).systems(),
                on_stairs(self.state().world),
                new_depth == self.the_map().depth + 1,
            decreases draws@.len() - attempt,
        {
            let (map, bsp) = generate_new(
                MAP_SIZE_X,
                MAP_SIZE_Y,
                new_depth,
                resources,
                &draws[attempt],
            );
            let ghost new_map = map;
            let ghost new_bsp = bsp@;
            let ghost before = *self;
            let r = self.descend_command(map, bsp, resources);
            if r.is_ok() {
                assert(passed(new_map, new_bsp));
                assert(descended(*old(self), new_map, new_bsp, resources, *self, r));
                return r;
            }
            attempt = attempt + 1;
        }
        Err(Error::LevelGenerationFailed)
    }

    /// A game on the level that `map` and `bsp` describe: the entities of
    /// the level are spawned, the room of the player is marked as seen, and
    /// the systems are registered. Fails where the spawning fails or leaves
    /// no player with a position.
    pub fn new_with(map: GameMap, bsp: EntityGraph, resources: &ResourceManager) -> (r: Result<
        Game,
        Error,
    >)
        requires
            bsp@.wf(),
            bsp@.vacant(),
        ensures
            begun(map, bsp@, resources, r),
    {
        let mut map = map;
        let ghost given = map;
        let mut world = World::new_with(bsp);
        let mut scheduler = Scheduler::new();
        let first = spawn_all_entities(&map, &mut world, resources);
        assert(passed(world@, first));
        if let Err(e) = first {
            return Err(e);
        }
        if let Err(_) = explore_player_room(&mut map, &world) {
            return Err(Error::NoPlayerFound);
        }
        scheduler.add_system(System::ReapUnits, TimeSlot::EndOfTurn);
        scheduler.add_system(System::LevelUpCheck, TimeSlot::EndOfTurn);
        scheduler.add_system(System::MonsterTurns, TimeSlot::EndOfTurn);
        scheduler.add_system(System::SpellCooldowns, TimeSlot::EndOfLevel);
        assert(scheduler@.turn_end =~= the_systems().turn_end);
        assert(scheduler@.floor_end =~= the_systems().floor_end);
        let log = MessageLog::new();
        assert(log@ =~= Seq::<Seq<char>>::empty());
        Ok(Game { map, world, scheduler, log })
    }

    /// The world of the level.
    pub fn world(&self) -> (world: &World)
        ensures
            world@ == self.world_view(),
            self.wf() ==> world.wf(),
    {
        &self.world
    }

    /// The map of the level.
    pub fn map(&self) -> (map: &GameMap)
        ensures
            *map == self.the_map(),
    {
        &self.map
    }

    /// Takes the oldest message that waits to be shown.
    pub fn next_message(&mut self) -> (msg: Option<String>)
        requires
            old(self).wf(),
        ensures
            final(self).wf(),
            final(self).world_view() == old(self).world_view(),
            old(self).messages().len() == 0 ==> msg is None,
            old(self).messages().len() > 0 ==> msg is Some && msg->0@ == old(self).messages()[0]
                && final(self).messages() == old(self).messages().drop_first(),
    {
        self.log.next_message()
    }

    /// The size and the depth of the map.
    pub fn get_map_info(&self) -> (model: MapModel)
        ensures
            model == MapModel::of(&self.the_map()),
    {
        MapModel::from_map(&self.map)
    }

    /// The state of the player as it is shown: zeros and an empty name
    /// where there is no player or the player lacks the component.
    pub fn get_player_info(&self) -> (model: PlayerModel)
        requires
            self.wf(),
        ensures
            model@ == player_shown(self.world_view()),
    {
        let mut model = PlayerModel::new();
        let player = match self.world.get_player_id() {
            Ok(p) => p,
            Err(_) => {
                return model;
            },
        };
        if let Some(Component::Name(name)) = self.world.borrow_entity_component(
            ComponentType::Name,
            player,
        ) {
            model.name = name.0.clone();
        }
        if let Some(Component::Xp(xp)) = self.world.borrow_entity_component(
            ComponentType::Xp,
            player,
        ) {
            model.level = xp.level;
            model.xp_current = xp.current;
            model.xp_goal = xp.max;
        }
        if let Some(Component::Health(health)) = self.world.borrow_entity_component(
            ComponentType::Health,
            player,
        ) {
            model.hp_current = health.0;
            model.hp_max = health.1;
        }
        let maybe_attributes: Option<Attributes> = match self.world.borrow_entity_component(
            ComponentType::Attributes,
            player,
        ) {
            Some(Component::Attributes(a)) => Some(*a),
            _ => None,
        };
        if let Some(attributes) = maybe_attributes {
            model.might = attributes.might;
            model.wit = attributes.wit;
            model.skill = attributes.skill;
        }
        if let Some(Component::Combat(combat)) = self.world.borrow_entity_component(
            ComponentType::Combat,
            player,
        ) {
            if let Some(melee) = &combat.melee_attack {
                model.melee_damage = shown_damage(melee, maybe_attributes);
            }
            if let Some(ranged) = &combat.ranged_attack {
                model.ranged_damage = shown_damage(ranged, maybe_attributes);
            }
        }
        if let Some(Component::Coins(coins)) = self.world.borrow_entity_component(
            ComponentType::Coins,
            player,
        ) {
            model.coins = coins.0;
        }
        model
    }

    /// The spells of the player as they are shown: the names, and for each
    /// spell the casts that are left and the casts at most.
    pub fn get_spell_info(&self) -> (model: SpellbookModel)
        requires
            self.wf(),
        ensures
            model@ == spells_shown(self.world_view()),
    {
        let mut model = SpellbookModel::new();
        let player = match self.world.get_player_id() {
            Ok(p) => p,
            Err(_) => {
                assert(model@.names =~= Seq::<Seq<char>>::empty());
                assert(model@.casts =~= Seq::<(u32, u32)>::empty());
                return model;
            },
        };
        if let Some(Component::Spellbook(spellbook)) = self.world.borrow_entity_component(
            ComponentType::Spellbook,
            player,
        ) {
            let spells = spellbook.get_spells();
            let ghost book = book_of(self.world_view(), player)->0;
            let mut i: usize = 0;
            while i < spells.len()
                invariant
                    i <= spells@.len(),
                    book.len() == spells@.len(),
                    forall|k: int| 0 <= k < spells@.len() ==> (#[trigger] spells@[k])@ == book[k],
                    model.names@.len() == i,
                    model.casts@.len() == i,
                    forall|k: int| 0 <= k < i ==> (#[trigger] model.names@[k])@ == book[k].name,
                    forall|k: int|
                        0 <= k < i ==> #[trigger] model.casts@[k] == (
                            book[k].casts_left,
                            book[k].casts_max,
                        ),
                decreases spells@.len() - i,
            {
                model.names.push(spells[i].name.0.clone());
                model.casts.push((spells[i].casts_left, spells[i].casts_max));
                i = i + 1;
            }
            assert(model@.names =~= spells_shown(self.world_view()).names);
            assert(model@.casts =~= spells_shown(self.world_view()).casts);
        } else {
            assert(model@.names =~= Seq::<Seq<char>>::empty());
            assert(model@.casts =~= Seq::<(u32, u32)>::empty());
        }
        model
    }

    /// For each cell of the map, row by row, the images that are shown on
    /// it: the image of its tile and the images of the entities on it, where
    /// the player has seen the cell, and the default image otherwise.
    pub fn get_sprite_ids(&self, resources: &ResourceManager) -> (tile_images: Vec<Vec<usize>>)
        requires
            self.wf(),
        ensures
            tile_images@.len() == self.the_map().height as nat * self.the_map().width as nat,
            forall|i: int|
                0 <= i < tile_images@.len() ==> (#[trigger] tile_images@[i])@ == cell_images(
                    self.the_map(),
                    self.world_view(),
                    resources,
                    cell_at(i as u64, self.the_map().width),
                ),
    {
        let mut tile_images: Vec<Vec<usize>> = Vec::new();
        if self.map.width == 0 || self.map.height == 0 {
            assert(self.map.height as nat * self.map.width as nat == 0) by (nonlinear_arith)
                requires
                    self.map.width == 0 || self.map.height == 0,
            ;
            return tile_images;
        }
        assert(self.map.height * self.map.width <= 0xffff_ffff * 0xffff_ffff) by (nonlinear_arith)
            requires
                self.map.height <= 0xffff_ffff,
                self.map.width <= 0xffff_ffff,
        ;
        let max_tile_index: u64 = self.map.height as u64 * self.map.width as u64;
        let mut index: u64 = 0;
        while index < max_tile_index
            invariant
                self.wf(),
                self.map.width > 0,
                max_tile_index == self.map.height as nat * self.map.width as nat,
                index <= max_tile_index,
                tile_images@.len() == index,
                forall|i: int|
                    0 <= i < tile_images@.len() ==> (#[trigger] tile_images@[i])@ == cell_images(
                        self.map,
                        self.world_view(),
                        resources,
                        cell_at(i as u64, self.map.width),
                    ),
            decreases max_tile_index - index,
        {
            let mut images: Vec<usize> = Vec::new();
            let coordinate = Coordinate {
                x: #[verifier::truncate] ((index % self.map.width as u64) as i32),
                y: #[verifier::truncate] ((index / self.map.width as u64) as i32),
            };
            assert(coordinate == cell_at(index, self.map.width));
            if self.map.is_tile_explored(coordinate) {
                let tile_id = self.map.get_game_tile(coordinate);
                let image = match resources.get_tile(tile_id) {
                    Some(tile) => tile.image,
                    None => ImageID(DEFAULT_IMAGE_ID),
                };
                images.push(image.0);
                let ghost first = images@;
                let entities = self.world.get_entities_at_coordinate(coordinate);
                let mut e: usize = 0;
                while e < entities.len()
                    invariant
                        self.wf(),
                        e <= entities@.len(),
                        images@ == first + images_of(self.world_view(), entities@.take(e as int)),
                    decreases entities@.len() - e,
                {
                    assert(entities@.take(e as int + 1).drop_last() =~= entities@.take(e as int));
                    assert(entities@.take(e as int + 1).last() == entities@[e as int]);
                    if let Some(Component::ImageID(image)) = self.world.borrow_entity_component(
                        ComponentType::ImageID,
                        entities[e],
                    ) {
                        images.push(image.0);
                        assert(images@ =~= first + images_of(
                            self.world_view(),
                            entities@.take(e as int + 1),
                        ));
                    }
                    e = e + 1;
                }
                assert(entities@.take(entities@.len() as int) =~= entities@);
                assert(first =~= seq![image.0]);
            } else {
                images.push(DEFAULT_IMAGE_ID);
                assert(images@ =~= seq![DEFAULT_IMAGE_ID]);
            }
            tile_images.push(images);
            index = index + 1;
        }
        tile_images
    }

    /// Whether the player is at full health, hurt or dead; full where there
    /// is no player or the player has no health.
    pub fn player_health_status(&self) -> (status: HealthStatus)
        requires
            self.wf(),
        ensures
            status == health_status_of(self.world_view()),
    {
        let player = match self.world.get_player_id() {
            Ok(p) => p,
            Err(_) => {
                return HealthStatus::Full;
            },
        };
        match self.world.borrow_entity_component(ComponentType::Health, player) {
            Some(Component::Health(health)) => HealthStatus::from(*health),
            _ => HealthStatus::Full,
        }
    }

    /// Whether the player has reached the next level; not, where there is no
    /// player or the player has no experience.
    pub fn player_xp_status(&self) -> (status: XpStatus)
        requires
            self.wf(),
        ensures
            status == xp_status_of(self.world_view()),
    {
        let player = match self.world.get_player_id() {
            Ok(p) => p,
            Err(_) => {
                return XpStatus::Default;
            },
        };
        match self.world.borrow_entity_component(ComponentType::Xp, player) {
            Some(Component::Xp(xp)) => xp.status,
            _ => XpStatus::Default,
        }
    }

    /// Ends the turn: the steps towards the player are worked out anew, and
    /// the systems of the end of a turn run.
    fn end_turn(&mut self, resources: &ResourceManager) -> (r: Result<(), Error>)
        requires
            old(self).wf(),
        ensures
            final(self).wf(),
            r is Ok,
            final(self).systems() == old(self).systems(),
            final(self).the_map().same_level(&old(self).the_map()),
            turn_ended(
                old(self).systems().turn_end,
                old(self).the_map().ground(),
                final(self).the_map().pathing_grid@,
                resources,
                old(self).state(),
                final(self).state(),
            ),
    {
        if let Ok(player_position) = self.world.get_player_position() {
            self.map.update_pathing_grid(player_position, &self.world, resources);
        }
        assert(self.map.ground() == (Ground {
            pathing: self.map.pathing_grid@,
            ..old(self).map.ground()
        }));
        self.scheduler.on_end_turn(&mut self.world, &mut self.map, resources, &mut self.log)
    }

    /// Sends `event` to the entities that `targets` lists from `from` on.
    fn broadcast_from(
        &mut self,
        event: &Event,
        targets: &Vec<usize>,
        from: usize,
        resources: &ResourceManager,
    )
        requires
            old(self).wf(),
            from <= targets@.len(),
        ensures
            final(self).wf(),
            final(self).systems() == old(self).systems(),
            final(self).the_map().same_ground(&old(self).the_map()),
            broadcast(
                old(self).the_map().ground(),
                resources,
                *event,
                targets@.subrange(from as int, targets@.len() as int),
                old(self).state(),
                final(self).state(),
            ),
        decreases targets@.len() - from,
    {
        if from >= targets.len() {
            return ;
        }
        let ghost rest = targets@.subrange(from as int, targets@.len() as int);
        assert(rest[0] == targets@[from as int]);
        assert(rest.drop_first() =~= targets@.subrange(from as int + 1, targets@.len() as int));
        let first = self.world.send_event(
            &mut self.map,
            resources,
            &mut self.log,
            event,
            targets[from],
        );
        assert(passed(self.state(), first));
        assert(self.map.ground() == old(self).map.ground());
        self.broadcast_from(event, targets, from + 1, resources);
    }

    /// Sends `event` to every entity at `destination`. An entity for which
    /// that fails does not stop the others.
    fn broadcast_event(&mut self, event: Event, destination: Coordinate, resources: &ResourceManager)
        requires
            old(self).wf(),
        ensures
            final(self).wf(),
            final(self).systems() == old(self).systems(),
            final(self).the_map().same_ground(&old(self).the_map()),
            broadcast(
                old(self).the_map().ground(),
                resources,
                event,
                old(self).state().world.entities_at(destination),
                old(self).state(),
                final(self).state(),
            ),
    {
        let targets = self.world.get_entities_at_coordinate(destination);
        assert(targets@.subrange(0, targets@.len() as int) =~= targets@);
        self.broadcast_from(&event, &targets, 0, resources);
    }

    /// Whether a monster of the region of `coordinate` can be seen from it.
    fn are_enemies_in_sight(&self, coordinate: Coordinate, resources: &ResourceManager) -> (b: bool)
        requires
            self.wf(),
        ensures
            b == enemies_in_sight(self.the_map().map@, self.world_view(), resources, coordinate),
    {
        let entities = self.world.get_entities_in_room(coordinate);
        let mut i: usize = 0;
        while i < entities.len()
            invariant
                self.wf(),
                i <= entities@.len(),
                entities@ == self.world_view().bsp.entities_at_leaf(coordinate),
                forall|j: int|
                    0 <= j < i ==> !enemy_in_sight(
                        self.map.map@,
                        self.world_view(),
                        resources,
                        coordinate,
                        #[trigger] entities@[j],
                    ),
            decreases entities@.len() - i,
        {
            let entity = entities[i];
            if self.world.has_component(ComponentType::Monster, entity) {
                if let Some(other) = self.world.position_of(entity) {
                    if line_of_sight(coordinate, other, &self.map, &self.world, resources) {
                        return true;
                    }
                }
            }
            i = i + 1;
        }
        false
    }

    /// Moves the player to `destination` and lets it pick up what lies
    /// there.
    fn move_player(&mut self, destination: Coordinate, resources: &ResourceManager)
        requires
            old(self).wf(),
            old(self).world_view().player is Some,
        ensures
            final(self).wf(),
            final(self).systems() == old(self).systems(),
            final(self).the_map().same_ground(&old(self).the_map()),
            moved_to(
                old(self).the_map().ground(),
                resources,
                destination,
                old(self).state(),
                final(self).state(),
            ),
    {
        let player = match self.world.get_player_id() {
            Ok(p) => p,
            Err(_) => {
                return ;
            },
        };
        self.world.update_position(player, destination);
        self.broadcast_event(Event::Pickup(PickupEvent { source: player }), destination, resources);
    }

    /// The player steps onto `destination`, and the turn ends.
    fn move_direction(&mut self, destination: Coordinate, resources: &ResourceManager)
        requires
            old(self).wf(),
            old(self).world_view().player is Some,
        ensures
            final(self).wf(),
            final(self).systems() == old(self).systems(),
            final(self).the_map().same_level(&old(self).the_map()),
            stepped(
                old(self).systems().turn_end,
                old(self).the_map().ground(),
                final(self).the_map().pathing_grid@,
                resources,
                destination,
                old(self).state(),
                final(self).state(),
            ),
    {
        if !self.map.is_tile_walkable(destination, resources) {
            self.log.queue_message("Can't walk there.");
            return ;
        }
        self.move_player(destination, resources);
        assert(passed(self.state(), destination));
        assert(self.map.ground() == old(self).map.ground());
        let _ = self.end_turn(resources);
    }

    /// The attack of the player on what blocks `target`. Fails with
    /// `InvalidTarget`, and says why, where the player has no attack of the
    /// type, the target is out of range, nothing is there, it is the player
    /// itself, or it is no monster and `attack_non_hostile` is not set.
    fn perform_attack(
        &mut self,
        target: Coordinate,
        attack_type: AttackType,
        resources: &ResourceManager,
        attack_non_hostile: bool,
    ) -> (r: Result<(), Error>)
        requires
            old(self).wf(),
        ensures
            final(self).wf(),
            final(self).systems() == old(self).systems(),
            final(self).the_map().same_ground(&old(self).the_map()),
            attacked(
                old(self).the_map().ground(),
                resources,
                target,
                attack_type,
                attack_non_hostile,
                old(self).state(),
                final(self).state(),
                r,
            ),
    {
        let player = match self.world.get_player_id() {
            Ok(p) => p,
            Err(_) => {
                return Err(Error::NoPlayerFound);
            },
        };
        let origin = match self.world.get_player_position() {
            Ok(c) => c,
            Err(_) => {
                return Err(Error::NoPlayerFound);
            },
        };
        let combat: Combat = match self.world.borrow_entity_component(
            ComponentType::Combat,
            player,
        ) {
            Some(Component::Combat(c)) => *c,
            _ => {
                return Err(
                    Error::MissingComponent { entity: player, component: ComponentType::Combat },
                );
            },
        };
        let attack: Attack = match combat.get_attack(attack_type) {
            Some(a) => a,
            None => {
                self.log.queue_message("You don't have an appropriate attack.");
                return Err(Error::InvalidTarget);
            },
        };
        if !origin.within_range(target, attack.range) {
            self.log.queue_message("Target is out of range.");
            return Err(Error::InvalidTarget);
        }
        let entity = match self.world.get_blocking_entity(target) {
            Some(e) => e,
            None => {
                self.log.queue_message("Nothing there to attack.");
                return Err(Error::InvalidTarget);
            },
        };
        if entity == player {
            self.log.queue_message("Can't attack yourself.");
            return Err(Error::InvalidTarget);
        }
        if self.world.has_component(ComponentType::Monster, entity) || attack_non_hostile {
            match attack_type {
                AttackType::Melee => self.world.send_event(
                    &mut self.map,
                    resources,
                    &mut self.log,
                    &Event::Attack(AttackEvent::new(player)),
                    entity,
                ),
                AttackType::Ranged => self.world.send_event(
                    &mut self.map,
                    resources,
                    &mut self.log,
                    &Event::Shoot(ShootEvent::new(player)),
                    entity,
                ),
            }
        } else {
            self.log.queue_message("Non hostile target, use ctrl to force an attack.");
            Err(Error::InvalidTarget)
        }
    }

    /// The attack of the player on what blocks `target`, and the end of the
    /// turn after it. An attack that comes to `InvalidTarget` takes no turn.
    fn attack_and_end_turn(
        &mut self,
        target: Coordinate,
        attack_type: AttackType,
        resources: &ResourceManager,
        attack_non_hostile: bool,
    )
        requires
            old(self).wf(),
        ensures
            final(self).wf(),
            final(self).systems() == old(self).systems(),
            final(self).the_map().same_level(&old(self).the_map()),
            attack_turn(
                old(self).systems().turn_end,
                old(self).the_map().ground(),
                final(self).the_map().pathing_grid@,
                resources,
                target,
                attack_type,
                attack_non_hostile,
                old(self).state(),
                final(self).state(),
            ),
    {
        let first = self.perform_attack(target, attack_type, resources, attack_non_hostile);
        assert(passed(self.state(), first));
        assert(self.map.ground() == old(self).map.ground());
        match first {
            Err(Error::InvalidTarget) => {
                return ;
            },
            _ => {},
        }
        let _ = self.end_turn(resources);
    }

    /// Attacks what stands one step in `direction`, hostile or not. Where
    /// the attack is refused, no turn is taken.
    pub fn force_attack_command(&mut self, direction: Coordinate, resources: &ResourceManager) -> (r:
        Result<(), Error>)
        requires
            old(self).wf(),
        ensures
            final(self).wf(),
            final(self).systems() == old(self).systems(),
            final(self).the_map().same_level(&old(self).the_map()),
            forced(
                old(self).systems().turn_end,
                old(self).the_map().ground(),
                final(self).the_map().pathing_grid@,
                resources,
                direction,
                old(self).state(),
                final(self).state(),
                r,
            ),
    {
        let origin = match self.world.get_player_position() {
            Ok(c) => c,
            Err(_) => {
                return Err(Error::NoPlayerFound);
            },
        };
        let destination = match origin.checked_plus(direction) {
            Some(c) => c,
            None => {
                return Err(Error::Overflow);
            },
        };
        self.attack_and_end_turn(destination, AttackType::Melee, resources, true);
        Ok(())
    }

    /// The player acts one step in `direction`: it moves where nothing
    /// blocks the way, attacks the monster that does, and interacts with
    /// anything else that does.
    pub fn direction_command(&mut self, direction: Coordinate, resources: &ResourceManager) -> (r:
        Result<(), Error>)
        requires
            old(self).wf(),
        ensures
            final(self).wf(),
            final(self).systems() == old(self).systems(),
            final(self).the_map().same_level(&old(self).the_map()),
            acted(
                old(self).systems().turn_end,
                old(self).the_map().ground(),
                final(self).the_map().pathing_grid@,
                resources,
                direction,
                old(self).state(),
                final(self).state(),
                r,
            ),
    {
        let origin = match self.world.get_player_position() {
            Ok(c) => c,
            Err(_) => {
                return Err(Error::NoPlayerFound);
            },
        };
        let destination = match origin.checked_plus(direction) {
            Some(c) => c,
            None => {
                return Err(Error::Overflow);
            },
        };
        let blocking_entity = match self.world.get_blocking_entity(destination) {
            Some(e) => e,
            None => {
                self.move_direction(destination, resources);
                return Ok(());
            },
        };
        if self.world.has_component(ComponentType::Monster, blocking_entity) {
            self.attack_and_end_turn(destination, AttackType::Melee, resources, false);
            return Ok(());
        }
        self.interact_command(destination, resources)
    }

    /// The player interacts with what stands at `target`, if it is within
    /// reach, and the turn ends. Too far away, nothing happens but a
    /// message.
    pub fn interact_command(&mut self, target: Coordinate, resources: &ResourceManager) -> (r: Result<
        (),
        Error,
    >)
        requires
            old(self).wf(),
        ensures
            final(self).wf(),
            final(self).systems() == old(self).systems(),
            final(self).the_map().same_level(&old(self).the_map()),
            interacted(
                old(self).systems().turn_end,
                old(self).the_map().ground(),
                final(self).the_map().pathing_grid@,
                resources,
                target,
                old(self).state(),
                final(self).state(),
                r,
            ),
    {
        let origin = match self.world.get_player_position() {
            Ok(c) => c,
            Err(_) => {
                return Err(Error::NoPlayerFound);
            },
        };
        if !origin.within_range(target, INTERACT_RANGE) {
            self.log.queue_message("Too far away to interact");
            return Ok(());
        }
        let player_id = match self.world.get_player_id() {
            Ok(p) => p,
            Err(_) => {
                return Err(Error::NoPlayerFound);
            },
        };
        self.broadcast_event(Event::Interact(InteractEvent { source: player_id }), target, resources);
        assert(passed(self.state(), target));
        assert(self.map.ground() == old(self).map.ground());
        self.end_turn(resources)
    }

    /// The player shoots at what blocks `target`, if it has seen the cell
    /// and sees it now. Where the attack is refused, no turn is taken.
    pub fn shoot_command(&mut self, target: Coordinate, resources: &ResourceManager, force_attack: bool) -> (r:
        Result<(), Error>)
        requires
            old(self).wf(),
        ensures
            final(self).wf(),
            final(self).systems() == old(self).systems(),
            final(self).the_map().same_level(&old(self).the_map()),
            shot(
                old(self).systems().turn_end,
                old(self).the_map().ground(),
                final(self).the_map().pathing_grid@,
                resources,
                target,
                force_attack,
                old(self).state(),
                final(self).state(),
                r,
            ),
    {
        let origin = match self.world.get_player_position() {
            Ok(c) => c,
            Err(_) => {
                return Err(Error::NoPlayerFound);
            },
        };
        if !self.map.is_tile_explored(target) {
            self.log.queue_message("You haven't explored that tile.");
            return Ok(());
        }
        if !line_of_sight(origin, target, &self.map, &self.world, resources) {
            self.log.queue_message("You can't see to that tile.");
            return Ok(());
        }
        self.attack_and_end_turn(target, AttackType::Ranged, resources, force_attack);
        Ok(())
    }

    /// Casts the spell at `index` of the player's book at `target`, counts
    /// the cast, and ends the turn.
    pub fn cast_spell_command(&mut self, index: usize, target: Coordinate, resources: &ResourceManager) -> (r:
        Result<(), Error>)
        requires
            old(self).wf(),
        ensures
            final(self).wf(),
            final(self).systems() == old(self).systems(),
            final(self).the_map().same_level(&old(self).the_map()),
            spell_cast(
                old(self).systems().turn_end,
                old(self).the_map().ground(),
                final(self).the_map().pathing_grid@,
                resources,
                index,
                target,
                old(self).state(),
                final(self).state(),
                r,
            ),
    {
        let player = match self.world.get_player_id() {
            Ok(p) => p,
            Err(_) => {
                return Err(Error::NoPlayerFound);
            },
        };
        let spell: SpellInstance = match self.world.borrow_entity_component(
            ComponentType::Spellbook,
            player,
        ) {
            Some(Component::Spellbook(spellbook)) => match spellbook.get_spell(index) {
                Some(spell) => spell.duplicate(),
                None => {
                    return Err(Error::NoSuchSpell);
                },
            },
            _ => {
                return Err(
                    Error::MissingComponent { entity: player, component: ComponentType::Spellbook },
                );
            },
        };
        let first = spell.cast(
            player,
            target,
            &mut self.world,
            &mut self.map,
            None,
            resources,
            &mut self.log,
        );
        let ghost middle = self.state();
        assert(passed(middle, first));
        assert(self.map.ground() == old(self).map.ground());
        if let Err(e) = first {
            return Err(e);
        }
        let mut spellbook: Spellbook = match self.world.borrow_entity_component(
            ComponentType::Spellbook,
            player,
        ) {
            Some(Component::Spellbook(spellbook)) => spellbook.duplicate(),
            _ => {
                return Err(
                    Error::MissingComponent { entity: player, component: ComponentType::Spellbook },
                );
            },
        };
        spellbook.register_cast(index)?;
        proof {
            self.world.lemma_wf();
        }
        let _ = self.world.add_component(player, Component::Spellbook(spellbook));
        self.end_turn(resources)
    }

    /// Walks along the steps that `path` lists from `from` on.
    fn walk_from(&mut self, path: &Vec<Coordinate>, from: usize, resources: &ResourceManager) -> (r:
        Result<(), Error>)
        requires
            old(self).wf(),
            from <= path@.len(),
        ensures
            final(self).wf(),
            final(self).systems() == old(self).systems(),
            final(self).the_map().same_level(&old(self).the_map()),
            walked(
                old(self).systems().turn_end,
                old(self).the_map().ground(),
                final(self).the_map().pathing_grid@,
                resources,
                path@.subrange(from as int, path@.len() as int),
                old(self).state(),
                final(self).state(),
                r,
            ),
        decreases path@.len() - from,
    {
        if from >= path.len() {
            self.log.queue_message("Arrived at destination.");
            return Ok(());
        }
        let ghost rest = path@.subrange(from as int, path@.len() as int);
        assert(rest[0] == path@[from as int]);
        assert(rest.drop_first() =~= path@.subrange(from as int + 1, path@.len() as int));
        let origin = match self.world.get_player_position() {
            Ok(c) => c,
            Err(_) => {
                return Err(Error::NoPlayerFound);
            },
        };
        if self.are_enemies_in_sight(origin, resources) {
            self.log.queue_message("Can't auto travel while enemies are in sight.");
            return Ok(());
        }
        let step = match origin.checked_plus(path[from]) {
            Some(c) => c,
            None => {
                return Err(Error::Overflow);
            },
        };
        self.move_player(step, resources);
        let ghost moved = self.state();
        assert(self.map.ground() == old(self).map.ground());
        let _ = self.end_turn(resources);
        assert(passed(moved, (self.state(), self.map.pathing_grid@)));
        assert(self.map.ground() == (Ground {
            pathing: self.map.pathing_grid@,
            ..old(self).map.ground()
        }));
        self.walk_from(path, from + 1, resources)
    }

    /// The player walks to `destination`, step by step and turn by turn,
    /// as long as no monster is in sight. Nothing happens, but a message,
    /// where the destination cannot be walked on, is unseen or blocked, where
    /// monsters are in sight, and where no path leads there.
    pub fn move_to_command(&mut self, destination: Coordinate, resources: &ResourceManager) -> (r:
        Result<(), Error>)
        requires
            old(self).wf(),
        ensures
            final(self).wf(),
            final(self).systems() == old(self).systems(),
            final(self).the_map().same_level(&old(self).the_map()),
            travelled(
                old(self).systems().turn_end,
                old(self).the_map().ground(),
                final(self).the_map().pathing_grid@,
                resources,
                destination,
                old(self).state(),
                final(self).state(),
                r,
            ),
    {
        let origin = match self.world.get_player_position() {
            Ok(c) => c,
            Err(_) => {
                return Err(Error::NoPlayerFound);
            },
        };
        if !self.map.is_tile_walkable(destination, resources) {
            self.log.queue_message("Destination tile is not walkable.");
            return Ok(());
        }
        if !self.map.is_tile_explored(destination) {
            self.log.queue_message("You haven't explored that tile.");
            return Ok(());
        }
        if self.world.get_blocking_entity(destination).is_some() {
            self.log.queue_message("That tile is blocked.");
            return Ok(());
        }
        if self.are_enemies_in_sight(origin, resources) {
            self.log.queue_message("Can't auto travel while enemies are in sight.");
            return Ok(());
        }
        let heuristic = astar_heuristic_factory(destination);
        let path = match pathfind(
            origin,
            destination,
            &self.map,
            &self.world,
            resources,
            heuristic,
            false,
            false,
            u32::MAX,
        ) {
            Some(path) => path,
            None => {
                self.log.queue_message("Can't find path to destination.");
                assert(passed(None::<Seq<Coordinate>>, destination));
                return Ok(());
            },
        };
        assert(passed(Some(path@), destination));
        assert(path@.subrange(0, path@.len() as int) =~= path@);
        self.walk_from(&path, 0, resources)
    }

    /// Whether the player stands on stairs that lead down.
    pub fn can_descend(&self) -> (b: bool)
        requires
            self.wf(),
        ensures
            b == on_stairs(self.world_view()),
    {
        let player_location = match self.world.get_player_position() {
            Ok(c) => c,
            Err(_) => {
                return false;
            },
        };
        let entities = self.world.get_entities_at_coordinate(player_location);
        let mut i: usize = 0;
        while i < entities.len()
            invariant
                self.wf(),
                i <= entities@.len(),
                standing(self.world_view()) == Some(player_location),
                entities@ == self.world_view().entities_at(player_location),
                forall|k: int|
                    0 <= k < i ==> !self.world_view().has(
                        ComponentType::StairsDown,
                        #[trigger] entities@[k],
                    ),
            decreases entities@.len() - i,
        {
            if self.world.has_component(ComponentType::StairsDown, entities[i]) {
                assert(self.world_view().has(
                    ComponentType::StairsDown,
                    self.world_view().entities_at(player_location)[i as int],
                ));
                return true;
            }
            i = i + 1;
        }
        false
    }

    /// The depth of the level below this one, if there is a number for it.
    pub fn next_depth(&self) -> (depth: Option<u32>)
        ensures
            depth == if self.the_map().depth < u32::MAX {
                Some((self.the_map().depth + 1) as u32)
            } else {
                None
            },
    {
        self.map.depth.checked_add(1)
    }

    /// The player descends to the level that `new_map` and `new_bsp`
    /// describe: its entities are spawned, the player takes along what is
    /// carried over, the room of the player is marked as seen, and the
    /// systems of the end of a level run. Fails with `InvalidTarget`, and
    /// changes nothing, where the player does not stand on stairs; fails,
    /// and changes nothing, where the new level cannot be filled.
    pub fn descend_command(
        &mut self,
        new_map: GameMap,
        new_bsp: EntityGraph,
        resources: &ResourceManager,
    ) -> (r: Result<(), Error>)
        requires
            old(self).wf(),
            new_bsp@.wf(),
            new_bsp@.vacant(),
        ensures
            final(self).wf(),
            final(self).systems() == old(self).systems(),
            descended(*old(self), new_map, new_bsp@, resources, *final(self), r),
    {
        if !self.can_descend() {
            return Err(Error::InvalidTarget);
        }
        let mut new_map = new_map;
        let mut new_world = World::new_with(new_bsp);
        let first = spawn_all_entities(&new_map, &mut new_world, resources);
        assert(passed(new_world@, first));
        if let Err(e) = first {
            return Err(e);
        }
        if let Err(_) = new_world.import_player(&self.world) {
            return Err(Error::NoPlayerFound);
        }
        if let Err(_) = explore_player_room(&mut new_map, &new_world) {
            return Err(Error::NoPlayerFound);
        }
        self.map = new_map;
        self.world = new_world;
        self.scheduler.on_descend_floor(&mut self.world, &mut self.map, resources, &mut self.log)
    }

    /// The player waits for a turn.
    pub fn wait_command(&mut self, resources: &ResourceManager) -> (r: Result<(), Error>)
        requires
            old(self).wf(),
        ensures
            final(self).wf(),
            r is Ok,
            final(self).systems() == old(self).systems(),
            final(self).the_map().same_level(&old(self).the_map()),
            turn_ended(
                old(self).systems().turn_end,
                old(self).the_map().ground(),
                final(self).the_map().pathing_grid@,
                resources,
                told(old(self).state(), "Waited for a turn."@),
                final(self).state(),
            ),
    {
        self.log.queue_message("Waited for a turn.");
        self.end_turn(resources)
    }

    /// The player reaches the next level of experience: the attribute
    /// `stat` grows by `amount`, and with wit the casts of every spell; the
    /// level grows by one; and the hit points grow by the multiplier of a
    /// level-up and are full. Fails where the player or one of its
    /// attributes, experience and health is missing, and where a number would
    /// leave the range of `u32`; what was done before the failure stays
    /// done.
    pub fn level_up_command(&mut self, stat: Attribute, amount: u32) -> (r: Result<(), Error>)
        requires
            old(self).wf(),
        ensures
            final(self).wf(),
            final(self).systems() == old(self).systems(),
            final(self).the_map() == old(self).the_map(),
            final(self).messages() == old(self).messages(),
            final(self).world_view() == level_gained(old(self).world_view(), stat, amount).0,
            r == level_gained(old(self).world_view(), stat, amount).1,
    {
        let player = match self.world.get_player_id() {
            Ok(p) => p,
            Err(_) => {
                return Err(Error::NoPlayerFound);
            },
        };
        let mut attributes: Attributes = match self.world.borrow_entity_component(
            ComponentType::Attributes,
            player,
        ) {
            Some(Component::Attributes(a)) => *a,
            _ => {
                return Err(
                    Error::MissingComponent {
                        entity: player,
                        component: ComponentType::Attributes,
                    },
                );
            },
        };
        let grown = match stat {
            Attribute::Might => attributes.might.checked_add(amount),
            Attribute::Wit => attributes.wit.checked_add(amount),
            Attribute::Skill => attributes.skill.checked_add(amount),
        };
        let grown = match grown {
            Some(g) => g,
            None => {
                return Err(Error::Overflow);
            },
        };
        let mut spellbook: Option<Spellbook> = None;
        match stat {
            Attribute::Might => {
                attributes.might = grown;
            },
            Attribute::Wit => {
                attributes.wit = grown;
                if let Some(Component::Spellbook(book)) = self.world.borrow_entity_component(
                    ComponentType::Spellbook,
                    player,
                ) {
                    let mut book = book.duplicate();
                    if !book.takes_casts(amount) {
                        return Err(Error::Overflow);
                    }
                    book.on_wit_increased(amount);
                    spellbook = Some(book);
                }
            },
            Attribute::Skill => {
                attributes.skill = grown;
            },
        }
        proof {
            self.world.lemma_wf();
        }
        let _ = self.world.add_component(player, Component::Attributes(attributes));
        if let Some(book) = spellbook {
            assert(book@ =~= studied(book_of(old(self).world_view(), player)->0, amount));
            let _ = self.world.add_component(player, Component::Spellbook(book));
        }
        let mut xp: Xp = match self.world.borrow_entity_component(ComponentType::Xp, player) {
            Some(Component::Xp(xp)) => *xp,
            _ => {
                return Err(Error::MissingComponent { entity: player, component: ComponentType::Xp });
            },
        };
        if xp.level == u32::MAX || !level_requirement_fits(xp.level + 1) {
            return Err(Error::Overflow);
        }
        xp.level = xp.level + 1;
        xp.max = next_level_requirement(xp.level);
        xp.status = XpStatus::Default;
        proof {
            self.world.lemma_wf();
        }
        let _ = self.world.add_component(player, Component::Xp(xp));
        let health: Health = match self.world.borrow_entity_component(
            ComponentType::Health,
            player,
        ) {
            Some(Component::Health(h)) => *h,
            _ => {
                return Err(
                    Error::MissingComponent { entity: player, component: ComponentType::Health },
                );
            },
        };
        assert(health.1 * LEVEL_UP_MULTIPLIER <= 0xffff_ffff * 1150) by (nonlinear_arith)
            requires
                health.1 <= 0xffff_ffff,
                LEVEL_UP_MULTIPLIER == 1150,
        ;
        let scaled: u64 = health.1 as u64 * LEVEL_UP_MULTIPLIER as u64 / 1000;
        if scaled > u32::MAX as u64 {
            return Err(Error::Overflow);
        }
        let max_hp = scaled as u32;
        proof {
            self.world.lemma_wf();
        }
        let _ = self.world.add_component(player, Component::Health(Health(max_hp, max_hp)));
        Ok(())
    }

    /// Carries out the input `command` with the numbers `x`, `y` and `z`.
    /// Where a level is to be made, its cuts take their fractions from
    /// `draws`, one list for each attempt.
    pub fn received_input(
        &mut self,
        command: InputCommand,
        x: i32,
        y: i32,
        z: i32,
        resources: &ResourceManager,
        draws: &Vec<Vec<u32>>,
    ) -> (reaction: Reaction)
        requires
            old(self).wf(),
            resources.wf(),
        ensures
            final(self).wf(),
            input_handled(*old(self), command, x, y, z, resources, *final(self), reaction),
    {
        let cell = Coordinate { x, y };
        match command {
            InputCommand::Direction => Reaction::Done(self.direction_command(cell, resources)),
            InputCommand::Position => Reaction::Done(self.move_to_command(cell, resources)),
            InputCommand::Shoot => Reaction::Done(self.shoot_command(cell, resources, false)),
            InputCommand::ForceShoot => Reaction::Done(self.shoot_command(cell, resources, true)),
            InputCommand::ForceAttack => Reaction::Done(
                self.force_attack_command(cell, resources),
            ),
            InputCommand::Spell => {
                if z < 0 {
                    return Reaction::Refused(Refusal::SpellIndex);
                }
                Reaction::Done(self.cast_spell_command(z as usize, cell, resources))
            },
            InputCommand::Descend => Reaction::Done(self.descend(resources, draws)),
            InputCommand::Wait => {
                if self.can_descend() {
                    Reaction::Done(self.descend(resources, draws))
                } else {
                    Reaction::Done(self.wait_command(resources))
                }
            },
            InputCommand::LevelUp => {
                let stat = if x == 0 {
                    Attribute::Might
                } else if x == 1 {
                    Attribute::Wit
                } else if x == 2 {
                    Attribute::Skill
                } else {
                    return Reaction::Refused(Refusal::Attribute);
                };
                if y < 0 {
                    return Reaction::Refused(Refusal::Amount);
                }
                Reaction::Done(self.level_up_command(stat, y as u32))
            },
            InputCommand::Quit => Reaction::Quit,
            InputCommand::Restart => {
                match Game::new(resources, draws) {
                    Ok(new_game) => {
                        *self = new_game;
                        Reaction::Done(Ok(()))
                    },
                    Err(e) => {
                        self.log.queue_message("Failed to initialize new game.");
                        Reaction::Done(Err(e))
                    },
                }
            },
            InputCommand::Unrecognized => Reaction::Refused(Refusal::Command),
        }
    }

    /// What is to be shown on top of the game: that the player is dead,
    /// and that the player has reached the next level of experience.
    pub fn popups(&self) -> (shown: Popups)
        requires
            self.wf(),
        ensures
            shown.death == (health_status_of(self.world_view()) == HealthStatus::Dead),
            shown.level_up == (xp_status_of(self.world_view()) == XpStatus::LevelUp),
    {
        Popups {
            death: self.player_health_status() == HealthStatus::Dead,
            level_up: self.player_xp_status() == XpStatus::LevelUp,
        }
    }
}

/// The least and the largest damage of `attack` as they are shown: with
/// the bonus of the attributes, where there are any.
pub fn shown_damage(attack: &Attack, attributes: Option<Attributes>) -> (damage: (u32, u32))
    ensures
        damage == damage_shown(*attack, attributes),
{
    match attributes {
        Some(a) => (
            attack_damage_boost(attack.damage_min, attack, &a),
            attack_damage_boost(attack.damage_max, attack, &a),
        ),
        None => (attack.damage_min, attack.damage_max),
    }
}

/// Whether `entity` is a monster that can be seen from `coordinate`.
pub open spec fn enemy_in_sight(
    tiles: Map<Coordinate, TileID>,
    world: WorldView,
    resources: &ResourceManager,
    coordinate: Coordinate,
    entity: usize,
) -> bool {
    world.has(ComponentType::Monster, entity) && world.position(entity) is Some && sees(
        tiles,
        world,
        resources,
        coordinate,
        world.position(entity)->0,
    )
}

/// Whether a monster of the region of `coordinate` can be seen from it.
pub open spec fn enemies_in_sight(
    tiles: Map<Coordinate, TileID>,
    world: WorldView,
    resources: &ResourceManager,
    coordinate: Coordinate,
) -> bool {
    exists|i: int|
        0 <= i < world.bsp.entities_at_leaf(coordinate).len() && enemy_in_sight(
            tiles,
            world,
            resources,
            coordinate,
            #[trigger] world.bsp.entities_at_leaf(coordinate)[i],
        )
}

} // verus!
