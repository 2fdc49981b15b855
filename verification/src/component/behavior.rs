//! How a monster behaves: its state of alertness and what it does on its turn.

use vstd::prelude::*;
use super::combat::{Attack, AttackType, Combat};
use super::{Component, ComponentType, ComponentView};
use crate::error::{Error, MonsterTurnError};
use crate::event::combat_events::{AttackEvent, ShootEvent};
use crate::event::response_functions::{dispatched, state_of, passed, MAX_CASCADE_DEPTH};
use crate::event::{Event, GameState};
use crate::logger::MessageLog;
use crate::map::los::{line_of_sight, sees};
use crate::map::utils::{within_quarters, Coordinate};
use crate::map::{GameMap, Ground};
use crate::resources::ResourceManager;
use crate::world::{World, WorldView};

verus! {

/// How alert a monster is.
#[derive(Debug, Clone, Copy, PartialEq, Eq, Structural)]
pub enum BehaviorState {
    Asleep,
    Awake,
    Alerted,
}

impl Default for BehaviorState {
    fn default() -> (s: BehaviorState)
        ensures
            s == BehaviorState::Asleep,
    {
        BehaviorState::Asleep
    }
}

/// The ways in which a monster chooses what to do.
#[derive(Debug, Clone, Copy, PartialEq, Eq, Structural)]
pub enum BehaviorName {
    /// The monster does nothing of its own.
    Passive,
    AggressiveMelee,
    AggressiveRanged,
}

impl Default for BehaviorName {
    fn default() -> (b: BehaviorName)
        ensures
            b == BehaviorName::AggressiveMelee,
    {
        BehaviorName::AggressiveMelee
    }
}

/// What a monster does with one action.
#[derive(Debug, Clone, Copy, PartialEq, Eq, Structural)]
pub enum AIAction {
    Approach,
    Attack(usize),
    Shoot(usize),
    Sleep,
    Wander,
    Flee,
    WakeUp,
}

/// The behavior of a monster and the number of actions it has per turn.
#[derive(Debug, Clone, Copy, PartialEq, Eq, Structural)]
pub struct Behavior {
    pub state: BehaviorState,
    pub behavior: BehaviorName,
    pub action_count: u32,
}

impl Behavior {
    /// A sleeping monster with the given behavior and one action per turn,
    /// unless another number is given.
    pub fn new(behavior: BehaviorName, custom_action_count: Option<u32>) -> (b: Behavior)
        ensures
            b == (Behavior {
                state: BehaviorState::Asleep,
                behavior,
                action_count: match custom_action_count {
                    Some(n) => n,
                    None => 1,
                },
            }),
    {
        Behavior {
            state: BehaviorState::Asleep,
            behavior,
            action_count: match custom_action_count {
                Some(n) => n,
                None => 1,
            },
        }
    }

    /// An awake monster that fights at arm's length.
    pub fn new_melee() -> (b: Behavior)
        ensures
            b == (Behavior {
                state: BehaviorState::Awake,
                behavior: BehaviorName::AggressiveMelee,
                action_count: 1,
            }),
    {
        Behavior {
            state: BehaviorState::Awake,
            behavior: BehaviorName::AggressiveMelee,
            action_count: 1,
        }
    }

    /// An awake monster that shoots.
    pub fn new_ranged() -> (b: Behavior)
        ensures
            b == (Behavior {
                state: BehaviorState::Awake,
                behavior: BehaviorName::AggressiveRanged,
                action_count: 1,
            }),
    {
        Behavior {
            state: BehaviorState::Awake,
            behavior: BehaviorName::AggressiveRanged,
            action_count: 1,
        }
    }

    /// An awake monster that fights at arm's length and acts twice per turn.
    pub fn new_fast() -> (b: Behavior)
        ensures
            b == (Behavior {
                state: BehaviorState::Awake,
                behavior: BehaviorName::AggressiveMelee,
                action_count: 2,
            }),
    {
        Behavior {
            state: BehaviorState::Awake,
            behavior: BehaviorName::AggressiveMelee,
            action_count: 2,
        }
    }
}

impl Default for Behavior {
    fn default() -> (b: Behavior)
        ensures
            b == (Behavior {
                state: BehaviorState::Asleep,
                behavior: BehaviorName::AggressiveMelee,
                action_count: 0,
            }),
    {
        Behavior {
            state: BehaviorState::Asleep,
            behavior: BehaviorName::AggressiveMelee,
            action_count: 0,
        }
    }
}

/// The attack of the given type that `entity` has, if it has one.
pub open spec fn attack_of_entity(world: WorldView, entity: usize, attack_type: AttackType) -> Option<
    Attack,
> {
    match world.component(ComponentType::Combat, entity) {
        Some(ComponentView::Combat(combat)) => combat.attack_of(attack_type),
        _ => None,
    }
}

/// What a monster that is awake must know to choose: the player, its own
/// position, the position of the player, and its attack. The failure, where
/// one of them is missing.
pub open spec fn choice_failure(world: WorldView, entity: usize, attack_type: AttackType) -> Option<
    Error,
> {
    match world.player {
        None => Some(Error::NoPlayerFound),
        Some(player) => if world.position(entity) is None {
            Some(Error::MonsterTurnError(MonsterTurnError::NoPositionFound { entity }))
        } else if world.position(player) is None {
            Some(Error::MonsterTurnError(MonsterTurnError::NoPositionFound { entity: player }))
        } else if attack_of_entity(world, entity, attack_type) is None {
            Some(Error::MonsterTurnError(MonsterTurnError::NoAttackFound { entity, attack_type }))
        } else {
            None
        },
    }
}

/// Whether the player is within the range of the attack that `entity` has
/// of the given type.
pub open spec fn player_in_range(world: WorldView, entity: usize, attack_type: AttackType) -> bool {
    within_quarters(
        world.position(entity)->0,
        world.position(world.player->0)->0,
        attack_of_entity(world, entity, attack_type)->0.range,
    )
}

/// What `entity` chooses to do: a sleeper sleeps on, an alerted monster wakes
/// up, and a monster that is awake attacks the player where its attack
/// reaches, and where it sees the player if it shoots, and else approaches.
pub open spec fn chosen_action(
    behavior: BehaviorName,
    map: Ground,
    resources: &ResourceManager,
    world: WorldView,
    entity: usize,
    ai_state: BehaviorState,
) -> Result<AIAction, Error> {
    match behavior {
        BehaviorName::Passive => Err(
            Error::MonsterTurnError(MonsterTurnError::BehaviorNotImplemented { entity, behavior }),
        ),
        BehaviorName::AggressiveMelee => if ai_state == BehaviorState::Asleep {
            Ok(AIAction::Sleep)
        } else if ai_state == BehaviorState::Alerted {
            Ok(AIAction::WakeUp)
        } else {
            match choice_failure(world, entity, AttackType::Melee) {
                Some(e) => Err(e),
                None => if player_in_range(world, entity, AttackType::Melee) {
                    Ok(AIAction::Attack(world.player->0))
                } else {
                    Ok(AIAction::Approach)
                },
            }
        },
        BehaviorName::AggressiveRanged => if ai_state == BehaviorState::Asleep {
            Ok(AIAction::Sleep)
        } else if ai_state == BehaviorState::Alerted {
            Ok(AIAction::WakeUp)
        } else {
            match choice_failure(world, entity, AttackType::Ranged) {
                Some(e) => Err(e),
                None => if player_in_range(world, entity, AttackType::Ranged) && sees(
                    map.tiles,
                    world,
                    resources,
                    world.position(entity)->0,
                    world.position(world.player->0)->0,
                ) {
                    Ok(AIAction::Shoot(world.player->0))
                } else {
                    Ok(AIAction::Approach)
                },
            }
        },
    }
}

/// The world after `entity` took the step that leads towards the player,
/// and the failure where it could not: it has no position, no step is known
/// from where it stands, or the step leads off the grid. Where something
/// blocks the cell it would step on, it stays.
pub open spec fn approached(map: Ground, world: WorldView, entity: usize) -> (WorldView, Option<Error>) {
    match world.position(entity) {
        None => (world, Some(Error::MonsterTurnError(MonsterTurnError::NoPositionFound { entity }))),
        Some(origin) => if !map.pathing.contains_key(origin) {
            (
                world,
                Some(
                    Error::MonsterTurnError(
                        MonsterTurnError::NoPathfindingData { entity, coordinate: origin },
                    ),
                ),
            )
        } else if !origin.can_plus(map.pathing[origin]) {
            (world, Some(Error::Overflow))
        } else {
            let destination = Coordinate {
                x: (origin.x + map.pathing[origin].x) as i32,
                y: (origin.y + map.pathing[origin].y) as i32,
            };
            if world.blocking_entity(destination) is None {
                (world.relocated(entity, destination), None)
            } else {
                (world, None)
            }
        },
    }
}

/// The world after `entity` woke up, where it has a behavior.
pub open spec fn woken_up(world: WorldView, entity: usize) -> WorldView {
    match world.component(ComponentType::Behavior, entity) {
        Some(ComponentView::Behavior(b)) => world.with_component(
            entity,
            ComponentView::Behavior(Behavior { state: BehaviorState::Awake, ..b }),
        ),
        _ => world,
    }
}

/// Whether `post` and `r` are what `own_entity` performing `action` may
/// leave of `pre`.
pub open spec fn action_performed(
    action: AIAction,
    map: Ground,
    resources: &ResourceManager,
    own_entity: usize,
    pre: GameState,
    post: GameState,
    r: Result<(), Error>,
) -> bool {
    match action {
        AIAction::Approach => {
            let (world, failure) = approached(map, pre.world, own_entity);
            post == (GameState { world, ..pre }) && r == match failure {
                Some(e) => Err::<(), Error>(e),
                None => Ok::<(), Error>(()),
            }
        },
        AIAction::Attack(target) => dispatched(
            map,
            resources,
            Event::Attack(AttackEvent { source: own_entity }),
            target,
            pre,
            post,
            r,
            MAX_CASCADE_DEPTH as nat,
        ),
        AIAction::Shoot(target) => dispatched(
            map,
            resources,
            Event::Shoot(ShootEvent { source: own_entity }),
            target,
            pre,
            post,
            r,
            MAX_CASCADE_DEPTH as nat,
        ),
        AIAction::WakeUp => r is Ok && post == (GameState {
            world: woken_up(pre.world, own_entity),
            ..pre
        }),
        AIAction::Sleep => r is Ok && post == pre,
        _ => r == Err::<(), Error>(
            Error::MonsterTurnError(
                MonsterTurnError::FailedToCompleteAction { entity: own_entity, action },
            ),
        ) && post == pre,
    }
}

/// Whether `post` and `r` are what `own_entity` may leave of `pre` when it
/// chooses and performs `count` actions, one after the other, up to the
/// first that fails. It chooses by the state of alertness in which its turn
/// began.
pub open spec fn actions_performed(
    behavior: Behavior,
    count: nat,
    map: Ground,
    resources: &ResourceManager,
    own_entity: usize,
    pre: GameState,
    post: GameState,
    r: Result<(), Error>,
) -> bool
    decreases count,
{
    if count == 0 {
        r is Ok && post == pre
    } else {
        match chosen_action(behavior.behavior, map, resources, pre.world, own_entity, behavior.state) {
            Err(e) => r == Err::<(), Error>(e) && post == pre,
            Ok(action) => exists|middle: GameState, first: Result<(), Error>| #[trigger]
                passed(middle, first) && action_performed(
                    action,
                    map,
                    resources,
                    own_entity,
                    pre,
                    middle,
                    first,
                ) && if first is Err {
                    r == first && post == middle
                } else {
                    actions_performed(
                        behavior,
                        (count - 1) as nat,
                        map,
                        resources,
                        own_entity,
                        middle,
                        post,
                        r,
                    )
                },
        }
    }
}

fn aggressive(
    entity: usize,
    ai_state: BehaviorState,
    attack_type: AttackType,
    world: &World,
    map: &GameMap,
    resources: &ResourceManager,
) -> (r: Result<AIAction, Error>)
    requires
        world.wf(),
    ensures
        r == chosen_action(
            match attack_type {
                AttackType::Melee => BehaviorName::AggressiveMelee,
                AttackType::Ranged => BehaviorName::AggressiveRanged,
            },
            map.ground(),
            resources,
            world@,
            entity,
            ai_state,
        ),
{
    if ai_state == BehaviorState::Asleep {
        return Ok(AIAction::Sleep);
    }
    if ai_state == BehaviorState::Alerted {
        return Ok(AIAction::WakeUp);
    }
    let player = match world.get_player_id() {
        Ok(p) => p,
        Err(_) => {
            return Err(Error::NoPlayerFound);
        },
    };
    let origin = match world.position_of(entity) {
        Some(c) => c,
        None => {
            return Err(Error::MonsterTurnError(MonsterTurnError::NoPositionFound { entity }));
        },
    };
    let player_position = match world.position_of(player) {
        Some(c) => c,
        None => {
            return Err(
                Error::MonsterTurnError(MonsterTurnError::NoPositionFound { entity: player }),
            );
        },
    };
    let attack = match world.borrow_entity_component(ComponentType::Combat, entity) {
        Some(Component::Combat(combat)) => combat.get_attack(attack_type),
        _ => None,
    };
    let attack = match attack {
        Some(a) => a,
        None => {
            return Err(
                Error::MonsterTurnError(MonsterTurnError::NoAttackFound { entity, attack_type }),
            );
        },
    };
    if origin.within_range(player_position, attack.range) {
        match attack_type {
            AttackType::Melee => Ok(AIAction::Attack(player)),
            AttackType::Ranged => if line_of_sight(origin, player_position, map, world, resources) {
                Ok(AIAction::Shoot(player))
            } else {
                Ok(AIAction::Approach)
            },
        }
    } else {
        Ok(AIAction::Approach)
    }
}

impl BehaviorName {
    /// What `entity` chooses to do with its next action.
    pub fn choose_action(
        &self,
        entity: usize,
        ai_state: BehaviorState,
        world: &World,
        map: &GameMap,
        resources: &ResourceManager,
    ) -> (r: Result<AIAction, Error>)
        requires
            world.wf(),
        ensures
            r == chosen_action(*self, map.ground(), resources, world@, entity, ai_state),
    {
        match self {
            BehaviorName::AggressiveMelee => aggressive(
                entity,
                ai_state,
                AttackType::Melee,
                world,
                map,
                resources,
            ),
            BehaviorName::AggressiveRanged => aggressive(
                entity,
                ai_state,
                AttackType::Ranged,
                world,
                map,
                resources,
            ),
            BehaviorName::Passive => Err(
                Error::MonsterTurnError(
                    MonsterTurnError::BehaviorNotImplemented { entity, behavior: *self },
                ),
            ),
        }
    }
}

/// Takes the step that leads `own_entity` towards the player, unless
/// something blocks the cell it would step on.
pub fn approach_player(own_entity: usize, world: &mut World, map: &GameMap) -> (r: Result<(), Error>)
    requires
        old(world).wf(),
    ensures
        final(world).wf(),
        final(world)@ == approached(map.ground(), old(world)@, own_entity).0,
        r == match approached(map.ground(), old(world)@, own_entity).1 {
            Some(e) => Err::<(), Error>(e),
            None => Ok::<(), Error>(()),
        },
{
    let origin = match world.position_of(own_entity) {
        Some(c) => c,
        None => {
            return Err(
                Error::MonsterTurnError(MonsterTurnError::NoPositionFound { entity: own_entity }),
            );
        },
    };
    let step = match map.pathing_grid.get(origin) {
        Some(step) => step,
        None => {
            return Err(
                Error::MonsterTurnError(
                    MonsterTurnError::NoPathfindingData { entity: own_entity, coordinate: origin },
                ),
            );
        },
    };
    let destination = match origin.checked_plus(step) {
        Some(c) => c,
        None => {
            return Err(Error::Overflow);
        },
    };
    if world.get_blocking_entity(destination).is_none() {
        world.update_position(own_entity, destination);
    }
    Ok(())
}

/// Wakes `entity` up, where it has a behavior.
pub fn wake_up(entity: usize, world: &mut World) -> (r: Result<(), Error>)
    requires
        old(world).wf(),
    ensures
        final(world).wf(),
        r is Ok,
        final(world)@ == woken_up(old(world)@, entity),
{
    proof {
        world.lemma_wf();
    }
    let behavior: Option<Behavior> = match world.borrow_entity_component(
        ComponentType::Behavior,
        entity,
    ) {
        Some(Component::Behavior(b)) => Some(*b),
        _ => None,
    };
    if let Some(b) = behavior {
        let _ = world.add_component(
            entity,
            Component::Behavior(
                Behavior {
                    state: BehaviorState::Awake,
                    behavior: b.behavior,
                    action_count: b.action_count,
                },
            ),
        );
    }
    Ok(())
}

impl AIAction {
    /// Performs the action as `own_entity`.
    pub fn perform(
        &self,
        own_entity: usize,
        world: &mut World,
        map: &mut GameMap,
        resources: &ResourceManager,
        log: &mut MessageLog,
    ) -> (r: Result<(), Error>)
        requires
            old(world).wf(),
        ensures
            final(world).wf(),
            final(world)@.entity_count >= old(world)@.entity_count,
            final(map).same_ground(old(map)),
            action_performed(
                *self,
                old(map).ground(),
                resources,
                own_entity,
                state_of(old(world), old(map), old(log)),
                state_of(final(world), final(map), final(log)),
                r,
            ),
    {
        match self {
            AIAction::Approach => approach_player(own_entity, world, map),
            AIAction::Attack(target) => world.send_event(
                map,
                resources,
                log,
                &Event::Attack(AttackEvent::new(own_entity)),
                *target,
            ),
            AIAction::Shoot(target) => world.send_event(
                map,
                resources,
                log,
                &Event::Shoot(ShootEvent::new(own_entity)),
                *target,
            ),
            AIAction::WakeUp => wake_up(own_entity, world),
            AIAction::Sleep => Ok(()),
            _ => Err(
                Error::MonsterTurnError(
                    MonsterTurnError::FailedToCompleteAction { entity: own_entity, action: *self },
                ),
            ),
        }
    }
}

fn perform_remaining(
    behavior: &Behavior,
    count: u32,
    own_entity: usize,
    world: &mut World,
    map: &mut GameMap,
    resources: &ResourceManager,
    log: &mut MessageLog,
) -> (r: Result<(), Error>)
    requires
        old(world).wf(),
    ensures
        final(world).wf(),
        final(world)@.entity_count >= old(world)@.entity_count,
        final(map).same_ground(old(map)),
        actions_performed(
            *behavior,
            count as nat,
            old(map).ground(),
            resources,
            own_entity,
            state_of(old(world), old(map), old(log)),
            state_of(final(world), final(map), final(log)),
            r,
        ),
    decreases count,
{
    if count == 0 {
        return Ok(());
    }
    let ghost pre = state_of(world, map, log);
    let ghost ground = map.ground();
    let action = behavior.behavior.choose_action(own_entity, behavior.state, world, map, resources)?;
    let first = action.perform(own_entity, world, map, resources, log);
    let ghost middle = state_of(world, map, log);
    assert(passed(middle, first));
    if let Err(e) = first {
        return Err(e);
    }
    perform_remaining(behavior, count - 1, own_entity, world, map, resources, log)
}

impl Behavior {
    /// Lets `own_entity` choose and perform as many actions as it has per
    /// turn, one after the other, up to the first that fails.
    pub fn perform_actions(
        &self,
        own_entity: usize,
        world: &mut World,
        map: &mut GameMap,
        resources: &ResourceManager,
        log: &mut MessageLog,
    ) -> (r: Result<(), Error>)
        requires
            old(world).wf(),
        ensures
            final(world).wf(),
            final(world)@.entity_count >= old(world)@.entity_count,
            final(map).same_ground(old(map)),
            actions_performed(
                *self,
                self.action_count as nat,
                old(map).ground(),
                resources,
                own_entity,
                state_of(old(world), old(map), old(log)),
                state_of(final(world), final(map), final(log)),
                r,
            ),
    {
        perform_remaining(self, self.action_count, own_entity, world, map, resources, log)
    }
}

} // verus!
