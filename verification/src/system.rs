//! The scheduler: the systems that run at the end of a turn, of a level and
//! of a room, in the order in which they were registered.

pub mod definitions;

use vstd::prelude::*;
use self::definitions::{
    cooled, level_checked, level_up_check, monster_turns, monsters_moved, reap_units,
    spell_cooldowns, units_reaped,
};
use crate::error::Error;
use crate::event::response_functions::{passed, state_of};
use crate::event::GameState;
use crate::logger::MessageLog;
use crate::map::{GameMap, Ground};
use crate::resources::ResourceManager;
use crate::world::World;

verus! {

/// The points in time at which systems run.
#[derive(Debug, Clone, Copy, PartialEq, Eq, Structural)]
pub enum TimeSlot {
    EndOfTurn,
    EndOfLevel,
    EndOfRoom,
}

/// The systems that can be registered.
#[derive(Debug, Clone, Copy, PartialEq, Eq, Structural)]
pub enum System {
    /// Reaps the dead.
    ReapUnits,
    /// Checks whether the player has reached the next level.
    LevelUpCheck,
    /// Lets the monsters take their turns.
    MonsterTurns,
    /// Gives back the casts of spells.
    SpellCooldowns,
}

/// What `failure` is as the outcome of a system.
pub open spec fn failed_with(failure: Option<Error>) -> Result<(), Error> {
    match failure {
        Some(e) => Err(e),
        None => Ok(()),
    }
}

impl System {
    /// Whether `post` and `r` are what the system may leave of `pre`.
    pub open spec fn ran(
        self,
        map: Ground,
        resources: &ResourceManager,
        pre: GameState,
        post: GameState,
        r: Result<(), Error>,
    ) -> bool {
        match self {
            System::ReapUnits => units_reaped(map, resources, pre, post, r),
            System::LevelUpCheck => post == (GameState {
                world: level_checked(pre.world).0,
                ..pre
            }) && r == failed_with(level_checked(pre.world).1),
            System::MonsterTurns => monsters_moved(map, resources, pre, post, r),
            System::SpellCooldowns => r is Ok && post == (GameState {
                world: cooled(pre.world, pre.world.entity_count),
                ..pre
            }),
        }
    }

    /// Runs the system.
    pub fn run(
        &self,
        world: &mut World,
        map: &mut GameMap,
        resources: &ResourceManager,
        log: &mut MessageLog,
    ) -> (r: Result<(), Error>)
        requires
            old(world).wf(),
        ensures
            final(world).wf(),
            final(world)@.entity_count >= old(world)@.entity_count,
            final(map).same_ground(old(map)),
            self.ran(
                old(map).ground(),
                resources,
                state_of(old(world), old(map), old(log)),
                state_of(final(world), final(map), final(log)),
                r,
            ),
    {
        match self {
            System::ReapUnits => reap_units(world, map, resources, log),
            System::LevelUpCheck => level_up_check(world),
            System::MonsterTurns => monster_turns(world, map, resources, log),
            System::SpellCooldowns => spell_cooldowns(world),
        }
    }
}

/// Whether `post` is what running `systems` may leave of `pre`: every
/// system runs once, in order, whether or not the systems before it failed.
pub open spec fn systems_ran(
    systems: Seq<System>,
    map: Ground,
    resources: &ResourceManager,
    pre: GameState,
    post: GameState,
) -> bool
    decreases systems.len(),
{
    if systems.len() == 0 {
        post == pre
    } else {
        exists|middle: GameState, first: Result<(), Error>| #[trigger]
            passed(middle, first) && systems[0].ran(map, resources, pre, middle, first)
                && systems_ran(systems.drop_first(), map, resources, middle, post)
    }
}

/// The systems that run at each point in time, in the order in which they
/// were registered.
pub struct Scheduler {
    turn_end_systems: Vec<System>,
    floor_end_systems: Vec<System>,
    room_end_systems: Vec<System>,
}

/// What callers see of a `Scheduler`.
pub struct SchedulerView {
    pub turn_end: Seq<System>,
    pub floor_end: Seq<System>,
    pub room_end: Seq<System>,
}

impl SchedulerView {
    /// The systems that run at `time`.
    pub open spec fn at(self, time: TimeSlot) -> Seq<System> {
        match time {
            TimeSlot::EndOfTurn => self.turn_end,
            TimeSlot::EndOfLevel => self.floor_end,
            TimeSlot::EndOfRoom => self.room_end,
        }
    }

    /// The view after `system` was registered for `time`.
    pub open spec fn with_system(self, system: System, time: TimeSlot) -> SchedulerView {
        match time {
            TimeSlot::EndOfTurn => SchedulerView { turn_end: self.turn_end.push(system), ..self },
            TimeSlot::EndOfLevel => SchedulerView { floor_end: self.floor_end.push(system), ..self },
            TimeSlot::EndOfRoom => SchedulerView { room_end: self.room_end.push(system), ..self },
        }
    }
}

impl View for Scheduler {
    type V = SchedulerView;

    closed spec fn view(&self) -> SchedulerView {
        SchedulerView {
            turn_end: self.turn_end_systems@,
            floor_end: self.floor_end_systems@,
            room_end: self.room_end_systems@,
        }
    }
}

fn run_from(
    systems: &Vec<System>,
    from: usize,
    world: &mut World,
    map: &mut GameMap,
    resources: &ResourceManager,
    log: &mut MessageLog,
)
    requires
        old(world).wf(),
        from <= systems@.len(),
    ensures
        final(world).wf(),
        final(world)@.entity_count >= old(world)@.entity_count,
        final(map).same_ground(old(map)),
        systems_ran(
            systems@.subrange(from as int, systems@.len() as int),
            old(map).ground(),
            resources,
            state_of(old(world), old(map), old(log)),
            state_of(final(world), final(map), final(log)),
        ),
    decreases systems@.len() - from,
{
    let ghost rest = systems@.subrange(from as int, systems@.len() as int);
    if from >= systems.len() {
        return ;
    }
    assert(rest[0] == systems@[from as int]);
    assert(rest.drop_first() =~= systems@.subrange(from as int + 1, systems@.len() as int));
    let first = systems[from].run(world, map, resources, log);
    let ghost middle = state_of(world, map, log);
    assert(passed(middle, first));
    run_from(systems, from + 1, world, map, resources, log);
}

impl Scheduler {
    /// A scheduler without systems.
    pub fn new() -> (s: Scheduler)
        ensures
            s@ == (SchedulerView {
                turn_end: Seq::<System>::empty(),
                floor_end: Seq::<System>::empty(),
                room_end: Seq::<System>::empty(),
            }),
    {
        Scheduler {
            turn_end_systems: Vec::new(),
            floor_end_systems: Vec::new(),
            room_end_systems: Vec::new(),
        }
    }

    /// Registers `system` to run at `time`, after the systems that are
    /// registered for that time.
    pub fn add_system(&mut self, system: System, time: TimeSlot)
        ensures
            final(self)@ == old(self)@.with_system(system, time),
    {
        match time {
            TimeSlot::EndOfTurn => {
                self.turn_end_systems.push(system);
            },
            TimeSlot::EndOfLevel => {
                self.floor_end_systems.push(system);
            },
            TimeSlot::EndOfRoom => {
                self.room_end_systems.push(system);
            },
        }
    }

    /// Runs the systems of `time`: each once, in the order in which they
    /// were registered. A system that fails stops neither the systems after
    /// it nor the caller: the result is always a success.
    pub fn run(
        &self,
        time: TimeSlot,
        world: &mut World,
        map: &mut GameMap,
        resources: &ResourceManager,
        log: &mut MessageLog,
    ) -> (r: Result<(), Error>)
        requires
            old(world).wf(),
        ensures
            r is Ok,
            final(world).wf(),
            final(world)@.entity_count >= old(world)@.entity_count,
            final(map).same_ground(old(map)),
            systems_ran(
                self@.at(time),
                old(map).ground(),
                resources,
                state_of(old(world), old(map), old(log)),
                state_of(final(world), final(map), final(log)),
            ),
    {
        match time {
            TimeSlot::EndOfTurn => {
                assert(self.turn_end_systems@.subrange(0, self.turn_end_systems@.len() as int)
                    =~= self.turn_end_systems@);
                run_from(&self.turn_end_systems, 0, world, map, resources, log);
            },
            TimeSlot::EndOfLevel => {
                assert(self.floor_end_systems@.subrange(0, self.floor_end_systems@.len() as int)
                    =~= self.floor_end_systems@);
                run_from(&self.floor_end_systems, 0, world, map, resources, log);
            },
            TimeSlot::EndOfRoom => {
                assert(self.room_end_systems@.subrange(0, self.room_end_systems@.len() as int)
                    =~= self.room_end_systems@);
                run_from(&self.room_end_systems, 0, world, map, resources, log);
            },
        }
        Ok(())
    }

    /// Runs the systems of the end of a turn.
    pub fn on_end_turn(
        &self,
        world: &mut World,
        map: &mut GameMap,
        resources: &ResourceManager,
        log: &mut MessageLog,
    ) -> (r: Result<(), Error>)
        requires
            old(world).wf(),
        ensures
            r is Ok,
            final(world).wf(),
            final(world)@.entity_count >= old(world)@.entity_count,
            final(map).same_ground(old(map)),
            systems_ran(
                self@.turn_end,
                old(map).ground(),
                resources,
                state_of(old(world), old(map), old(log)),
                state_of(final(world), final(map), final(log)),
            ),
    {
        self.run(TimeSlot::EndOfTurn, world, map, resources, log)
    }

    /// Runs the systems of the end of a level.
    pub fn on_descend_floor(
        &self,
        world: &mut World,
        map: &mut GameMap,
        resources: &ResourceManager,
        log: &mut MessageLog,
    ) -> (r: Result<(), Error>)
        requires
            old(world).wf(),
        ensures
            r is Ok,
            final(world).wf(),
            final(world)@.entity_count >= old(world)@.entity_count,
            final(map).same_ground(old(map)),
            systems_ran(
                self@.floor_end,
                old(map).ground(),
                resources,
                state_of(old(world), old(map), old(log)),
                state_of(final(world), final(map), final(log)),
            ),
    {
        self.run(TimeSlot::EndOfLevel, world, map, resources, log)
    }

    /// Runs the systems of the end of a room.
    pub fn on_clear_room(
        &self,
        world: &mut World,
        map: &mut GameMap,
        resources: &ResourceManager,
        log: &mut MessageLog,
    ) -> (r: Result<(), Error>)
        requires
            old(world).wf(),
        ensures
            r is Ok,
            final(world).wf(),
            final(world)@.entity_count >= old(world)@.entity_count,
            final(map).same_ground(old(map)),
            systems_ran(
                self@.room_end,
                old(map).ground(),
                resources,
                state_of(old(world), old(map), old(log)),
                state_of(final(world), final(map), final(log)),
            ),
    {
        self.run(TimeSlot::EndOfRoom, world, map, resources, log)
    }
}

/// Where two systems are registered for a time, the second runs once on
/// what the first left, whether the first failed or not.
pub proof fn lemma_scheduler_isolation(
    first: System,
    second: System,
    map: Ground,
    resources: &ResourceManager,
    pre: GameState,
    post: GameState,
)
    requires
        systems_ran(seq![first, second], map, resources, pre, post),
    ensures
        exists|middle: GameState, first_result: Result<(), Error>, second_result: Result<(), Error>|
            #![trigger first.ran(map, resources, pre, middle, first_result), second.ran(map, resources, middle, post, second_result)]
            first.ran(map, resources, pre, middle, first_result) && second.ran(
                map,
                resources,
                middle,
                post,
                second_result,
            ),
{
    let systems = seq![first, second];
    let (middle, first_result) = choose|middle: GameState, first_result: Result<(), Error>| #[trigger]
        passed(middle, first_result) && systems[0].ran(map, resources, pre, middle, first_result)
            && systems_ran(systems.drop_first(), map, resources, middle, post);
    let rest = systems.drop_first();
    assert(rest[0] == second);
    let (last, second_result) = choose|last: GameState, second_result: Result<(), Error>| #[trigger]
        passed(last, second_result) && rest[0].ran(map, resources, middle, last, second_result)
            && systems_ran(rest.drop_first(), map, resources, last, post);
    assert(rest.drop_first().len() == 0);
    assert(last == post);
    assert(second.ran(map, resources, middle, post, second_result));
}

} // verus!
