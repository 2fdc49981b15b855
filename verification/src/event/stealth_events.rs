//! Noise, and who wakes up at it.

use vstd::prelude::*;
use crate::component::behavior::{Behavior, BehaviorState};
use crate::component::{Component, ComponentType, ComponentView};
use crate::error::Error;
use crate::world::{World, WorldView};

verus! {

/// A noise of the given magnitude, made by `source`.
#[derive(Debug, Clone, Copy, PartialEq, Eq, Structural)]
pub struct NoiseEvent {
    pub source: usize,
    pub magnitude: u32,
}

impl NoiseEvent {
    pub fn new(source: usize, magnitude: u32) -> (e: NoiseEvent)
        ensures
            e.source == source,
            e.magnitude == magnitude,
    {
        NoiseEvent { source, magnitude }
    }
}

/// The component of type `component` that `entity` lacks, as a failure.
pub open spec fn missing(entity: usize, component: ComponentType) -> Error {
    Error::MissingComponent { entity, component }
}

/// Why `own_entity` cannot be woken by a noise of `source`, if it cannot: it
/// has no position, the source has none, or it has no response to noise or
/// no behavior.
pub open spec fn wake_failure(world: WorldView, own_entity: usize, source: usize) -> Option<Error> {
    if world.position(own_entity) is None {
        Some(missing(own_entity, ComponentType::Position))
    } else if world.position(source) is None {
        Some(missing(source, ComponentType::Position))
    } else if !world.has(ComponentType::NoiseResponse, own_entity) {
        Some(missing(own_entity, ComponentType::NoiseResponse))
    } else if !world.has(ComponentType::Behavior, own_entity) {
        Some(missing(own_entity, ComponentType::Behavior))
    } else {
        None
    }
}

/// The world after `own_entity` woke up.
pub open spec fn woken(world: WorldView, own_entity: usize) -> WorldView {
    world.with_component(
        own_entity,
        ComponentView::Behavior(
            Behavior {
                state: BehaviorState::Awake,
                ..world.component(ComponentType::Behavior, own_entity)->0->Behavior_0
            },
        ),
    )
}

/// Wakes `own_entity` at a noise that `source` made. Every noise that
/// reaches an entity wakes it, whatever its magnitude. Fails, and changes
/// nothing, where `wake_failure` says so.
pub fn try_wake_up(own_entity: usize, source: usize, magnitude: u32, world: &mut World) -> (r: Result<
    (),
    Error,
>)
    requires
        old(world).wf(),
    ensures
        final(world).wf(),
        match wake_failure(old(world)@, own_entity, source) {
            Some(e) => r == Err::<(), Error>(e) && final(world)@ == old(world)@,
            None => r is Ok && final(world)@ == woken(old(world)@, own_entity),
        },
{
    proof {
        world.lemma_wf();
    }
    if world.position_of(own_entity).is_none() {
        return Err(Error::MissingComponent { entity: own_entity, component: ComponentType::Position });
    }
    if world.position_of(source).is_none() {
        return Err(Error::MissingComponent { entity: source, component: ComponentType::Position });
    }
    if !world.has_component(ComponentType::NoiseResponse, own_entity) {
        return Err(
            Error::MissingComponent { entity: own_entity, component: ComponentType::NoiseResponse },
        );
    }
    let behavior = match world.borrow_entity_component(ComponentType::Behavior, own_entity) {
        Some(Component::Behavior(b)) => *b,
        _ => {
            return Err(
                Error::MissingComponent { entity: own_entity, component: ComponentType::Behavior },
            );
        },
    };
    let awake = Behavior {
        state: BehaviorState::Awake,
        behavior: behavior.behavior,
        action_count: behavior.action_count,
    };
    let _ = world.add_component(own_entity, Component::Behavior(awake));
    Ok(())
}

} // verus!
