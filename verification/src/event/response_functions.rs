//! The reactions that a response may name, and the dispatch of an event to
//! the response of its target.
//!
//! Nothing is rolled back: where a step of a reaction fails, the steps
//! before it stay done.

use vstd::prelude::*;
use super::stealth_events::{missing, NoiseEvent};
use super::{
    Arguments, Event, GameState, MessageArguments, MessageArgumentsView, ResponseFuctionName, Told,
};
use crate::component::attributes::Xp;
use crate::component::image::{image_of_state, ImageState, ImageStateView};
use crate::component::items::Coins;
use crate::component::responses::{InteractResponse, ResponseParts};
use crate::component::{
    Collision, Component, ComponentType, ComponentView, SightBlocking,
};
use crate::error::Error;
use crate::logger::{decimal, number_text, MessageLog};
use crate::map::fill::{explored_around, is_fill};
use crate::map::tile::{Los, Passable};
use crate::map::utils::Coordinate;
use crate::map::room::Room;
use crate::map::{explored_with, first_room_at, GameMap, Ground};
use crate::random::random_ratio;
use crate::resources::id::SpawnableID;
use crate::resources::{ResourceManager, GOLD_PILE_SPAWNABLE};
use crate::spawning::entitytemplate::spawned;
use crate::world::{World, WorldView};

verus! {

/// How many events may set each other off, one within the other, before the
/// dispatch gives up.
pub const MAX_CASCADE_DEPTH: u32 = 64;

/// How loud it is to open a door or a chest.
pub const OPENING_NOISE: u32 = 50;

/// Holds of every state and outcome. It marks the state in which a step
/// within a reaction ends, and the outcome of the step.
pub open spec fn passed<A, B>(state: A, outcome: B) -> bool {
    true
}

/// The world after a step that may fail, and the failure.
pub struct Step {
    pub world: WorldView,
    pub failure: Option<Error>,
}

/// What a step returns: the failure, or success where there is none.
pub open spec fn outcome(failure: Option<Error>) -> Result<(), Error> {
    match failure {
        Some(e) => Err(e),
        None => Ok(()),
    }
}

/// The step that sets how `entity` stands in the way of steps. It fails
/// where the entity has no collision.
pub open spec fn collision_changed(world: WorldView, entity: usize, state: Passable) -> Step {
    if world.has(ComponentType::Collision, entity) {
        Step {
            world: world.with_component(entity, ComponentView::Collision(Collision(state))),
            failure: None,
        }
    } else {
        Step { world, failure: Some(missing(entity, ComponentType::Collision)) }
    }
}

/// The step that sets how `entity` stands in the way of sight. It fails
/// where the entity has no sight blocking.
pub open spec fn sight_changed(world: WorldView, entity: usize, state: Los) -> Step {
    if world.has(ComponentType::SightBlocking, entity) {
        Step {
            world: world.with_component(entity, ComponentView::SightBlocking(SightBlocking(state))),
            failure: None,
        }
    } else {
        Step { world, failure: Some(missing(entity, ComponentType::SightBlocking)) }
    }
}

/// The step that sets the reaction of `entity` to interaction. It fails
/// where the entity has no response to interaction.
pub open spec fn interact_response_changed(
    world: WorldView,
    entity: usize,
    response: ResponseFuctionName,
) -> Step {
    match world.component(ComponentType::InteractResponse, entity) {
        Some(ComponentView::InteractResponse(r)) => Step {
            world: world.with_component(
                entity,
                ComponentView::InteractResponse(InteractResponse { response, ..r }),
            ),
            failure: None,
        },
        _ => Step { world, failure: Some(missing(entity, ComponentType::InteractResponse)) },
    }
}

/// The step that puts `entity` into the image state `state` and gives it
/// the image of that state. It fails where the entity has no image states or
/// not this one, and, with the state already changed, where it has no image.
pub open spec fn image_state_changed(world: WorldView, entity: usize, state: Seq<char>) -> Step {
    match world.component(ComponentType::ImageState, entity) {
        Some(ComponentView::ImageState(states)) => match image_of_state(states.states, state) {
            None => Step { world, failure: Some(Error::InvalidImageState) },
            Some(image) => {
                let changed = world.with_component(
                    entity,
                    ComponentView::ImageState(
                        ImageStateView { current: state, states: states.states },
                    ),
                );
                if world.has(ComponentType::ImageID, entity) {
                    Step {
                        world: changed.with_component(entity, ComponentView::ImageID(image)),
                        failure: None,
                    }
                } else {
                    Step { world: changed, failure: Some(missing(entity, ComponentType::ImageID)) }
                }
            },
        },
        _ => Step { world, failure: Some(missing(entity, ComponentType::ImageState)) },
    }
}

/// The step `next`, taken where `first` did not fail.
pub open spec fn and_then(first: Step, next: spec_fn(WorldView) -> Step) -> Step {
    if first.failure is Some {
        first
    } else {
        next(first.world)
    }
}

/// The steps that open the door `entity`: it lets steps and sight pass, its
/// reaction to interaction is to close, and it shows its open state.
pub open spec fn door_opened(world: WorldView, entity: usize) -> Step {
    and_then(
        and_then(
            and_then(
                collision_changed(world, entity, Passable::Walk),
                |w: WorldView| sight_changed(w, entity, Los::Clear),
            ),
            |w: WorldView| interact_response_changed(w, entity, ResponseFuctionName::Close),
        ),
        |w: WorldView| image_state_changed(w, entity, "open"@),
    )
}

/// The steps that close the door `entity`: it blocks steps and sight, its
/// reaction to interaction is to open, and it shows its closed state.
pub open spec fn door_closed(world: WorldView, entity: usize) -> Step {
    and_then(
        and_then(
            and_then(
                collision_changed(world, entity, Passable::Impassable),
                |w: WorldView| sight_changed(w, entity, Los::Block),
            ),
            |w: WorldView| interact_response_changed(w, entity, ResponseFuctionName::OpenDoor),
        ),
        |w: WorldView| image_state_changed(w, entity, "closed"@),
    )
}

/// The steps that mark the chest `entity` as opened: it shows its open
/// state, and its reaction to interaction is the default from now on.
pub open spec fn chest_opened(world: WorldView, entity: usize) -> Step {
    and_then(
        image_state_changed(world, entity, "open"@),
        |w: WorldView| interact_response_changed(w, entity, ResponseFuctionName::Default),
    )
}

/// The coins of `entity`, if it has a purse.
pub open spec fn coins_of(world: WorldView, entity: usize) -> Option<Coins> {
    match world.component(ComponentType::Coins, entity) {
        Some(ComponentView::Coins(c)) => Some(c),
        _ => None,
    }
}

/// The number of coins in the purse of `entity`; zero where it has none.
pub open spec fn purse(world: WorldView, entity: usize) -> u32 {
    match coins_of(world, entity) {
        Some(c) => c.0,
        None => 0,
    }
}

/// The experience of `entity`, if it has any.
pub open spec fn xp_of(world: WorldView, entity: usize) -> Option<Xp> {
    match world.component(ComponentType::Xp, entity) {
        Some(ComponentView::Xp(xp)) => Some(xp),
        _ => None,
    }
}

/// Why `own_entity` cannot give its coins to `other_entity`, if it cannot:
/// no purse was ever inserted, one of the two has none, or the coins or the
/// experience of the receiver would leave the range of `u32`.
pub open spec fn coins_failure(world: WorldView, own_entity: usize, other_entity: usize) -> Option<
    Error,
> {
    if !world.columns.contains_key(ComponentType::Coins) {
        Some(Error::MissingColumn(ComponentType::Coins))
    } else if coins_of(world, own_entity) is None {
        Some(missing(own_entity, ComponentType::Coins))
    } else if coins_of(world, other_entity) is None {
        Some(missing(other_entity, ComponentType::Coins))
    } else if purse(world, other_entity) + purse(world, own_entity) > u32::MAX {
        Some(Error::Overflow)
    } else if xp_of(world, other_entity) is Some && xp_of(world, other_entity)->0.current
        + purse(world, own_entity) > u32::MAX {
        Some(Error::Overflow)
    } else {
        None
    }
}

/// The state after `own_entity` gave its coins to `other_entity`: the
/// receiver has them, and as much experience more where it has experience;
/// the giver has none left; and the find is told.
pub open spec fn coins_given(pre: Told, own_entity: usize, other_entity: usize) -> Told {
    let amount = purse(pre.world, own_entity);
    let paid = pre.world.with_component(
        other_entity,
        ComponentView::Coins(Coins((purse(pre.world, other_entity) + amount) as u32)),
    ).with_component(own_entity, ComponentView::Coins(Coins(0)));
    Told {
        world: match xp_of(pre.world, other_entity) {
            Some(xp) => paid.with_component(
                other_entity,
                ComponentView::Xp(Xp { current: (xp.current + amount) as u32, ..xp }),
            ),
            None => paid,
        },
        log: pre.log.push("Found "@ + decimal(amount as nat) + " gold!"@),
    }
}

/// The world after `other_entity` got all the experience that its level
/// asks for, where it has experience.
pub open spec fn full_xp_given(world: WorldView, other_entity: usize) -> WorldView {
    match xp_of(world, other_entity) {
        Some(xp) => world.with_component(
            other_entity,
            ComponentView::Xp(Xp { current: xp.max, ..xp }),
        ),
        None => world,
    }
}

/// The cells that the player has seen after the first room around
/// `coordinate` was lit.
pub open spec fn room_lit(rooms: Seq<Room>, explored: Set<Coordinate>, coordinate: Coordinate) -> Set<
    Coordinate,
> {
    match first_room_at(rooms, coordinate) {
        Some(i) => explored_with(explored, rooms[i].extends),
        None => explored,
    }
}

/// Whether `post` and `r` are what exploring the surroundings of `entity`
/// may leave of the seen cells `pre`: a failure and `pre`, where the entity
/// has no position; else the room around it is lit, and so are the cells of
/// the fill from its position with the eight cells around each.
pub open spec fn surroundings_seen(
    map: Ground,
    resources: &ResourceManager,
    world: WorldView,
    entity: usize,
    pre: Set<Coordinate>,
    post: Set<Coordinate>,
    r: Result<(), Error>,
) -> bool {
    match world.position(entity) {
        None => r == Err::<(), Error>(missing(entity, ComponentType::Position)) && post == pre,
        Some(c) => r is Ok && exists|reached: Seq<Coordinate>| #[trigger]
            is_fill(reached, c, room_lit(map.rooms, pre, c), map.tiles, world, resources) && post
                == explored_around(room_lit(map.rooms, pre, c), reached),
    }
}

/// Whether `post` and `r` are what exploring the surroundings of `entity`
/// may leave of `pre`: the world and the messages stay, and the seen cells
/// grow as `surroundings_seen` says.
pub open spec fn room_explored(
    map: Ground,
    resources: &ResourceManager,
    entity: usize,
    pre: GameState,
    post: GameState,
    r: Result<(), Error>,
) -> bool {
    &&& post.world == pre.world
    &&& post.log == pre.log
    &&& surroundings_seen(map, resources, pre.world, entity, pre.explored, post.explored, r)
}

/// Whether `post` and `r` are what dropping the coins of `own_entity` at
/// `location` may leave of `pre`: a failure, where it has no purse; nothing,
/// where the purse is empty; else a pile of gold is spawned there that holds
/// as many coins as the purse.
pub open spec fn coins_dropped(
    map: Ground,
    resources: &ResourceManager,
    own_entity: usize,
    location: Coordinate,
    pre: WorldView,
    post: WorldView,
    r: Result<(), Error>,
) -> bool {
    match coins_of(pre, own_entity) {
        None => r == Err::<(), Error>(missing(own_entity, ComponentType::Coins)) && post == pre,
        Some(coins) => if coins.0 == 0 {
            r is Ok && post == pre
        } else {
            exists|middle: WorldView, first: Result<usize, Error>| #[trigger]
                passed(middle, first) && spawned(
                    resources.templates_of(SpawnableID(GOLD_PILE_SPAWNABLE)),
                    pre,
                    middle,
                    map.depth,
                    location,
                    resources,
                    first,
                ) && match first {
                    Err(e) => r == Err::<(), Error>(e) && post == middle,
                    Ok(pile) => if coins_of(middle, pile) is None {
                        r == Err::<(), Error>(missing(pile, ComponentType::Coins)) && post
                            == middle
                    } else {
                        r is Ok && post == middle.with_component(
                            pile,
                            ComponentView::Coins(Coins(coins.0)),
                        )
                    },
                }
        },
    }
}

/// The arguments with which a reflected event is told: the responding
/// entity is named as the one who acts, and the verb says that it reflected
/// the attack.
pub open spec fn reflected(msg_args: MessageArgumentsView, entity: usize) -> MessageArgumentsView {
    MessageArgumentsView {
        attacker: Some(entity),
        attack_message: Some("reflected your attack"@),
        ..msg_args
    }
}

/// Whether `post` and `r` are what applying `event` to `target` in the name
/// of `source` may leave of `pre`.
pub open spec fn forwarded(
    event: Event,
    pre: GameState,
    post: GameState,
    source: usize,
    target: usize,
    args: Arguments,
    msg_args: MessageArgumentsView,
    r: Result<(), Error>,
) -> bool {
    post.explored == pre.explored && event.applies(
        pre.told(),
        post.told(),
        source,
        target,
        args,
        msg_args,
        r,
    )
}

/// Whether `post` and `r` are what sending `event` to `target` may leave of
/// `pre`, where events may set each other off `depth` deep. A target
/// without a response of the event's kind absorbs the event: nothing
/// happens, and that is a success.
pub open spec fn dispatched(
    map: Ground,
    resources: &ResourceManager,
    event: Event,
    target: usize,
    pre: GameState,
    post: GameState,
    r: Result<(), Error>,
    depth: nat,
) -> bool
    decreases depth, 3nat, 0nat,
{
    match pre.world.component(event.spec_response_type(), target) {
        None => r is Ok && post == pre,
        Some(response) => match response.response_parts() {
            None => r is Ok && post == pre,
            Some(parts) => responded(map, resources, event, target, parts, pre, post, r, depth),
        },
    }
}

/// Whether `post` and `r` are what the reaction that `parts` names may
/// leave of `pre`, when `entity` reacts to `event`.
pub open spec fn responded(
    map: Ground,
    resources: &ResourceManager,
    event: Event,
    entity: usize,
    parts: ResponseParts,
    pre: GameState,
    post: GameState,
    r: Result<(), Error>,
    depth: nat,
) -> bool
    decreases depth, 2nat, 1nat,
{
    let source = event.spec_source();
    let args = parts.args;
    let msg_args = parts.msg_args@;
    match parts.response {
        ResponseFuctionName::Ignore => r is Ok && post == pre,
        ResponseFuctionName::Default => forwarded(event, pre, post, source, entity, args, msg_args, r),
        ResponseFuctionName::ReflectAll => forwarded(
            event,
            pre,
            post,
            source,
            source,
            args,
            reflected(msg_args, entity),
            r,
        ),
        ResponseFuctionName::ReflectSome(chance) => {
            ||| chance > 0 && forwarded(
                event,
                pre,
                post,
                source,
                source,
                args,
                reflected(msg_args, entity),
                r,
            )
            ||| chance < 1000 && forwarded(event, pre, post, source, entity, args, msg_args, r)
        },
        ResponseFuctionName::OpenDoor => door_opens(
            map,
            resources,
            event,
            entity,
            args,
            msg_args,
            pre,
            post,
            r,
            depth,
        ),
        ResponseFuctionName::OpenChest => chest_opens(
            map,
            resources,
            event,
            entity,
            args,
            msg_args,
            pre,
            post,
            r,
            depth,
        ),
        ResponseFuctionName::RevealRoom => room_revealed(
            map,
            resources,
            event,
            entity,
            args,
            msg_args,
            pre,
            post,
            r,
        ),
        ResponseFuctionName::Close => door_closes(event, entity, args, msg_args, pre, post, r),
        ResponseFuctionName::Pickup => picked_up(event, entity, args, msg_args, pre, post, r),
        ResponseFuctionName::GrantLevelUp => forwarded(
            event,
            GameState { world: full_xp_given(pre.world, source), ..pre },
            post,
            entity,
            source,
            args,
            msg_args,
            r,
        ),
        ResponseFuctionName::DropInventory => inventory_dropped(
            map,
            resources,
            event,
            entity,
            args,
            msg_args,
            pre,
            post,
            r,
        ),
    }
}

/// Whether `post` and `r` are what opening the door `entity` may leave of
/// `pre`: the door opens; the room around it is lit; the noise of it goes
/// out; and the event is applied to the source in the name of the door.
pub open spec fn door_opens(
    map: Ground,
    resources: &ResourceManager,
    event: Event,
    entity: usize,
    args: Arguments,
    msg_args: MessageArgumentsView,
    pre: GameState,
    post: GameState,
    r: Result<(), Error>,
    depth: nat,
) -> bool
    decreases depth, 2nat, 0nat,
{
    let first = door_opened(pre.world, entity);
    if first.failure is Some {
        r == outcome(first.failure) && post == (GameState { world: first.world, ..pre })
    } else {
        exists|seen: GameState, second: Result<(), Error>| #[trigger]
            passed(seen, second) && room_explored(
                map,
                resources,
                entity,
                GameState { world: first.world, ..pre },
                seen,
                second,
            ) && if second is Err {
                r == second && post == seen
            } else {
                noise_then_forward(map, resources, event, entity, args, msg_args, seen, post, r, depth)
            }
    }
}

/// Whether `post` and `r` are what opening the chest `entity` may leave of
/// `pre`: the chest gives its coins to the source; the noise of it goes out;
/// the chest shows as open and reacts by default from now on; and the event
/// is applied to the source in the name of the chest.
pub open spec fn chest_opens(
    map: Ground,
    resources: &ResourceManager,
    event: Event,
    entity: usize,
    args: Arguments,
    msg_args: MessageArgumentsView,
    pre: GameState,
    post: GameState,
    r: Result<(), Error>,
    depth: nat,
) -> bool
    decreases depth, 2nat, 0nat,
{
    let source = event.spec_source();
    match coins_failure(pre.world, entity, source) {
        Some(e) => r == Err::<(), Error>(e) && post == pre,
        None => {
            let paid = coins_given(pre.told(), entity, source);
            exists|heard: GameState, second: Result<(), Error>| #[trigger]
                passed(heard, second) && noise_made(
                    map,
                    resources,
                    OPENING_NOISE,
                    entity,
                    GameState { world: paid.world, explored: pre.explored, log: paid.log },
                    heard,
                    second,
                    depth,
                ) && if second is Err {
                    r == second && post == heard
                } else {
                    let opened = chest_opened(heard.world, entity);
                    if opened.failure is Some {
                        r == outcome(opened.failure) && post == (GameState {
                            world: opened.world,
                            ..heard
                        })
                    } else {
                        forwarded(
                            event,
                            GameState { world: opened.world, ..heard },
                            post,
                            entity,
                            source,
                            args,
                            msg_args,
                            r,
                        )
                    }
                }
        },
    }
}

/// Whether `post` and `r` are what revealing the room around `entity` may
/// leave of `pre`: the room is lit, and the event is applied to the source
/// in the name of the entity.
pub open spec fn room_revealed(
    map: Ground,
    resources: &ResourceManager,
    event: Event,
    entity: usize,
    args: Arguments,
    msg_args: MessageArgumentsView,
    pre: GameState,
    post: GameState,
    r: Result<(), Error>,
) -> bool {
    exists|seen: GameState, first: Result<(), Error>| #[trigger]
        passed(seen, first) && room_explored(map, resources, entity, pre, seen, first)
            && if first is Err {
            r == first && post == seen
        } else {
            forwarded(event, seen, post, entity, event.spec_source(), args, msg_args, r)
        }
}

/// Whether `post` and `r` are what closing the door `entity` may leave of
/// `pre`: the door closes, and the event is applied to the source in the
/// name of the door.
pub open spec fn door_closes(
    event: Event,
    entity: usize,
    args: Arguments,
    msg_args: MessageArgumentsView,
    pre: GameState,
    post: GameState,
    r: Result<(), Error>,
) -> bool {
    let first = door_closed(pre.world, entity);
    if first.failure is Some {
        r == outcome(first.failure) && post == (GameState { world: first.world, ..pre })
    } else {
        forwarded(
            event,
            GameState { world: first.world, ..pre },
            post,
            entity,
            event.spec_source(),
            args,
            msg_args,
            r,
        )
    }
}

/// Whether `post` and `r` are what picking `entity` up may leave of `pre`:
/// it gives its coins to the source; the event is applied to the source in
/// its name; and it loses all of its components.
pub open spec fn picked_up(
    event: Event,
    entity: usize,
    args: Arguments,
    msg_args: MessageArgumentsView,
    pre: GameState,
    post: GameState,
    r: Result<(), Error>,
) -> bool {
    let source = event.spec_source();
    match coins_failure(pre.world, entity, source) {
        Some(e) => r == Err::<(), Error>(e) && post == pre,
        None => {
            let paid = coins_given(pre.told(), entity, source);
            exists|applied: GameState, second: Result<(), Error>| #[trigger]
                passed(applied, second) && forwarded(
                    event,
                    GameState { world: paid.world, explored: pre.explored, log: paid.log },
                    applied,
                    entity,
                    source,
                    args,
                    msg_args,
                    second,
                ) && if second is Err {
                    r == second && post == applied
                } else {
                    r is Ok && post == (GameState {
                        world: applied.world.tombstoned(entity),
                        ..applied
                    })
                }
        },
    }
}

/// Whether `post` and `r` are what dropping the inventory of `entity` may
/// leave of `pre`: its coins are dropped where it stands, if it stands
/// anywhere; and the event is applied to the source in its name.
pub open spec fn inventory_dropped(
    map: Ground,
    resources: &ResourceManager,
    event: Event,
    entity: usize,
    args: Arguments,
    msg_args: MessageArgumentsView,
    pre: GameState,
    post: GameState,
    r: Result<(), Error>,
) -> bool {
    let source = event.spec_source();
    match pre.world.position(entity) {
        None => forwarded(event, pre, post, entity, source, args, msg_args, r),
        Some(location) => exists|dropped: WorldView, first: Result<(), Error>| #[trigger]
            passed(dropped, first)
                && coins_dropped(map, resources, entity, location, pre.world, dropped, first)
                && if first
                is Err {
                r == first && post == (GameState { world: dropped, ..pre })
            } else {
                forwarded(
                    event,
                    GameState { world: dropped, ..pre },
                    post,
                    entity,
                    source,
                    args,
                    msg_args,
                    r,
                )
            },
    }
}

/// Whether `post` and `r` are what the noise of opening and the event that
/// follows it may leave of `pre`.
pub open spec fn noise_then_forward(
    map: Ground,
    resources: &ResourceManager,
    event: Event,
    entity: usize,
    args: Arguments,
    msg_args: MessageArgumentsView,
    pre: GameState,
    post: GameState,
    r: Result<(), Error>,
    depth: nat,
) -> bool
    decreases depth, 1nat, 1nat,
{
    exists|heard: GameState, first: Result<(), Error>| #[trigger]
        passed(heard, first)
            && noise_made(map, resources, OPENING_NOISE, entity, pre, heard, first, depth)
            && if first
            is Err {
            r == first && post == heard
        } else {
            forwarded(event, heard, post, entity, event.spec_source(), args, msg_args, r)
        }
}

/// Whether `post` and `r` are what the noise that `own_entity` makes when
/// it opens may leave of `pre`: a failure, where it has no position; else
/// the noise is sent to the entities of its region, one after the other, up
/// to the first for which that fails.
pub open spec fn noise_made(
    map: Ground,
    resources: &ResourceManager,
    magnitude: u32,
    own_entity: usize,
    pre: GameState,
    post: GameState,
    r: Result<(), Error>,
    depth: nat,
) -> bool
    decreases depth, 1nat, 0nat,
{
    match pre.world.position(own_entity) {
        None => r == Err::<(), Error>(missing(own_entity, ComponentType::Position)) && post == pre,
        Some(location) => noise_sent(
            map,
            resources,
            Event::Noise(NoiseEvent { source: own_entity, magnitude }),
            pre.world.bsp.entities_at_leaf(location),
            pre,
            post,
            r,
            depth,
        ),
    }
}

/// Whether `post` and `r` are what sending `event` to each of `entities`
/// may leave of `pre`. The cascade fails where it would go deeper than it is
/// followed.
pub open spec fn noise_sent(
    map: Ground,
    resources: &ResourceManager,
    event: Event,
    entities: Seq<usize>,
    pre: GameState,
    post: GameState,
    r: Result<(), Error>,
    depth: nat,
) -> bool
    decreases depth, 0nat, entities.len(),
{
    if entities.len() == 0 {
        r is Ok && post == pre
    } else if depth == 0 {
        r == Err::<(), Error>(Error::CascadeTooDeep) && post == pre
    } else {
        exists|middle: GameState, first: Result<(), Error>| #[trigger]
            passed(middle, first) && dispatched(
                map,
                resources,
                event,
                entities[0],
                pre,
                middle,
                first,
                (depth - 1) as nat,
            ) && if first is Err {
                r == first && post == middle
            } else {
                noise_sent(map, resources, event, entities.drop_first(), middle, post, r, depth)
            }
    }
}

fn missing_component(entity: usize, component: ComponentType) -> (e: Error)
    ensures
        e == missing(entity, component),
{
    Error::MissingComponent { entity, component }
}

/// Sets how `entity` stands in the way of steps.
pub fn change_collision(entity: usize, new_state: Passable, world: &mut World) -> (r: Result<(), Error>)
    requires
        old(world).wf(),
    ensures
        final(world).wf(),
        final(world)@ == collision_changed(old(world)@, entity, new_state).world,
        r == outcome(collision_changed(old(world)@, entity, new_state).failure),
{
    proof {
        world.lemma_wf();
    }
    if !world.has_component(ComponentType::Collision, entity) {
        return Err(missing_component(entity, ComponentType::Collision));
    }
    let _ = world.add_component(entity, Component::Collision(Collision(new_state)));
    Ok(())
}

/// Sets how `entity` stands in the way of sight.
pub fn change_sight_blocking(entity: usize, new_state: Los, world: &mut World) -> (r: Result<(), Error>)
    requires
        old(world).wf(),
    ensures
        final(world).wf(),
        final(world)@ == sight_changed(old(world)@, entity, new_state).world,
        r == outcome(sight_changed(old(world)@, entity, new_state).failure),
{
    proof {
        world.lemma_wf();
    }
    if !world.has_component(ComponentType::SightBlocking, entity) {
        return Err(missing_component(entity, ComponentType::SightBlocking));
    }
    let _ = world.add_component(entity, Component::SightBlocking(SightBlocking(new_state)));
    Ok(())
}

/// Sets the reaction of `entity` to interaction.
pub fn change_interact_response(
    entity: usize,
    new_response: ResponseFuctionName,
    world: &mut World,
) -> (r: Result<(), Error>)
    requires
        old(world).wf(),
    ensures
        final(world).wf(),
        final(world)@ == interact_response_changed(old(world)@, entity, new_response).world,
        r == outcome(interact_response_changed(old(world)@, entity, new_response).failure),
{
    proof {
        world.lemma_wf();
    }
    let changed = match world.borrow_entity_component(ComponentType::InteractResponse, entity) {
        Some(Component::InteractResponse(r)) => InteractResponse {
            args: r.args,
            msg_args: r.msg_args.clone(),
            response: new_response,
        },
        _ => {
            return Err(missing_component(entity, ComponentType::InteractResponse));
        },
    };
    let _ = world.add_component(entity, Component::InteractResponse(changed));
    Ok(())
}

/// Puts `entity` into the image state `new_state` and gives it the image
/// of that state.
pub fn change_image_state(entity: usize, new_state: &str, world: &mut World) -> (r: Result<(), Error>)
    requires
        old(world).wf(),
    ensures
        final(world).wf(),
        final(world)@ == image_state_changed(old(world)@, entity, new_state@).world,
        r == outcome(image_state_changed(old(world)@, entity, new_state@).failure),
{
    proof {
        world.lemma_wf();
    }
    let (image, mut changed) = match world.borrow_entity_component(
        ComponentType::ImageState,
        entity,
    ) {
        Some(Component::ImageState(states)) => match states.image_of(new_state) {
            Some(image) => (image, states.duplicate()),
            None => {
                return Err(Error::InvalidImageState);
            },
        },
        _ => {
            return Err(missing_component(entity, ComponentType::ImageState));
        },
    };
    let ghost before = changed@;
    changed.current = String::from_str(new_state);
    assert(changed@.states =~= before.states);
    let _ = world.add_component(entity, Component::ImageState(changed));
    if !world.has_component(ComponentType::ImageID, entity) {
        return Err(missing_component(entity, ComponentType::ImageID));
    }
    let _ = world.add_component(entity, Component::ImageID(image));
    Ok(())
}

/// Gives the coins of `own_entity` to `other_entity`, and as much
/// experience where the receiver has experience, and tells the find. Fails,
/// and changes nothing, where `coins_failure` says so.
pub fn give_coins(own_entity: usize, other_entity: usize, world: &mut World, log: &mut MessageLog) -> (r:
    Result<(), Error>)
    requires
        old(world).wf(),
    ensures
        final(world).wf(),
        final(world)@.entity_count == old(world)@.entity_count,
        final(world)@.bsp == old(world)@.bsp,
        match coins_failure(old(world)@, own_entity, other_entity) {
            Some(e) => r == Err::<(), Error>(e) && final(world)@ == old(world)@
                && final(log)@ == old(log)@,
            None => r is Ok && (Told { world: final(world)@, log: final(log)@ }) == coins_given(
                Told { world: old(world)@, log: old(log)@ },
                own_entity,
                other_entity,
            ),
        },
{
    proof {
        world.lemma_wf();
    }
    if world.borrow_component_vec(ComponentType::Coins).is_none() {
        return Err(Error::MissingColumn(ComponentType::Coins));
    }
    let amount: u32 = match world.borrow_entity_component(ComponentType::Coins, own_entity) {
        Some(Component::Coins(c)) => c.0,
        _ => {
            return Err(missing_component(own_entity, ComponentType::Coins));
        },
    };
    let theirs: u32 = match world.borrow_entity_component(ComponentType::Coins, other_entity) {
        Some(Component::Coins(c)) => c.0,
        _ => {
            return Err(missing_component(other_entity, ComponentType::Coins));
        },
    };
    if theirs > u32::MAX - amount {
        return Err(Error::Overflow);
    }
    let xp: Option<Xp> = match world.borrow_entity_component(ComponentType::Xp, other_entity) {
        Some(Component::Xp(xp)) => Some(*xp),
        _ => None,
    };
    if let Some(xp) = xp {
        if xp.current > u32::MAX - amount {
            return Err(Error::Overflow);
        }
    }
    let _ = world.add_component(other_entity, Component::Coins(Coins(theirs + amount)));
    let _ = world.add_component(own_entity, Component::Coins(Coins(0)));
    if let Some(xp) = xp {
        let _ = world.add_component(
            other_entity,
            Component::Xp(
                Xp { level: xp.level, current: xp.current + amount, max: xp.max, status: xp.status },
            ),
        );
    }
    let mut msg = String::from_str("Found ");
    msg.append(number_text(amount).as_str());
    msg.append(" gold!");
    log.queue_message(msg.as_str());
    Ok(())
}

/// Gives `other_entity` all the experience that its level asks for, where
/// it has experience.
pub fn give_full_xp(_own_entity: usize, other_entity: usize, world: &mut World) -> (r: Result<(), Error>)
    requires
        old(world).wf(),
    ensures
        final(world).wf(),
        r is Ok,
        final(world)@ == full_xp_given(old(world)@, other_entity),
{
    proof {
        world.lemma_wf();
    }
    let xp: Option<Xp> = match world.borrow_entity_component(ComponentType::Xp, other_entity) {
        Some(Component::Xp(xp)) => Some(*xp),
        _ => None,
    };
    if let Some(xp) = xp {
        let _ = world.add_component(
            other_entity,
            Component::Xp(Xp { level: xp.level, current: xp.max, max: xp.max, status: xp.status }),
        );
    }
    Ok(())
}

/// Lights the room around `entity` and what can be seen of the hallway
/// from it.
pub fn explore_room_of_entity(
    entity: usize,
    world: &World,
    map: &mut GameMap,
    resources: &ResourceManager,
) -> (r: Result<(), Error>)
    requires
        world.wf(),
    ensures
        final(map).same_ground(old(map)),
        surroundings_seen(
            old(map).ground(),
            resources,
            world@,
            entity,
            old(map).explored@,
            final(map).explored@,
            r,
        ),
{
    let coordinate = match world.position_of(entity) {
        Some(c) => c,
        None => {
            return Err(missing_component(entity, ComponentType::Position));
        },
    };
    map.explore_room(coordinate);
    let ghost lit = map.explored@;
    map.explore_hallway(coordinate, world, resources);
    proof {
        let reached = choose|reached: Seq<Coordinate>| #[trigger]
            is_fill(reached, coordinate, lit, old(map).map@, world@, resources) && map.explored@
                == explored_around(lit, reached);
        assert(lit == room_lit(old(map).ground().rooms, old(map).explored@, coordinate));
        assert(is_fill(
            reached,
            coordinate,
            room_lit(old(map).ground().rooms, old(map).explored@, coordinate),
            old(map).ground().tiles,
            world@,
            resources,
        ));
    }
    Ok(())
}

/// Drops the coins of `own_entity` at `location` as a pile of gold.
pub fn drop_coins(
    own_entity: usize,
    location: Coordinate,
    world: &mut World,
    map: &GameMap,
    resources: &ResourceManager,
) -> (r: Result<(), Error>)
    requires
        old(world).wf(),
    ensures
        final(world).wf(),
        final(world)@.entity_count >= old(world)@.entity_count,
        coins_dropped(map.ground(), resources, own_entity, location, old(world)@, final(world)@, r),
{
    proof {
        world.lemma_wf();
    }
    let amount: u32 = match world.borrow_entity_component(ComponentType::Coins, own_entity) {
        Some(Component::Coins(c)) => c.0,
        _ => {
            return Err(missing_component(own_entity, ComponentType::Coins));
        },
    };
    if amount == 0 {
        return Ok(());
    }
    let templates = resources.get_entity_templates(SpawnableID(GOLD_PILE_SPAWNABLE));
    let first = world.spawn_from_templates(&templates, map.depth, location, resources);
    let ghost middle = world@;
    assert(passed(middle, first));
    let gold_pile = match first {
        Ok(pile) => pile,
        Err(e) => {
            assert(passed(middle, first));
            return Err(e);
        },
    };
    proof {
        world.lemma_wf();
    }
    if !world.has_component(ComponentType::Coins, gold_pile) {
        return Err(missing_component(gold_pile, ComponentType::Coins));
    }
    let _ = world.add_component(gold_pile, Component::Coins(Coins(amount)));
    Ok(())
}

fn response_parts_of(component: &Component) -> (parts: Option<ResponseParts>)
    ensures
        parts == component@.response_parts(),
{
    match component {
        Component::AttackResponse(r) => Some(
            ResponseParts { args: r.args, msg_args: r.msg_args.clone(), response: r.response },
        ),
        Component::ShootResponse(r) => Some(
            ResponseParts { args: r.args, msg_args: r.msg_args.clone(), response: r.response },
        ),
        Component::SpellResponse(r) => Some(
            ResponseParts { args: r.args, msg_args: r.msg_args.clone(), response: r.response },
        ),
        Component::NoiseResponse(r) => Some(
            ResponseParts { args: r.args, msg_args: r.msg_args.clone(), response: r.response },
        ),
        Component::InteractResponse(r) => Some(
            ResponseParts { args: r.args, msg_args: r.msg_args.clone(), response: r.response },
        ),
        Component::PickupResponse(r) => Some(
            ResponseParts { args: r.args, msg_args: r.msg_args.clone(), response: r.response },
        ),
        Component::DeathResponse(r) => Some(
            ResponseParts { args: r.args, msg_args: r.msg_args.clone(), response: r.response },
        ),
        _ => None,
    }
}

/// The state that the three hold.
pub open spec fn state_of(world: &World, map: &GameMap, log: &MessageLog) -> GameState {
    GameState { world: world@, explored: map.explored@, log: log@ }
}

/// Applies `event` to `target` in the name of `source`.
fn forward(
    event: &Event,
    world: &mut World,
    map: &GameMap,
    log: &mut MessageLog,
    source: usize,
    target: usize,
    args: &Arguments,
    msg_args: &MessageArguments,
) -> (r: Result<(), Error>)
    requires
        old(world).wf(),
    ensures
        final(world).wf(),
        final(world)@.entity_count == old(world)@.entity_count,
        forwarded(
            *event,
            state_of(old(world), map, old(log)),
            state_of(final(world), map, final(log)),
            source,
            target,
            *args,
            msg_args@,
            r,
        ),
{
    event.apply(world, log, source, target, args, msg_args)
}

/// The default reaction: the event is applied to the responding entity.
pub fn respond_default(
    event: &Event,
    world: &mut World,
    map: &mut GameMap,
    log: &mut MessageLog,
    entity: usize,
    args: &Arguments,
    msg_args: &MessageArguments,
) -> (r: Result<(), Error>)
    requires
        old(world).wf(),
    ensures
        final(world).wf(),
        final(world)@.entity_count == old(world)@.entity_count,
        *final(map) == *old(map),
        forwarded(
            *event,
            state_of(old(world), old(map), old(log)),
            state_of(final(world), final(map), final(log)),
            event.spec_source(),
            entity,
            *args,
            msg_args@,
            r,
        ),
{
    forward(event, world, map, log, event.source(), entity, args, msg_args)
}

/// The reflecting reaction: the event is applied to its own source, and
/// told as reflected by the responding entity.
pub fn respond_reflect(
    event: &Event,
    world: &mut World,
    map: &mut GameMap,
    log: &mut MessageLog,
    entity: usize,
    args: &Arguments,
    msg_args: &MessageArguments,
) -> (r: Result<(), Error>)
    requires
        old(world).wf(),
    ensures
        final(world).wf(),
        final(world)@.entity_count == old(world)@.entity_count,
        *final(map) == *old(map),
        forwarded(
            *event,
            state_of(old(world), old(map), old(log)),
            state_of(final(world), final(map), final(log)),
            event.spec_source(),
            event.spec_source(),
            *args,
            reflected(msg_args@, entity),
            r,
        ),
{
    let mut reflect_msg_args = msg_args.clone();
    reflect_msg_args.attack_message = Some(String::from_str("reflected your attack"));
    reflect_msg_args.attacker = Some(entity);
    assert(reflect_msg_args@ == reflected(msg_args@, entity));
    forward(event, world, map, log, event.source(), event.source(), args, &reflect_msg_args)
}

/// The reaction of a door that is closed: it opens, the room around it is
/// lit, the noise of it goes out, and the event is applied to the source in
/// the name of the door.
pub fn respond_open_door(
    event: &Event,
    world: &mut World,
    map: &mut GameMap,
    resources: &ResourceManager,
    log: &mut MessageLog,
    entity: usize,
    args: &Arguments,
    msg_args: &MessageArguments,
    depth: u32,
) -> (r: Result<(), Error>)
    requires
        old(world).wf(),
    ensures
        final(world).wf(),
        final(world)@.entity_count >= old(world)@.entity_count,
        final(map).same_ground(old(map)),
        door_opens(
            old(map).ground(),
            resources,
            *event,
            entity,
            *args,
            msg_args@,
            state_of(old(world), old(map), old(log)),
            state_of(final(world), final(map), final(log)),
            r,
            depth as nat,
        ),
    decreases depth, 2nat, 0nat,
{
    let ghost pre = state_of(world, map, log);
    let ghost ground = map.ground();
    change_collision(entity, Passable::Walk, world)?;
    change_sight_blocking(entity, Los::Clear, world)?;
    change_interact_response(entity, ResponseFuctionName::Close, world)?;
    change_image_state(entity, "open", world)?;
    let ghost opened = state_of(world, map, log);
    assert(opened.world == door_opened(pre.world, entity).world);
    let second = explore_room_of_entity(entity, world, map, resources);
    let ghost seen = state_of(world, map, log);
    assert(room_explored(ground, resources, entity, opened, seen, second));
    assert(passed(seen, second));
    if let Err(e) = second {
        return Err(e);
    }
    let third = make_noise(OPENING_NOISE, entity, world, map, resources, log, depth);
    let ghost heard = state_of(world, map, log);
    assert(noise_made(ground, resources, OPENING_NOISE, entity, seen, heard, third, depth as nat));
    assert(passed(heard, third));
    if let Err(e) = third {
        assert(noise_then_forward(
            ground,
            resources,
            *event,
            entity,
            *args,
            msg_args@,
            seen,
            heard,
            third,
            depth as nat,
        ));
        return Err(e);
    }
    let r = forward(event, world, map, log, entity, event.source(), args, msg_args);
    assert(noise_then_forward(
        ground,
        resources,
        *event,
        entity,
        *args,
        msg_args@,
        seen,
        state_of(world, map, log),
        r,
        depth as nat,
    ));
    r
}

/// The reaction of a chest: it gives its coins to the source, the noise of
/// it goes out, it shows as open and reacts by default from now on, and the
/// event is applied to the source in the name of the chest.
pub fn respond_open_chest(
    event: &Event,
    world: &mut World,
    map: &mut GameMap,
    resources: &ResourceManager,
    log: &mut MessageLog,
    entity: usize,
    args: &Arguments,
    msg_args: &MessageArguments,
    depth: u32,
) -> (r: Result<(), Error>)
    requires
        old(world).wf(),
    ensures
        final(world).wf(),
        final(world)@.entity_count >= old(world)@.entity_count,
        final(map).same_ground(old(map)),
        chest_opens(
            old(map).ground(),
            resources,
            *event,
            entity,
            *args,
            msg_args@,
            state_of(old(world), old(map), old(log)),
            state_of(final(world), final(map), final(log)),
            r,
            depth as nat,
        ),
    decreases depth, 2nat, 0nat,
{
    let ghost pre = state_of(world, map, log);
    let ghost ground = map.ground();
    give_coins(entity, event.source(), world, log)?;
    let ghost paid = state_of(world, map, log);
    let second = make_noise(OPENING_NOISE, entity, world, map, resources, log, depth);
    let ghost heard = state_of(world, map, log);
    assert(noise_made(ground, resources, OPENING_NOISE, entity, paid, heard, second, depth as nat));
    assert(passed(heard, second));
    assert(paid == (GameState {
        world: coins_given(pre.told(), entity, event.spec_source()).world,
        explored: pre.explored,
        log: coins_given(pre.told(), entity, event.spec_source()).log,
    }));
    if let Err(e) = second {
        return Err(e);
    }
    let third = change_image_state(entity, "open", world);
    if let Err(e) = third {
        return Err(e);
    }
    let fourth = change_interact_response(entity, ResponseFuctionName::Default, world);
    if let Err(e) = fourth {
        return Err(e);
    }
    forward(event, world, map, log, entity, event.source(), args, msg_args)
}

/// The reaction of a door that is open: it closes, and the event is
/// applied to the source in the name of the door.
pub fn respond_close(
    event: &Event,
    world: &mut World,
    map: &mut GameMap,
    log: &mut MessageLog,
    entity: usize,
    args: &Arguments,
    msg_args: &MessageArguments,
) -> (r: Result<(), Error>)
    requires
        old(world).wf(),
    ensures
        final(world).wf(),
        final(world)@.entity_count == old(world)@.entity_count,
        *final(map) == *old(map),
        door_closes(
            *event,
            entity,
            *args,
            msg_args@,
            state_of(old(world), old(map), old(log)),
            state_of(final(world), final(map), final(log)),
            r,
        ),
{
    change_collision(entity, Passable::Impassable, world)?;
    change_sight_blocking(entity, Los::Block, world)?;
    change_interact_response(entity, ResponseFuctionName::OpenDoor, world)?;
    change_image_state(entity, "closed", world)?;
    forward(event, world, map, log, entity, event.source(), args, msg_args)
}

/// The reaction that lights the room around the responding entity, and
/// then applies the event to the source in the name of the entity.
pub fn respond_reveal_room(
    event: &Event,
    world: &mut World,
    map: &mut GameMap,
    resources: &ResourceManager,
    log: &mut MessageLog,
    entity: usize,
    args: &Arguments,
    msg_args: &MessageArguments,
) -> (r: Result<(), Error>)
    requires
        old(world).wf(),
    ensures
        final(world).wf(),
        final(world)@.entity_count == old(world)@.entity_count,
        final(map).same_ground(old(map)),
        room_revealed(
            old(map).ground(),
            resources,
            *event,
            entity,
            *args,
            msg_args@,
            state_of(old(world), old(map), old(log)),
            state_of(final(world), final(map), final(log)),
            r,
        ),
{
    let ghost pre = state_of(world, map, log);
    let ghost ground = map.ground();
    let first = explore_room_of_entity(entity, world, map, resources);
    let ghost seen = state_of(world, map, log);
    assert(room_explored(ground, resources, entity, pre, seen, first));
    assert(passed(seen, first));
    if let Err(e) = first {
        return Err(e);
    }
    forward(event, world, map, log, entity, event.source(), args, msg_args)
}

/// The reaction of something that is picked up: it gives its coins to the
/// source, the event is applied to the source in its name, and it loses all
/// of its components.
pub fn respond_pickup(
    event: &Event,
    world: &mut World,
    map: &mut GameMap,
    log: &mut MessageLog,
    entity: usize,
    args: &Arguments,
    msg_args: &MessageArguments,
) -> (r: Result<(), Error>)
    requires
        old(world).wf(),
    ensures
        final(world).wf(),
        final(world)@.entity_count == old(world)@.entity_count,
        *final(map) == *old(map),
        picked_up(
            *event,
            entity,
            *args,
            msg_args@,
            state_of(old(world), old(map), old(log)),
            state_of(final(world), final(map), final(log)),
            r,
        ),
{
    let ghost pre = state_of(world, map, log);
    proof {
        world.lemma_wf();
    }
    give_coins(entity, event.source(), world, log)?;
    let ghost paid = state_of(world, map, log);
    assert(entity < pre.world.entity_count);
    let second = forward(event, world, map, log, entity, event.source(), args, msg_args);
    let ghost applied = state_of(world, map, log);
    assert(forwarded(*event, paid, applied, entity, event.spec_source(), *args, msg_args@, second));
    assert(passed(applied, second));
    assert(paid == (GameState {
        world: coins_given(pre.told(), entity, event.spec_source()).world,
        explored: pre.explored,
        log: coins_given(pre.told(), entity, event.spec_source()).log,
    }));
    if let Err(e) = second {
        return Err(e);
    }
    let _ = world.remove_entity(entity);
    Ok(())
}

/// The reaction that drops the coins of the responding entity where it
/// stands, and then applies the event to the source in the name of the
/// entity. An entity without a position drops nothing.
pub fn respond_drop(
    event: &Event,
    world: &mut World,
    map: &mut GameMap,
    resources: &ResourceManager,
    log: &mut MessageLog,
    entity: usize,
    args: &Arguments,
    msg_args: &MessageArguments,
) -> (r: Result<(), Error>)
    requires
        old(world).wf(),
    ensures
        final(world).wf(),
        final(world)@.entity_count >= old(world)@.entity_count,
        *final(map) == *old(map),
        inventory_dropped(
            old(map).ground(),
            resources,
            *event,
            entity,
            *args,
            msg_args@,
            state_of(old(world), old(map), old(log)),
            state_of(final(world), final(map), final(log)),
            r,
        ),
{
    let ghost pre = state_of(world, map, log);
    if let Some(location) = world.position_of(entity) {
        let first = drop_coins(entity, location, world, map, resources);
        let ghost dropped = world@;
        assert(coins_dropped(map.ground(), resources, entity, location, pre.world, dropped, first));
        assert(passed(dropped, first));
        if let Err(e) = first {
            return Err(e);
        }
    }
    forward(event, world, map, log, entity, event.source(), args, msg_args)
}

/// The reaction that gives the source all the experience that its level
/// asks for, and then applies the event to the source in the name of the
/// responding entity.
pub fn respond_levelup(
    event: &Event,
    world: &mut World,
    map: &mut GameMap,
    log: &mut MessageLog,
    entity: usize,
    args: &Arguments,
    msg_args: &MessageArguments,
) -> (r: Result<(), Error>)
    requires
        old(world).wf(),
    ensures
        final(world).wf(),
        final(world)@.entity_count == old(world)@.entity_count,
        *final(map) == *old(map),
        forwarded(
            *event,
            GameState {
                world: full_xp_given(old(world)@, event.spec_source()),
                ..state_of(old(world), old(map), old(log))
            },
            state_of(final(world), final(map), final(log)),
            entity,
            event.spec_source(),
            *args,
            msg_args@,
            r,
        ),
{
    let _ = give_full_xp(entity, event.source(), world);
    forward(event, world, map, log, entity, event.source(), args, msg_args)
}

/// Sends a noise of the given magnitude, made by `own_entity`, to every
/// entity of its region.
pub fn make_noise(
    magnitude: u32,
    own_entity: usize,
    world: &mut World,
    map: &mut GameMap,
    resources: &ResourceManager,
    log: &mut MessageLog,
    depth: u32,
) -> (r: Result<(), Error>)
    requires
        old(world).wf(),
    ensures
        final(world).wf(),
        final(world)@.entity_count >= old(world)@.entity_count,
        final(map).same_ground(old(map)),
        noise_made(
            old(map).ground(),
            resources,
            magnitude,
            own_entity,
            state_of(old(world), old(map), old(log)),
            state_of(final(world), final(map), final(log)),
            r,
            depth as nat,
        ),
    decreases depth, 1nat, 0nat,
{
    let event = Event::Noise(NoiseEvent::new(own_entity, magnitude));
    let location = match world.position_of(own_entity) {
        Some(c) => c,
        None => {
            return Err(missing_component(own_entity, ComponentType::Position));
        },
    };
    let room = world.get_room_at_coordinate(location);
    let entities = room.duplicate();
    assert(entities.entities@.subrange(0, entities.entities@.len() as int) =~= entities.entities@);
    send_to_each(&event, &entities.entities, 0, world, map, resources, log, depth)
}

fn send_to_each(
    event: &Event,
    entities: &Vec<usize>,
    from: usize,
    world: &mut World,
    map: &mut GameMap,
    resources: &ResourceManager,
    log: &mut MessageLog,
    depth: u32,
) -> (r: Result<(), Error>)
    requires
        old(world).wf(),
        from <= entities@.len(),
    ensures
        final(world).wf(),
        final(world)@.entity_count >= old(world)@.entity_count,
        final(map).same_ground(old(map)),
        noise_sent(
            old(map).ground(),
            resources,
            *event,
            entities@.subrange(from as int, entities@.len() as int),
            state_of(old(world), old(map), old(log)),
            state_of(final(world), final(map), final(log)),
            r,
            depth as nat,
        ),
    decreases depth, 0nat, entities@.len() - from,
{
    let ghost rest = entities@.subrange(from as int, entities@.len() as int);
    let ghost pre = state_of(world, map, log);
    let ghost ground = map.ground();
    if from >= entities.len() {
        return Ok(());
    }
    if depth == 0 {
        return Err(Error::CascadeTooDeep);
    }
    assert(rest[0] == entities@[from as int]);
    assert(rest.drop_first() =~= entities@.subrange(from as int + 1, entities@.len() as int));
    let first = dispatch(event, entities[from], world, map, resources, log, depth - 1);
    let ghost middle = state_of(world, map, log);
    assert(dispatched(ground, resources, *event, rest[0], pre, middle, first, (depth - 1) as nat));
    assert(passed(middle, first));
    if let Err(e) = first {
        return Err(e);
    }
    send_to_each(event, entities, from + 1, world, map, resources, log, depth)
}

/// The reaction that `parts` names, of `entity` to `event`.
pub fn respond(
    event: &Event,
    world: &mut World,
    map: &mut GameMap,
    resources: &ResourceManager,
    log: &mut MessageLog,
    entity: usize,
    parts: &ResponseParts,
    depth: u32,
) -> (r: Result<(), Error>)
    requires
        old(world).wf(),
    ensures
        final(world).wf(),
        final(world)@.entity_count >= old(world)@.entity_count,
        final(map).same_ground(old(map)),
        responded(
            old(map).ground(),
            resources,
            *event,
            entity,
            *parts,
            state_of(old(world), old(map), old(log)),
            state_of(final(world), final(map), final(log)),
            r,
            depth as nat,
        ),
    decreases depth, 2nat, 1nat,
{
    let args = &parts.args;
    let msg_args = &parts.msg_args;
    match parts.response {
        ResponseFuctionName::Ignore => Ok(()),
        ResponseFuctionName::Default => respond_default(
            event,
            world,
            map,
            log,
            entity,
            args,
            msg_args,
        ),
        ResponseFuctionName::ReflectAll => respond_reflect(
            event,
            world,
            map,
            log,
            entity,
            args,
            msg_args,
        ),
        ResponseFuctionName::ReflectSome(chance) => {
            let reflect = if chance >= 1000 {
                true
            } else {
                random_ratio(chance, 1000)
            };
            if reflect {
                respond_reflect(event, world, map, log, entity, args, msg_args)
            } else {
                respond_default(event, world, map, log, entity, args, msg_args)
            }
        },
        ResponseFuctionName::OpenDoor => respond_open_door(
            event,
            world,
            map,
            resources,
            log,
            entity,
            args,
            msg_args,
            depth,
        ),
        ResponseFuctionName::OpenChest => respond_open_chest(
            event,
            world,
            map,
            resources,
            log,
            entity,
            args,
            msg_args,
            depth,
        ),
        ResponseFuctionName::RevealRoom => respond_reveal_room(
            event,
            world,
            map,
            resources,
            log,
            entity,
            args,
            msg_args,
        ),
        ResponseFuctionName::Close => respond_close(event, world, map, log, entity, args, msg_args),
        ResponseFuctionName::Pickup => respond_pickup(
            event,
            world,
            map,
            log,
            entity,
            args,
            msg_args,
        ),
        ResponseFuctionName::GrantLevelUp => respond_levelup(
            event,
            world,
            map,
            log,
            entity,
            args,
            msg_args,
        ),
        ResponseFuctionName::DropInventory => respond_drop(
            event,
            world,
            map,
            resources,
            log,
            entity,
            args,
            msg_args,
        ),
    }
}

/// Sends `event` to `target`, where events may set each other off `depth`
/// deep.
pub fn dispatch(
    event: &Event,
    target: usize,
    world: &mut World,
    map: &mut GameMap,
    resources: &ResourceManager,
    log: &mut MessageLog,
    depth: u32,
) -> (r: Result<(), Error>)
    requires
        old(world).wf(),
    ensures
        final(world).wf(),
        final(world)@.entity_count >= old(world)@.entity_count,
        final(map).same_ground(old(map)),
        dispatched(
            old(map).ground(),
            resources,
            *event,
            target,
            state_of(old(world), old(map), old(log)),
            state_of(final(world), final(map), final(log)),
            r,
            depth as nat,
        ),
    decreases depth, 3nat, 0nat,
{
    let parts = match world.borrow_entity_component(event.response_type(), target) {
        None => {
            return Ok(());
        },
        Some(response) => match response_parts_of(response) {
            None => {
                return Ok(());
            },
            Some(parts) => parts,
        },
    };
    respond(event, world, map, resources, log, target, &parts, depth)
}

impl World {
    /// Sends `event` to `target`. The response of the target that matches
    /// the kind of the event names the reaction. A target without such a
    /// response absorbs the event: nothing happens, and that is a success.
    pub fn send_event(
        &mut self,
        map: &mut GameMap,
        resources: &ResourceManager,
        log: &mut MessageLog,
        event: &Event,
        target: usize,
    ) -> (r: Result<(), Error>)
        requires
            old(self).wf(),
        ensures
            final(self).wf(),
            final(self)@.entity_count >= old(self)@.entity_count,
            final(map).same_ground(old(map)),
            !old(self)@.has(event.spec_response_type(), target) ==> r is Ok
                && final(self)@ == old(self)@ && final(map).explored@ == old(map).explored@
                && final(log)@ == old(log)@,
            dispatched(
                old(map).ground(),
                resources,
                *event,
                target,
                state_of(old(self), old(map), old(log)),
                state_of(final(self), final(map), final(log)),
                r,
                MAX_CASCADE_DEPTH as nat,
            ),
    {
        dispatch(event, target, self, map, resources, log, MAX_CASCADE_DEPTH)
    }
}

/// An event that is sent to a target without a response of its kind is
/// absorbed: that is a success, and nothing changes.
pub proof fn lemma_silent_absence(
    map: Ground,
    resources: &ResourceManager,
    event: Event,
    target: usize,
    pre: GameState,
    post: GameState,
    r: Result<(), Error>,
    depth: nat,
)
    requires
        !pre.world.has(event.spec_response_type(), target),
        dispatched(map, resources, event, target, pre, post, r, depth),
    ensures
        r is Ok,
        post == pre,
{
}

/// Where the target of an attack throws every attack back, the attack
/// strikes its own source: the hit points of the target stay, the source
/// loses the damage, and the message names the target as the one who acts
/// and says that it reflected the attack.
pub proof fn lemma_reflect_semantics(
    map: Ground,
    resources: &ResourceManager,
    source: usize,
    target: usize,
    pre: GameState,
    post: GameState,
    depth: nat,
)
    requires
        pre.world.wf(),
        source != target,
        pre.world.component(ComponentType::AttackResponse, target) matches Some(
            ComponentView::AttackResponse(response),
        ) && response.response == ResponseFuctionName::ReflectAll,
        dispatched(
            map,
            resources,
            Event::Attack(super::combat_events::AttackEvent { source }),
            target,
            pre,
            post,
            Ok::<(), Error>(()),
            depth,
        ),
    ensures
        post.world.component(ComponentType::Health, target) == pre.world.component(
            ComponentType::Health,
            target,
        ),
        exists|rolled: u32| #[trigger]
            passed(rolled, source) && post.told() == super::combat_events::attack_outcome(
                pre.told(),
                source,
                source,
                crate::component::combat::AttackType::Melee,
                pre.world.component(ComponentType::AttackResponse, target)->0->AttackResponse_0.args,
                reflected(
                    pre.world.component(
                        ComponentType::AttackResponse,
                        target,
                    )->0->AttackResponse_0.msg_args@,
                    target,
                ),
                rolled,
            ),
{
    let response = pre.world.component(ComponentType::AttackResponse, target)->0->AttackResponse_0;
    let event = Event::Attack(super::combat_events::AttackEvent { source });
    assert(pre.world.component(event.spec_response_type(), target)->0.response_parts()
        == Some(response.parts()));
    assert(responded(
        map,
        resources,
        event,
        target,
        response.parts(),
        pre,
        post,
        Ok::<(), Error>(()),
        depth,
    ));
    let args = response.args;
    let msg_args = reflected(response.msg_args@, target);
    assert(super::combat_events::attack_applies(
        pre.told(),
        post.told(),
        source,
        source,
        crate::component::combat::AttackType::Melee,
        args,
        msg_args,
        Ok::<(), Error>(()),
    ));
    let rolled = choose|rolled: u32|
        post.told() == #[trigger] super::combat_events::attack_outcome(
            pre.told(),
            source,
            source,
            crate::component::combat::AttackType::Melee,
            args,
            msg_args,
            rolled,
        );
    assert(passed(rolled, source));
    assert(pre.world.columns.contains_key(ComponentType::Health));
    assert(source < pre.world.entity_count);
}

} // verus!
