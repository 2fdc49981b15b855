use rogue_core::component::attributes::{Attributes, Xp, XpStatus};
use rogue_core::component::behavior::{Behavior, BehaviorName, BehaviorState};
use rogue_core::component::combat::{Attack, AttackType, Combat, DamageRange};
use rogue_core::component::health::Health;
use rogue_core::component::image::ImageState;
use rogue_core::component::items::Coins;
use rogue_core::component::responses::{
    AttackResponse, DeathResponse, InteractResponse, NoiseResponse, PickupResponse,
    ShootResponse, SpellResponse,
};
use rogue_core::component::{
    Collision, Component, ComponentType, Name, Position, SightBlocking,
};
use rogue_core::error::Error;
use rogue_core::event::combat_events::{
    apply_attack, apply_attack_with, scale_damage, AttackEvent, DeathEvent, ShootEvent,
};
use rogue_core::event::interact_events::{InteractEvent, PickupEvent};
use rogue_core::event::named_arguments::parse_number;
use rogue_core::event::response_functions::{
    change_image_state, dispatch, give_coins, MAX_CASCADE_DEPTH,
};
use rogue_core::event::spell_events::{SpellEffect, SpellEvent};
use rogue_core::event::stealth_events::{try_wake_up, NoiseEvent};
use rogue_core::event::{Arguments, Event, MessageArguments, ResponseFuctionName};
use rogue_core::logger::MessageLog;
use rogue_core::map::boxextends::BoxExtends;
use rogue_core::map::room::{EntityGraph, Room};
use rogue_core::map::tile::{GameTile, Los, Passable};
use rogue_core::map::utils::Coordinate;
use rogue_core::map::GameMap;
use rogue_core::resources::id::{ImageID, SpawnableID, TileID};
use rogue_core::resources::{ResourceManager, GOLD_PILE_SPAWNABLE};
use rogue_core::spawning::entitytemplate::{
    CoreTemplate, EntityTemplateEnum, InventoryTemplate, PickupTemplate,
};
use rogue_core::world::World;

fn boxed(x0: i32, y0: i32, x1: i32, y1: i32) -> BoxExtends {
    BoxExtends {
        top_left: Coordinate { x: x0, y: y0 },
        bottom_right: Coordinate { x: x1, y: y1 },
    }
}

fn at(x: i32, y: i32) -> Coordinate {
    Coordinate { x, y }
}

struct Setup {
    world: World,
    map: GameMap,
    resources: ResourceManager,
    log: MessageLog,
}

fn setup() -> Setup {
    let mut tree = EntityGraph::new(boxed(0, 0, 31, 17));
    assert!(tree.split(0, boxed(0, 0, 15, 17), boxed(16, 0, 31, 17)));
    let mut map = GameMap::new(32, 18);
    map.depth = 1;
    Setup {
        world: World::new_with(tree),
        map,
        resources: ResourceManager::new(),
        log: MessageLog::new(),
    }
}

fn health_of(world: &World, entity: usize) -> Health {
    match world.borrow_entity_component(ComponentType::Health, entity) {
        Some(Component::Health(h)) => *h,
        _ => panic!("health expected"),
    }
}

fn coins_of(world: &World, entity: usize) -> u32 {
    match world.borrow_entity_component(ComponentType::Coins, entity) {
        Some(Component::Coins(c)) => c.0,
        _ => panic!("coins expected"),
    }
}

fn fighter(s: &mut Setup, name: &str, min: u32, max: u32, hp: u32) -> usize {
    let e = s.world.new_entity();
    s.world
        .add_component(e, Component::Name(Name(name.to_string())))
        .unwrap();
    s.world
        .add_component(e, Component::Combat(Combat::new_melee(Attack::new_melee(min, max))))
        .unwrap();
    s.world.add_component(e, Component::Health(Health::new(hp))).unwrap();
    e
}

fn drain(log: &mut MessageLog) -> Vec<String> {
    let mut out = Vec::new();
    while let Some(m) = log.next_message() {
        out.push(m);
    }
    out
}

#[test]
fn an_event_without_a_matching_response_is_absorbed() {
    let mut s = setup();
    let a = fighter(&mut s, "A", 3, 3, 10);
    let b = fighter(&mut s, "B", 3, 3, 10);
    // B has a response, but to shots only
    s.world
        .add_component(b, Component::ShootResponse(ShootResponse::default()))
        .unwrap();
    let event = Event::Attack(AttackEvent::new(a));
    let r = s.world.send_event(&mut s.map, &s.resources, &mut s.log, &event, b);
    assert_eq!(r, Ok(()));
    assert_eq!(health_of(&s.world, a), Health(10, 10));
    assert_eq!(health_of(&s.world, b), Health(10, 10));
    assert!(drain(&mut s.log).is_empty());
    // a target that was never created is absorbed as well
    let r = s.world.send_event(&mut s.map, &s.resources, &mut s.log, &event, 99);
    assert_eq!(r, Ok(()));
}

#[test]
fn an_attack_with_the_default_response_hurts_the_target() {
    let mut s = setup();
    let a = fighter(&mut s, "A", 8, 14, 10);
    let b = fighter(&mut s, "B", 1, 1, 10);
    s.world
        .add_component(b, Component::AttackResponse(AttackResponse::default()))
        .unwrap();
    let event = Event::Attack(AttackEvent::new(a));
    let r = s.world.send_event(&mut s.map, &s.resources, &mut s.log, &event, b);
    assert_eq!(r, Ok(()));
    let after = health_of(&s.world, b);
    assert!(after.0 <= 2);
    assert_eq!(after.1, 10);
    assert_eq!(health_of(&s.world, a), Health(10, 10));
    let messages = drain(&mut s.log);
    assert_eq!(messages.len(), 1);
    assert!(messages[0].starts_with("A attacked B for "));
}

#[test]
fn a_reflected_attack_hurts_its_source() {
    let mut s = setup();
    let a = fighter(&mut s, "A", 4, 4, 10);
    let b = fighter(&mut s, "B", 1, 1, 10);
    s.world
        .add_component(b, Component::AttackResponse(AttackResponse::new_reflect()))
        .unwrap();
    let event = Event::Attack(AttackEvent::new(a));
    let r = s.world.send_event(&mut s.map, &s.resources, &mut s.log, &event, b);
    assert_eq!(r, Ok(()));
    assert_eq!(health_of(&s.world, a), Health(6, 10));
    assert_eq!(health_of(&s.world, b), Health(10, 10));
    assert_eq!(drain(&mut s.log), vec!["B reflected your attack A for 4 damage. ".to_string()]);
}

#[test]
fn reflect_with_a_chance_of_nothing_and_of_everything() {
    let mut s = setup();
    let a = fighter(&mut s, "A", 4, 4, 10);
    let b = fighter(&mut s, "B", 1, 1, 10);
    let mut response = AttackResponse::default();
    response.response = ResponseFuctionName::ReflectSome(0);
    s.world.add_component(b, Component::AttackResponse(response)).unwrap();
    let event = Event::Attack(AttackEvent::new(a));
    for _ in 0..20 {
        s.world
            .add_component(a, Component::Health(Health::new(10)))
            .unwrap();
        s.world
            .add_component(b, Component::Health(Health::new(10)))
            .unwrap();
        s.world
            .send_event(&mut s.map, &s.resources, &mut s.log, &event, b)
            .unwrap();
        assert_eq!(health_of(&s.world, a), Health(10, 10));
        assert_eq!(health_of(&s.world, b), Health(6, 10));
    }
    let mut response = AttackResponse::default();
    response.response = ResponseFuctionName::ReflectSome(1000);
    s.world.add_component(b, Component::AttackResponse(response)).unwrap();
    for _ in 0..20 {
        s.world
            .add_component(a, Component::Health(Health::new(10)))
            .unwrap();
        s.world
            .add_component(b, Component::Health(Health::new(10)))
            .unwrap();
        s.world
            .send_event(&mut s.map, &s.resources, &mut s.log, &event, b)
            .unwrap();
        assert_eq!(health_of(&s.world, a), Health(6, 10));
        assert_eq!(health_of(&s.world, b), Health(10, 10));
    }
}

#[test]
fn the_ignoring_response_handles_the_event_without_applying_it() {
    let mut s = setup();
    let a = fighter(&mut s, "A", 4, 4, 10);
    let b = fighter(&mut s, "B", 1, 1, 10);
    let mut response = AttackResponse::default();
    response.response = ResponseFuctionName::Ignore;
    s.world.add_component(b, Component::AttackResponse(response)).unwrap();
    let event = Event::Attack(AttackEvent::new(a));
    let r = s.world.send_event(&mut s.map, &s.resources, &mut s.log, &event, b);
    assert_eq!(r, Ok(()));
    assert_eq!(health_of(&s.world, b), Health(10, 10));
    assert!(drain(&mut s.log).is_empty());
}

#[test]
fn the_override_goes_before_the_lasting_multiplier() {
    let mut s = setup();
    let a = fighter(&mut s, "A", 1, 1, 100);
    let b = fighter(&mut s, "B", 1, 1, 100);
    let both = Arguments {
        damage_multiplier: Some(500),
        damage_multiplier_override: Some(3000),
    };
    let msg = MessageArguments::new();
    let r = apply_attack_with(&mut s.world, &mut s.log, a, b, AttackType::Melee, &both, &msg, 10);
    assert_eq!(r, Ok(()));
    assert_eq!(health_of(&s.world, b), Health(70, 100));
    assert_eq!(
        drain(&mut s.log),
        vec!["A attacked B for 30 damage. It's very effective.".to_string()]
    );
    let lasting = Arguments { damage_multiplier: Some(500), damage_multiplier_override: None };
    let r =
        apply_attack_with(&mut s.world, &mut s.log, a, b, AttackType::Melee, &lasting, &msg, 10);
    assert_eq!(r, Ok(()));
    assert_eq!(health_of(&s.world, b), Health(65, 100));
    assert_eq!(
        drain(&mut s.log),
        vec!["A attacked B for 5 damage. It seems to have little effect.".to_string()]
    );
    let none = Arguments::new();
    let r = apply_attack_with(&mut s.world, &mut s.log, a, b, AttackType::Melee, &none, &msg, 10);
    assert_eq!(r, Ok(()));
    assert_eq!(health_of(&s.world, b), Health(55, 100));
    assert_eq!(drain(&mut s.log), vec!["A attacked B for 10 damage. ".to_string()]);
}

#[test]
fn message_arguments_shape_the_message() {
    let mut s = setup();
    let a = fighter(&mut s, "A", 1, 1, 100);
    let b = fighter(&mut s, "B", 1, 1, 100);
    let nameless = s.world.new_entity();
    let args = Arguments::new();
    let mut msg = MessageArguments::new();
    msg.attacker = Some(nameless);
    msg.attack_message = Some("bit".to_string());
    msg.addendum = Some("You are now poisoned.".to_string());
    apply_attack_with(&mut s.world, &mut s.log, a, b, AttackType::Melee, &args, &msg, 3).unwrap();
    assert_eq!(
        drain(&mut s.log),
        vec!["Someone bit B for 3 damage. You are now poisoned.".to_string()]
    );
    msg.addendum_override = Some("Ouch.".to_string());
    let strong = Arguments { damage_multiplier: Some(2000), damage_multiplier_override: None };
    apply_attack_with(&mut s.world, &mut s.log, a, b, AttackType::Melee, &strong, &msg, 3).unwrap();
    assert_eq!(drain(&mut s.log), vec!["Someone bit B for 6 damage. Ouch.".to_string()]);
}

#[test]
fn attack_failures() {
    let mut s = setup();
    let bare = s.world.new_entity();
    let target = s.world.new_entity();
    let args = Arguments::new();
    let msg = MessageArguments::new();
    assert_eq!(
        apply_attack(&mut s.world, &mut s.log, bare, target, AttackType::Melee, &args, &msg),
        Err(Error::MissingComponent { entity: bare, component: ComponentType::Combat })
    );
    s.world
        .add_component(bare, Component::Combat(Combat::new_melee(Attack::new_melee(2, 2))))
        .unwrap();
    assert_eq!(
        apply_attack(&mut s.world, &mut s.log, bare, target, AttackType::Ranged, &args, &msg),
        Err(Error::NoAttack(AttackType::Ranged))
    );
    assert_eq!(
        apply_attack(&mut s.world, &mut s.log, bare, target, AttackType::Melee, &args, &msg),
        Err(Error::MissingColumn(ComponentType::Health))
    );
    s.world.add_component(bare, Component::Health(Health::new(1))).unwrap();
    assert_eq!(
        apply_attack(&mut s.world, &mut s.log, bare, target, AttackType::Melee, &args, &msg),
        Err(Error::MissingComponent { entity: target, component: ComponentType::Health })
    );
    s.world
        .add_component(bare, Component::Combat(Combat::new_melee(Attack::new_melee(5, 2))))
        .unwrap();
    assert_eq!(
        apply_attack(&mut s.world, &mut s.log, bare, bare, AttackType::Melee, &args, &msg),
        Err(Error::EmptyRange)
    );
    assert!(drain(&mut s.log).is_empty());
}

#[test]
fn damage_is_floored_at_zero_health() {
    let mut s = setup();
    let a = fighter(&mut s, "A", 1, 1, 100);
    let b = fighter(&mut s, "B", 1, 1, 10);
    let args = Arguments::new();
    let msg = MessageArguments::new();
    apply_attack_with(&mut s.world, &mut s.log, a, b, AttackType::Melee, &args, &msg, 14).unwrap();
    assert_eq!(health_of(&s.world, b), Health(0, 10));
}

#[test]
fn scaling_damage() {
    assert_eq!(scale_damage(10, 1000), 10);
    assert_eq!(scale_damage(10, 500), 5);
    assert_eq!(scale_damage(7, 500), 3);
    assert_eq!(scale_damage(7, 0), 0);
    assert_eq!(scale_damage(u32::MAX, 2000), u32::MAX);
    assert_eq!(scale_damage(3, 1500), 4);
}

#[test]
fn attributes_raise_the_damage_of_an_attack() {
    let mut s = setup();
    let a = fighter(&mut s, "A", 1, 1, 100);
    let b = fighter(&mut s, "B", 1, 1, 100);
    s.world
        .add_component(a, Component::Attributes(Attributes { might: 6, wit: 1, skill: 1 }))
        .unwrap();
    let args = Arguments::new();
    let msg = MessageArguments::new();
    // five points of might above the minimum add 12
    apply_attack_with(&mut s.world, &mut s.log, a, b, AttackType::Melee, &args, &msg, 10).unwrap();
    assert_eq!(health_of(&s.world, b), Health(78, 100));
}

fn door(s: &mut Setup, position: Coordinate) -> usize {
    let e = s.world.new_entity();
    s.world
        .add_component(e, Component::Collision(Collision(Passable::Impassable)))
        .unwrap();
    s.world
        .add_component(e, Component::SightBlocking(SightBlocking(Los::Block)))
        .unwrap();
    let mut response = InteractResponse::default();
    response.response = ResponseFuctionName::OpenDoor;
    s.world.add_component(e, Component::InteractResponse(response)).unwrap();
    let mut states = ImageState::new();
    states.add_state("open", ImageID(7));
    states.add_state("closed", ImageID(8));
    states.current = "closed".to_string();
    s.world.add_component(e, Component::ImageState(states)).unwrap();
    s.world.add_component(e, Component::ImageID(ImageID(8))).unwrap();
    s.world.add_position(e, Position::new(position)).unwrap();
    e
}

fn collision_of(world: &World, e: usize) -> Passable {
    match world.borrow_entity_component(ComponentType::Collision, e) {
        Some(Component::Collision(c)) => c.0,
        _ => panic!("collision expected"),
    }
}

fn sight_of(world: &World, e: usize) -> Los {
    match world.borrow_entity_component(ComponentType::SightBlocking, e) {
        Some(Component::SightBlocking(c)) => c.0,
        _ => panic!("sight blocking expected"),
    }
}

fn image_of(world: &World, e: usize) -> usize {
    match world.borrow_entity_component(ComponentType::ImageID, e) {
        Some(Component::ImageID(i)) => i.0,
        _ => panic!("image expected"),
    }
}

fn reaction_of(world: &World, e: usize) -> ResponseFuctionName {
    match world.borrow_entity_component(ComponentType::InteractResponse, e) {
        Some(Component::InteractResponse(r)) => r.response,
        _ => panic!("response expected"),
    }
}

fn current_state(world: &World, e: usize) -> String {
    match world.borrow_entity_component(ComponentType::ImageState, e) {
        Some(Component::ImageState(s)) => s.current.clone(),
        _ => panic!("image state expected"),
    }
}

#[test]
fn a_door_opens_and_closes() {
    let mut s = setup();
    s.map.rooms.push(Room::new(boxed(2, 2, 6, 6)));
    let player = s.world.new_entity();
    s.world.add_position(player, Position::new(at(4, 5))).unwrap();
    let d = door(&mut s, at(4, 6));
    // a sleeper in the region of the door hears it open
    let sleeper = s.world.new_entity();
    s.world.add_position(sleeper, Position::new(at(3, 3))).unwrap();
    s.world
        .add_component(sleeper, Component::NoiseResponse(NoiseResponse::new(10)))
        .unwrap();
    s.world
        .add_component(
            sleeper,
            Component::Behavior(Behavior::new(BehaviorName::AggressiveMelee, None)),
        )
        .unwrap();

    let event = Event::Interact(InteractEvent { source: player });
    let r = s.world.send_event(&mut s.map, &s.resources, &mut s.log, &event, d);
    assert_eq!(r, Ok(()));
    assert_eq!(collision_of(&s.world, d), Passable::Walk);
    assert_eq!(sight_of(&s.world, d), Los::Clear);
    assert_eq!(image_of(&s.world, d), 7);
    assert_eq!(current_state(&s.world, d), "open");
    assert_eq!(reaction_of(&s.world, d), ResponseFuctionName::Close);
    // the room around the door is lit, walls included
    assert!(s.map.is_tile_explored(at(2, 2)));
    assert!(s.map.is_tile_explored(at(6, 6)));
    assert!(!s.map.is_tile_explored(at(7, 6)));
    match s.world.borrow_entity_component(ComponentType::Behavior, sleeper) {
        Some(Component::Behavior(b)) => assert_eq!(b.state, BehaviorState::Awake),
        _ => panic!("behavior expected"),
    }

    let r = s.world.send_event(&mut s.map, &s.resources, &mut s.log, &event, d);
    assert_eq!(r, Ok(()));
    assert_eq!(collision_of(&s.world, d), Passable::Impassable);
    assert_eq!(sight_of(&s.world, d), Los::Block);
    assert_eq!(image_of(&s.world, d), 8);
    assert_eq!(current_state(&s.world, d), "closed");
    assert_eq!(reaction_of(&s.world, d), ResponseFuctionName::OpenDoor);
}

#[test]
fn a_door_without_collision_does_not_open() {
    let mut s = setup();
    let player = s.world.new_entity();
    let d = door(&mut s, at(4, 6));
    s.world.remove_component(ComponentType::Collision, d).unwrap();
    let event = Event::Interact(InteractEvent { source: player });
    let r = s.world.send_event(&mut s.map, &s.resources, &mut s.log, &event, d);
    assert_eq!(
        r,
        Err(Error::MissingComponent { entity: d, component: ComponentType::Collision })
    );
    assert_eq!(sight_of(&s.world, d), Los::Block);
}

#[test]
fn a_failing_step_leaves_the_steps_before_it_done() {
    let mut s = setup();
    let player = s.world.new_entity();
    let d = door(&mut s, at(4, 6));
    s.world.remove_component(ComponentType::ImageState, d).unwrap();
    let event = Event::Interact(InteractEvent { source: player });
    let r = s.world.send_event(&mut s.map, &s.resources, &mut s.log, &event, d);
    assert_eq!(
        r,
        Err(Error::MissingComponent { entity: d, component: ComponentType::ImageState })
    );
    assert_eq!(collision_of(&s.world, d), Passable::Walk);
    assert_eq!(sight_of(&s.world, d), Los::Clear);
    assert_eq!(reaction_of(&s.world, d), ResponseFuctionName::Close);
    assert_eq!(image_of(&s.world, d), 8);
}

#[test]
fn changing_to_an_unknown_image_state_fails() {
    let mut s = setup();
    let d = door(&mut s, at(4, 6));
    assert_eq!(
        change_image_state(d, "ajar", &mut s.world),
        Err(Error::InvalidImageState)
    );
    assert_eq!(current_state(&s.world, d), "closed");
    s.world.remove_component(ComponentType::ImageID, d).unwrap();
    assert_eq!(
        change_image_state(d, "open", &mut s.world),
        Err(Error::MissingComponent { entity: d, component: ComponentType::ImageID })
    );
    // the state has changed by then
    assert_eq!(current_state(&s.world, d), "open");
}

#[test]
fn picking_up_gives_the_coins_and_removes_the_pile() {
    let mut s = setup();
    let player = s.world.new_entity();
    s.world.add_component(player, Component::Coins(Coins(5))).unwrap();
    s.world.add_component(player, Component::Xp(Xp::new(1))).unwrap();
    let pile = s.world.new_entity();
    s.world.add_component(pile, Component::Coins(Coins(12))).unwrap();
    s.world
        .add_component(pile, Component::PickupResponse(PickupResponse::default()))
        .unwrap();
    s.world.add_position(pile, Position::new(at(3, 3))).unwrap();
    let event = Event::Pickup(PickupEvent { source: player });
    let r = s.world.send_event(&mut s.map, &s.resources, &mut s.log, &event, pile);
    assert_eq!(r, Ok(()));
    assert_eq!(coins_of(&s.world, player), 17);
    match s.world.borrow_entity_component(ComponentType::Xp, player) {
        Some(Component::Xp(xp)) => {
            assert_eq!(xp.current, 12);
            assert_eq!(xp.max, 100);
        }
        _ => panic!("xp expected"),
    }
    assert!(!s.world.has_component(ComponentType::Coins, pile));
    assert!(!s.world.has_component(ComponentType::PickupResponse, pile));
    assert!(!s.world.has_component(ComponentType::Position, pile));
    assert_eq!(drain(&mut s.log), vec!["Found 12 gold!".to_string()]);
}

#[test]
fn giving_coins_fails_without_purses() {
    let mut s = setup();
    let giver = s.world.new_entity();
    let taker = s.world.new_entity();
    assert_eq!(
        give_coins(giver, taker, &mut s.world, &mut s.log),
        Err(Error::MissingColumn(ComponentType::Coins))
    );
    s.world.add_component(taker, Component::Coins(Coins(1))).unwrap();
    assert_eq!(
        give_coins(giver, taker, &mut s.world, &mut s.log),
        Err(Error::MissingComponent { entity: giver, component: ComponentType::Coins })
    );
    assert_eq!(
        give_coins(taker, giver, &mut s.world, &mut s.log),
        Err(Error::MissingComponent { entity: giver, component: ComponentType::Coins })
    );
    s.world.add_component(giver, Component::Coins(Coins(u32::MAX))).unwrap();
    assert_eq!(give_coins(giver, taker, &mut s.world, &mut s.log), Err(Error::Overflow));
    assert_eq!(coins_of(&s.world, giver), u32::MAX);
    assert_eq!(coins_of(&s.world, taker), 1);
}

#[test]
fn a_chest_gives_its_coins_once() {
    let mut s = setup();
    let player = s.world.new_entity();
    s.world.add_component(player, Component::Coins(Coins(0))).unwrap();
    let chest = door(&mut s, at(4, 6));
    s.world.add_component(chest, Component::Coins(Coins(9))).unwrap();
    let mut response = InteractResponse::default();
    response.response = ResponseFuctionName::OpenChest;
    s.world.add_component(chest, Component::InteractResponse(response)).unwrap();
    let event = Event::Interact(InteractEvent { source: player });
    let r = s.world.send_event(&mut s.map, &s.resources, &mut s.log, &event, chest);
    assert_eq!(r, Ok(()));
    assert_eq!(coins_of(&s.world, player), 9);
    assert_eq!(coins_of(&s.world, chest), 0);
    assert_eq!(current_state(&s.world, chest), "open");
    assert_eq!(reaction_of(&s.world, chest), ResponseFuctionName::Default);
    let r = s.world.send_event(&mut s.map, &s.resources, &mut s.log, &event, chest);
    assert_eq!(r, Ok(()));
    assert_eq!(coins_of(&s.world, player), 9);
}

#[test]
fn granting_a_level_up_fills_the_experience_of_the_source() {
    let mut s = setup();
    let player = s.world.new_entity();
    s.world
        .add_component(
            player,
            Component::Xp(Xp { level: 2, current: 5, max: 300, status: XpStatus::Default }),
        )
        .unwrap();
    let shrine = s.world.new_entity();
    let mut response = InteractResponse::default();
    response.response = ResponseFuctionName::GrantLevelUp;
    s.world.add_component(shrine, Component::InteractResponse(response)).unwrap();
    let event = Event::Interact(InteractEvent { source: player });
    let r = s.world.send_event(&mut s.map, &s.resources, &mut s.log, &event, shrine);
    assert_eq!(r, Ok(()));
    match s.world.borrow_entity_component(ComponentType::Xp, player) {
        Some(Component::Xp(xp)) => assert_eq!(xp.current, 300),
        _ => panic!("xp expected"),
    }
}

fn with_gold_pile_template(s: &mut Setup) {
    let templates = vec![
        EntityTemplateEnum::Core(CoreTemplate {
            name: "Gold".to_string(),
            image: ImageID(11),
            collision: Passable::Walk,
            los: Los::Clear,
        }),
        EntityTemplateEnum::Pickup(PickupTemplate {
            inventory: InventoryTemplate { coins: Some(1) },
            pickup_response: None,
        }),
    ];
    s.resources
        .set_entity_templates(SpawnableID(GOLD_PILE_SPAWNABLE), templates);
}

#[test]
fn the_dead_drop_their_coins_as_a_pile() {
    let mut s = setup();
    with_gold_pile_template(&mut s);
    let killer = s.world.new_entity();
    let monster = s.world.new_entity();
    s.world.add_component(monster, Component::Coins(Coins(33))).unwrap();
    s.world.add_position(monster, Position::new(at(5, 5))).unwrap();
    let mut response = DeathResponse::default();
    response.response = ResponseFuctionName::DropInventory;
    s.world.add_component(monster, Component::DeathResponse(response)).unwrap();
    let before = s.world.entity_count();
    let event = Event::Death(DeathEvent { source: killer });
    let r = s.world.send_event(&mut s.map, &s.resources, &mut s.log, &event, monster);
    assert_eq!(r, Ok(()));
    assert_eq!(s.world.entity_count(), before + 1);
    let pile = before;
    assert_eq!(coins_of(&s.world, pile), 33);
    assert_eq!(s.world.position_of(pile), Some(at(5, 5)));
    assert!(s.world.has_component(ComponentType::PickupResponse, pile));
    assert_eq!(s.world.get_entities_at_coordinate(at(5, 5)), vec![monster, pile]);
    // the dead keeps its purse: the pile holds a copy of the amount
    assert_eq!(coins_of(&s.world, monster), 33);
}

#[test]
fn an_empty_purse_drops_nothing() {
    let mut s = setup();
    with_gold_pile_template(&mut s);
    let monster = s.world.new_entity();
    s.world.add_component(monster, Component::Coins(Coins(0))).unwrap();
    s.world.add_position(monster, Position::new(at(5, 5))).unwrap();
    let mut response = DeathResponse::default();
    response.response = ResponseFuctionName::DropInventory;
    s.world.add_component(monster, Component::DeathResponse(response)).unwrap();
    let before = s.world.entity_count();
    let event = Event::Death(DeathEvent { source: 0 });
    assert_eq!(
        s.world.send_event(&mut s.map, &s.resources, &mut s.log, &event, monster),
        Ok(())
    );
    assert_eq!(s.world.entity_count(), before);
}

#[test]
fn revealing_a_room_lights_it() {
    let mut s = setup();
    s.map.rooms.push(Room::new(boxed(10, 10, 13, 12)));
    let player = s.world.new_entity();
    let lever = s.world.new_entity();
    let mut response = InteractResponse::default();
    response.response = ResponseFuctionName::RevealRoom;
    s.world.add_component(lever, Component::InteractResponse(response)).unwrap();
    let event = Event::Interact(InteractEvent { source: player });
    assert_eq!(
        s.world.send_event(&mut s.map, &s.resources, &mut s.log, &event, lever),
        Err(Error::MissingComponent { entity: lever, component: ComponentType::Position })
    );
    s.world.add_position(lever, Position::new(at(11, 11))).unwrap();
    assert_eq!(
        s.world.send_event(&mut s.map, &s.resources, &mut s.log, &event, lever),
        Ok(())
    );
    for x in 10..=13 {
        for y in 10..=12 {
            assert!(s.map.is_tile_explored(at(x, y)));
        }
    }
    assert!(!s.map.is_tile_explored(at(14, 13)));
    assert!(!s.map.is_tile_explored(at(8, 10)));
}

#[test]
fn noise_wakes_who_can_hear() {
    let mut s = setup();
    let source = s.world.new_entity();
    let sleeper = s.world.new_entity();
    assert_eq!(
        try_wake_up(sleeper, source, 5, &mut s.world),
        Err(Error::MissingComponent { entity: sleeper, component: ComponentType::Position })
    );
    s.world.add_position(sleeper, Position::new(at(1, 1))).unwrap();
    assert_eq!(
        try_wake_up(sleeper, source, 5, &mut s.world),
        Err(Error::MissingComponent { entity: source, component: ComponentType::Position })
    );
    s.world.add_position(source, Position::new(at(2, 1))).unwrap();
    assert_eq!(
        try_wake_up(sleeper, source, 5, &mut s.world),
        Err(Error::MissingComponent { entity: sleeper, component: ComponentType::NoiseResponse })
    );
    s.world
        .add_component(sleeper, Component::NoiseResponse(NoiseResponse::new(10)))
        .unwrap();
    assert_eq!(
        try_wake_up(sleeper, source, 5, &mut s.world),
        Err(Error::MissingComponent { entity: sleeper, component: ComponentType::Behavior })
    );
    s.world
        .add_component(
            sleeper,
            Component::Behavior(Behavior::new(BehaviorName::AggressiveRanged, Some(3))),
        )
        .unwrap();
    let event = Event::Noise(NoiseEvent::new(source, 5));
    assert_eq!(
        s.world.send_event(&mut s.map, &s.resources, &mut s.log, &event, sleeper),
        Ok(())
    );
    match s.world.borrow_entity_component(ComponentType::Behavior, sleeper) {
        Some(Component::Behavior(b)) => {
            assert_eq!(
                *b,
                Behavior {
                    state: BehaviorState::Awake,
                    behavior: BehaviorName::AggressiveRanged,
                    action_count: 3
                }
            );
        }
        _ => panic!("behavior expected"),
    }
}

#[test]
fn a_cascade_that_never_ends_is_cut() {
    let mut s = setup();
    let player = s.world.new_entity();
    let d = door(&mut s, at(4, 6));
    // the door answers noise by opening, which makes noise
    let mut response = NoiseResponse::new(0);
    response.response = ResponseFuctionName::OpenDoor;
    s.world.add_component(d, Component::NoiseResponse(response)).unwrap();
    let event = Event::Interact(InteractEvent { source: player });
    assert_eq!(
        s.world.send_event(&mut s.map, &s.resources, &mut s.log, &event, d),
        Err(Error::CascadeTooDeep)
    );
    // a plain door makes noise when it opens, which is one event deeper
    let plain = door(&mut s, at(20, 6));
    assert_eq!(
        dispatch(&event, plain, &mut s.world, &mut s.map, &s.resources, &mut s.log, 0),
        Err(Error::CascadeTooDeep)
    );
    let other = door(&mut s, at(20, 9));
    s.world.update_position(plain, at(1, 1));
    assert_eq!(
        dispatch(&event, other, &mut s.world, &mut s.map, &s.resources, &mut s.log, 1),
        Ok(())
    );
    assert_eq!(MAX_CASCADE_DEPTH, 64);
}

#[test]
fn a_spell_strikes_with_its_multiplier() {
    let mut s = setup();
    let caster = s.world.new_entity();
    let target = fighter(&mut s, "Bat", 1, 1, 50);
    let mut response = SpellResponse::default();
    response.args = Arguments { damage_multiplier: Some(2000), damage_multiplier_override: None };
    s.world.add_component(target, Component::SpellResponse(response)).unwrap();
    let event = Event::Spell(SpellEvent::new(caster, SpellEffect::Damage(DamageRange(7, 7))));
    assert_eq!(
        s.world.send_event(&mut s.map, &s.resources, &mut s.log, &event, target),
        Ok(())
    );
    assert_eq!(health_of(&s.world, target), Health(36, 50));
    assert_eq!(
        drain(&mut s.log),
        vec!["Bat took 14 damage. It's very effective.".to_string()]
    );
    let empty = Event::Spell(SpellEvent::new(caster, SpellEffect::Damage(DamageRange(9, 7))));
    assert_eq!(
        s.world.send_event(&mut s.map, &s.resources, &mut s.log, &empty, target),
        Err(Error::EmptyRange)
    );
    let healthless = s.world.new_entity();
    s.world
        .add_component(healthless, Component::SpellResponse(SpellResponse::default()))
        .unwrap();
    assert_eq!(
        s.world.send_event(&mut s.map, &s.resources, &mut s.log, &event, healthless),
        Err(Error::MissingComponent { entity: healthless, component: ComponentType::Health })
    );
}

#[test]
fn a_shot_uses_the_ranged_attack() {
    let mut s = setup();
    let a = s.world.new_entity();
    s.world
        .add_component(a, Component::Combat(Combat::new_ranged(Attack::new_ranged(2, 2))))
        .unwrap();
    let b = fighter(&mut s, "B", 1, 1, 10);
    s.world
        .add_component(b, Component::ShootResponse(ShootResponse::new_half_damage()))
        .unwrap();
    let event = Event::Shoot(ShootEvent::new(a));
    assert_eq!(
        s.world.send_event(&mut s.map, &s.resources, &mut s.log, &event, b),
        Ok(())
    );
    assert_eq!(health_of(&s.world, b), Health(9, 10));
    assert_eq!(
        drain(&mut s.log),
        vec!["Someone shot B for 1 damage. It seems to have little effect.".to_string()]
    );
    let _ = (GameTile::default(), TileID(0));
}

#[test]
fn numbers_in_text() {
    assert_eq!(parse_number("0"), Some(0));
    assert_eq!(parse_number("42"), Some(42));
    assert_eq!(parse_number("+42"), Some(42));
    assert_eq!(parse_number("007"), Some(7));
    assert_eq!(parse_number(""), None);
    assert_eq!(parse_number("+"), None);
    assert_eq!(parse_number("-1"), None);
    assert_eq!(parse_number("4 2"), None);
    assert_eq!(parse_number("42a"), None);
    assert_eq!(parse_number("++1"), None);
    assert_eq!(parse_number("١٢"), None);
    assert_eq!(parse_number(&usize::MAX.to_string()), Some(usize::MAX));
    assert_eq!(parse_number("18446744073709551616"), None);
    assert_eq!(parse_number("99999999999999999999999"), None);
    for n in [1usize, 9, 10, 99, 100, 12345, 4294967296] {
        assert_eq!(parse_number(&n.to_string()), Some(n));
    }
}

#[test]
fn arguments_by_name() {
    let args = Arguments::new()
        .with_named("DMG_MULTIPLIER", 500)
        .with_named("SOMETHING_ELSE", 7);
    assert_eq!(
        args,
        Arguments { damage_multiplier: Some(500), damage_multiplier_override: None }
    );
    let args = args.with_named("DMG_MULTIPLIER_OVERRIDE", 2000);
    assert_eq!(args.multiplier(), 2000);
    let msg = MessageArguments::new()
        .with_named("ATTACKER_ENTITY", "12")
        .with_named("ATTACK_MSG", "bit")
        .with_named("EVENT_ADDENDUM", "Ouch.")
        .with_named("EVENT_ADDENDUM_OVERRIDE", "Yikes.")
        .with_named("NOTHING", "at all");
    assert_eq!(msg.attacker, Some(12));
    assert_eq!(msg.attack_message.as_deref(), Some("bit"));
    assert_eq!(msg.addendum.as_deref(), Some("Ouch."));
    assert_eq!(msg.addendum_override.as_deref(), Some("Yikes."));
    // an attacker that is no number is passed over
    let msg = msg.with_named("ATTACKER_ENTITY", "the rat");
    assert_eq!(msg.attacker, Some(12));
}
