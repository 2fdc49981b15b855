use rogue_core::component::health::Health;
use rogue_core::component::items::Coins;
use rogue_core::component::tags::Player;
use rogue_core::component::{Component, ComponentType, Name, Position};
use rogue_core::error::Error;
use rogue_core::map::boxextends::BoxExtends;
use rogue_core::map::room::EntityGraph;
use rogue_core::map::utils::Coordinate;
use rogue_core::world::World;

fn two_regions() -> World {
    let whole = BoxExtends {
        top_left: Coordinate { x: 0, y: 0 },
        bottom_right: Coordinate { x: 31, y: 17 },
    };
    let left = BoxExtends {
        top_left: Coordinate { x: 0, y: 0 },
        bottom_right: Coordinate { x: 15, y: 17 },
    };
    let right = BoxExtends {
        top_left: Coordinate { x: 15, y: 0 },
        bottom_right: Coordinate { x: 31, y: 17 },
    };
    let mut tree = EntityGraph::new(whole);
    assert!(tree.split(0, left, right));
    World::new_with(tree)
}

fn column_lengths_match(world: &World, kinds: &[ComponentType]) {
    for kind in kinds {
        if let Some(column) = world.borrow_component_vec(*kind) {
            assert_eq!(column.len(), world.entity_count());
        }
    }
}

#[test]
fn entities_get_sequential_ids() {
    let mut world = two_regions();
    assert_eq!(world.entity_count(), 0);
    assert_eq!(world.new_entity(), 0);
    assert_eq!(world.new_entity(), 1);
    assert_eq!(world.new_entity(), 2);
    assert_eq!(world.entity_count(), 3);
}

#[test]
fn every_column_has_one_slot_per_entity() {
    let kinds = [ComponentType::Health, ComponentType::Coins, ComponentType::Name];
    let mut world = two_regions();
    let a = world.new_entity();
    column_lengths_match(&world, &kinds);
    world.add_component(a, Component::Health(Health::new(5))).unwrap();
    column_lengths_match(&world, &kinds);
    let b = world.new_entity();
    let c = world.new_entity();
    column_lengths_match(&world, &kinds);
    // a column that is created late is filled up with empty slots
    world.add_component(c, Component::Coins(Coins(7))).unwrap();
    column_lengths_match(&world, &kinds);
    assert_eq!(world.borrow_component_vec(ComponentType::Coins).unwrap().len(), 3);
    assert!(!world.has_component(ComponentType::Coins, a));
    assert!(!world.has_component(ComponentType::Coins, b));
    world.remove_component(ComponentType::Health, a).unwrap();
    column_lengths_match(&world, &kinds);
    assert!(world.borrow_component_vec(ComponentType::Name).is_none());
}

#[test]
fn add_component_out_of_bounds_fails() {
    let mut world = two_regions();
    assert_eq!(
        world.add_component(0, Component::Health(Health::new(3))),
        Err(Error::OutOfBounds)
    );
    assert!(world.borrow_component_vec(ComponentType::Health).is_none());
    let e = world.new_entity();
    assert_eq!(world.add_component(e, Component::Health(Health::new(3))), Ok(()));
    assert!(world.has_component(ComponentType::Health, e));
    assert_eq!(
        world.add_component(e + 1, Component::Health(Health::new(3))),
        Err(Error::OutOfBounds)
    );
}

#[test]
fn inserting_twice_replaces() {
    let mut world = two_regions();
    let e = world.new_entity();
    world.add_component(e, Component::Health(Health(3, 9))).unwrap();
    world.add_component(e, Component::Health(Health(4, 9))).unwrap();
    match world.borrow_entity_component(ComponentType::Health, e) {
        Some(Component::Health(h)) => assert_eq!(*h, Health(4, 9)),
        _ => panic!("health expected"),
    }
}

#[test]
fn removing_an_unknown_component_type_fails() {
    let mut world = two_regions();
    let e = world.new_entity();
    let f = world.new_entity();
    assert_eq!(
        world.remove_component(ComponentType::Health, e),
        Err(Error::UnknownComponentType)
    );
    world.add_component(e, Component::Health(Health::new(1))).unwrap();
    // the column exists now: an entity that never had the component is no error
    assert_eq!(world.remove_component(ComponentType::Health, f), Ok(()));
    assert_eq!(world.remove_component(ComponentType::Health, e), Ok(()));
    assert!(!world.has_component(ComponentType::Health, e));
    assert_eq!(
        world.remove_component(ComponentType::Health, 17),
        Err(Error::OutOfBounds)
    );
}

#[test]
fn absent_components_are_none() {
    let mut world = two_regions();
    let e = world.new_entity();
    assert!(world.borrow_entity_component(ComponentType::Name, e).is_none());
    world
        .add_component(e, Component::Name(Name("Bat".to_string())))
        .unwrap();
    let f = world.new_entity();
    assert!(world.borrow_entity_component(ComponentType::Name, f).is_none());
    assert!(world.borrow_entity_component(ComponentType::Name, 99).is_none());
    match world.borrow_entity_component(ComponentType::Name, e) {
        Some(Component::Name(n)) => assert_eq!(n.0, "Bat"),
        _ => panic!("name expected"),
    }
}

#[test]
fn tombstoning_is_idempotent() {
    let mut world = two_regions();
    let e = world.new_entity();
    let other = world.new_entity();
    world.add_component(e, Component::Health(Health::new(5))).unwrap();
    world.add_component(e, Component::Coins(Coins(2))).unwrap();
    world.add_component(other, Component::Coins(Coins(3))).unwrap();
    assert_eq!(world.remove_entity(e), Ok(()));
    assert!(!world.has_component(ComponentType::Health, e));
    assert!(!world.has_component(ComponentType::Coins, e));
    assert_eq!(world.remove_entity(e), Ok(()));
    assert!(!world.has_component(ComponentType::Health, e));
    assert!(!world.has_component(ComponentType::Coins, e));
    assert!(world.has_component(ComponentType::Coins, other));
    // the id stays taken
    assert_eq!(world.entity_count(), 2);
    assert_eq!(world.new_entity(), 2);
    assert_eq!(world.remove_entity(3), Err(Error::OutOfBounds));
}

#[test]
fn a_tombstoned_entity_stays_in_its_region() {
    let mut world = two_regions();
    let e = world.new_entity();
    let at = Coordinate { x: 3, y: 3 };
    world.add_position(e, Position::new(at)).unwrap();
    world.remove_entity(e).unwrap();
    assert_eq!(world.get_entities_in_room(at), &vec![e]);
    // it has no position any more, so it stands at no coordinate
    assert_eq!(world.get_entities_at_coordinate(at), Vec::<usize>::new());
}

#[test]
fn marking_the_player() {
    let mut world = two_regions();
    assert_eq!(world.get_player_id(), Err(Error::NoPlayerFound));
    assert_eq!(world.get_player_position(), Err(Error::NoPlayerFound));
    let a = world.new_entity();
    let b = world.new_entity();
    assert_eq!(world.mark_as_player(a), Ok(()));
    assert_eq!(world.get_player_id(), Ok(a));
    assert!(world.has_component(ComponentType::Player, a));
    assert_eq!(
        world.get_player_position(),
        Err(Error::MissingComponent { entity: a, component: ComponentType::Position })
    );
    assert_eq!(world.mark_as_player(b), Ok(()));
    assert_eq!(world.get_player_id(), Ok(b));
    assert!(!world.has_component(ComponentType::Player, a));
    assert!(world.has_component(ComponentType::Player, b));
    world.add_position(b, Position::new(Coordinate { x: 1, y: 2 })).unwrap();
    assert_eq!(world.get_player_position(), Ok(Coordinate { x: 1, y: 2 }));
    assert_eq!(world.mark_as_player(9), Err(Error::OutOfBounds));
    let _ = Player;
}

#[test]
fn importing_the_player_copies_what_is_carried_over() {
    let mut old_world = two_regions();
    let old_player = old_world.new_entity();
    old_world.mark_as_player(old_player).unwrap();
    old_world
        .add_component(old_player, Component::Name(Name("Hero".to_string())))
        .unwrap();
    old_world
        .add_component(old_player, Component::Health(Health(3, 12)))
        .unwrap();
    old_world.add_component(old_player, Component::Coins(Coins(40))).unwrap();

    let mut new_world = two_regions();
    assert_eq!(new_world.import_player(&old_world), Err(Error::NoPlayerFound));
    let _filler = new_world.new_entity();
    let new_player = new_world.new_entity();
    new_world.mark_as_player(new_player).unwrap();
    new_world.add_component(new_player, Component::Health(Health(1, 1))).unwrap();
    assert_eq!(new_world.import_player(&old_world), Ok(()));
    match new_world.borrow_entity_component(ComponentType::Health, new_player) {
        Some(Component::Health(h)) => assert_eq!(*h, Health(3, 12)),
        _ => panic!("health expected"),
    }
    match new_world.borrow_entity_component(ComponentType::Coins, new_player) {
        Some(Component::Coins(c)) => assert_eq!(*c, Coins(40)),
        _ => panic!("coins expected"),
    }
    match new_world.borrow_entity_component(ComponentType::Name, new_player) {
        Some(Component::Name(n)) => assert_eq!(n.0, "Hero"),
        _ => panic!("name expected"),
    }
    assert!(new_world.has_component(ComponentType::Player, new_player));
    assert!(!new_world.has_component(ComponentType::Xp, new_player));

    let empty = two_regions();
    assert_eq!(new_world.import_player(&empty), Err(Error::NoPlayerFound));
}

#[test]
fn a_component_is_changed_in_place() {
    let mut world = two_regions();
    let e = world.new_entity();
    assert!(world.borrow_entity_component_mut(ComponentType::Health, e).is_none());
    world.add_component(e, Component::Health(Health(3, 10))).unwrap();
    match world.borrow_entity_component_mut(ComponentType::Health, e) {
        Some(Component::Health(health)) => health.0 = 7,
        _ => panic!("health expected"),
    }
    match world.borrow_entity_component(ComponentType::Health, e) {
        Some(Component::Health(health)) => assert_eq!(*health, Health(7, 10)),
        _ => panic!("health expected"),
    }
    assert!(world.borrow_entity_component_mut(ComponentType::Name, e).is_none());
    assert!(world.borrow_entity_component_mut(ComponentType::Health, e + 1).is_none());
    column_lengths_match(&world, &[ComponentType::Health]);
}
