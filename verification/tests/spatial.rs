use rogue_core::component::tags::Hazard;
use rogue_core::component::{Collision, Component, Position, SightBlocking};
use rogue_core::error::Error;
use rogue_core::map::boxextends::BoxExtends;
use rogue_core::map::room::{EntityGraph, Room};
use rogue_core::map::tile::{Los, Passable};
use rogue_core::map::utils::Coordinate;
use rogue_core::world::World;

fn boxed(x0: i32, y0: i32, x1: i32, y1: i32) -> BoxExtends {
    BoxExtends {
        top_left: Coordinate { x: x0, y: y0 },
        bottom_right: Coordinate { x: x1, y: y1 },
    }
}

fn at(x: i32, y: i32) -> Coordinate {
    Coordinate { x, y }
}

/// Root 0 is split into 1 (left) and 2 (right); 2 is split into 3 (top) and 4
/// (bottom).
fn three_leaves() -> EntityGraph {
    let mut tree = EntityGraph::new(boxed(0, 0, 31, 17));
    assert!(tree.split(0, boxed(0, 0, 15, 17), boxed(16, 0, 31, 17)));
    assert!(tree.split(2, boxed(16, 0, 31, 8), boxed(16, 9, 31, 17)));
    tree
}

#[test]
fn lookup_descends_to_the_leaf() {
    let tree = three_leaves();
    assert_eq!(tree.node_count(), 5);
    assert_eq!(tree.region_for(at(5, 5)), 1);
    assert_eq!(tree.region_for(at(20, 3)), 3);
    assert_eq!(tree.region_for(at(20, 12)), 4);
    assert!(tree.is_leaf(1) && tree.is_leaf(3) && tree.is_leaf(4));
    assert!(!tree.is_leaf(0) && !tree.is_leaf(2) && !tree.is_leaf(5));
    assert_eq!(tree.children_of(0), Some((1, 2)));
    assert_eq!(tree.children_of(2), Some((3, 4)));
    assert_eq!(tree.children_of(3), None);
    // a coordinate that no region holds ends in the leaf of the second children
    assert_eq!(tree.region_for(at(-4, 90)), 4);
}

#[test]
fn a_split_node_cannot_be_split_again() {
    let mut tree = three_leaves();
    assert!(!tree.split(0, boxed(0, 0, 1, 1), boxed(2, 2, 3, 3)));
    assert!(!tree.split(9, boxed(0, 0, 1, 1), boxed(2, 2, 3, 3)));
    assert_eq!(tree.node_count(), 5);
}

#[test]
fn relocate_from_one_leaf_to_another() {
    let mut tree = EntityGraph::new(boxed(0, 0, 31, 17));
    assert!(tree.split(0, boxed(0, 0, 15, 17), boxed(16, 0, 31, 17)));
    let mut world = World::new_with(tree);
    let e = world.new_entity();
    world.add_position(e, Position::new(at(5, 5))).unwrap();
    assert_eq!(world.regions().region_for(at(5, 5)), 1);
    assert_eq!(world.regions().region_for(at(20, 20)), 2);
    world.update_position(e, at(20, 20));
    assert_eq!(world.regions().node(1).entities, Vec::<usize>::new());
    assert_eq!(world.regions().node(2).entities, vec![e]);
    assert_eq!(world.position_of(e), Some(at(20, 20)));
}

fn positioned_exactly_once(world: &World) {
    let tree = world.regions();
    for entity in 0..world.entity_count() {
        if let Some(position) = world.position_of(entity) {
            let home = tree.region_for(position);
            for node in 0..tree.node_count() {
                let occurrences = tree
                    .node(node)
                    .entities
                    .iter()
                    .filter(|e| **e == entity)
                    .count();
                assert_eq!(occurrences, if node == home { 1 } else { 0 });
            }
            assert!(tree.node(home).extends.contains_point(position));
        }
    }
}

#[test]
fn every_positioned_entity_stands_in_exactly_one_leaf() {
    let mut world = World::new_with(three_leaves());
    let a = world.new_entity();
    let b = world.new_entity();
    let c = world.new_entity();
    let _unplaced = world.new_entity();
    world.add_position(a, Position::new(at(1, 1))).unwrap();
    positioned_exactly_once(&world);
    world.add_position(b, Position::new(at(1, 1))).unwrap();
    world.add_position(c, Position::new(at(20, 3))).unwrap();
    positioned_exactly_once(&world);
    world.update_position(a, at(20, 12));
    positioned_exactly_once(&world);
    world.update_position(a, at(21, 12));
    positioned_exactly_once(&world);
    world.update_position(b, at(2, 2));
    world.update_position(c, at(3, 3));
    positioned_exactly_once(&world);
    assert_eq!(world.get_entities_in_room(at(0, 0)), &vec![b, c]);
    assert_eq!(world.get_entities_in_room(at(20, 12)), &vec![a]);
}

#[test]
fn relocating_within_a_leaf_moves_the_entity_to_the_end() {
    let mut world = World::new_with(three_leaves());
    let a = world.new_entity();
    let b = world.new_entity();
    world.add_position(a, Position::new(at(1, 1))).unwrap();
    world.add_position(b, Position::new(at(2, 2))).unwrap();
    assert_eq!(world.get_entities_in_room(at(0, 0)), &vec![a, b]);
    world.update_position(a, at(3, 3));
    assert_eq!(world.get_entities_in_room(at(0, 0)), &vec![b, a]);
}

#[test]
fn an_entity_without_position_is_not_moved() {
    let mut world = World::new_with(three_leaves());
    let a = world.new_entity();
    world.update_position(a, at(3, 3));
    assert_eq!(world.position_of(a), None);
    assert_eq!(world.get_entities_in_room(at(3, 3)), &Vec::<usize>::new());
    world.update_position(77, at(3, 3));
    assert_eq!(world.get_entities_in_room(at(3, 3)), &Vec::<usize>::new());
    assert_eq!(
        world.add_position(77, Position::new(at(3, 3))),
        Err(Error::OutOfBounds)
    );
}

#[test]
fn entities_at_a_coordinate() {
    let mut world = World::new_with(three_leaves());
    let a = world.new_entity();
    let b = world.new_entity();
    let c = world.new_entity();
    world.add_position(a, Position::new(at(4, 4))).unwrap();
    world.add_position(b, Position::new(at(5, 4))).unwrap();
    world.add_position(c, Position::new(at(4, 4))).unwrap();
    assert_eq!(world.get_entities_at_coordinate(at(4, 4)), vec![a, c]);
    assert_eq!(world.get_entities_at_coordinate(at(5, 4)), vec![b]);
    assert_eq!(world.get_entities_at_coordinate(at(6, 4)), Vec::<usize>::new());
}

#[test]
fn blocking_queries() {
    let mut world = World::new_with(three_leaves());
    let walkable = world.new_entity();
    let wall = world.new_entity();
    let curtain = world.new_entity();
    let fire = world.new_entity();
    for e in [walkable, wall, curtain, fire] {
        world.add_position(e, Position::new(at(4, 4))).unwrap();
    }
    world
        .add_component(walkable, Component::Collision(Collision(Passable::Walk)))
        .unwrap();
    world
        .add_component(wall, Component::Collision(Collision(Passable::Impassable)))
        .unwrap();
    world
        .add_component(curtain, Component::SightBlocking(SightBlocking(Los::Block)))
        .unwrap();
    world
        .add_component(wall, Component::SightBlocking(SightBlocking(Los::Clear)))
        .unwrap();
    assert_eq!(world.get_blocking_entity(at(4, 4)), Some(wall));
    assert_eq!(world.get_sight_blocking_entity(at(4, 4)), Some(curtain));
    assert_eq!(world.get_blocking_entity(at(4, 5)), None);
    assert!(!world.coordinate_has_hazard(at(4, 4)));
    world.add_component(fire, Component::Hazard(Hazard)).unwrap();
    assert!(world.coordinate_has_hazard(at(4, 4)));
    assert!(!world.coordinate_has_hazard(at(4, 5)));
}

#[test]
fn room_data_takes_the_entities_of_the_region() {
    let mut world = World::new_with(three_leaves());
    let a = world.new_entity();
    world.add_position(a, Position::new(at(20, 3))).unwrap();
    let room = Room::new(boxed(17, 1, 22, 6));
    let data = world.get_room_data_from(&room);
    assert_eq!(data.extends, boxed(17, 1, 22, 6));
    assert_eq!(data.entities, vec![a]);
    assert_eq!(world.get_room_at_coordinate(at(20, 3)).extends, boxed(16, 0, 31, 8));
}
