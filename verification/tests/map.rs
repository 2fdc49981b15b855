use rogue_core::component::tags::{Door, Hazard, Monster};
use rogue_core::component::{Collision, Component, Position, SightBlocking};
use rogue_core::error::Error;
use rogue_core::map::boxextends::{
    forced_axis, make_edge_vicinity_boxes, random_subbox, smootherstep_millionths, split_box,
    split_box_at, subbox_from_draws, BoxExtends,
};
use rogue_core::map::fill::{flood_fill, flood_fill_explore};
use rogue_core::map::generation::{
    add_doors_to_rooms, binary_space_partitioning, check_door_conditions,
    draw_horizontal_corridor, draw_path_between_rooms, draw_room, draw_rooms_to_map,
    draw_vertical_corridor, generate_from_bsp, generate_new, leaves_from_bsp,
    make_connected_graph, make_rooms_from_bsp, prune_edges, prune_small_rooms, RoomGraph,
};
use rogue_core::map::grid::{CoordinateMap, CoordinateSet};
use rogue_core::map::los::{line_of_sight, linetrace};
use rogue_core::map::pathfinding::{
    astar_heuristic_factory, calculate_pathing_grid, fill_path_map, get_passable_neighbors,
    pathfind, Heuristic, NodeData,
};
use rogue_core::map::room::{EntityContainer, EntityGraph, Room, RoomGenerationData};
use rogue_core::map::tile::{GameTile, Los, Passable};
use rogue_core::map::utils::{
    calculate_adjacent, down, left, reverse_direction, right, up, Axis, Coordinate,
};
use rogue_core::map::GameMap;
use rogue_core::resources::id::{ImageID, RoomTemplateID, TileID};
use rogue_core::spawning::roomtemplate::RoomTemplate;
use rogue_core::spawning::spawnentry::ExtraSpawn;
use rogue_core::resources::{ResourceManager, DEFAULT_TILEID, FLOOR_TILEID, WALL_TILEID};
use rogue_core::world::World;

fn boxed(x0: i32, y0: i32, x1: i32, y1: i32) -> BoxExtends {
    BoxExtends {
        top_left: Coordinate { x: x0, y: y0 },
        bottom_right: Coordinate { x: x1, y: y1 },
    }
}

fn at(x: i32, y: i32) -> Coordinate {
    Coordinate { x, y }
}

fn tiles() -> ResourceManager {
    let mut resources = ResourceManager::new();
    resources.set_tile(
        TileID(FLOOR_TILEID),
        GameTile {
            name: "Floor".to_string(),
            image: ImageID(1),
            passable: Passable::Walk,
            los: Los::Clear,
        },
    );
    resources.set_tile(
        TileID(WALL_TILEID),
        GameTile {
            name: "Wall".to_string(),
            image: ImageID(2),
            passable: Passable::Impassable,
            los: Los::Block,
        },
    );
    resources
}

/// A map from rows of text: `.` floor, `#` wall, space nothing.
fn map_of(rows: &[&str]) -> GameMap {
    let mut map = GameMap::new(rows[0].len() as u32, rows.len() as u32);
    for (y, row) in rows.iter().enumerate() {
        for (x, c) in row.chars().enumerate() {
            match c {
                '.' => map.set_game_tile(at(x as i32, y as i32), TileID(FLOOR_TILEID)),
                '#' => map.set_game_tile(at(x as i32, y as i32), TileID(WALL_TILEID)),
                _ => {}
            }
        }
    }
    map
}

fn world() -> World {
    World::new_with(EntityGraph::new(boxed(0, 0, 63, 63)))
}

#[test]
fn coordinates() {
    assert_eq!(Coordinate::new(3, 4), at(3, 4));
    assert_eq!(Coordinate::zero(), at(0, 0));
    assert_eq!(Coordinate::uniform(7), at(7, 7));
    assert_eq!(Coordinate::default(), at(0, 0));
    assert_eq!(at(1, 2).plus(at(10, 20)), at(11, 22));
    assert_eq!(at(1, 2).minus(at(10, 20)), at(-9, -18));
    assert_eq!(at(1, -2).times(3), at(3, -6));
    assert_eq!(at(i32::MAX, 0).checked_plus(at(1, 0)), None);
    assert_eq!(at(i32::MAX, 0).checked_plus(at(-1, 5)), Some(at(i32::MAX - 1, 5)));
    assert_eq!(at(i32::MIN, 0).checked_minus(at(1, 0)), None);
    assert_eq!(reverse_direction(&at(1, -1)), at(-1, 1));
    assert_eq!(up(), at(0, -1));
    assert_eq!(down(), at(0, 1));
    assert_eq!(left(), at(-1, 0));
    assert_eq!(right(), at(1, 0));
    assert_eq!(calculate_adjacent(at(5, 5)), [at(5, 4), at(5, 6), at(4, 5), at(6, 5)]);
    for _ in 0..50 {
        let c = Coordinate::random(-2, 3, 7, 8);
        assert!(-2 <= c.x && c.x < 3);
        assert_eq!(c.y, 7);
    }
}

#[test]
fn distances() {
    assert_eq!(at(0, 0).distance_squared(at(3, 4)), 25);
    assert_eq!(at(-1, -1).distance_squared(at(-1, -1)), 0);
    assert_eq!(
        at(i32::MIN, i32::MIN).distance_squared(at(i32::MAX, i32::MAX)),
        2 * 4294967295u128 * 4294967295u128
    );
    // a melee attack reaches a tile and a quarter: beside, not across
    assert!(at(5, 5).within_range(at(5, 6), 5));
    assert!(!at(5, 5).within_range(at(6, 6), 5));
    assert!(at(5, 5).within_range(at(5, 5), 0));
    // five tiles and a quarter
    assert!(at(0, 0).within_range(at(5, 0), 21));
    assert!(at(0, 0).within_range(at(3, 4), 21));
    assert!(!at(0, 0).within_range(at(4, 4), 21));
    assert!(at(0, 0).strictly_within_range(at(3, 2), 15));
    assert!(!at(0, 0).strictly_within_range(at(3, 3), 15));
    assert!(!at(0, 0).strictly_within_range(at(0, 0), 0));
}

#[test]
fn boxes() {
    let b = boxed(3, 2, 5, 9);
    assert_eq!(BoxExtends::new_square(4), boxed(0, 0, 3, 3));
    assert_eq!(BoxExtends::default(), boxed(0, 0, 0, 0));
    assert!(b.contains_point(at(3, 2)));
    assert!(b.contains_point(at(5, 9)));
    assert!(!b.contains_point(at(6, 9)));
    assert!(!b.contains_point(at(3, 1)));
    assert!(b.contains(&boxed(4, 3, 5, 9)));
    assert!(!b.contains(&boxed(4, 3, 6, 9)));
    assert_eq!(b.center(), at(4, 5));
    assert_eq!(boxed(0, 0, 3, 3).center(), at(1, 1));
    assert_eq!(boxed(-5, -5, -2, -2).center(), at(-4, -4));
    assert_eq!(b.get_axis_size(Axis::Horizontal), 3);
    assert_eq!(b.get_axis_size(Axis::Vertical), 8);
    assert_eq!(b.get_area(), 24);
    assert_eq!(b.get_inner_area(), 6);
    assert_eq!(boxed(0, 0, 1, 9).get_inner_area(), 0);
    assert_eq!(boxed(0, 0, 9, 2).get_inner_area(), 8);
    assert!(b.is_moderate());
    assert!(!boxed(0, 0, i32::MAX, 0).is_moderate());
}

#[test]
fn overlapping_boxes() {
    let b = boxed(0, 0, 4, 4);
    assert!(b.overlaps(&boxed(4, 4, 8, 8)));
    assert!(b.overlaps(&boxed(1, 1, 2, 2)));
    assert!(boxed(1, 1, 2, 2).overlaps(&b));
    assert!(b.overlaps(&boxed(-3, 2, 0, 9)));
    assert!(!b.overlaps(&boxed(5, 0, 8, 4)));
    assert!(!b.overlaps(&boxed(0, 5, 4, 8)));
    // two boxes that cross without holding a corner of each other
    assert!(!boxed(0, 2, 9, 3).overlaps(&boxed(4, 0, 5, 9)));
}

#[test]
fn edge_vicinity() {
    let boxes = make_edge_vicinity_boxes(&boxed(10, 10, 20, 15), 6, 2);
    assert_eq!(
        boxes,
        vec![
            boxed(12, 4, 18, 10),
            boxed(12, 15, 18, 21),
            boxed(4, 12, 10, 13),
            boxed(20, 12, 26, 13),
        ]
    );
    // the boxes above and to the left stop at row and column 0
    let boxes = make_edge_vicinity_boxes(&boxed(3, 2, 9, 8), 6, 0);
    assert_eq!(boxes[0], boxed(3, 0, 9, 2));
    assert_eq!(boxes[2], boxed(0, 2, 3, 8));
}

#[test]
fn splitting_boxes() {
    let area = boxed(0, 0, 31, 17);
    assert_eq!(
        split_box_at(&area, Axis::Horizontal, 12),
        Ok((boxed(0, 0, 12, 17), boxed(12, 0, 31, 17)))
    );
    assert_eq!(
        split_box_at(&area, Axis::Vertical, 7),
        Ok((boxed(0, 0, 31, 7), boxed(0, 7, 31, 17)))
    );
    assert_eq!(
        split_box_at(&boxed(0, 0, 7, 7), Axis::Vertical, 3),
        Err(Error::CannotSplit)
    );
    assert!(split_box_at(&boxed(0, 0, 8, 7), Axis::Vertical, 3).is_ok());
    assert_eq!(forced_axis(&boxed(0, 0, 7, 20)), Some(Axis::Vertical));
    assert_eq!(forced_axis(&boxed(0, 0, 20, 7)), Some(Axis::Horizontal));
    assert_eq!(forced_axis(&boxed(0, 0, 20, 20)), None);
    assert_eq!(forced_axis(&boxed(0, 0, 7, 7)), None);
}

#[test]
fn subboxes() {
    let area = boxed(10, 10, 29, 24);
    assert_eq!(subbox_from_draws(&area, 0, 0, 0, 0), boxed(10, 10, 28, 23));
    assert_eq!(subbox_from_draws(&area, 5, 3, 2, 1), boxed(12, 11, 25, 21));
    for _ in 0..100 {
        let sub = random_subbox(&area, 5);
        assert!(area.contains(&sub));
        assert!(sub.get_axis_size(Axis::Horizontal) >= 5);
        assert!(sub.get_axis_size(Axis::Vertical) >= 5);
    }
}

#[test]
fn lines() {
    assert_eq!(linetrace(at(2, 2), at(2, 2)), vec![at(2, 2)]);
    assert_eq!(linetrace(at(0, 0), at(3, 0)), vec![at(0, 0), at(1, 0), at(2, 0), at(3, 0)]);
    assert_eq!(linetrace(at(0, 0), at(0, -2)), vec![at(0, 0), at(0, -1), at(0, -2)]);
    assert_eq!(linetrace(at(1, 1), at(3, 3)), vec![at(1, 1), at(2, 2), at(3, 3)]);
    assert_eq!(
        linetrace(at(0, 0), at(4, 2)),
        vec![at(0, 0), at(1, 1), at(2, 1), at(3, 2), at(4, 2)]
    );
    assert_eq!(
        linetrace(at(0, 0), at(-2, 5)),
        vec![at(0, 0), at(0, 1), at(-1, 2), at(-1, 3), at(-2, 4), at(-2, 5)]
    );
    let far = linetrace(at(i32::MIN, 0), at(i32::MIN + 3, 1));
    assert_eq!(far.len(), 4);
    assert_eq!(far[3], at(i32::MIN + 3, 1));
}

#[test]
fn sight() {
    let map = map_of(&[".....", "..#..", "....."]);
    let resources = tiles();
    let mut world = world();
    assert!(line_of_sight(at(0, 0), at(4, 0), &map, &world, &resources));
    assert!(!line_of_sight(at(0, 1), at(4, 1), &map, &world, &resources));
    // the ends of the line do not count
    assert!(line_of_sight(at(1, 1), at(2, 1), &map, &world, &resources));
    assert!(line_of_sight(at(2, 1), at(2, 1), &map, &world, &resources));
    let curtain = world.new_entity();
    world.add_position(curtain, Position::new(at(2, 0))).unwrap();
    world
        .add_component(curtain, Component::SightBlocking(SightBlocking(Los::Block)))
        .unwrap();
    assert!(!line_of_sight(at(0, 0), at(4, 0), &map, &world, &resources));
    world
        .add_component(curtain, Component::SightBlocking(SightBlocking(Los::Obstruct)))
        .unwrap();
    assert!(line_of_sight(at(0, 0), at(4, 0), &map, &world, &resources));
}

#[test]
fn coordinate_maps_and_sets() {
    let mut map: CoordinateMap<u32> = CoordinateMap::new();
    assert_eq!(map.len(), 0);
    map.insert(at(-1, 5), 7);
    map.insert(at(5, -1), 8);
    map.insert(at(-1, 5), 9);
    assert_eq!(map.len(), 2);
    assert_eq!(map.get(at(-1, 5)), Some(9));
    assert_eq!(map.get(at(5, -1)), Some(8));
    assert_eq!(map.get(at(5, 5)), None);
    assert!(map.contains_key(at(5, -1)));
    map.insert(at(i32::MIN, i32::MAX), 1);
    map.insert(at(i32::MAX, i32::MIN), 2);
    assert_eq!(map.get(at(i32::MIN, i32::MAX)), Some(1));
    assert_eq!(map.get(at(i32::MAX, i32::MIN)), Some(2));
    let mut set = CoordinateSet::new();
    assert!(!set.contains(at(0, 0)));
    set.insert(at(0, 0));
    set.insert(at(0, -1));
    assert!(set.contains(at(0, 0)));
    assert!(set.contains(at(0, -1)));
    assert!(!set.contains(at(-1, 0)));
}

#[test]
fn game_map_tiles() {
    let mut map = map_of(&["..#", ".  "]);
    let resources = tiles();
    assert!(map.is_tile_walkable(at(0, 0), &resources));
    assert!(!map.is_tile_walkable(at(2, 0), &resources));
    assert!(!map.is_tile_walkable(at(1, 1), &resources));
    assert!(map.is_tile_sight_blocking(at(2, 0), &resources));
    assert!(!map.is_tile_sight_blocking(at(0, 0), &resources));
    assert!(!map.is_tile_sight_blocking(at(1, 1), &resources));
    assert_eq!(map.get_game_tile(at(2, 0)), TileID(WALL_TILEID));
    assert_eq!(map.get_game_tile(at(1, 1)), TileID(0));
    assert_eq!(map.get_game_tile_from(2), TileID(WALL_TILEID));
    assert_eq!(map.get_game_tile_from(3), TileID(FLOOR_TILEID));
    assert!(!map.is_tile_void(at(1, 1)));
    map.set_game_tile(at(1, 1), TileID(DEFAULT_TILEID));
    assert!(map.is_tile_void(at(1, 1)));
    // a tile without a definition cannot be walked on
    map.set_game_tile(at(1, 1), TileID(77));
    assert!(!map.is_tile_walkable(at(1, 1), &resources));
    assert!(!map.is_tile_explored(at(0, 0)));
    map.rooms.push(Room::new(boxed(0, 0, 1, 1)));
    map.rooms.push(Room::new(boxed(1, 0, 2, 1)));
    assert_eq!(map.get_room_at_coordinate(at(1, 1)), Some(0));
    assert_eq!(map.get_room_at_coordinate(at(2, 1)), Some(1));
    assert_eq!(map.get_room_at_coordinate(at(3, 1)), None);
    map.explore_room(at(2, 0));
    assert!(map.is_tile_explored(at(1, 0)));
    assert!(map.is_tile_explored(at(2, 1)));
    assert!(!map.is_tile_explored(at(0, 0)));
    assert!(map.is_tile_explored_from_index(1));
    assert!(!map.is_tile_explored_from_index(3));
    map.explore_room(at(9, 9));
    assert!(!map.is_tile_explored(at(0, 0)));
    let default = GameMap::default();
    assert_eq!((default.width, default.height, default.depth), (32, 32, 0));
}

#[test]
fn flood_fill_follows_the_hallway() {
    let mut map = map_of(&[
        "#######",
        "#.....#",
        "#.###.#",
        "#.# #.#",
        "#######",
    ]);
    let resources = tiles();
    let mut world = world();
    let reached = flood_fill(at(1, 1), &map, &world, &resources);
    assert_eq!(reached[0], at(1, 1));
    assert_eq!(reached.len(), 9);
    let mut sorted = reached.clone();
    sorted.sort_by_key(|c| (c.y, c.x));
    sorted.dedup();
    assert_eq!(sorted.len(), 9);
    assert!(reached.contains(&at(5, 3)));
    assert!(reached.contains(&at(1, 3)));
    assert!(!reached.contains(&at(3, 3)));

    // a door in the way stops the fill
    let door = world.new_entity();
    world.add_position(door, Position::new(at(3, 1))).unwrap();
    world
        .add_component(door, Component::Collision(Collision(Passable::Impassable)))
        .unwrap();
    let reached = flood_fill(at(1, 1), &map, &world, &resources);
    assert_eq!(reached.len(), 4);
    assert!(!reached.contains(&at(4, 1)));

    flood_fill_explore(at(1, 1), &mut map, &world, &resources);
    assert!(map.is_tile_explored(at(0, 0)));
    assert!(map.is_tile_explored(at(3, 1)));
    assert!(map.is_tile_explored(at(2, 4)));
    assert!(!map.is_tile_explored(at(4, 1)));
    // seen cells are not filled again, but the start always is
    let reached = flood_fill(at(1, 1), &map, &world, &resources);
    assert_eq!(reached, vec![at(1, 1)]);
    let mut map2 = map_of(&["..."]);
    map2.explore_hallway(at(0, 0), &world, &resources);
    assert!(map2.is_tile_explored(at(2, 0)));
    assert!(map2.is_tile_explored(at(3, 1)));
    assert!(!map2.is_tile_explored(at(4, 0)));
}

fn walk(origin: Coordinate, steps: &[Coordinate]) -> Vec<Coordinate> {
    let mut cells = vec![origin];
    for step in steps {
        let last = *cells.last().unwrap();
        cells.push(last.plus(*step));
    }
    cells
}

#[test]
fn paths() {
    let map = map_of(&[
        ".....",
        ".###.",
        ".#...",
        ".#.#.",
    ]);
    let resources = tiles();
    let mut world = world();
    let heuristic = astar_heuristic_factory(at(2, 3));
    assert_eq!(heuristic, Heuristic::Manhattan(at(2, 3)));
    assert_eq!(heuristic.evaluate(at(0, 0)), 5);
    assert_eq!(Heuristic::Zero.evaluate(at(9, 9)), 0);
    let path = pathfind(at(0, 0), at(2, 3), &map, &world, &resources, heuristic, false, false, 9)
        .unwrap();
    assert_eq!(path.len(), 9);
    let cells = walk(at(0, 0), &path);
    assert_eq!(*cells.last().unwrap(), at(2, 3));
    for cell in &cells {
        assert!(map.is_tile_walkable(*cell, &resources));
    }
    assert_eq!(
        pathfind(at(0, 0), at(0, 0), &map, &world, &resources, heuristic, false, false, 9),
        Some(vec![])
    );
    assert_eq!(
        pathfind(at(0, 0), at(1, 1), &map, &world, &resources, heuristic, false, false, 9),
        None
    );
    // a monster in the only way blocks it, unless monsters are looked past
    let monster = world.new_entity();
    world.add_position(monster, Position::new(at(4, 1))).unwrap();
    world
        .add_component(monster, Component::Collision(Collision(Passable::Impassable)))
        .unwrap();
    world.add_component(monster, Component::Monster(Monster)).unwrap();
    assert_eq!(
        pathfind(at(0, 0), at(2, 3), &map, &world, &resources, heuristic, false, false, 9),
        None
    );
    assert!(
        pathfind(at(0, 0), at(2, 3), &map, &world, &resources, heuristic, true, false, 9)
            .is_some()
    );
    assert_eq!(
        pathfind(at(0, 0), at(2, 3), &map, &world, &resources, heuristic, false, true, 9),
        None
    );
    world.add_component(monster, Component::Door(Door)).unwrap();
    assert!(
        pathfind(at(0, 0), at(2, 3), &map, &world, &resources, heuristic, false, true, 9)
            .is_some()
    );
    assert_eq!(
        get_passable_neighbors(&at(4, 0), false, false, &map, &world, &resources),
        vec![at(3, 0)]
    );
    assert_eq!(
        get_passable_neighbors(&at(4, 0), true, false, &map, &world, &resources),
        vec![at(4, 1), at(3, 0)]
    );
}

#[test]
fn hazards_are_walked_around() {
    let map = map_of(&["...", "...", "..."]);
    let resources = tiles();
    let mut world = world();
    let fire = world.new_entity();
    world.add_position(fire, Position::new(at(1, 0))).unwrap();
    world.add_component(fire, Component::Hazard(Hazard)).unwrap();
    let heuristic = astar_heuristic_factory(at(2, 0));
    let path = pathfind(at(0, 0), at(2, 0), &map, &world, &resources, heuristic, false, false, 50)
        .unwrap();
    assert_eq!(path.len(), 4);
    assert!(!walk(at(0, 0), &path).contains(&at(1, 0)));
    let path = pathfind(at(0, 0), at(2, 0), &map, &world, &resources, heuristic, false, false, 1)
        .unwrap();
    assert_eq!(path, vec![at(1, 0), at(1, 0)]);
}

#[test]
fn the_pathing_grid_leads_to_the_destination() {
    let map = map_of(&[
        ".....",
        ".###.",
        ".#...",
        ".#.#.",
    ]);
    let resources = tiles();
    let world = world();
    let grid = calculate_pathing_grid(at(2, 3), &map, &world, &resources, true, false, u32::MAX);
    assert_eq!(grid.len(), 13);
    assert_eq!(grid.get(at(2, 3)), None);
    assert_eq!(grid.get(at(2, 2)), Some(at(0, 1)));
    assert_eq!(grid.get(at(1, 1)), None);
    for start in [at(0, 3), at(0, 0), at(4, 3), at(3, 2)] {
        let mut here = start;
        let mut steps = 0;
        while here != at(2, 3) {
            here = here.plus(grid.get(here).unwrap());
            steps += 1;
            assert!(steps <= 13);
        }
    }
    let result = fill_path_map(
        at(0, 0),
        &at(4, 0),
        Heuristic::Zero,
        true,
        false,
        false,
        1,
        &map,
        &world,
        &resources,
    );
    assert_eq!(result.last_node.0, at(4, 0));
    assert_eq!(result.last_node.1.distance, 4);
    assert_eq!(result.closed.get(at(0, 0)), Some(NodeData::new(0)));
    assert_eq!(NodeData { distance: 3, h_value: 4, parent: None }.get_comparable(), 7);
    assert_eq!(
        NodeData { distance: u32::MAX, h_value: 4, parent: None }.get_comparable(),
        u32::MAX
    );
}

fn bsp() -> EntityGraph {
    let mut tree = EntityGraph::new(boxed(0, 0, 31, 17));
    assert!(tree.split(0, boxed(0, 0, 15, 17), boxed(15, 0, 31, 17)));
    assert!(tree.split(1, boxed(0, 0, 15, 8), boxed(0, 8, 15, 17)));
    tree
}

#[test]
fn rooms_from_the_partition() {
    let tree = bsp();
    assert_eq!(leaves_from_bsp(&tree), vec![2, 3, 4]);
    let graph = make_rooms_from_bsp(&tree, 5);
    assert_eq!(graph.rooms.len(), 3);
    assert!(graph.edges.is_empty());
    let leaves = [boxed(15, 0, 31, 17), boxed(0, 0, 15, 8), boxed(0, 8, 15, 17)];
    for (room, leaf) in graph.rooms.iter().zip(leaves.iter()) {
        assert!(leaf.contains(&room.extends));
        assert!(room.extends.get_axis_size(Axis::Horizontal) >= 5);
        assert!(room.door_locations.is_empty());
    }
}

fn graph_of(boxes: &[BoxExtends], edges: &[(usize, usize)]) -> RoomGraph {
    RoomGraph {
        rooms: boxes.iter().map(|b| Room::new(*b)).collect(),
        edges: edges.to_vec(),
    }
}

#[test]
fn small_rooms_are_dropped() {
    let graph = graph_of(
        &[boxed(0, 0, 4, 4), boxed(0, 0, 3, 4), boxed(0, 0, 9, 2), boxed(5, 5, 9, 9)],
        &[(0, 1)],
    );
    let pruned = prune_small_rooms(&graph, 6);
    let extents: Vec<BoxExtends> = pruned.rooms.iter().map(|r| r.extends).collect();
    assert_eq!(extents, vec![boxed(0, 0, 4, 4), boxed(0, 0, 9, 2), boxed(5, 5, 9, 9)]);
    assert!(pruned.edges.is_empty());
}

#[test]
fn rooms_that_lie_near_each_other_are_joined() {
    let graph = graph_of(
        &[boxed(0, 0, 8, 8), boxed(12, 0, 20, 8), boxed(0, 30, 8, 38), boxed(24, 0, 30, 8)],
        &[],
    );
    let joined = make_connected_graph(&graph, 6);
    assert_eq!(joined.rooms.len(), 4);
    assert_eq!(joined.edges, vec![(0, 1), (1, 3)]);
    assert_eq!(joined.parts(), 2);
    assert_eq!(joined.neighbors(1), vec![0, 3]);
    assert_eq!(joined.neighbors(2), Vec::<usize>::new());
}

#[test]
fn counting_the_parts_of_a_graph() {
    let b = boxed(0, 0, 1, 1);
    assert_eq!(graph_of(&[], &[]).parts(), 0);
    assert_eq!(graph_of(&[b, b, b], &[]).parts(), 3);
    assert_eq!(graph_of(&[b, b, b], &[(0, 1)]).parts(), 2);
    assert_eq!(graph_of(&[b, b, b], &[(0, 1), (2, 1)]).parts(), 1);
    assert_eq!(graph_of(&[b, b, b, b], &[(0, 1), (2, 3), (1, 0)]).parts(), 2);
}

#[test]
fn edges_are_pruned_while_the_graph_holds_together() {
    let b = boxed(0, 0, 1, 1);
    // a hub with three spokes, and a rim through all of them
    let graph = graph_of(&[b, b, b, b], &[(0, 1), (0, 2), (0, 3), (1, 2), (2, 3)]);
    let pruned = prune_edges(&graph, 3, 1);
    assert_eq!(pruned.parts(), 1);
    assert_eq!(pruned.rooms.len(), 4);
    assert_eq!(pruned.edges.len(), 4);
    assert!(!pruned.edges.contains(&(0, 1)));
    assert!(pruned.edges.contains(&(0, 2)));
    assert!(pruned.edges.contains(&(0, 3)));
    // an edge that was tried and put back runs the other way
    assert!(pruned.edges.contains(&(2, 1)));
    assert!(pruned.edges.contains(&(2, 3)));
    // an edge that holds the graph together stays
    let star = graph_of(&[b, b, b, b], &[(0, 1), (0, 2), (0, 3)]);
    let kept = prune_edges(&star, 3, 3);
    assert_eq!(kept.parts(), 1);
    assert_eq!(kept.edges.len(), 3);
    // below the threshold nothing is taken
    let kept = prune_edges(&graph, 4, 2);
    assert_eq!(kept.edges, graph.edges);
}

#[test]
fn drawing_rooms_and_corridors() {
    let mut map = GameMap::new(20, 10);
    draw_room(boxed(1, 1, 4, 4), &mut map);
    for x in 1..=4 {
        for y in 1..=4 {
            let wall = x == 1 || x == 4 || y == 1 || y == 4;
            let expected = if wall { WALL_TILEID } else { FLOOR_TILEID };
            assert_eq!(map.get_game_tile(at(x, y)), TileID(expected));
        }
    }
    assert_eq!(map.get_game_tile(at(0, 0)), TileID(0));
    assert_eq!(map.map.len(), 16);
    draw_room(boxed(10, 1, 14, 4), &mut map);
    draw_path_between_rooms(&mut map, &boxed(1, 1, 4, 4), &boxed(10, 1, 14, 4));
    // the corridor runs along row 2 from column 2 to column 12
    for x in 2..=12 {
        assert_eq!(map.get_game_tile(at(x, 2)), TileID(FLOOR_TILEID));
    }
    for x in 5..=9 {
        assert_eq!(map.get_game_tile(at(x, 1)), TileID(WALL_TILEID));
        assert_eq!(map.get_game_tile(at(x, 3)), TileID(WALL_TILEID));
    }
    let before = map.map.len();
    draw_path_between_rooms(&mut map, &boxed(1, 1, 4, 4), &boxed(40, 40, 44, 44));
    assert_eq!(map.map.len(), before);

    let mut map = GameMap::new(20, 20);
    draw_vertical_corridor(at(3, 2), at(3, 5), &mut map);
    for y in 2..=5 {
        assert_eq!(map.get_game_tile(at(2, y)), TileID(WALL_TILEID));
        assert_eq!(map.get_game_tile(at(3, y)), TileID(FLOOR_TILEID));
        assert_eq!(map.get_game_tile(at(4, y)), TileID(WALL_TILEID));
    }
    assert_eq!(map.map.len(), 12);
    let mut map = GameMap::new(20, 20);
    draw_horizontal_corridor(at(6, 3), at(2, 3), &mut map);
    assert_eq!(map.map.len(), 15);
    assert_eq!(map.get_game_tile(at(2, 3)), TileID(FLOOR_TILEID));
    assert_eq!(map.get_game_tile(at(6, 4)), TileID(WALL_TILEID));
}

#[test]
fn doors_fit_where_a_corridor_meets_a_wall() {
    let graph = graph_of(&[boxed(1, 1, 4, 4), boxed(10, 1, 14, 4)], &[(0, 1)]);
    let mut map = draw_rooms_to_map(&graph, 20, 10, 3);
    assert_eq!((map.width, map.height, map.depth), (20, 10, 3));
    assert_eq!(map.room_edges, vec![(0, 1)]);
    let resources = tiles();
    assert!(check_door_conditions(at(4, 2), &map, &resources));
    assert!(check_door_conditions(at(10, 2), &map, &resources));
    assert!(!check_door_conditions(at(4, 3), &map, &resources));
    assert!(!check_door_conditions(at(3, 2), &map, &resources));
    add_doors_to_rooms(&mut map, &resources);
    assert_eq!(map.rooms[0].door_locations, vec![at(4, 2)]);
    assert_eq!(map.rooms[1].door_locations, vec![at(10, 2)]);
}

#[test]
fn a_level_from_a_partition() {
    let resources = tiles();
    for _ in 0..20 {
        let map = generate_from_bsp(&bsp(), 32, 18, 2, &resources);
        assert_eq!((map.width, map.height, map.depth), (32, 18, 2));
        assert!(map.rooms.len() <= 3);
        for room in &map.rooms {
            assert!(room.extends.get_inner_area() > 6);
            for door in &room.door_locations {
                assert!(map.is_tile_walkable(*door, &resources));
            }
        }
        for (a, b) in &map.room_edges {
            assert!(*a < map.rooms.len() && *b < map.rooms.len());
        }
    }
}

#[test]
fn containers_and_rooms() {
    let room = Room::new(boxed(1, 1, 9, 9));
    assert!(room.door_locations.is_empty());
    assert_eq!(room.template, None);
    assert_eq!(room.room_depth, None);
    assert_eq!(room.extra_spawn, None);
    let container = room.to_container();
    assert_eq!(container.extends, boxed(1, 1, 9, 9));
    assert!(container.entities.is_empty());
    let data = RoomGenerationData {
        room: EntityContainer { extends: boxed(1, 1, 9, 9), entities: vec![3, 4] },
        level_depth: 1,
        room_depth: 0,
    };
    assert_eq!(data.get_area(), 49);
    assert_eq!(data.room.clone().entities, vec![3, 4]);
    assert_eq!(room.clone().extends, boxed(1, 1, 9, 9));
}

#[test]
fn the_chance_to_cut_the_width() {
    assert_eq!(smootherstep_millionths(0), 0);
    assert_eq!(smootherstep_millionths(1_000_000), 1_000_000);
    assert_eq!(smootherstep_millionths(2_000_000), 1_000_000);
    assert_eq!(smootherstep_millionths(500_000), 500_000);
    // 6 * 0.25^5 - 15 * 0.25^4 + 10 * 0.25^3
    assert_eq!(smootherstep_millionths(250_000), 103_515);
    assert_eq!(smootherstep_millionths(750_000), 896_484);
    assert_eq!(smootherstep_millionths(100_000), 8_560);
}

#[test]
fn boxes_are_cut_by_chance() {
    assert_eq!(split_box(&boxed(0, 0, 7, 7), 500), Err(Error::CannotSplit));
    // only the height is long enough
    assert_eq!(
        split_box(&boxed(2, 3, 9, 22), 500),
        Ok((boxed(2, 3, 9, 13), boxed(2, 13, 9, 22)))
    );
    // the cut keeps its distance from both ends
    assert_eq!(
        split_box(&boxed(0, 0, 19, 7), 0),
        Ok((boxed(0, 0, 7, 7), boxed(7, 0, 19, 7)))
    );
    assert_eq!(
        split_box(&boxed(0, 0, 19, 7), 999),
        Ok((boxed(0, 0, 13, 7), boxed(13, 0, 19, 7)))
    );
    assert_eq!(
        split_box(&boxed(10, 0, 29, 7), 400),
        Ok((boxed(10, 0, 18, 7), boxed(18, 0, 29, 7)))
    );
    let mut across = 0;
    for _ in 0..200 {
        let (a, b) = split_box(&boxed(0, 0, 31, 17), 350).unwrap();
        if a.bottom_right.x == 31 {
            assert_eq!((a, b), (boxed(0, 0, 31, 6), boxed(0, 6, 31, 17)));
        } else {
            assert_eq!((a, b), (boxed(0, 0, 11, 17), boxed(11, 0, 31, 17)));
            across += 1;
        }
    }
    // the longer side is cut far more often
    assert!(across > 100);
}

#[test]
fn a_partition_of_the_level() {
    let whole = binary_space_partitioning(32, 18, 4, &vec![]);
    assert_eq!(whole.node_count(), 1);
    assert_eq!(whole.node(0).extends, boxed(0, 0, 31, 17));
    let whole = binary_space_partitioning(32, 18, 0, &vec![500; 15]);
    assert_eq!(whole.node_count(), 1);
    let once = binary_space_partitioning(32, 18, 1, &vec![500; 15]);
    assert_eq!(once.node_count(), 3);
    assert_eq!(once.children_of(0), Some((1, 2)));
    for _ in 0..20 {
        let tree = binary_space_partitioning(32, 18, 4, &vec![350, 650, 500, 400, 600, 350, 350]);
        assert!(tree.node_count() % 2 == 1);
        assert!(3 <= tree.node_count() && tree.node_count() <= 15);
        // the halves of the first cut, then what comes of the first half
        assert_eq!(tree.children_of(0), Some((1, 2)));
        if let Some(children) = tree.children_of(1) {
            assert_eq!(children, (3, 4));
        }
        for i in 0..tree.node_count() {
            if let Some((a, b)) = tree.children_of(i) {
                let parent = tree.node(i).extends;
                let (first, second) = (tree.node(a).extends, tree.node(b).extends);
                assert_eq!(first.top_left, parent.top_left);
                assert_eq!(second.bottom_right, parent.bottom_right);
                assert!(parent.contains(&first) && parent.contains(&second));
                assert!(
                    first.bottom_right.x == second.top_left.x
                        || first.bottom_right.y == second.top_left.y
                );
            } else {
                assert!(tree.is_leaf(i));
                assert!(tree.node(i).entities.is_empty());
            }
        }
    }
}

#[test]
fn a_new_level() {
    let mut resources = tiles();
    resources.set_room_template(
        RoomTemplateID(3),
        RoomTemplate { requirements: vec![], spawns: vec![] },
    );
    for _ in 0..10 {
        let (map, tree) = generate_new(32, 18, 3, &resources, &vec![400; 15]);
        assert_eq!((map.width, map.height, map.depth), (32, 18, 3));
        assert_eq!(tree.node(0).extends, boxed(0, 0, 31, 17));
        assert!(tree.node_count() >= 3);
        if map.rooms.is_empty() {
            continue;
        }
        // the room at the start is for the player, the room that is reached
        // last for the stairs; where they are one room, for the stairs
        let players = map
            .rooms
            .iter()
            .filter(|r| r.extra_spawn == Some(ExtraSpawn::Player(0)))
            .count();
        let stairs = map
            .rooms
            .iter()
            .filter(|r| r.extra_spawn == Some(ExtraSpawn::Stairs(0)))
            .count();
        assert!(players <= 1);
        assert!(stairs >= 1);
        for room in &map.rooms {
            if room.room_depth.is_some() {
                assert_eq!(room.template, Some(RoomTemplateID(3)));
            }
        }
    }
}
