//! Finding paths: a best-first search over the cells that can be walked on.

use priority_queue::PriorityQueue;
use std::collections::hash_map::RandomState;
use vstd::prelude::*;
use super::grid::{coordinate_of, decode, key, key_of, lemma_key_injective, lemma_key_roundtrip, CoordinateMap};
use super::utils::{down, left, right, up, Coordinate};
use super::{walkable_on, GameMap};
use crate::component::ComponentType;
use crate::resources::id::TileID;
use crate::resources::ResourceManager;
use crate::world::{World, WorldView};

verus! {

/// The queue of the `priority_queue` crate: items with priorities, of which
/// the item with the greatest priority leaves first.
#[verifier::external_type_specification]
#[verifier::external_body]
#[verifier::reject_recursive_types(I)]
#[verifier::reject_recursive_types(P)]
#[verifier::reject_recursive_types(H)]
pub struct ExPriorityQueue<I, P, H>(PriorityQueue<I, P, H>);

/// A queue of the numbers of coordinates.
pub type CoordinateQueue = PriorityQueue<u64, u32, RandomState>;

/// The items that a queue holds, each with its priority.
pub uninterp spec fn queue_contents(queue: PriorityQueue<u64, u32, RandomState>) -> Map<u64, u32>;

/// `PriorityQueue::new`: a queue that holds nothing.
#[verifier::external_body]
fn queue_new() -> (created: CoordinateQueue)
    ensures
        forall|item: u64| !queue_contents(created).contains_key(item),
{
    PriorityQueue::new()
}

/// `PriorityQueue::push`: puts the item into the queue with the priority,
/// in place of the priority that it had if it was there, and returns that
/// priority.
#[verifier::external_body]
fn queue_push(queue: &mut PriorityQueue<u64, u32, RandomState>, item: u64, priority: u32) -> (before:
    Option<u32>)
    ensures
        queue_contents(*final(queue)) == queue_contents(*old(queue)).insert(item, priority),
        before == if queue_contents(*old(queue)).contains_key(item) {
            Some(queue_contents(*old(queue))[item])
        } else {
            None
        },
{
    queue.push(item, priority)
}

/// `PriorityQueue::pop`: takes an item with the greatest priority out of
/// the queue and returns it with its priority; nothing where the queue holds
/// nothing. Which of several items with the greatest priority leaves is not
/// said.
#[verifier::external_body]
fn queue_pop(queue: &mut PriorityQueue<u64, u32, RandomState>) -> (popped: Option<(u64, u32)>)
    ensures
        match popped {
            None => queue_contents(*old(queue)).dom() =~= Set::<u64>::empty() && queue_contents(
                *final(queue),
            ) == queue_contents(*old(queue)),
            Some((item, priority)) => queue_contents(*old(queue)).contains_key(item)
                && queue_contents(*old(queue))[item] == priority && queue_contents(*final(queue))
                == queue_contents(*old(queue)).remove(item) && forall|other: u64|
                queue_contents(*old(queue)).contains_key(other) ==> queue_contents(
                    *old(queue),
                )[other] <= priority,
        },
{
    queue.pop()
}

/// `PriorityQueue::get_priority`: the priority of the item, if the queue
/// holds it.
#[verifier::external_body]
fn queue_get_priority(queue: &PriorityQueue<u64, u32, RandomState>, item: u64) -> (priority: Option<
    u32,
>)
    ensures
        priority == if queue_contents(*queue).contains_key(item) {
            Some(queue_contents(*queue)[item])
        } else {
            None
        },
{
    queue.get_priority(&item).copied()
}

/// `PriorityQueue::change_priority`: gives the item the new priority, if
/// the queue holds it, and returns the priority that it had.
#[verifier::external_body]
fn queue_change_priority(queue: &mut PriorityQueue<u64, u32, RandomState>, item: u64, priority: u32) -> (before:
    Option<u32>)
    ensures
        queue_contents(*old(queue)).contains_key(item) ==> before == Some(
            queue_contents(*old(queue))[item],
        ) && queue_contents(*final(queue)) == queue_contents(*old(queue)).insert(item, priority),
        !queue_contents(*old(queue)).contains_key(item) ==> before is None && queue_contents(
            *final(queue),
        ) == queue_contents(*old(queue)),
{
    queue.change_priority(&item, priority)
}

/// What the search knows of a cell: how far it lies from the origin, how far
/// the heuristic takes it to be from the destination, and the cell from
/// which it was reached.
#[derive(Debug, Clone, Copy, PartialEq, Eq, Structural)]
pub struct NodeData {
    pub distance: u32,
    pub h_value: u32,
    pub parent: Option<Coordinate>,
}

/// The sum of two numbers, or `u32::MAX` where it is larger.
pub open spec fn capped_sum(a: u32, b: u32) -> u32 {
    if a + b > u32::MAX {
        u32::MAX
    } else {
        (a + b) as u32
    }
}

impl NodeData {
    /// The data of the origin of a search.
    pub fn new(h_value: u32) -> (d: NodeData)
        ensures
            d == (NodeData { distance: 0, h_value, parent: None }),
    {
        NodeData { distance: 0, h_value, parent: None }
    }

    /// What the cells are ranked by: the distance from the origin and the
    /// value of the heuristic together, at most `u32::MAX`. The cell with the
    /// least sum is visited first.
    pub fn get_comparable(&self) -> (c: u32)
        ensures
            c == capped_sum(self.distance, self.h_value),
    {
        self.distance.saturating_add(self.h_value)
    }
}

/// How far a cell is taken to be from the destination.
#[derive(Debug, Clone, Copy, PartialEq, Eq, Structural)]
pub enum Heuristic {
    /// Every cell is taken to be at the destination.
    Zero,
    /// The steps along the two axes to the destination.
    Manhattan(Coordinate),
}

impl Heuristic {
    /// The value of the heuristic at `coordinate`.
    pub open spec fn value(self, coordinate: Coordinate) -> u32 {
        match self {
            Heuristic::Zero => 0,
            Heuristic::Manhattan(destination) => {
                let steps = super::los::abs(coordinate.x - destination.x) + super::los::abs(
                    coordinate.y - destination.y,
                );
                if steps > u32::MAX {
                    u32::MAX
                } else {
                    steps as u32
                }
            },
        }
    }

    /// The value of the heuristic at `coordinate`.
    pub fn evaluate(&self, coordinate: Coordinate) -> (v: u32)
        ensures
            v == self.value(coordinate),
    {
        match self {
            Heuristic::Zero => 0,
            Heuristic::Manhattan(destination) => {
                let dx: i64 = coordinate.x as i64 - destination.x as i64;
                let dy: i64 = coordinate.y as i64 - destination.y as i64;
                let ax: i64 = if dx < 0 {
                    -dx
                } else {
                    dx
                };
                let ay: i64 = if dy < 0 {
                    -dy
                } else {
                    dy
                };
                let steps: i64 = ax + ay;
                if steps > u32::MAX as i64 {
                    u32::MAX
                } else {
                    steps as u32
                }
            },
        }
    }
}

/// The heuristic of a search for `destination`: the steps along the two
/// axes that are left to it.
pub fn astar_heuristic_factory(destination: Coordinate) -> (h: Heuristic)
    ensures
        h == Heuristic::Manhattan(destination),
{
    Heuristic::Manhattan(destination)
}

/// Whether a path may lead over `c`: its tile can be walked on, and the
/// entity that blocks it, if one does, is a monster or a door of the kind
/// that the search looks past.
pub open spec fn passable(
    tiles: Map<Coordinate, TileID>,
    world: WorldView,
    resources: &ResourceManager,
    ignore_units: bool,
    ignore_doors: bool,
    c: Coordinate,
) -> bool {
    walkable_on(tiles, resources, c) && match world.blocking_entity(c) {
        Some(entity) => (ignore_units && world.has(ComponentType::Monster, entity)) || (ignore_doors
            && world.has(ComponentType::Door, entity)),
        None => true,
    }
}

/// Whether `step` is one step along an axis.
pub open spec fn is_unit(step: Coordinate) -> bool {
    ||| (step.x == 0 && (step.y == 1 || step.y == -1))
    ||| (step.y == 0 && (step.x == 1 || step.x == -1))
}

fn is_passable(
    c: Coordinate,
    ignore_units: bool,
    ignore_doors: bool,
    map: &GameMap,
    world: &World,
    resources: &ResourceManager,
) -> (b: bool)
    requires
        world.wf(),
    ensures
        b == passable(map.map@, world@, resources, ignore_units, ignore_doors, c),
{
    let walkable = map.is_tile_walkable(c, resources);
    let no_blocking_entity = match world.get_blocking_entity(c) {
        Some(entity) => {
            let mut can_ignore_entity = false;
            if ignore_units && world.has_component(ComponentType::Monster, entity) {
                can_ignore_entity = true;
            }
            if ignore_doors && world.has_component(ComponentType::Door, entity) {
                can_ignore_entity = true;
            }
            can_ignore_entity
        },
        None => true,
    };
    walkable && no_blocking_entity
}

/// The cells below, above, left and right of `visited`, in that order, over
/// which a path may lead.
pub fn get_passable_neighbors(
    visited_coord: &Coordinate,
    ignore_units: bool,
    ignore_doors: bool,
    map: &GameMap,
    world: &World,
    resources: &ResourceManager,
) -> (neighbors: Vec<Coordinate>)
    requires
        world.wf(),
    ensures
        forall|i: int|
            0 <= i < neighbors@.len() ==> passable(
                map.map@,
                world@,
                resources,
                ignore_units,
                ignore_doors,
                #[trigger] neighbors@[i],
            ) && is_unit(
                Coordinate {
                    x: (neighbors@[i].x - visited_coord.x) as i32,
                    y: (neighbors@[i].y - visited_coord.y) as i32,
                },
            ) && visited_coord.can_minus(neighbors@[i]) && neighbors@[i].can_minus(*visited_coord),
        forall|c: Coordinate|
            is_unit(
                Coordinate { x: (c.x - visited_coord.x) as i32, y: (c.y - visited_coord.y) as i32 },
            ) && c.can_minus(*visited_coord) && #[trigger] passable(
                map.map@,
                world@,
                resources,
                ignore_units,
                ignore_doors,
                c,
            ) ==> neighbors@.contains(c),
{
    let mut neighbors: Vec<Coordinate> = Vec::new();
    push_if_passable(&mut neighbors, visited_coord, down(), ignore_units, ignore_doors, map, world, resources);
    push_if_passable(&mut neighbors, visited_coord, up(), ignore_units, ignore_doors, map, world, resources);
    push_if_passable(&mut neighbors, visited_coord, left(), ignore_units, ignore_doors, map, world, resources);
    push_if_passable(&mut neighbors, visited_coord, right(), ignore_units, ignore_doors, map, world, resources);
    proof {
        assert forall|c: Coordinate|
            is_unit(
                Coordinate { x: (c.x - visited_coord.x) as i32, y: (c.y - visited_coord.y) as i32 },
            ) && c.can_minus(*visited_coord) && #[trigger] passable(
                map.map@,
                world@,
                resources,
                ignore_units,
                ignore_doors,
                c,
            ) implies neighbors@.contains(c) by {
            let dx = c.x - visited_coord.x;
            let dy = c.y - visited_coord.y;
            if dx == 0 && dy == 1 {
                assert(c.x == visited_coord.x + down().x && c.y == visited_coord.y + down().y);
            } else if dx == 0 && dy == -1 {
                assert(c.x == visited_coord.x + up().x && c.y == visited_coord.y + up().y);
            } else if dx == -1 {
                assert(c.x == visited_coord.x + left().x && c.y == visited_coord.y + left().y);
            } else {
                assert(c.x == visited_coord.x + right().x && c.y == visited_coord.y + right().y);
            }
        }
    }
    neighbors
}

fn push_if_passable(
    neighbors: &mut Vec<Coordinate>,
    visited_coord: &Coordinate,
    step: Coordinate,
    ignore_units: bool,
    ignore_doors: bool,
    map: &GameMap,
    world: &World,
    resources: &ResourceManager,
)
    requires
        world.wf(),
        is_unit(step),
        forall|j: int|
            0 <= j < old(neighbors)@.len() ==> passable(
                map.map@,
                world@,
                resources,
                ignore_units,
                ignore_doors,
                #[trigger] old(neighbors)@[j],
            ) && is_unit(
                Coordinate {
                    x: (old(neighbors)@[j].x - visited_coord.x) as i32,
                    y: (old(neighbors)@[j].y - visited_coord.y) as i32,
                },
            ) && visited_coord.can_minus(old(neighbors)@[j]) && old(neighbors)@[j].can_minus(
                *visited_coord,
            ),
    ensures
        forall|j: int|
            0 <= j < final(neighbors)@.len() ==> passable(
                map.map@,
                world@,
                resources,
                ignore_units,
                ignore_doors,
                #[trigger] final(neighbors)@[j],
            ) && is_unit(
                Coordinate {
                    x: (final(neighbors)@[j].x - visited_coord.x) as i32,
                    y: (final(neighbors)@[j].y - visited_coord.y) as i32,
                },
            ) && visited_coord.can_minus(final(neighbors)@[j]) && final(neighbors)@[j].can_minus(
                *visited_coord,
            ),
        forall|c: Coordinate| old(neighbors)@.contains(c) ==> final(neighbors)@.contains(c),
        forall|c: Coordinate|
            c.x == visited_coord.x + step.x && c.y == visited_coord.y + step.y
                && #[trigger] passable(
                map.map@,
                world@,
                resources,
                ignore_units,
                ignore_doors,
                c,
            ) ==> final(neighbors)@.contains(c),
{
    let ghost before = neighbors@;
    match visited_coord.checked_plus(step) {
        Some(coord) => {
            if is_passable(coord, ignore_units, ignore_doors, map, world, resources) {
                neighbors.push(coord);
                assert(neighbors@[before.len() as int] == coord);
            }
        },
        None => {},
    }
    proof {
        assert forall|c: Coordinate| before.contains(c) implies neighbors@.contains(c) by {
            let j = choose|j: int| 0 <= j < before.len() && before[j] == c;
            assert(neighbors@[j] == c);
        }
    }
}

/// Whether every cell of `closed` but `origin` was reached from a cell of
/// `closed` with one step along an axis, and is a cell over which a path may
/// lead.
pub open spec fn is_search_tree(
    closed: Map<Coordinate, NodeData>,
    origin: Coordinate,
    tiles: Map<Coordinate, TileID>,
    world: WorldView,
    resources: &ResourceManager,
    ignore_units: bool,
    ignore_doors: bool,
) -> bool {
    forall|c: Coordinate| #[trigger]
        closed.contains_key(c) ==> match closed[c].parent {
            None => c == origin,
            Some(p) => closed.contains_key(p) && c.can_minus(p) && is_unit(
                Coordinate { x: (c.x - p.x) as i32, y: (c.y - p.y) as i32 },
            ) && passable(tiles, world, resources, ignore_units, ignore_doors, c),
        }
}

/// Whether the cells of `closed` have no way out: every cell beside one of
/// them over which a path may lead is one of them.
pub open spec fn no_way_out(
    closed: Map<Coordinate, NodeData>,
    tiles: Map<Coordinate, TileID>,
    world: WorldView,
    resources: &ResourceManager,
    ignore_units: bool,
    ignore_doors: bool,
) -> bool {
    forall|c: Coordinate, n: Coordinate|
        #![trigger closed.contains_key(c), passable(tiles, world, resources, ignore_units, ignore_doors, n)]
        closed.contains_key(c) && beside(c, n) && passable(
            tiles,
            world,
            resources,
            ignore_units,
            ignore_doors,
            n,
        ) ==> closed.contains_key(n)
}

/// Whether `n` lies one step along an axis from `c`.
pub open spec fn beside(c: Coordinate, n: Coordinate) -> bool {
    n.can_minus(c) && is_unit(Coordinate { x: (n.x - c.x) as i32, y: (n.y - c.y) as i32 })
}

/// Whether every cell beside a cell of `sources` over which a path may
/// lead is a cell of `closed` or waits in the queue.
pub open spec fn is_hemmed(
    sources: Map<Coordinate, NodeData>,
    contents: Map<u64, u32>,
    closed: Map<Coordinate, NodeData>,
    tiles: Map<Coordinate, TileID>,
    world: WorldView,
    resources: &ResourceManager,
    ignore_units: bool,
    ignore_doors: bool,
) -> bool {
    forall|c: Coordinate, n: Coordinate|
        #![trigger sources.contains_key(c), passable(tiles, world, resources, ignore_units, ignore_doors, n)]
        sources.contains_key(c) && beside(c, n) && passable(
            tiles,
            world,
            resources,
            ignore_units,
            ignore_doors,
            n,
        ) ==> closed.contains_key(n) || contents.contains_key(key_of(n))
}

/// Whether the cells of `order` are the cells of `closed` in an order in
/// which every cell comes after the cell from which it was reached.
pub open spec fn parents_first(closed: Map<Coordinate, NodeData>, order: Seq<Coordinate>) -> bool {
    forall|j: int|
        0 <= j < order.len() ==> closed.contains_key(#[trigger] order[j]) && (
        closed[order[j]].parent matches Some(p) ==> came_before(order, j, p))
}

/// Whether `p` stands before the place `j` in `order`.
pub open spec fn came_before(order: Seq<Coordinate>, j: int, p: Coordinate) -> bool {
    exists|i: int| 0 <= i < j && #[trigger] order[i] == p
}

/// A walk from a cell among cells that have no way out ends among them.
pub proof fn lemma_walk_stays(
    steps: Seq<Coordinate>,
    origin: Coordinate,
    destination: Coordinate,
    closed: Map<Coordinate, NodeData>,
    tiles: Map<Coordinate, TileID>,
    world: WorldView,
    resources: &ResourceManager,
    ignore_units: bool,
    ignore_doors: bool,
)
    requires
        closed.contains_key(origin),
        no_way_out(closed, tiles, world, resources, ignore_units, ignore_doors),
        is_walk(steps, origin, destination, tiles, world, resources, ignore_units, ignore_doors),
    ensures
        closed.contains_key(destination),
    decreases steps.len(),
{
    if steps.len() > 0 {
        let last = steps.last();
        let before = Coordinate { x: (destination.x - last.x) as i32, y: (destination.y - last.y) as i32 };
        lemma_walk_stays(
            steps.drop_last(),
            origin,
            before,
            closed,
            tiles,
            world,
            resources,
            ignore_units,
            ignore_doors,
        );
        assert(beside(before, destination));
    }
}

/// Whether a walk leads from `origin` to `c`.
pub open spec fn reachable(
    origin: Coordinate,
    c: Coordinate,
    tiles: Map<Coordinate, TileID>,
    world: WorldView,
    resources: &ResourceManager,
    ignore_units: bool,
    ignore_doors: bool,
) -> bool {
    exists|steps: Seq<Coordinate>| #[trigger]
        is_walk(steps, origin, c, tiles, world, resources, ignore_units, ignore_doors)
}

/// A walk leads from the origin of a search to every cell that it visited.
pub proof fn lemma_visited_reached(
    closed: Map<Coordinate, NodeData>,
    order: Seq<Coordinate>,
    origin: Coordinate,
    j: int,
    tiles: Map<Coordinate, TileID>,
    world: WorldView,
    resources: &ResourceManager,
    ignore_units: bool,
    ignore_doors: bool,
)
    requires
        is_search_tree(closed, origin, tiles, world, resources, ignore_units, ignore_doors),
        parents_first(closed, order),
        0 <= j < order.len(),
    ensures
        reachable(origin, order[j], tiles, world, resources, ignore_units, ignore_doors),
    decreases j,
{
    let c = order[j];
    assert(closed.contains_key(c));
    match closed[c].parent {
        None => {
            assert(is_walk(
                Seq::<Coordinate>::empty(),
                origin,
                c,
                tiles,
                world,
                resources,
                ignore_units,
                ignore_doors,
            ));
        },
        Some(p) => {
            assert(came_before(order, j, p));
            let i = choose|i: int| 0 <= i < j && #[trigger] order[i] == p;
            lemma_visited_reached(
                closed,
                order,
                origin,
                i,
                tiles,
                world,
                resources,
                ignore_units,
                ignore_doors,
            );
            let steps = choose|steps: Seq<Coordinate>| #[trigger]
                is_walk(steps, origin, p, tiles, world, resources, ignore_units, ignore_doors);
            let delta = Coordinate { x: (c.x - p.x) as i32, y: (c.y - p.y) as i32 };
            let longer = steps.push(delta);
            assert(longer.drop_last() =~= steps);
            assert(is_walk(
                longer,
                origin,
                c,
                tiles,
                world,
                resources,
                ignore_units,
                ignore_doors,
            ));
        },
    }
}

/// What a search leaves: the cells that it visited, each with what it knows
/// of it; the same cells in the order in which it visited them; and the last
/// of them.
pub struct SearchResult {
    pub last_node: (Coordinate, NodeData),
    pub closed: CoordinateMap<NodeData>,
    pub order: Vec<Coordinate>,
}

/// Whether the cell `c` with the data `data` may enter the cells that the
/// search visited: it is the origin, or it was reached from a visited cell
/// with one step along an axis and is a cell over which a path may lead.
pub open spec fn may_enter(
    c: Coordinate,
    data: NodeData,
    closed: Map<Coordinate, NodeData>,
    origin: Coordinate,
    tiles: Map<Coordinate, TileID>,
    world: WorldView,
    resources: &ResourceManager,
    ignore_units: bool,
    ignore_doors: bool,
) -> bool {
    match data.parent {
        None => c == origin,
        Some(p) => closed.contains_key(p) && c.can_minus(p) && is_unit(
            Coordinate { x: (c.x - p.x) as i32, y: (c.y - p.y) as i32 },
        ) && passable(tiles, world, resources, ignore_units, ignore_doors, c),
    }
}

/// Whether every item of the queue is the number of a cell that the search
/// has not visited, of which it knows the data, and that may enter the
/// visited cells.
pub open spec fn is_frontier(
    contents: Map<u64, u32>,
    open_data: Map<Coordinate, NodeData>,
    closed: Map<Coordinate, NodeData>,
    origin: Coordinate,
    tiles: Map<Coordinate, TileID>,
    world: WorldView,
    resources: &ResourceManager,
    ignore_units: bool,
    ignore_doors: bool,
) -> bool {
    forall|k: u64| #[trigger]
        contents.contains_key(k) ==> !closed.contains_key(coordinate_of(k))
            && open_data.contains_key(coordinate_of(k)) && may_enter(
            coordinate_of(k),
            open_data[coordinate_of(k)],
            closed,
            origin,
            tiles,
            world,
            resources,
            ignore_units,
            ignore_doors,
        )
}

/// The search looks at `neighbor`, a cell beside the visited cell `visited`
/// over which a path may lead: unless it is visited, it enters the queue, or
/// gets a better rank in it where the way over `visited` is shorter.
fn look_at(
    open: &mut CoordinateQueue,
    open_data: &mut CoordinateMap<NodeData>,
    closed: &CoordinateMap<NodeData>,
    neighbor: Coordinate,
    visited: Coordinate,
    visited_data: NodeData,
    heuristic: Heuristic,
    hazard_cost: u32,
    origin: Coordinate,
    ignore_units: bool,
    ignore_doors: bool,
    map: &GameMap,
    world: &World,
    resources: &ResourceManager,
)
    requires
        world.wf(),
        closed@.contains_key(visited),
        neighbor.can_minus(visited),
        is_unit(Coordinate { x: (neighbor.x - visited.x) as i32, y: (neighbor.y - visited.y) as i32 }),
        passable(map.map@, world@, resources, ignore_units, ignore_doors, neighbor),
        is_frontier(
            queue_contents(*old(open)),
            old(open_data)@,
            closed@,
            origin,
            map.map@,
            world@,
            resources,
            ignore_units,
            ignore_doors,
        ),
    ensures
        is_frontier(
            queue_contents(*final(open)),
            final(open_data)@,
            closed@,
            origin,
            map.map@,
            world@,
            resources,
            ignore_units,
            ignore_doors,
        ),
        forall|k: u64|
            queue_contents(*old(open)).contains_key(k) ==> queue_contents(*final(open)).contains_key(
                k,
            ),
        closed@.contains_key(neighbor) || queue_contents(*final(open)).contains_key(
            key_of(neighbor),
        ),
{
    if closed.contains_key(neighbor) {
        return ;
    }
    let cost: u32 = if world.coordinate_has_hazard(neighbor) {
        hazard_cost
    } else {
        1
    };
    let distance_through_here = visited_data.distance.saturating_add(cost);
    let neighbor_key = key(neighbor);
    let data = NodeData {
        distance: distance_through_here,
        h_value: heuristic.evaluate(neighbor),
        parent: Some(visited),
    };
    let ghost contents_before = queue_contents(*open);
    let ghost data_before = open_data@;
    proof {
        lemma_key_roundtrip(0, neighbor);
    }
    let mut better = true;
    if queue_get_priority(open, neighbor_key).is_some() {
        let known = match open_data.get(neighbor) {
            Some(d) => d.distance,
            None => u32::MAX,
        };
        better = known > distance_through_here;
        if better {
            let _ = queue_change_priority(open, neighbor_key, u32::MAX - data.get_comparable());
        }
    } else {
        let _ = queue_push(open, neighbor_key, u32::MAX - data.get_comparable());
    }
    if better {
        open_data.insert(neighbor, data);
        proof {
            assert forall|k: u64| #[trigger]
                queue_contents(*open).contains_key(k) implies !closed@.contains_key(
                coordinate_of(k),
            ) && open_data@.contains_key(coordinate_of(k)) && may_enter(
                coordinate_of(k),
                open_data@[coordinate_of(k)],
                closed@,
                origin,
                map.map@,
                world@,
                resources,
                ignore_units,
                ignore_doors,
            ) by {
                lemma_key_roundtrip(k, neighbor);
                if k != neighbor_key {
                    assert(contents_before.contains_key(k));
                    lemma_key_injective(coordinate_of(k), neighbor);
                }
            }
        }
    }
}

/// Visits cells from `origin` in the order of their rank, each cell once,
/// and notes for each the cell from which it was reached. Where
/// `return_early` is set, the search ends at `destination`. A cell on which
/// a hazard stands costs `hazard_cost` steps; distances stop at `u32::MAX`.
pub fn fill_path_map(
    origin: Coordinate,
    destination: &Coordinate,
    heuristic: Heuristic,
    return_early: bool,
    ignore_units: bool,
    ignore_doors: bool,
    hazard_cost: u32,
    map: &GameMap,
    world: &World,
    resources: &ResourceManager,
) -> (result: SearchResult)
    requires
        world.wf(),
    ensures
        is_search_tree(
            result.closed@,
            origin,
            map.map@,
            world@,
            resources,
            ignore_units,
            ignore_doors,
        ),
        result.closed@.contains_key(origin),
        result.closed@.contains_key(result.last_node.0),
        result.closed@[result.last_node.0] == result.last_node.1,
        result.order@.no_duplicates(),
        forall|c: Coordinate| result.closed@.contains_key(c) <==> result.order@.contains(c),
        return_early && result.closed@.contains_key(*destination) ==> result.last_node.0
            == *destination,
        result.closed@[origin].parent is None,
        parents_first(result.closed@, result.order@),
        !(return_early && result.closed@.contains_key(*destination)) ==> no_way_out(
            result.closed@,
            map.map@,
            world@,
            resources,
            ignore_units,
            ignore_doors,
        ),
{
    let mut open = queue_new();
    let mut open_data: CoordinateMap<NodeData> = CoordinateMap::new();
    let mut closed: CoordinateMap<NodeData> = CoordinateMap::new();
    let mut order: Vec<Coordinate> = Vec::new();
    let origin_data = NodeData::new(heuristic.evaluate(origin));
    let mut last_node: (Coordinate, NodeData) = (origin, origin_data);
    let _ = queue_push(&mut open, key(origin), u32::MAX - origin_data.get_comparable());
    open_data.insert(origin, origin_data);
    let tiles = map.map.len();
    proof {
        lemma_key_roundtrip(0, origin);
        assert forall|k: u64| #[trigger]
            queue_contents(open).contains_key(k) implies !closed@.contains_key(coordinate_of(k))
            && open_data@.contains_key(coordinate_of(k)) && may_enter(
            coordinate_of(k),
            open_data@[coordinate_of(k)],
            closed@,
            origin,
            map.map@,
            world@,
            resources,
            ignore_units,
            ignore_doors,
        ) by {
            assert(k == key_of(origin));
        }
    }
    loop
        invariant_except_break
            world.wf(),
            tiles == map.map.count(),
            order@.len() == 0 ==> queue_contents(open).contains_key(key_of(origin)),
            order@.len() == 0 ==> open_data@.contains_key(origin)
                && open_data@[origin].parent is None,
            order@.len() == 0 ==> forall|k: u64|
                queue_contents(open).contains_key(k) ==> k == key_of(origin),
            order@.len() > 0 ==> closed@.contains_key(origin) && closed@.contains_key(last_node.0)
                && closed@[last_node.0] == last_node.1 && closed@[origin].parent is None,
            return_early ==> !closed@.contains_key(*destination),
            is_search_tree(closed@, origin, map.map@, world@, resources, ignore_units, ignore_doors),
            order@.no_duplicates(),
            forall|c: Coordinate| closed@.contains_key(c) <==> order@.contains(c),
            forall|i: int|
                0 <= i < order@.len() ==> map.map@.contains_key(#[trigger] order@[i]) || order@[i]
                    == origin,
            is_frontier(
                queue_contents(open),
                open_data@,
                closed@,
                origin,
                map.map@,
                world@,
                resources,
                ignore_units,
                ignore_doors,
            ),
            parents_first(closed@, order@),
            is_hemmed(
                closed@,
                queue_contents(open),
                closed@,
                map.map@,
                world@,
                resources,
                ignore_units,
                ignore_doors,
            ),
        ensures
            is_search_tree(closed@, origin, map.map@, world@, resources, ignore_units, ignore_doors),
            closed@.contains_key(origin),
            closed@.contains_key(last_node.0),
            closed@[last_node.0] == last_node.1,
            order@.no_duplicates(),
            forall|c: Coordinate| closed@.contains_key(c) <==> order@.contains(c),
            return_early && closed@.contains_key(*destination) ==> last_node.0 == *destination,
            closed@[origin].parent is None,
            parents_first(closed@, order@),
            !(return_early && closed@.contains_key(*destination)) ==> no_way_out(
                closed@,
                map.map@,
                world@,
                resources,
                ignore_units,
                ignore_doors,
            ),
        decreases tiles + 1 - order@.len(),
    {
        proof {
            map.map.lemma_distinct_cells_bounded(order@, origin);
        }
        let ghost contents_before_pop = queue_contents(open);
        let (visited_key, _) = match queue_pop(&mut open) {
            Some(popped) => popped,
            None => {
                assert(order@.len() > 0) by {
                    if order@.len() == 0 {
                        assert(queue_contents(open).dom().contains(key_of(origin)));
                    }
                }
                assert forall|k: u64| !queue_contents(open).contains_key(k) by {
                    assert(!queue_contents(open).dom().contains(k));
                }
                break ;
            },
        };
        let visited_coord = decode(visited_key);
        let visited_data = match open_data.get(visited_coord) {
            Some(data) => data,
            None => NodeData::new(0),
        };
        let ghost closed_before = closed@;
        let ghost order_before = order@;
        let ghost contents_after_pop = queue_contents(open);
        closed.insert(visited_coord, visited_data);
        order.push(visited_coord);
        last_node = (visited_coord, visited_data);
        proof {
            lemma_key_roundtrip(visited_key, visited_coord);
            assert(!closed_before.contains_key(visited_coord));
            assert(may_enter(
                visited_coord,
                visited_data,
                closed_before,
                origin,
                map.map@,
                world@,
                resources,
                ignore_units,
                ignore_doors,
            ));
            assert forall|i: int, j: int| 0 <= i < j < order@.len() implies order@[i]
                != order@[j] by {
                if j == order_before.len() {
                    assert(order_before[i] == order@[i]);
                    assert(order_before.contains(order@[i]));
                } else {
                    assert(order_before[i] != order_before[j]);
                }
            }
            assert forall|c: Coordinate| closed@.contains_key(c) <==> order@.contains(c) by {
                if order@.contains(c) {
                    let i = choose|i: int| 0 <= i < order@.len() && order@[i] == c;
                    if i < order_before.len() {
                        assert(order_before[i] == c);
                        assert(order_before.contains(c));
                    }
                }
                if closed@.contains_key(c) && c != visited_coord {
                    assert(order_before.contains(c));
                    let i = choose|i: int| 0 <= i < order_before.len() && order_before[i] == c;
                    assert(order@[i] == c);
                }
                if c == visited_coord {
                    assert(order@[order_before.len() as int] == c);
                }
            }
            assert forall|i: int| 0 <= i < order@.len() implies map.map@.contains_key(
                #[trigger] order@[i],
            ) || order@[i] == origin by {
                if i < order_before.len() {
                    assert(order@[i] == order_before[i]);
                }
            }
            assert forall|c: Coordinate| #[trigger] closed@.contains_key(c) implies match closed@[c].parent {
                None => c == origin,
                Some(p) => closed@.contains_key(p) && c.can_minus(p) && is_unit(
                    Coordinate { x: (c.x - p.x) as i32, y: (c.y - p.y) as i32 },
                ) && passable(map.map@, world@, resources, ignore_units, ignore_doors, c),
            } by {
                if c != visited_coord {
                    assert(closed_before.contains_key(c));
                }
            }
            if order_before.len() == 0 {
                assert(contents_after_pop.dom().len() >= 0);
            }
            assert forall|k: u64| #[trigger]
                contents_after_pop.contains_key(k) implies !closed@.contains_key(coordinate_of(k))
                && open_data@.contains_key(coordinate_of(k)) && may_enter(
                coordinate_of(k),
                open_data@[coordinate_of(k)],
                closed@,
                origin,
                map.map@,
                world@,
                resources,
                ignore_units,
                ignore_doors,
            ) by {
                lemma_key_roundtrip(k, visited_coord);
                lemma_key_injective(coordinate_of(k), visited_coord);
            }
            map.map.lemma_distinct_cells_bounded(order@, origin);
            assert forall|j: int| 0 <= j < order@.len() implies closed@.contains_key(
                #[trigger] order@[j],
            ) && (closed@[order@[j]].parent matches Some(p) ==> came_before(order@, j, p)) by {
                if j < order_before.len() {
                    assert(order@[j] == order_before[j]);
                    assert(closed_before.contains_key(order_before[j]));
                    if let Some(p) = closed_before[order_before[j]].parent {
                        let i = choose|i: int| 0 <= i < j && #[trigger] order_before[i] == p;
                        assert(order@[i] == p);
                    }
                } else if let Some(p) = visited_data.parent {
                    assert(order_before.contains(p));
                    let i = choose|i: int| 0 <= i < order_before.len() && order_before[i] == p;
                    assert(order@[i] == p);
                }
            }
            assert forall|c: Coordinate, n: Coordinate|
                #![trigger closed_before.contains_key(c), passable(map.map@, world@, resources, ignore_units, ignore_doors, n)]
                closed_before.contains_key(c) && beside(c, n) && passable(
                    map.map@,
                    world@,
                    resources,
                    ignore_units,
                    ignore_doors,
                    n,
                ) implies closed@.contains_key(n) || contents_after_pop.contains_key(
                key_of(n),
            ) by {
                if !closed_before.contains_key(n) {
                    assert(contents_before_pop.contains_key(key_of(n)));
                    if key_of(n) == visited_key {
                        lemma_key_injective(n, visited_coord);
                    }
                }
            }
        }
        if visited_coord == *destination && return_early {
            assert(closed@.contains_key(origin)) by {
                lemma_origin_first(
                    order_before,
                    closed_before,
                    visited_coord,
                    visited_data,
                    origin,
                );
            }
            break ;
        }
        proof {
            lemma_origin_first(order_before, closed_before, visited_coord, visited_data, origin);
        }
        let passable_neighbors = get_passable_neighbors(
            &visited_coord,
            ignore_units,
            ignore_doors,
            map,
            world,
            resources,
        );
        let mut n: usize = 0;
        while n < passable_neighbors.len()
            invariant
                world.wf(),
                n <= passable_neighbors@.len(),
                closed@.contains_key(visited_coord),
                forall|i: int|
                    0 <= i < passable_neighbors@.len() ==> passable(
                        map.map@,
                        world@,
                        resources,
                        ignore_units,
                        ignore_doors,
                        #[trigger] passable_neighbors@[i],
                    ) && is_unit(
                        Coordinate {
                            x: (passable_neighbors@[i].x - visited_coord.x) as i32,
                            y: (passable_neighbors@[i].y - visited_coord.y) as i32,
                        },
                    ) && passable_neighbors@[i].can_minus(visited_coord),
                is_frontier(
                    queue_contents(open),
                    open_data@,
                    closed@,
                    origin,
                    map.map@,
                    world@,
                    resources,
                    ignore_units,
                    ignore_doors,
                ),
                is_hemmed(
                    closed_before,
                    queue_contents(open),
                    closed@,
                    map.map@,
                    world@,
                    resources,
                    ignore_units,
                    ignore_doors,
                ),
                forall|i: int|
                    0 <= i < n ==> closed@.contains_key(#[trigger] passable_neighbors@[i])
                        || queue_contents(open).contains_key(key_of(passable_neighbors@[i])),
                forall|c: Coordinate|
                    beside(visited_coord, c) && #[trigger] passable(
                        map.map@,
                        world@,
                        resources,
                        ignore_units,
                        ignore_doors,
                        c,
                    ) ==> passable_neighbors@.contains(c),
                forall|c: Coordinate|
                    closed@.contains_key(c) ==> c == visited_coord || closed_before.contains_key(c),
            decreases passable_neighbors@.len() - n,
        {
            look_at(
                &mut open,
                &mut open_data,
                &closed,
                passable_neighbors[n],
                visited_coord,
                visited_data,
                heuristic,
                hazard_cost,
                origin,
                ignore_units,
                ignore_doors,
                map,
                world,
                resources,
            );
            n = n + 1;
        }
        proof {
            assert forall|c: Coordinate, m: Coordinate|
                #![trigger closed@.contains_key(c), passable(map.map@, world@, resources, ignore_units, ignore_doors, m)]
                closed@.contains_key(c) && beside(c, m) && passable(
                    map.map@,
                    world@,
                    resources,
                    ignore_units,
                    ignore_doors,
                    m,
                ) implies closed@.contains_key(m) || queue_contents(open).contains_key(
                key_of(m),
            ) by {
                if c == visited_coord {
                    assert(passable_neighbors@.contains(m));
                    let i = choose|i: int|
                        0 <= i < passable_neighbors@.len() && passable_neighbors@[i] == m;
                    assert(closed@.contains_key(passable_neighbors@[i])
                        || queue_contents(open).contains_key(key_of(passable_neighbors@[i])));
                } else {
                    assert(closed_before.contains_key(c));
                }
            }
        }
    }
    SearchResult { last_node, closed, order }
}

/// The first cell that a search visits is its origin: a cell that enters
/// the visited cells while none is visited has no cell to be reached from.
proof fn lemma_origin_first(
    order_before: Seq<Coordinate>,
    closed_before: Map<Coordinate, NodeData>,
    visited: Coordinate,
    data: NodeData,
    origin: Coordinate,
)
    requires
        forall|c: Coordinate| closed_before.contains_key(c) <==> order_before.contains(c),
        order_before.len() > 0 ==> closed_before.contains_key(origin),
        match data.parent {
            None => visited == origin,
            Some(p) => closed_before.contains_key(p),
        },
    ensures
        closed_before.insert(visited, data).contains_key(origin),
{
    if order_before.len() == 0 {
        if let Some(p) = data.parent {
            assert(order_before.contains(p));
        }
    }
}

/// Whether taking `steps` one after the other leads from `origin` to
/// `destination`, and every cell on the way but `origin` is a cell over
/// which a path may lead.
pub open spec fn is_walk(
    steps: Seq<Coordinate>,
    origin: Coordinate,
    destination: Coordinate,
    tiles: Map<Coordinate, TileID>,
    world: WorldView,
    resources: &ResourceManager,
    ignore_units: bool,
    ignore_doors: bool,
) -> bool
    decreases steps.len(),
{
    if steps.len() == 0 {
        origin == destination
    } else {
        let last = steps.last();
        let before = Coordinate { x: (destination.x - last.x) as i32, y: (destination.y - last.y) as i32 };
        &&& is_unit(last)
        &&& destination.can_minus(last)
        &&& passable(tiles, world, resources, ignore_units, ignore_doors, destination)
        &&& is_walk(
            steps.drop_last(),
            origin,
            before,
            tiles,
            world,
            resources,
            ignore_units,
            ignore_doors,
        )
    }
}

/// The steps that lead from `origin` to the last cell of a search, read off
/// the cells from which each cell was reached.
pub(crate) fn backtrace_path(
    last_node: (Coordinate, NodeData),
    closed: &CoordinateMap<NodeData>,
    limit: usize,
    origin: Coordinate,
    Ghost(order): Ghost<Seq<Coordinate>>,
    Ghost(tiles): Ghost<Map<Coordinate, TileID>>,
    Ghost(world): Ghost<WorldView>,
    Ghost(resources): Ghost<&ResourceManager>,
    Ghost(ignore_units): Ghost<bool>,
    Ghost(ignore_doors): Ghost<bool>,
) -> (path: Option<Vec<Coordinate>>)
    requires
        is_search_tree(closed@, origin, tiles, world, resources, ignore_units, ignore_doors),
        closed@.contains_key(last_node.0),
        closed@[last_node.0] == last_node.1,
        parents_first(closed@, order),
        order.contains(last_node.0),
        order.len() <= limit,
    ensures
        path is Some,
        is_walk(
            path->0@,
            origin,
            last_node.0,
            tiles,
            world,
            resources,
            ignore_units,
            ignore_doors,
        ),
{
    let mut reversed: Vec<Coordinate> = Vec::new();
    let mut node = last_node;
    let mut left = limit;
    let ghost mut place: int = choose|i: int| 0 <= i < order.len() && order[i] == last_node.0;
    loop
        invariant_except_break
            is_search_tree(closed@, origin, tiles, world, resources, ignore_units, ignore_doors),
            closed@.contains_key(node.0),
            closed@[node.0] == node.1,
            parents_first(closed@, order),
            0 <= place < order.len(),
            order[place] == node.0,
            place < left || (place == 0 && left == 0),
            forall|steps: Seq<Coordinate>|
                is_walk(steps, origin, node.0, tiles, world, resources, ignore_units, ignore_doors)
                    ==> #[trigger] is_walk(
                    steps + reversed@.reverse(),
                    origin,
                    last_node.0,
                    tiles,
                    world,
                    resources,
                    ignore_units,
                    ignore_doors,
                ),
        ensures
            is_walk(
                reversed@.reverse(),
                origin,
                last_node.0,
                tiles,
                world,
                resources,
                ignore_units,
                ignore_doors,
            ),
        decreases left,
    {
        let parent = match node.1.parent {
            Some(p) => p,
            None => {
                proof {
                    let empty = Seq::<Coordinate>::empty();
                    assert(is_walk(
                        empty,
                        origin,
                        node.0,
                        tiles,
                        world,
                        resources,
                        ignore_units,
                        ignore_doors,
                    ));
                    assert(empty + reversed@.reverse() =~= reversed@.reverse());
                }
                break ;
            },
        };
        proof {
            assert(came_before(order, place, parent));
            place = choose|i: int| 0 <= i < place && #[trigger] order[i] == parent;
        }
        if left == 0 {
            return None;
        }
        left = left - 1;
        let current = node.0;
        assert(closed@.contains_key(current));
        let delta = current.minus(parent);
        let ghost before = reversed@;
        reversed.push(delta);
        let parent_data = match closed.get(parent) {
            Some(d) => d,
            None => {
                return None;
            },
        };
        proof {
            assert forall|steps: Seq<Coordinate>|
                is_walk(steps, origin, parent, tiles, world, resources, ignore_units, ignore_doors)
                    implies #[trigger] is_walk(
                    steps + reversed@.reverse(),
                    origin,
                    last_node.0,
                    tiles,
                    world,
                    resources,
                    ignore_units,
                    ignore_doors,
                ) by {
                let longer = steps.push(delta);
                assert(longer.drop_last() =~= steps);
                assert(is_walk(
                    longer,
                    origin,
                    current,
                    tiles,
                    world,
                    resources,
                    ignore_units,
                    ignore_doors,
                ));
                assert(reversed@.reverse() =~= seq![delta] + before.reverse());
                assert(steps + reversed@.reverse() =~= longer + before.reverse());
            }
        }
        node = (parent, parent_data);
    }
    let mut path: Vec<Coordinate> = Vec::new();
    let mut i: usize = reversed.len();
    while i > 0
        invariant
            i <= reversed@.len(),
            path@ == reversed@.reverse().take(reversed@.len() - i),
        decreases i,
    {
        i = i - 1;
        path.push(reversed[i]);
        assert(path@ =~= reversed@.reverse().take(reversed@.len() - i));
    }
    assert(path@ =~= reversed@.reverse());
    Some(path)
}

/// A path from `origin` to `destination`: the steps to take, one after the
/// other. Nothing, where no walk leads from `origin` to `destination`.
pub fn pathfind(
    origin: Coordinate,
    destination: Coordinate,
    map: &GameMap,
    world: &World,
    resources: &ResourceManager,
    heuristic: Heuristic,
    ignore_units: bool,
    ignore_doors: bool,
    hazard_cost: u32,
) -> (path: Option<Vec<Coordinate>>)
    requires
        world.wf(),
    ensures
        path is Some ==> is_walk(
            path->0@,
            origin,
            destination,
            map.map@,
            world@,
            resources,
            ignore_units,
            ignore_doors,
        ),
        path is None ==> forall|steps: Seq<Coordinate>|
            !#[trigger] is_walk(
                steps,
                origin,
                destination,
                map.map@,
                world@,
                resources,
                ignore_units,
                ignore_doors,
            ),
{
    let result = fill_path_map(
        origin,
        &destination,
        heuristic,
        true,
        ignore_units,
        ignore_doors,
        hazard_cost,
        map,
        world,
        resources,
    );
    if result.last_node.0 != destination {
        proof {
            assert forall|steps: Seq<Coordinate>|
                !#[trigger] is_walk(
                    steps,
                    origin,
                    destination,
                    map.map@,
                    world@,
                    resources,
                    ignore_units,
                    ignore_doors,
                ) by {
                if is_walk(
                    steps,
                    origin,
                    destination,
                    map.map@,
                    world@,
                    resources,
                    ignore_units,
                    ignore_doors,
                ) {
                    lemma_walk_stays(
                        steps,
                        origin,
                        destination,
                        result.closed@,
                        map.map@,
                        world@,
                        resources,
                        ignore_units,
                        ignore_doors,
                    );
                }
            }
        }
        return None;
    }
    backtrace_path(
        result.last_node,
        &result.closed,
        result.order.len(),
        origin,
        Ghost(result.order@),
        Ghost(map.map@),
        Ghost(world@),
        Ghost(resources),
        Ghost(ignore_units),
        Ghost(ignore_doors),
    )
}

/// For every cell but `destination` to which a walk leads from
/// `destination`, and for no other cell, the step that leads towards it:
/// one step along an axis to a cell that has a step of its own or is the
/// destination.
pub fn calculate_pathing_grid(
    destination: Coordinate,
    map: &GameMap,
    world: &World,
    resources: &ResourceManager,
    ignore_units: bool,
    ignore_doors: bool,
    hazard_cost: u32,
) -> (grid: CoordinateMap<Coordinate>)
    requires
        world.wf(),
    ensures
        forall|c: Coordinate| #[trigger]
            grid@.contains_key(c) ==> is_unit(grid@[c]) && c.can_plus(grid@[c]) && passable(
                map.map@,
                world@,
                resources,
                ignore_units,
                ignore_doors,
                c,
            ) && ({
                let next = Coordinate { x: (c.x + grid@[c].x) as i32, y: (c.y + grid@[c].y) as i32 };
                next == destination || grid@.contains_key(next)
            }),
        forall|c: Coordinate| #[trigger]
            grid@.contains_key(c) <==> c != destination && reachable(
                destination,
                c,
                map.map@,
                world@,
                resources,
                ignore_units,
                ignore_doors,
            ),
{
    let result = fill_path_map(
        destination,
        &destination,
        Heuristic::Zero,
        false,
        ignore_units,
        ignore_doors,
        hazard_cost,
        map,
        world,
        resources,
    );
    let mut grid: CoordinateMap<Coordinate> = CoordinateMap::new();
    let mut i: usize = 0;
    while i < result.order.len()
        invariant
            i <= result.order@.len(),
            is_search_tree(
                result.closed@,
                destination,
                map.map@,
                world@,
                resources,
                ignore_units,
                ignore_doors,
            ),
            forall|c: Coordinate| result.closed@.contains_key(c) <==> result.order@.contains(c),
            result.closed@[destination].parent is None,
            forall|c: Coordinate| #[trigger]
                grid@.contains_key(c) ==> result.closed@.contains_key(c)
                    && result.closed@[c].parent is Some && grid@[c] == (Coordinate {
                    x: (result.closed@[c].parent->0.x - c.x) as i32,
                    y: (result.closed@[c].parent->0.y - c.y) as i32,
                }),
            forall|j: int|
                0 <= j < i
                    && result.closed@[result.order@[j]].parent is Some ==> grid@.contains_key(
                    #[trigger] result.order@[j],
                ),
        decreases result.order@.len() - i,
    {
        let coord = result.order[i];
        assert(result.order@.contains(coord));
        assert(result.closed@.contains_key(coord));
        match result.closed.get(coord) {
            Some(NodeData { parent: Some(parent), .. }) => {
                let step = match parent.checked_minus(coord) {
                    Some(s) => s,
                    None => Coordinate { x: 0, y: 0 },
                };
                grid.insert(coord, step);
            },
            _ => {},
        }
        i = i + 1;
    }
    proof {
        assert forall|c: Coordinate| #[trigger] grid@.contains_key(c) implies is_unit(grid@[c])
            && c.can_plus(grid@[c]) && passable(
            map.map@,
            world@,
            resources,
            ignore_units,
            ignore_doors,
            c,
        ) && ({
            let next = Coordinate { x: (c.x + grid@[c].x) as i32, y: (c.y + grid@[c].y) as i32 };
            next == destination || grid@.contains_key(next)
        }) by {
            assert(result.closed@.contains_key(c));
            let p = result.closed@[c].parent->0;
            assert(result.closed@.contains_key(p));
            assert(result.order@.contains(p));
            let j = choose|j: int| 0 <= j < result.order@.len() && result.order@[j] == p;
            if result.closed@[p].parent is None {
                assert(p == destination);
            } else {
                assert(grid@.contains_key(result.order@[j]));
            }
        }
        assert forall|c: Coordinate| #[trigger]
            grid@.contains_key(c) <==> c != destination && reachable(
                destination,
                c,
                map.map@,
                world@,
                resources,
                ignore_units,
                ignore_doors,
            ) by {
            if grid@.contains_key(c) {
                assert(result.order@.contains(c));
                let j = choose|j: int| 0 <= j < result.order@.len() && result.order@[j] == c;
                lemma_visited_reached(
                    result.closed@,
                    result.order@,
                    destination,
                    j,
                    map.map@,
                    world@,
                    resources,
                    ignore_units,
                    ignore_doors,
                );
            }
            if c != destination && reachable(
                destination,
                c,
                map.map@,
                world@,
                resources,
                ignore_units,
                ignore_doors,
            ) {
                let steps = choose|steps: Seq<Coordinate>| #[trigger]
                    is_walk(
                        steps,
                        destination,
                        c,
                        map.map@,
                        world@,
                        resources,
                        ignore_units,
                        ignore_doors,
                    );
                lemma_walk_stays(
                    steps,
                    destination,
                    c,
                    result.closed@,
                    map.map@,
                    world@,
                    resources,
                    ignore_units,
                    ignore_doors,
                );
                assert(result.order@.contains(c));
                let j = choose|j: int| 0 <= j < result.order@.len() && result.order@[j] == c;
                assert(result.closed@[c].parent is Some);
                assert(grid@.contains_key(result.order@[j]));
            }
        }
    }
    grid
}

impl GameMap {
    /// Works out anew the steps that lead towards `destination`, looking
    /// past monsters, and with no way through hazards but at the highest
    /// cost.
    pub fn update_pathing_grid(&mut self, destination: Coordinate, world: &World, resources: &ResourceManager)
        requires
            world.wf(),
        ensures
            final(self).map == old(self).map,
            final(self).explored == old(self).explored,
            final(self).rooms == old(self).rooms,
            final(self).room_edges == old(self).room_edges,
            final(self).width == old(self).width,
            final(self).height == old(self).height,
            final(self).depth == old(self).depth,
            forall|c: Coordinate| #[trigger]
                final(self).pathing_grid@.contains_key(c) ==> is_unit(final(self).pathing_grid@[c])
                    && c.can_plus(final(self).pathing_grid@[c]) && ({
                    let next = Coordinate {
                        x: (c.x + final(self).pathing_grid@[c].x) as i32,
                        y: (c.y + final(self).pathing_grid@[c].y) as i32,
                    };
                    next == destination || final(self).pathing_grid@.contains_key(next)
                }),
            forall|c: Coordinate| #[trigger]
                final(self).pathing_grid@.contains_key(c) <==> c != destination && reachable(
                    destination,
                    c,
                    old(self).map@,
                    world@,
                    resources,
                    true,
                    false,
                ),
    {
        let safe_pathing_grid = calculate_pathing_grid(
            destination,
            self,
            world,
            resources,
            true,
            false,
            u32::MAX,
        );
        self.pathing_grid = safe_pathing_grid;
    }
}

} // verus!
