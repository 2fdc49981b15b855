//! Flood fill: the cells that can be reached from a cell through cells that
//! are unseen, walkable and free of anything that blocks steps or sight.

use vstd::prelude::*;
use super::boxextends::BoxExtends;
use super::grid::CoordinateSet;
use super::utils::{down, left, right, up, Coordinate};
use super::{explored_with, walkable_on, GameMap};
use crate::resources::id::TileID;
use crate::resources::ResourceManager;
use crate::world::{World, WorldView};

verus! {

/// Whether the fill goes on into `c`: the cell is unseen and walkable, and no
/// entity on it blocks steps or sight.
pub open spec fn fillable(
    explored: Set<Coordinate>,
    tiles: Map<Coordinate, TileID>,
    world: WorldView,
    resources: &ResourceManager,
    c: Coordinate,
) -> bool {
    &&& !explored.contains(c)
    &&& walkable_on(tiles, resources, c)
    &&& world.blocking_entity(c) is None
    &&& world.sight_blocking_entity(c) is None
}

/// Whether the two cells share an edge.
pub open spec fn adjacent(a: Coordinate, b: Coordinate) -> bool {
    ||| (a.x == b.x && (a.y - b.y == 1 || b.y - a.y == 1))
    ||| (a.y == b.y && (a.x - b.x == 1 || b.x - a.x == 1))
}

/// Whether `reached` is the fill from `start`: it begins with `start` and
/// holds no cell twice, every other cell of it is one into which the fill
/// goes on and shares an edge with a cell before it, and every cell into
/// which the fill goes on from a cell of it is in it.
pub open spec fn is_fill(
    reached: Seq<Coordinate>,
    start: Coordinate,
    explored: Set<Coordinate>,
    tiles: Map<Coordinate, TileID>,
    world: WorldView,
    resources: &ResourceManager,
) -> bool {
    &&& reached.len() >= 1
    &&& reached[0] == start
    &&& reached.no_duplicates()
    &&& forall|i: int|
        1 <= i < reached.len()
            ==> fillable(explored, tiles, world, resources, #[trigger] reached[i])
            && exists|j: int| 0 <= j < i && adjacent(reached[j], reached[i])
    &&& forall|i: int, c: Coordinate|
        0 <= i < reached.len() && adjacent(#[trigger] reached[i], c) && #[trigger] fillable(
            explored,
            tiles,
            world,
            resources,
            c,
        ) ==> reached.contains(c)
}

/// `v` less one, but not below `i32::MIN`.
pub open spec fn one_less(v: i32) -> i32 {
    if v == i32::MIN {
        v
    } else {
        (v - 1) as i32
    }
}

/// `v` and one, but not above `i32::MAX`.
pub open spec fn one_more(v: i32) -> i32 {
    if v == i32::MAX {
        v
    } else {
        (v + 1) as i32
    }
}

/// The cell `c` and the eight cells around it.
pub open spec fn block_around(c: Coordinate) -> BoxExtends {
    BoxExtends {
        top_left: Coordinate { x: one_less(c.x), y: one_less(c.y) },
        bottom_right: Coordinate { x: one_more(c.x), y: one_more(c.y) },
    }
}

/// The cells of `explored` and the blocks around the cells of `reached`.
pub open spec fn explored_around(explored: Set<Coordinate>, reached: Seq<Coordinate>) -> Set<
    Coordinate,
>
    decreases reached.len(),
{
    if reached.len() == 0 {
        explored
    } else {
        explored_with(explored_around(explored, reached.drop_last()), block_around(reached.last()))
    }
}

/// Takes the fill on from `node` in the direction `step`.
fn visit_neighbor(
    reached: &mut Vec<Coordinate>,
    visited: &mut CoordinateSet,
    node: Coordinate,
    step: Coordinate,
    start: Coordinate,
    map: &GameMap,
    world: &World,
    resources: &ResourceManager,
    Ghost(index): Ghost<int>,
)
    requires
        world.wf(),
        adjacent(Coordinate { x: 0, y: 0 }, step),
        0 <= index < old(reached)@.len(),
        old(reached)@[index] == node,
        old(reached)@.len() >= 1,
        old(reached)@[0] == start,
        old(reached)@.no_duplicates(),
        forall|c: Coordinate| old(visited)@.contains(c) <==> old(reached)@.contains(c),
        forall|i: int|
            1 <= i < old(reached)@.len()
                ==> fillable(map.explored@, map.map@, world@, resources, #[trigger] old(reached)@[i])
                && exists|j: int| 0 <= j < i && adjacent(old(reached)@[j], old(reached)@[i]),
    ensures
        final(reached)@.len() >= old(reached)@.len(),
        final(reached)@.subrange(0, old(reached)@.len() as int) == old(reached)@,
        final(reached)@.no_duplicates(),
        forall|c: Coordinate| final(visited)@.contains(c) <==> final(reached)@.contains(c),
        forall|i: int|
            1 <= i < final(reached)@.len() ==> fillable(map.explored@, map.map@,
                world@,
                resources,
                #[trigger] final(reached)@[i],
            ) && exists|j: int| 0 <= j < i && adjacent(final(reached)@[j], final(reached)@[i]),
        forall|c: Coordinate|
            c.x == node.x + step.x && c.y == node.y + step.y
                && fillable(map.explored@, map.map@, world@, resources, c)
                ==> final(reached)@.contains(c),
{
    let neighbor = match node.checked_plus(step) {
        Some(c) => c,
        None => {
            assert(reached@.subrange(0, reached@.len() as int) =~= reached@);
            return ;
        },
    };
    let goes_on = !map.is_tile_explored(neighbor) && map.is_tile_walkable(neighbor, resources)
        && world.get_blocking_entity(neighbor).is_none() && world.get_sight_blocking_entity(
        neighbor,
    ).is_none();
    if goes_on && !visited.contains(neighbor) {
        reached.push(neighbor);
        visited.insert(neighbor);
        proof {
            let before = old(reached)@;
            assert(reached@.subrange(0, before.len() as int) =~= before);
            assert forall|c: Coordinate| visited@.contains(c) <==> reached@.contains(c) by {
                if reached@.contains(c) {
                    let i = choose|i: int| 0 <= i < reached@.len() && reached@[i] == c;
                    if i < before.len() {
                        assert(before[i] == c);
                        assert(before.contains(c));
                    }
                }
                if visited@.contains(c) && c != neighbor {
                    assert(before.contains(c));
                    let i = choose|i: int| 0 <= i < before.len() && before[i] == c;
                    assert(reached@[i] == c);
                }
                if c == neighbor {
                    assert(reached@[before.len() as int] == c);
                }
            }
            assert forall|i: int, j: int| 0 <= i < j < reached@.len() implies reached@[i]
                != reached@[j] by {
                if j == before.len() {
                    assert(before[i] == reached@[i]);
                    assert(before.contains(reached@[i]));
                } else {
                    assert(before[i] != before[j]);
                }
            }
            assert forall|i: int| 1 <= i < reached@.len() implies fillable(map.explored@, map.map@,
                world@,
                resources,
                #[trigger] reached@[i],
            ) && exists|j: int| 0 <= j < i && adjacent(reached@[j], reached@[i]) by {
                if i < before.len() {
                    assert(reached@[i] == before[i]);
                    let j = choose|j: int| 0 <= j < i && adjacent(before[j], before[i]);
                    assert(reached@[j] == before[j]);
                } else {
                    assert(reached@[index] == node);
                    assert(index < i);
                    assert(adjacent(reached@[index], reached@[i]));
                }
            }
        }
    } else {
        proof {
            assert(reached@.subrange(0, reached@.len() as int) =~= reached@);
            assert forall|c: Coordinate|
                c.x == node.x + step.x && c.y == node.y + step.y
                    && fillable(map.explored@, map.map@,
                    world@,
                    resources,
                    c,
                ) implies reached@.contains(c) by {
                assert(c == neighbor);
            }
        }
    }
}

/// The fill from `start`, in the order in which the cells are reached.
pub fn flood_fill(start: Coordinate, map: &GameMap, world: &World, resources: &ResourceManager) -> (reached:
    Vec<Coordinate>)
    requires
        world.wf(),
    ensures
        is_fill(reached@, start, map.explored@, map.map@, world@, resources),
{
    let mut reached: Vec<Coordinate> = Vec::new();
    let mut visited = CoordinateSet::new();
    reached.push(start);
    visited.insert(start);
    let mut head: usize = 0;
    let tiles = map.map.len();
    proof {
        assert forall|c: Coordinate| visited@.contains(c) <==> reached@.contains(c) by {
            if c == start {
                assert(reached@[0] == c);
            }
        }
    }
    while head < reached.len()
        invariant
            world.wf(),
            tiles == map.map.count(),
            head <= reached@.len(),
            reached@.len() >= 1,
            reached@[0] == start,
            reached@.no_duplicates(),
            forall|c: Coordinate| visited@.contains(c) <==> reached@.contains(c),
            forall|i: int|
                1 <= i < reached@.len()
                    ==> fillable(map.explored@, map.map@, world@, resources, #[trigger] reached@[i])
                    && exists|j: int| 0 <= j < i && adjacent(reached@[j], reached@[i]),
            forall|i: int, c: Coordinate|
                0 <= i < head && adjacent(#[trigger] reached@[i], c)
                    && #[trigger] fillable(map.explored@, map.map@,
                    world@,
                    resources,
                    c,
                ) ==> reached@.contains(c),
        decreases tiles + 1 - reached@.len(), reached@.len() - head,
    {
        let node = reached[head];
        let ghost before = reached@;
        proof {
            map.map.lemma_distinct_cells_bounded(reached@, start);
        }
        visit_neighbor(
            &mut reached,
            &mut visited,
            node,
            up(),
            start,
            map,
            world,
            resources,
            Ghost(head as int),
        );
        let ghost after_up = reached@;
        assert(after_up[head as int] == after_up.subrange(0, before.len() as int)[head as int]);
        visit_neighbor(
            &mut reached,
            &mut visited,
            node,
            down(),
            start,
            map,
            world,
            resources,
            Ghost(head as int),
        );
        let ghost after_down = reached@;
        assert(after_down[head as int] == after_down.subrange(0, after_up.len() as int)[head as int]);
        visit_neighbor(
            &mut reached,
            &mut visited,
            node,
            left(),
            start,
            map,
            world,
            resources,
            Ghost(head as int),
        );
        let ghost after_left = reached@;
        assert(after_left[head as int] == after_left.subrange(0, after_down.len() as int)[head as int]);
        visit_neighbor(
            &mut reached,
            &mut visited,
            node,
            right(),
            start,
            map,
            world,
            resources,
            Ghost(head as int),
        );
        proof {
            map.map.lemma_distinct_cells_bounded(reached@, start);
            let now = reached@;
            assert forall|k: int| 0 <= k < before.len() implies now[k] == before[k] by {
                assert(after_up[k] == after_up.subrange(0, before.len() as int)[k]);
                assert(after_down[k] == after_down.subrange(0, after_up.len() as int)[k]);
                assert(after_left[k] == after_left.subrange(0, after_down.len() as int)[k]);
                assert(now[k] == now.subrange(0, after_left.len() as int)[k]);
            }
            assert forall|c: Coordinate| after_up.contains(c) implies now.contains(c) by {
                let k = choose|k: int| 0 <= k < after_up.len() && after_up[k] == c;
                assert(after_down[k] == after_down.subrange(0, after_up.len() as int)[k]);
                assert(after_left[k] == after_left.subrange(0, after_down.len() as int)[k]);
                assert(now[k] == now.subrange(0, after_left.len() as int)[k]);
            }
            assert forall|c: Coordinate| after_down.contains(c) implies now.contains(c) by {
                let k = choose|k: int| 0 <= k < after_down.len() && after_down[k] == c;
                assert(after_left[k] == after_left.subrange(0, after_down.len() as int)[k]);
                assert(now[k] == now.subrange(0, after_left.len() as int)[k]);
            }
            assert forall|c: Coordinate| after_left.contains(c) implies now.contains(c) by {
                let k = choose|k: int| 0 <= k < after_left.len() && after_left[k] == c;
                assert(now[k] == now.subrange(0, after_left.len() as int)[k]);
            }
            assert forall|i: int, c: Coordinate|
                0 <= i < head + 1 && adjacent(#[trigger] now[i], c)
                    && #[trigger] fillable(map.explored@, map.map@,
                    world@,
                    resources,
                    c,
                ) implies now.contains(c) by {
                if i < head {
                    assert(before[i] == now[i]);
                    assert(before.contains(c));
                    let k = choose|k: int| 0 <= k < before.len() && before[k] == c;
                    assert(now[k] == c);
                } else {
                    assert(now[i] == node);
                }
            }
        }
        head = head + 1;
    }
    reached
}

/// Marks as seen every cell of the fill from `start`, and the eight cells
/// around each of them.
pub fn flood_fill_explore(
    start: Coordinate,
    map: &mut GameMap,
    world: &World,
    resources: &ResourceManager,
)
    requires
        world.wf(),
    ensures
        exists|reached: Seq<Coordinate>| #[trigger]
            is_fill(reached, start, old(map).explored@, old(map).map@, world@, resources)
                && final(map).explored@
                == explored_around(old(map).explored@, reached),
        final(map).same_ground(old(map)),
        final(map).map == old(map).map,
        final(map).rooms == old(map).rooms,
        final(map).room_edges == old(map).room_edges,
        final(map).width == old(map).width,
        final(map).height == old(map).height,
        final(map).depth == old(map).depth,
        final(map).pathing_grid == old(map).pathing_grid,
{
    let reached = flood_fill(start, map, world, resources);
    let mut i: usize = 0;
    assert(reached@.take(0) =~= Seq::<Coordinate>::empty());
    while i < reached.len()
        invariant
            i <= reached@.len(),
            map.explored@ == explored_around(old(map).explored@, reached@.take(i as int)),
            map.map == old(map).map,
            map.rooms == old(map).rooms,
            map.room_edges == old(map).room_edges,
            map.width == old(map).width,
            map.height == old(map).height,
            map.depth == old(map).depth,
            map.pathing_grid == old(map).pathing_grid,
        decreases reached@.len() - i,
    {
        let c = reached[i];
        let around = BoxExtends {
            top_left: Coordinate {
                x: if c.x == i32::MIN {
                    c.x
                } else {
                    c.x - 1
                },
                y: if c.y == i32::MIN {
                    c.y
                } else {
                    c.y - 1
                },
            },
            bottom_right: Coordinate {
                x: if c.x == i32::MAX {
                    c.x
                } else {
                    c.x + 1
                },
                y: if c.y == i32::MAX {
                    c.y
                } else {
                    c.y + 1
                },
            },
        };
        map.explore_box(around);
        proof {
            assert(reached@.take(i as int + 1).drop_last() =~= reached@.take(i as int));
            assert(reached@.take(i as int + 1).last() == c);
        }
        i = i + 1;
    }
    assert(reached@.take(i as int) =~= reached@);
}

} // verus!

verus! {

impl GameMap {
    /// Marks as seen what can be seen of the hallway from `coordinate`: the
    /// cells of the fill from it, and the eight cells around each of them.
    pub fn explore_hallway(&mut self, coordinate: Coordinate, world: &World, resources: &ResourceManager)
        requires
            world.wf(),
        ensures
            exists|reached: Seq<Coordinate>| #[trigger]
                is_fill(reached, coordinate, old(self).explored@, old(self).map@, world@, resources)
                    && final(self).explored@ == explored_around(old(self).explored@, reached),
            final(self).same_ground(old(self)),
    {
        flood_fill_explore(coordinate, self, world, resources);
    }
}

} // verus!
