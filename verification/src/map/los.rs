//! Lines of sight.

use vstd::prelude::*;
use super::utils::Coordinate;
use super::GameMap;
use crate::resources::id::TileID;
use crate::resources::ResourceManager;
use crate::world::{World, WorldView};

verus! {

/// The absolute value of `v`.
pub open spec fn abs(v: int) -> int {
    if v < 0 {
        -v
    } else {
        v
    }
}

/// The step with which a line runs along an axis on which it covers
/// `delta`: forwards where `delta` is positive, backwards otherwise.
pub open spec fn step_of(delta: int) -> int {
    if delta > 0 {
        1
    } else {
        -1
    }
}

/// The cells of the line from `current` to `destination`, where `error` is
/// the error that the line has built up, and at most `fuel` cells follow the
/// first. The line steps along an axis while the doubled error allows it,
/// and ends where it would step along an axis on which it has arrived.
pub open spec fn trace(current: Coordinate, origin: Coordinate, destination: Coordinate, error: int, fuel: nat)
    -> Seq<Coordinate>
    decreases fuel,
{
    let dx = abs(destination.x - origin.x);
    let dy = -abs(destination.y - origin.y);
    let sx = step_of(destination.x - origin.x);
    let sy = step_of(destination.y - origin.y);
    if fuel == 0 || current == destination {
        seq![current]
    } else if 2 * error >= dy && current.x == destination.x {
        seq![current]
    } else if 2 * error <= dx && current.y == destination.y {
        seq![current]
    } else {
        let next = Coordinate {
            x: if 2 * error >= dy {
                (current.x + sx) as i32
            } else {
                current.x
            },
            y: if 2 * error <= dx {
                (current.y + sy) as i32
            } else {
                current.y
            },
        };
        let next_error = error + (if 2 * error >= dy {
            dy
        } else {
            0
        }) + (if 2 * error <= dx {
            dx
        } else {
            0
        });
        seq![current] + trace(next, origin, destination, next_error, (fuel - 1) as nat)
    }
}

/// The cells of the line from `origin` to `destination`, both included.
pub open spec fn line(origin: Coordinate, destination: Coordinate) -> Seq<Coordinate> {
    trace(
        origin,
        origin,
        destination,
        abs(destination.x - origin.x) - abs(destination.y - origin.y),
        (abs(destination.x - origin.x) + abs(destination.y - origin.y)) as nat,
    )
}

/// Whether `c` lies between `a` and `b` on one axis, both included.
pub open spec fn between(c: int, a: int, b: int) -> bool {
    (a <= c <= b) || (b <= c <= a)
}

/// The cells of the line from `origin` to `destination`, both included.
pub fn linetrace(origin: Coordinate, destination: Coordinate) -> (results: Vec<Coordinate>)
    ensures
        results@ == line(origin, destination),
        results@.len() >= 1,
        results@[0] == origin,
{
    let mut current_point = origin;
    let mut results: Vec<Coordinate> = Vec::new();

    let delta_x: i64 = destination.x as i64 - origin.x as i64;
    let delta_y: i64 = destination.y as i64 - origin.y as i64;
    let sx: i64 = if delta_x > 0 {
        1
    } else {
        -1
    };
    let sy: i64 = if delta_y > 0 {
        1
    } else {
        -1
    };
    let dx: i64 = if delta_x < 0 {
        -delta_x
    } else {
        delta_x
    };
    let dy: i64 = if delta_y < 0 {
        delta_y
    } else {
        -delta_y
    };
    let mut error: i64 = dx + dy;
    let ghost total = (dx - dy) as nat;
    let ghost mut fuel: nat = total;
    assert(results@ + trace(current_point, origin, destination, error as int, fuel) =~= line(
        origin,
        destination,
    ));
    loop
        invariant_except_break
            dx == abs(destination.x - origin.x),
            dy == -abs(destination.y - origin.y),
            sx == step_of(destination.x - origin.x),
            sy == step_of(destination.y - origin.y),
            between(current_point.x as int, origin.x as int, destination.x as int),
            between(current_point.y as int, origin.y as int, destination.y as int),
            fuel == abs(destination.x - current_point.x) + abs(destination.y - current_point.y),
            2 * dy - 2 * dx <= error <= 2 * dx - 2 * dy,
            results@ + trace(current_point, origin, destination, error as int, fuel) == line(
                origin,
                destination,
            ),
            results@.len() >= 1 ==> results@[0] == origin,
            results@.len() == 0 ==> current_point == origin,
        ensures
            results@ == line(origin, destination),
            results@.len() >= 1,
            results@[0] == origin,
        decreases fuel,
    {
        let ghost before = results@;
        results.push(current_point);
        if current_point.x == destination.x && current_point.y == destination.y {
            assert(before + seq![current_point] =~= results@);
            break ;
        }
        let error2: i64 = 2 * error;
        let mut next = current_point;
        let mut next_error = error;
        if error2 >= dy {
            if current_point.x == destination.x {
                assert(before + seq![current_point] =~= results@);
                break ;
            }
            next_error = next_error + dy;
            next.x = (current_point.x as i64 + sx) as i32;
        }
        if error2 <= dx {
            if current_point.y == destination.y {
                assert(before + seq![current_point] =~= results@);
                break ;
            }
            next_error = next_error + dx;
            next.y = (current_point.y as i64 + sy) as i32;
        }
        proof {
            assert(fuel > 0);
            assert(before + (seq![current_point] + trace(
                next,
                origin,
                destination,
                next_error as int,
                (fuel - 1) as nat,
            )) =~= results@ + trace(next, origin, destination, next_error as int, (fuel - 1) as nat));
            lemma_trace_fuel(
                next,
                origin,
                destination,
                next_error as int,
                (fuel - 1) as nat,
                (abs(destination.x - next.x) + abs(destination.y - next.y)) as nat,
            );
            fuel = (abs(destination.x - next.x) + abs(destination.y - next.y)) as nat;
        }
        current_point = next;
        error = next_error;
    }
    results
}

/// A line needs no more fuel than the steps that are left to the
/// destination: with more, it is the same line.
pub proof fn lemma_trace_fuel(
    current: Coordinate,
    origin: Coordinate,
    destination: Coordinate,
    error: int,
    fuel: nat,
    enough: nat,
)
    requires
        between(current.x as int, origin.x as int, destination.x as int),
        between(current.y as int, origin.y as int, destination.y as int),
        enough == abs(destination.x - current.x) + abs(destination.y - current.y),
        fuel >= enough,
    ensures
        trace(current, origin, destination, error, fuel) == trace(
            current,
            origin,
            destination,
            error,
            enough,
        ),
    decreases enough,
{
    let dx = abs(destination.x - origin.x);
    let dy = -abs(destination.y - origin.y);
    let sx = step_of(destination.x - origin.x);
    let sy = step_of(destination.y - origin.y);
    if enough == 0 || current == destination {
    } else if 2 * error >= dy && current.x == destination.x {
    } else if 2 * error <= dx && current.y == destination.y {
    } else {
        let next = Coordinate {
            x: if 2 * error >= dy {
                (current.x + sx) as i32
            } else {
                current.x
            },
            y: if 2 * error <= dx {
                (current.y + sy) as i32
            } else {
                current.y
            },
        };
        let next_error = error + (if 2 * error >= dy {
            dy
        } else {
            0
        }) + (if 2 * error <= dx {
            dx
        } else {
            0
        });
        let left = (abs(destination.x - next.x) + abs(destination.y - next.y)) as nat;
        lemma_trace_fuel(next, origin, destination, next_error, (fuel - 1) as nat, left);
        lemma_trace_fuel(next, origin, destination, next_error, (enough - 1) as nat, left);
    }
}

/// Whether something at `point` blocks the view: its tile, or an entity on
/// it.
pub open spec fn view_blocked(
    tiles: Map<Coordinate, TileID>,
    world: WorldView,
    resources: &ResourceManager,
    point: Coordinate,
) -> bool {
    ||| (tiles.contains_key(point) && resources.tiles().contains_key(tiles[point].0)
        && resources.tiles()[tiles[point].0].los == crate::map::tile::Los::Block)
    ||| world.sight_blocking_entity(point) is Some
}

/// Whether `destination` can be seen from `origin`: they are the same cell,
/// or nothing blocks the view on the cells of the line between them.
pub open spec fn sees(
    tiles: Map<Coordinate, TileID>,
    world: WorldView,
    resources: &ResourceManager,
    origin: Coordinate,
    destination: Coordinate,
) -> bool {
    origin == destination || forall|i: int|
        1 <= i < line(origin, destination).len() - 1 ==> !view_blocked(
            tiles,
            world,
            resources,
            #[trigger] line(origin, destination)[i],
        )
}

/// Whether something blocks the view on a cell of `line`.
pub fn los_block_on_line(
    line: &Vec<Coordinate>,
    from: usize,
    to: usize,
    map: &GameMap,
    world: &World,
    resources: &ResourceManager,
) -> (blocked: bool)
    requires
        world.wf(),
        from <= to <= line@.len(),
    ensures
        blocked == exists|i: int|
            from <= i < to && view_blocked(map.map@, world@, resources, #[trigger] line@[i]),
{
    let mut i: usize = from;
    while i < to
        invariant
            world.wf(),
            from <= i <= to <= line@.len(),
            forall|j: int|
                from <= j < i ==> !view_blocked(map.map@, world@, resources, #[trigger] line@[j]),
        decreases to - i,
    {
        if map.is_tile_sight_blocking(line[i], resources) || world.get_sight_blocking_entity(
            line[i],
        ).is_some() {
            return true;
        }
        i = i + 1;
    }
    false
}

/// Whether `destination` can be seen from `origin`.
pub fn line_of_sight(
    origin: Coordinate,
    destination: Coordinate,
    map: &GameMap,
    world: &World,
    resources: &ResourceManager,
) -> (b: bool)
    requires
        world.wf(),
    ensures
        b == sees(map.map@, world@, resources, origin, destination),
{
    if origin == destination {
        return true;
    }
    let full_line = linetrace(origin, destination);
    if full_line.len() < 2 {
        return true;
    }
    !los_block_on_line(&full_line, 1, full_line.len() - 1, map, world, resources)
}

} // verus!
