//! The map of a level: its tiles, its rooms, and what the player has seen
//! of it.

pub mod boxextends;
pub mod fill;
pub mod generation;
pub mod grid;
pub mod los;
pub mod pathfinding;
pub mod room;
pub mod tile;
pub mod utils;

use vstd::prelude::*;
use self::boxextends::BoxExtends;
use self::grid::{CoordinateMap, CoordinateSet};
use self::room::Room;
use self::tile::{Los, Passable};
use self::utils::Coordinate;
use crate::resources::id::TileID;
use crate::resources::{ResourceManager, DEFAULT_TILEID};

verus! {

pub const DEFAULT_HEIGHT: u32 = 32;

pub const DEFAULT_WIDTH: u32 = 32;

/// The map of a level.
pub struct GameMap {
    /// The tile at each cell that has one.
    pub map: CoordinateMap<TileID>,
    /// The cells that the player has seen.
    pub explored: CoordinateSet,
    /// The rooms of the level.
    pub rooms: Vec<Room>,
    /// The pairs of rooms that a corridor joins, by their indices.
    pub room_edges: Vec<(usize, usize)>,
    pub width: u32,
    pub height: u32,
    pub depth: u32,
    /// For each cell from which the player can be reached, the step that
    /// leads towards the player.
    pub pathing_grid: CoordinateMap<Coordinate>,
}

/// The index of the first room whose walls enclose `coordinate`.
pub open spec fn first_room_at(rooms: Seq<Room>, coordinate: Coordinate) -> Option<int>
    decreases rooms.len(),
{
    if rooms.len() == 0 {
        None
    } else if rooms[0].extends.spec_contains_point(coordinate) {
        Some(0)
    } else {
        match first_room_at(rooms.drop_first(), coordinate) {
            Some(i) => Some(i + 1),
            None => None,
        }
    }
}

/// The cells of `explored` and the cells within `extends`.
pub open spec fn explored_with(explored: Set<Coordinate>, extends: BoxExtends) -> Set<Coordinate> {
    Set::new(|p: Coordinate| explored.contains(p) || extends.spec_contains_point(p))
}

/// The cell that stands at `index` when the cells are counted row by row.
pub open spec fn cell_of_index(index: u32, width: u32) -> Coordinate {
    Coordinate { x: (index % width) as i32, y: (index / width) as i32 }
}

/// Whether the tile that `tiles` has at `coordinate` can be walked on.
pub open spec fn walkable_on(
    tiles: Map<Coordinate, TileID>,
    resources: &ResourceManager,
    coordinate: Coordinate,
) -> bool {
    &&& tiles.contains_key(coordinate)
    &&& resources.tiles().contains_key(tiles[coordinate].0)
    &&& resources.tiles()[tiles[coordinate].0].passable == Passable::Walk
}

/// What of a map stays as it is while events are dispatched: the tiles, the
/// rooms, the depth, and the steps that lead towards the player.
pub struct Ground {
    pub tiles: Map<Coordinate, TileID>,
    pub rooms: Seq<Room>,
    pub depth: u32,
    pub pathing: Map<Coordinate, Coordinate>,
}

impl GameMap {
    /// The tiles, the rooms and the depth of the map.
    pub open spec fn ground(&self) -> Ground {
        Ground {
            tiles: self.map@,
            rooms: self.rooms@,
            depth: self.depth,
            pathing: self.pathing_grid@,
        }
    }

    /// Whether the tile at `coordinate` can be walked on.
    pub open spec fn walkable(&self, coordinate: Coordinate, resources: &ResourceManager) -> bool {
        walkable_on(self.map@, resources, coordinate)
    }

    /// Whether the tile at `coordinate` blocks the view.
    pub open spec fn sight_blocking(&self, coordinate: Coordinate, resources: &ResourceManager)
        -> bool {
        &&& self.map@.contains_key(coordinate)
        &&& resources.tiles().contains_key(self.map@[coordinate].0)
        &&& resources.tiles()[self.map@[coordinate].0].los == Los::Block
    }

    /// Whether the two maps differ at most in what the player has seen.
    pub open spec fn same_ground(&self, other: &GameMap) -> bool {
        &&& self.map@ == other.map@
        &&& self.rooms@ == other.rooms@
        &&& self.room_edges@ == other.room_edges@
        &&& self.width == other.width
        &&& self.height == other.height
        &&& self.depth == other.depth
        &&& self.pathing_grid@ == other.pathing_grid@
    }

    /// Whether the two maps show the same level: they differ at most in
    /// what the player has seen and in the steps that lead towards it.
    pub open spec fn same_level(&self, other: &GameMap) -> bool {
        &&& self.map@ == other.map@
        &&& self.rooms@ == other.rooms@
        &&& self.room_edges@ == other.room_edges@
        &&& self.width == other.width
        &&& self.height == other.height
        &&& self.depth == other.depth
    }

    /// The tile at `coordinate`, or the void where there is none.
    pub open spec fn tile_at(&self, coordinate: Coordinate) -> TileID {
        if self.map@.contains_key(coordinate) {
            self.map@[coordinate]
        } else {
            TileID(0)
        }
    }

    /// An empty map of the given size at depth 0.
    pub fn new(width: u32, height: u32) -> (map: GameMap)
        ensures
            map.map@ == Map::<Coordinate, TileID>::empty(),
            map.explored@ == Set::<Coordinate>::empty(),
            map.rooms@.len() == 0,
            map.room_edges@.len() == 0,
            map.width == width,
            map.height == height,
            map.depth == 0,
            map.pathing_grid@ == Map::<Coordinate, Coordinate>::empty(),
    {
        GameMap {
            map: CoordinateMap::new(),
            explored: CoordinateSet::new(),
            rooms: Vec::new(),
            room_edges: Vec::new(),
            width,
            height,
            depth: 0,
            pathing_grid: CoordinateMap::new(),
        }
    }

    /// Whether the tile at `coordinate` can be walked on. A cell without a
    /// tile, and a tile without a definition, cannot.
    pub fn is_tile_walkable(&self, coordinate: Coordinate, resources: &ResourceManager) -> (b: bool)
        ensures
            b == self.walkable(coordinate, resources),
    {
        let tile_id = match self.map.get(coordinate) {
            Some(id) => id,
            None => {
                return false;
            },
        };
        match resources.get_tile(tile_id) {
            Some(tile) => tile.passable == Passable::Walk,
            None => false,
        }
    }

    /// Whether the tile at `coordinate` blocks the view. A cell without a
    /// tile, and a tile without a definition, do not.
    pub fn is_tile_sight_blocking(&self, coordinate: Coordinate, resources: &ResourceManager) -> (b:
        bool)
        ensures
            b == self.sight_blocking(coordinate, resources),
    {
        let tile_id = match self.map.get(coordinate) {
            Some(id) => id,
            None => {
                return false;
            },
        };
        match resources.get_tile(tile_id) {
            Some(tile) => tile.los == Los::Block,
            None => false,
        }
    }

    /// Whether the player has seen `coordinate`.
    pub fn is_tile_explored(&self, coordinate: Coordinate) -> (b: bool)
        ensures
            b == self.explored@.contains(coordinate),
    {
        self.explored.contains(coordinate)
    }

    /// Whether the player has seen the cell that stands at `index` when the
    /// cells are counted row by row.
    pub fn is_tile_explored_from_index(&self, index: u32) -> (b: bool)
        requires
            self.width > 0,
        ensures
            b == self.explored@.contains(cell_of_index(index, self.width)),
    {
        let coordinate = Coordinate {
            x: #[verifier::truncate] ((index % self.width) as i32),
            y: #[verifier::truncate] ((index / self.width) as i32),
        };
        self.explored.contains(coordinate)
    }

    /// Whether the tile at `coordinate` is the void. A cell without a tile
    /// is not.
    pub fn is_tile_void(&self, coordinate: Coordinate) -> (b: bool)
        ensures
            b == (self.map@.contains_key(coordinate) && self.map@[coordinate] == TileID(
                DEFAULT_TILEID,
            )),
    {
        match self.map.get(coordinate) {
            Some(id) => id.0 == DEFAULT_TILEID,
            None => false,
        }
    }

    /// Puts `tile` at `coordinate`.
    pub fn set_game_tile(&mut self, coordinate: Coordinate, tile: TileID)
        ensures
            final(self).map@ == old(self).map@.insert(coordinate, tile),
            final(self).explored == old(self).explored,
            final(self).rooms == old(self).rooms,
            final(self).room_edges == old(self).room_edges,
            final(self).width == old(self).width,
            final(self).height == old(self).height,
            final(self).depth == old(self).depth,
            final(self).pathing_grid == old(self).pathing_grid,
    {
        self.map.insert(coordinate, tile);
    }

    /// The tile at `coordinate`, or the void where there is none.
    pub fn get_game_tile(&self, coordinate: Coordinate) -> (tile: TileID)
        ensures
            tile == self.tile_at(coordinate),
    {
        match self.map.get(coordinate) {
            Some(tile) => tile,
            None => TileID(0),
        }
    }

    /// The tile at the cell that stands at `index` when the cells are
    /// counted row by row.
    pub fn get_game_tile_from(&self, index: u32) -> (tile: TileID)
        requires
            self.width > 0,
        ensures
            tile == self.tile_at(cell_of_index(index, self.width)),
    {
        let coordinate = Coordinate {
            x: #[verifier::truncate] ((index % self.width) as i32),
            y: #[verifier::truncate] ((index / self.width) as i32),
        };
        self.get_game_tile(coordinate)
    }

    /// The index of the first room whose walls enclose `coordinate`.
    pub fn get_room_at_coordinate(&self, coordinate: Coordinate) -> (room: Option<usize>)
        ensures
            match room {
                Some(i) => first_room_at(self.rooms@, coordinate) == Some(i as int) && i
                    < self.rooms@.len() && self.rooms@[i as int].extends.spec_contains_point(
                    coordinate,
                ),
                None => first_room_at(self.rooms@, coordinate) is None,
            },
    {
        let mut i: usize = 0;
        assert(self.rooms@.subrange(0, self.rooms@.len() as int) =~= self.rooms@);
        while i < self.rooms.len()
            invariant
                i <= self.rooms@.len(),
                first_room_at(self.rooms@, coordinate) == match first_room_at(
                    self.rooms@.subrange(i as int, self.rooms@.len() as int),
                    coordinate,
                ) {
                    Some(j) => Some(j + i),
                    None => None,
                },
            decreases self.rooms@.len() - i,
        {
            let ghost rest = self.rooms@.subrange(i as int, self.rooms@.len() as int);
            assert(rest[0] == self.rooms@[i as int]);
            assert(rest.drop_first() =~= self.rooms@.subrange(
                i as int + 1,
                self.rooms@.len() as int,
            ));
            if self.rooms[i].extends.contains_point(coordinate) {
                return Some(i);
            }
            i = i + 1;
        }
        None
    }

    /// Marks every cell within `extends` as seen.
    pub fn explore_box(&mut self, extends: BoxExtends)
        ensures
            final(self).explored@ == explored_with(old(self).explored@, extends),
            final(self).map == old(self).map,
            final(self).rooms == old(self).rooms,
            final(self).room_edges == old(self).room_edges,
            final(self).width == old(self).width,
            final(self).height == old(self).height,
            final(self).depth == old(self).depth,
            final(self).pathing_grid == old(self).pathing_grid,
    {
        let left: i64 = extends.top_left.x as i64;
        let right: i64 = extends.bottom_right.x as i64;
        let top: i64 = extends.top_left.y as i64;
        let bottom: i64 = extends.bottom_right.y as i64;
        let mut x: i64 = left;
        while x <= right
            invariant
                left == extends.top_left.x,
                right == extends.bottom_right.x,
                top == extends.top_left.y,
                bottom == extends.bottom_right.y,
                left <= x,
                x <= right + 1 || left > right,
                left > right ==> x == left,
                self.explored@ =~= Set::new(
                    |p: Coordinate|
                        old(self).explored@.contains(p) || (left <= p.x < x && top <= p.y
                            <= bottom),
                ),
                self.map == old(self).map,
                self.rooms == old(self).rooms,
                self.room_edges == old(self).room_edges,
                self.width == old(self).width,
                self.height == old(self).height,
                self.depth == old(self).depth,
                self.pathing_grid == old(self).pathing_grid,
            decreases right + 1 - x,
        {
            let mut y: i64 = top;
            while y <= bottom
                invariant
                    left == extends.top_left.x,
                    right == extends.bottom_right.x,
                    top == extends.top_left.y,
                    bottom == extends.bottom_right.y,
                    left <= x <= right,
                    top <= y,
                    y <= bottom + 1 || top > bottom,
                    top > bottom ==> y == top,
                    self.explored@ =~= Set::new(
                        |p: Coordinate|
                            old(self).explored@.contains(p) || (left <= p.x < x && top <= p.y
                                <= bottom) || (p.x == x && top <= p.y < y),
                    ),
                    self.map == old(self).map,
                    self.rooms == old(self).rooms,
                    self.room_edges == old(self).room_edges,
                    self.width == old(self).width,
                    self.height == old(self).height,
                    self.depth == old(self).depth,
                    self.pathing_grid == old(self).pathing_grid,
                decreases bottom + 1 - y,
            {
                self.explored.insert(Coordinate { x: x as i32, y: y as i32 });
                y = y + 1;
            }
            x = x + 1;
        }
        assert(self.explored@ =~= explored_with(old(self).explored@, extends));
    }

    /// Marks every cell of the first room whose walls enclose `coordinate`
    /// as seen, walls included. Nothing happens where no room does.
    pub fn explore_room(&mut self, coordinate: Coordinate)
        ensures
            final(self).explored@ == match first_room_at(old(self).rooms@, coordinate) {
                Some(i) => explored_with(old(self).explored@, old(self).rooms@[i].extends),
                None => old(self).explored@,
            },
            final(self).map == old(self).map,
            final(self).rooms == old(self).rooms,
            final(self).room_edges == old(self).room_edges,
            final(self).width == old(self).width,
            final(self).height == old(self).height,
            final(self).depth == old(self).depth,
            final(self).pathing_grid == old(self).pathing_grid,
    {
        match self.get_room_at_coordinate(coordinate) {
            Some(i) => {
                let extends = self.rooms[i].extends;
                self.explore_box(extends);
            },
            None => {},
        }
    }
}

impl Default for GameMap {
    fn default() -> (map: GameMap)
        ensures
            map.width == DEFAULT_WIDTH,
            map.height == DEFAULT_HEIGHT,
            map.depth == 0,
            map.map@ == Map::<Coordinate, TileID>::empty(),
            map.explored@ == Set::<Coordinate>::empty(),
    {
        GameMap::new(DEFAULT_WIDTH, DEFAULT_HEIGHT)
    }
}

} // verus!
