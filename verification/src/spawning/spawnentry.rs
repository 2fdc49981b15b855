//! Spawn tables. They work like loot tables: an entry is a concrete spawn,
//! or a choice among entries, or all of a list of entries. Entries are
//! resolved in order, each fully before the next.

use vstd::prelude::*;
use super::entitytemplate::spawned;
use crate::component::ComponentType;
use crate::error::Error;
use crate::event::response_functions::passed;
use crate::map::room::{EntityContainer, EntityContainerView, QuestGenerationData, RoomGenerationData};
use crate::map::utils::Coordinate;
use crate::map::{walkable_on, GameMap};
use crate::random::{roll, roll_index};
use crate::resources::id::{SpawnEntryID, SpawnableID, TileID};
use crate::resources::{ResourceManager, PLAYER_SPAWNENTRY, STAIRS_SPAWNENTRY};
use crate::world::{World, WorldView};

verus! {

/// A condition on the cell at which something is spawned.
#[derive(Debug, Clone, Copy, PartialEq, Eq, Structural)]
pub enum LocationCriterion {
    ByWall,
    AwayFromWall,
    AwayFromDoor,
}

/// One entry of a list, chosen at random, is spawned.
#[derive(Debug)]
pub struct SpawnSelection {
    pub sub_entries: Vec<SpawnEntryID>,
}

impl SpawnSelection {
    pub fn new(sub_entries: Vec<SpawnEntryID>) -> (s: SpawnSelection)
        ensures
            s.sub_entries == sub_entries,
    {
        SpawnSelection { sub_entries }
    }
}

/// Every entry of a list is spawned, in order.
#[derive(Debug)]
pub struct SpawnUnion {
    pub sub_entries: Vec<SpawnEntryID>,
}

impl SpawnUnion {
    pub fn new(sub_entries: Vec<SpawnEntryID>) -> (s: SpawnUnion)
        ensures
            s.sub_entries == sub_entries,
    {
        SpawnUnion { sub_entries }
    }
}

/// Between `min_amount` and `max_amount` entities are spawned from one
/// spawnable, each at a cell that meets as many of the location requirements
/// as can be met.
#[derive(Debug)]
pub struct ConcreteSpawn {
    pub spawnable: SpawnableID,
    pub min_amount: u32,
    pub max_amount: u32,
    pub location_requirements: Vec<LocationCriterion>,
}

impl ConcreteSpawn {
    pub fn new(
        spawnable: SpawnableID,
        min_amount: u32,
        max_amount: u32,
        location_requirements: Vec<LocationCriterion>,
    ) -> (s: ConcreteSpawn)
        ensures
            s.spawnable == spawnable,
            s.min_amount == min_amount,
            s.max_amount == max_amount,
            s.location_requirements == location_requirements,
    {
        ConcreteSpawn { spawnable, min_amount, max_amount, location_requirements }
    }
}

/// An entry of the spawn tables.
#[derive(Debug)]
pub enum SpawnEntryType {
    Selection(SpawnSelection),
    Concrete(ConcreteSpawn),
    Union(SpawnUnion),
    /// The player, spawned from the entry that is set aside for it.
    Player(u32),
    /// The stairs, spawned from the entry that is set aside for them.
    Stairs(u32),
}

/// What is spawned in a room beside its template: the player or the stairs.
#[derive(Debug, Clone, Copy, PartialEq, Eq, Structural)]
pub enum ExtraSpawn {
    Player(u32),
    Stairs(u32),
}

/// How deep entries of the spawn tables may refer to each other before
/// spawning gives up.
pub const MAX_SPAWN_DEPTH: u32 = 64;

/// Whether `c` is one of the four cells that share an edge with `candidate`.
pub open spec fn beside(candidate: Coordinate, c: Coordinate) -> bool {
    ||| (c.x == candidate.x && (c.y == candidate.y - 1 || c.y == candidate.y + 1))
    ||| (c.y == candidate.y && (c.x == candidate.x - 1 || c.x == candidate.x + 1))
}

/// Whether a cell beside `candidate` cannot be walked on. Cells off the grid
/// do not count.
pub open spec fn by_wall(
    tiles: Map<Coordinate, TileID>,
    resources: &ResourceManager,
    candidate: Coordinate,
) -> bool {
    exists|c: Coordinate| beside(candidate, c) && !#[trigger] walkable_on(tiles, resources, c)
}

/// Whether an entity of `room` that is a door stands beside `candidate`.
pub open spec fn by_door(room: EntityContainerView, world: WorldView, candidate: Coordinate) -> bool {
    exists|i: int|
        0 <= i < room.entities.len() && world.position(#[trigger] room.entities[i]) is Some
            && beside(candidate, world.position(room.entities[i])->0) && world.has(
            ComponentType::Door,
            room.entities[i],
        )
}

impl LocationCriterion {
    /// Whether `candidate` meets the criterion.
    pub open spec fn holds(
        self,
        candidate: Coordinate,
        room: EntityContainerView,
        world: WorldView,
        tiles: Map<Coordinate, TileID>,
        resources: &ResourceManager,
    ) -> bool {
        match self {
            LocationCriterion::ByWall => by_wall(tiles, resources, candidate),
            LocationCriterion::AwayFromWall => !by_wall(tiles, resources, candidate),
            LocationCriterion::AwayFromDoor => !by_door(room, world, candidate),
        }
    }

    /// Whether `candidate` meets the criterion.
    pub fn validate(
        &self,
        candidate: Coordinate,
        room: &EntityContainer,
        world: &World,
        map: &GameMap,
        resources: &ResourceManager,
    ) -> (b: bool)
        requires
            world.wf(),
        ensures
            b == self.holds(candidate, room@, world@, map.map@, resources),
    {
        match self {
            LocationCriterion::ByWall => find_wall_beside(candidate, map, resources),
            LocationCriterion::AwayFromWall => !find_wall_beside(candidate, map, resources),
            LocationCriterion::AwayFromDoor => !next_to_door(candidate, room, world),
        }
    }
}

fn is_a_wall(candidate: Option<Coordinate>, map: &GameMap, resources: &ResourceManager) -> (b: bool)
    ensures
        b == (candidate is Some && !walkable_on(map.map@, resources, candidate->0)),
{
    match candidate {
        Some(c) => !map.is_tile_walkable(c, resources),
        None => false,
    }
}

fn find_wall_beside(candidate: Coordinate, map: &GameMap, resources: &ResourceManager) -> (b: bool)
    ensures
        b == by_wall(map.map@, resources, candidate),
{
    let above = candidate.checked_plus(crate::map::utils::up());
    let below = candidate.checked_plus(crate::map::utils::down());
    let left = candidate.checked_plus(crate::map::utils::left());
    let right = candidate.checked_plus(crate::map::utils::right());
    let b = is_a_wall(above, map, resources) || is_a_wall(below, map, resources) || is_a_wall(
        left,
        map,
        resources,
    ) || is_a_wall(right, map, resources);
    proof {
        if b {
            let c = if is_a_wall_spec(above, map, resources) {
                above->0
            } else if is_a_wall_spec(below, map, resources) {
                below->0
            } else if is_a_wall_spec(left, map, resources) {
                left->0
            } else {
                right->0
            };
            assert(beside(candidate, c) && !walkable_on(map.map@, resources, c));
        } else {
            assert forall|c: Coordinate| beside(candidate, c) implies #[trigger] walkable_on(
                map.map@,
                resources,
                c,
            ) by {
                if c.x == candidate.x && c.y == candidate.y - 1 {
                    assert(above == Some(c));
                } else if c.x == candidate.x && c.y == candidate.y + 1 {
                    assert(below == Some(c));
                } else if c.x == candidate.x - 1 {
                    assert(left == Some(c));
                } else {
                    assert(right == Some(c));
                }
            }
        }
    }
    b
}

/// Whether `candidate` is a cell that cannot be walked on.
pub open spec fn is_a_wall_spec(
    candidate: Option<Coordinate>,
    map: &GameMap,
    resources: &ResourceManager,
) -> bool {
    candidate is Some && !walkable_on(map.map@, resources, candidate->0)
}

fn is_beside(candidate: Coordinate, c: Coordinate) -> (b: bool)
    ensures
        b == beside(candidate, c),
{
    let dx: i64 = c.x as i64 - candidate.x as i64;
    let dy: i64 = c.y as i64 - candidate.y as i64;
    (dx == 0 && (dy == -1 || dy == 1)) || (dy == 0 && (dx == -1 || dx == 1))
}

fn next_to_door(candidate: Coordinate, room: &EntityContainer, world: &World) -> (b: bool)
    requires
        world.wf(),
    ensures
        b == by_door(room@, world@, candidate),
{
    let mut i: usize = 0;
    while i < room.entities.len()
        invariant
            world.wf(),
            i <= room.entities@.len(),
            forall|j: int|
                0 <= j < i ==> !(world@.position(#[trigger] room@.entities[j]) is Some && beside(
                    candidate,
                    world@.position(room@.entities[j])->0,
                ) && world@.has(ComponentType::Door, room@.entities[j])),
        decreases room.entities@.len() - i,
    {
        let entity = room.entities[i];
        let beside_it = match world.position_of(entity) {
            Some(c) => is_beside(candidate, c),
            None => false,
        };
        if beside_it && world.has_component(ComponentType::Door, entity) {
            assert(room@.entities[i as int] == entity);
            return true;
        }
        i = i + 1;
    }
    false
}

/// The cells within the walls of `room`, column by column.
pub open spec fn inside_cells(left: int, right: int, top: int, bottom: int) -> Seq<Coordinate>
    decreases right - left,
{
    if left >= right {
        Seq::empty()
    } else {
        inside_cells(left, right - 1, top, bottom) + column_cells(right - 1, top, bottom)
    }
}

/// The cells of the column `x` from the row `top` to above the row
/// `bottom`.
pub open spec fn column_cells(x: int, top: int, bottom: int) -> Seq<Coordinate>
    decreases bottom - top,
{
    if top >= bottom {
        Seq::empty()
    } else {
        column_cells(x, top, bottom - 1).push(Coordinate { x: x as i32, y: (bottom - 1) as i32 })
    }
}

/// The cells of `cells` that meet `criterion`, or all of `cells` where none
/// does.
pub open spec fn narrowed_by(
    cells: Seq<Coordinate>,
    criterion: LocationCriterion,
    room: EntityContainerView,
    world: WorldView,
    tiles: Map<Coordinate, TileID>,
    resources: &ResourceManager,
) -> Seq<Coordinate> {
    let passing = cells.filter(|c: Coordinate| criterion.holds(c, room, world, tiles, resources));
    if passing.len() > 0 {
        passing
    } else {
        cells
    }
}

/// The cells of `cells` after each of `criteria` narrowed them in turn.
pub open spec fn narrowed(
    cells: Seq<Coordinate>,
    criteria: Seq<LocationCriterion>,
    room: EntityContainerView,
    world: WorldView,
    tiles: Map<Coordinate, TileID>,
    resources: &ResourceManager,
) -> Seq<Coordinate>
    decreases criteria.len(),
{
    if criteria.len() == 0 {
        cells
    } else {
        narrowed_by(
            narrowed(cells, criteria.drop_last(), room, world, tiles, resources),
            criteria.last(),
            room,
            world,
            tiles,
            resources,
        )
    }
}

/// The cells at which something can be spawned in `room`: the cells within
/// its walls on which no entity stands, narrowed by each of `criteria` that
/// leaves a cell.
pub open spec fn viable_locations(
    criteria: Seq<LocationCriterion>,
    room: EntityContainerView,
    world: WorldView,
    tiles: Map<Coordinate, TileID>,
    resources: &ResourceManager,
) -> Seq<Coordinate> {
    narrowed(
        inside_cells(
            room.extends.top_left.x + 1,
            room.extends.bottom_right.x as int,
            room.extends.top_left.y + 1,
            room.extends.bottom_right.y as int,
        ).filter(|c: Coordinate| world.entities_at(c).len() == 0),
        criteria,
        room,
        world,
        tiles,
        resources,
    )
}

impl ConcreteSpawn {
    /// The cells at which the spawn may put an entity, in order.
    pub fn viable_locations(
        &self,
        room: &EntityContainer,
        world: &World,
        map: &GameMap,
        resources: &ResourceManager,
    ) -> (cells: Vec<Coordinate>)
        requires
            world.wf(),
        ensures
            cells@ == viable_locations(
                self.location_requirements@,
                room@,
                world@,
                map.map@,
                resources,
            ),
    {
        let left: i64 = room.extends.top_left.x as i64 + 1;
        let right: i64 = room.extends.bottom_right.x as i64;
        let top: i64 = room.extends.top_left.y as i64 + 1;
        let bottom: i64 = room.extends.bottom_right.y as i64;
        let ghost free = |c: Coordinate| world@.entities_at(c).len() == 0;
        let mut filtered_locations: Vec<Coordinate> = Vec::new();
        let mut x: i64 = left;
        proof {
            reveal(Seq::filter);
            assert(inside_cells(left as int, left as int, top as int, bottom as int).filter(free)
                =~= Seq::<Coordinate>::empty());
        }
        while x < right
            invariant
                world.wf(),
                left == room.extends.top_left.x + 1,
                right == room.extends.bottom_right.x,
                top == room.extends.top_left.y + 1,
                bottom == room.extends.bottom_right.y,
                left <= x,
                x <= right || left >= right,
                left >= right ==> x == left,
                free == |c: Coordinate| world@.entities_at(c).len() == 0,
                filtered_locations@ == inside_cells(
                    left as int,
                    x as int,
                    top as int,
                    bottom as int,
                ).filter(free),
            decreases right - x,
        {
            let ghost before = filtered_locations@;
            let mut y: i64 = top;
            proof {
                reveal(Seq::filter);
                assert(column_cells(x as int, top as int, top as int).filter(free)
                    =~= Seq::<Coordinate>::empty());
                assert(before + Seq::<Coordinate>::empty() =~= before);
            }
            while y < bottom
                invariant
                    world.wf(),
                    top <= y,
                    y <= bottom || top >= bottom,
                    top >= bottom ==> y == top,
                    i32::MIN <= x <= i32::MAX,
                    top == room.extends.top_left.y + 1,
                    bottom == room.extends.bottom_right.y,
                    free == |c: Coordinate| world@.entities_at(c).len() == 0,
                    filtered_locations@ == before + column_cells(
                        x as int,
                        top as int,
                        y as int,
                    ).filter(free),
                decreases bottom - y,
            {
                let location = Coordinate { x: x as i32, y: y as i32 };
                let empty = world.get_entities_at_coordinate(location).len() == 0;
                proof {
                    reveal(Seq::filter);
                    let column = column_cells(x as int, top as int, y as int + 1);
                    assert(column.drop_last() =~= column_cells(x as int, top as int, y as int));
                    assert(column.last() == location);
                    assert(empty == free(location));
                    if empty {
                        assert(before + column_cells(x as int, top as int, y as int).filter(
                            free,
                        ).push(location) =~= (before + column_cells(
                            x as int,
                            top as int,
                            y as int,
                        ).filter(free)).push(location));
                    }
                }
                if empty {
                    filtered_locations.push(location);
                }
                y = y + 1;
            }
            proof {
                Seq::filter_distributes_over_add(
                    inside_cells(left as int, x as int, top as int, bottom as int),
                    column_cells(x as int, top as int, bottom as int),
                    free,
                );
            }
            x = x + 1;
        }
        let ghost cells = filtered_locations@;
        let mut k: usize = 0;
        assert(self.location_requirements@.take(0) =~= Seq::<LocationCriterion>::empty());
        while k < self.location_requirements.len()
            invariant
                world.wf(),
                k <= self.location_requirements@.len(),
                filtered_locations@ == narrowed(
                    cells,
                    self.location_requirements@.take(k as int),
                    room@,
                    world@,
                    map.map@,
                    resources,
                ),
            decreases self.location_requirements@.len() - k,
        {
            let criterion = self.location_requirements[k];
            let ghost holds = |c: Coordinate|
                criterion.holds(c, room@, world@, map.map@, resources);
            let mut passing_locations: Vec<Coordinate> = Vec::new();
            let mut i: usize = 0;
            proof {
                reveal(Seq::filter);
                assert(filtered_locations@.take(0).filter(holds) =~= Seq::<Coordinate>::empty());
            }
            while i < filtered_locations.len()
                invariant
                    world.wf(),
                    i <= filtered_locations@.len(),
                    holds == |c: Coordinate| criterion.holds(c, room@, world@, map.map@, resources),
                    passing_locations@ == filtered_locations@.take(i as int).filter(holds),
                decreases filtered_locations@.len() - i,
            {
                let location = filtered_locations[i];
                let ok = criterion.validate(location, room, world, map, resources);
                proof {
                    reveal(Seq::filter);
                    assert(filtered_locations@.take(i as int + 1).drop_last()
                        =~= filtered_locations@.take(i as int));
                    assert(filtered_locations@.take(i as int + 1).last() == location);
                    assert(ok == holds(location));
                }
                if ok {
                    passing_locations.push(location);
                }
                i = i + 1;
            }
            proof {
                assert(filtered_locations@.take(i as int) =~= filtered_locations@);
                assert(self.location_requirements@.take(k as int + 1).drop_last()
                    =~= self.location_requirements@.take(k as int));
                assert(self.location_requirements@.take(k as int + 1).last() == criterion);
            }
            if passing_locations.len() > 0 {
                filtered_locations = passing_locations;
            }
            k = k + 1;
        }
        assert(self.location_requirements@.take(k as int) =~= self.location_requirements@);
        filtered_locations
    }

    /// A cell at which the spawn may put an entity, chosen by chance. Fails
    /// where there is none.
    pub fn get_viable_location(
        &self,
        room: &EntityContainer,
        world: &World,
        map: &GameMap,
        resources: &ResourceManager,
    ) -> (r: Result<Coordinate, Error>)
        requires
            world.wf(),
        ensures
            viable_locations(
                self.location_requirements@,
                room@,
                world@,
                map.map@,
                resources,
            ).len() == 0 ==> r == Err::<Coordinate, Error>(Error::NoLegalLocation),
            viable_locations(
                self.location_requirements@,
                room@,
                world@,
                map.map@,
                resources,
            ).len() > 0 ==> r is Ok && viable_locations(
                self.location_requirements@,
                room@,
                world@,
                map.map@,
                resources,
            ).contains(r->Ok_0),
    {
        let filtered_locations = self.viable_locations(room, world, map, resources);
        if filtered_locations.len() == 0 {
            return Err(Error::NoLegalLocation);
        }
        let random_index = roll_index(filtered_locations.len());
        Ok(filtered_locations[random_index])
    }

    /// Whether `post` and `r` are what `left` more spawns may leave of
    /// `pre`: each puts an entity from the templates of the spawnable at a
    /// viable cell, if there is one, up to the first that fails.
    pub open spec fn spawned_times(
        self,
        left: nat,
        room: EntityContainerView,
        level_depth: u32,
        tiles: Map<Coordinate, TileID>,
        resources: &ResourceManager,
        pre: WorldView,
        post: WorldView,
        r: Result<(), Error>,
    ) -> bool
        decreases left,
    {
        if left == 0 {
            r is Ok && post == pre
        } else if viable_locations(
            self.location_requirements@,
            room,
            pre,
            tiles,
            resources,
        ).len() == 0 {
            self.spawned_times((left - 1) as nat, room, level_depth, tiles, resources, pre, post, r)
        } else {
            exists|middle: WorldView, first: Result<usize, Error>, location: Coordinate| #[trigger]
                passed(middle, (first, location)) && viable_locations(
                    self.location_requirements@,
                    room,
                    pre,
                    tiles,
                    resources,
                ).contains(location) && spawned(
                    resources.templates_of(self.spawnable),
                    pre,
                    middle,
                    level_depth,
                    location,
                    resources,
                    first,
                ) && match first {
                    Err(e) => r == Err::<(), Error>(e) && post == middle,
                    Ok(_) => self.spawned_times(
                        (left - 1) as nat,
                        room,
                        level_depth,
                        tiles,
                        resources,
                        middle,
                        post,
                        r,
                    ),
                }
        }
    }

    fn spawn_times(
        &self,
        left: u32,
        room_data: &RoomGenerationData,
        world: &mut World,
        map: &GameMap,
        resources: &ResourceManager,
    ) -> (r: Result<(), Error>)
        requires
            old(world).wf(),
        ensures
            final(world).wf(),
            final(world)@.entity_count >= old(world)@.entity_count,
            self.spawned_times(
                left as nat,
                room_data.room@,
                room_data.level_depth,
                map.map@,
                resources,
                old(world)@,
                final(world)@,
                r,
            ),
        decreases left,
    {
        if left == 0 {
            return Ok(());
        }
        let location = match self.get_viable_location(&room_data.room, world, map, resources) {
            Ok(location) => location,
            Err(_) => {
                return self.spawn_times(left - 1, room_data, world, map, resources);
            },
        };
        let templates = resources.get_entity_templates(self.spawnable);
        let first = world.spawn_from_templates(
            &templates,
            room_data.level_depth,
            location,
            resources,
        );
        let ghost middle = world@;
        assert(passed(middle, (first, location)));
        match first {
            Err(e) => Err(e),
            Ok(_) => self.spawn_times(left - 1, room_data, world, map, resources),
        }
    }

    /// Whether `post` and `r` are what the spawn may leave of `pre`: a
    /// failure, where its least amount exceeds its largest; else it spawns a
    /// number of times between the two.
    pub open spec fn spawns(
        self,
        room: EntityContainerView,
        level_depth: u32,
        tiles: Map<Coordinate, TileID>,
        resources: &ResourceManager,
        pre: WorldView,
        post: WorldView,
        r: Result<(), Error>,
    ) -> bool {
        if self.min_amount > self.max_amount {
            r == Err::<(), Error>(Error::EmptyRange) && post == pre
        } else {
            exists|amount: u32| #[trigger]
                passed(amount, amount) && self.min_amount <= amount <= self.max_amount
                    && self.spawned_times(amount as nat, room, level_depth, tiles, resources, pre, post, r)
        }
    }

    /// Spawns a number of entities between the least and the largest amount.
    pub fn spawn(
        &self,
        room_data: &RoomGenerationData,
        _quest_data: &mut QuestGenerationData,
        world: &mut World,
        map: &GameMap,
        resources: &ResourceManager,
    ) -> (r: Result<(), Error>)
        requires
            old(world).wf(),
        ensures
            final(world).wf(),
            final(world)@.entity_count >= old(world)@.entity_count,
            self.spawns(room_data.room@,
            room_data.level_depth, map.map@, resources, old(world)@, final(world)@, r),
    {
        if self.min_amount > self.max_amount {
            return Err(Error::EmptyRange);
        }
        let amount = roll(self.min_amount, self.max_amount);
        assert(passed(amount, amount));
        self.spawn_times(amount, room_data, world, map, resources)
    }

    /// Whether the spawn applies to the room: always.
    pub fn evaluate(&self, _room_data: &RoomGenerationData, _quest_data: &QuestGenerationData) -> (b:
        bool)
        ensures
            b,
    {
        true
    }
}

/// Whether `post` and `r` are what spawning `entry` may leave of `pre`,
/// where entries may refer to each other `depth` deep: a concrete spawn
/// spawns; a selection spawns one of its entries; a union spawns all of its
/// entries that are defined, in order; the player and the stairs spawn the
/// entry that is set aside for them.
pub open spec fn entry_spawned(
    entry: SpawnEntryType,
    room: EntityContainerView,
    level_depth: u32,
    tiles: Map<Coordinate, TileID>,
    resources: &ResourceManager,
    pre: WorldView,
    post: WorldView,
    r: Result<(), Error>,
    depth: nat,
) -> bool
    decreases depth, 1nat, 0nat,
{
    match entry {
        SpawnEntryType::Concrete(spawn) => spawn.spawns(room, level_depth, tiles, resources, pre, post, r),
        SpawnEntryType::Selection(selection) => if selection.sub_entries@.len() == 0 {
            r == Err::<(), Error>(Error::EmptyRange) && post == pre
        } else {
            exists|index: int| #[trigger]
                passed(index, index) && 0 <= index < selection.sub_entries@.len() && id_spawned(
                    selection.sub_entries@[index],
                    true,
                    room,
                    level_depth,
                    tiles,
                    resources,
                    pre,
                    post,
                    r,
                    depth,
                )
        },
        SpawnEntryType::Union(union) => all_spawned(
            union.sub_entries@,
            room,
            level_depth,
            tiles,
            resources,
            pre,
            post,
            r,
            depth,
        ),
        SpawnEntryType::Player(_) => id_spawned(
            SpawnEntryID(PLAYER_SPAWNENTRY),
            true,
            room,
            level_depth,
            tiles,
            resources,
            pre,
            post,
            r,
            depth,
        ),
        SpawnEntryType::Stairs(_) => id_spawned(
            SpawnEntryID(STAIRS_SPAWNENTRY),
            true,
            room,
            level_depth,
            tiles,
            resources,
            pre,
            post,
            r,
            depth,
        ),
    }
}

/// Whether `post` and `r` are what spawning the entry that is filed under
/// `id` may leave of `pre`. Where no entry is filed under it, that is a
/// failure if the entry is `required`, and nothing happens otherwise. The
/// cascade fails where it would go deeper than it is followed.
pub open spec fn id_spawned(
    id: SpawnEntryID,
    required: bool,
    room: EntityContainerView,
    level_depth: u32,
    tiles: Map<Coordinate, TileID>,
    resources: &ResourceManager,
    pre: WorldView,
    post: WorldView,
    r: Result<(), Error>,
    depth: nat,
) -> bool
    decreases depth, 0nat, 0nat,
{
    if !resources.spawn_entries().contains_key(id.0) {
        post == pre && r == if required {
            Err::<(), Error>(Error::NoSpawnEntry)
        } else {
            Ok::<(), Error>(())
        }
    } else if depth == 0 {
        r == Err::<(), Error>(Error::CascadeTooDeep) && post == pre
    } else {
        entry_spawned(
            resources.spawn_entries()[id.0],
            room,
            level_depth,
            tiles,
            resources,
            pre,
            post,
            r,
            (depth - 1) as nat,
        )
    }
}

/// Whether `post` and `r` are what spawning each of the entries that are
/// filed under `ids` may leave of `pre`, up to the first that fails.
pub open spec fn all_spawned(
    ids: Seq<SpawnEntryID>,
    room: EntityContainerView,
    level_depth: u32,
    tiles: Map<Coordinate, TileID>,
    resources: &ResourceManager,
    pre: WorldView,
    post: WorldView,
    r: Result<(), Error>,
    depth: nat,
) -> bool
    decreases depth, 0nat, 1 + ids.len(),
{
    if ids.len() == 0 {
        r is Ok && post == pre
    } else {
        exists|middle: WorldView, first: Result<(), Error>| #[trigger]
            passed(middle, first) && id_spawned(
                ids[0],
                false,
                room,
                level_depth,
                tiles,
                resources,
                pre,
                middle,
                first,
                depth,
            ) && if first is Err {
                r == first && post == middle
            } else {
                all_spawned(ids.drop_first(), room, level_depth, tiles, resources, middle, post, r, depth)
            }
    }
}

fn spawn_by_id(
    id: SpawnEntryID,
    required: bool,
    room_data: &RoomGenerationData,
    quest_data: &mut QuestGenerationData,
    world: &mut World,
    map: &GameMap,
    resources: &ResourceManager,
    depth: u32,
) -> (r: Result<(), Error>)
    requires
        old(world).wf(),
    ensures
        final(world).wf(),
        final(world)@.entity_count >= old(world)@.entity_count,
        id_spawned(
            id,
            required,
            room_data.room@,
            room_data.level_depth,
            map.map@,
            resources,
            old(world)@,
            final(world)@,
            r,
            depth as nat,
        ),
    decreases depth, 0nat, 0nat,
{
    let entry = match resources.get_spawn_entry(id) {
        Some(entry) => entry,
        None => {
            if required {
                return Err(Error::NoSpawnEntry);
            } else {
                return Ok(());
            }
        },
    };
    if depth == 0 {
        return Err(Error::CascadeTooDeep);
    }
    entry.spawn_within(room_data, quest_data, world, map, resources, depth - 1)
}

fn spawn_all_from(
    ids: &Vec<SpawnEntryID>,
    from: usize,
    room_data: &RoomGenerationData,
    quest_data: &mut QuestGenerationData,
    world: &mut World,
    map: &GameMap,
    resources: &ResourceManager,
    depth: u32,
) -> (r: Result<(), Error>)
    requires
        old(world).wf(),
        from <= ids@.len(),
    ensures
        final(world).wf(),
        final(world)@.entity_count >= old(world)@.entity_count,
        all_spawned(
            ids@.subrange(from as int, ids@.len() as int),
            room_data.room@,
            room_data.level_depth,
            map.map@,
            resources,
            old(world)@,
            final(world)@,
            r,
            depth as nat,
        ),
    decreases depth, 0nat, 1 + ids@.len() - from,
{
    let ghost rest = ids@.subrange(from as int, ids@.len() as int);
    if from >= ids.len() {
        return Ok(());
    }
    assert(rest[0] == ids@[from as int]);
    assert(rest.drop_first() =~= ids@.subrange(from as int + 1, ids@.len() as int));
    let first = spawn_by_id(ids[from], false, room_data, quest_data, world, map, resources, depth);
    let ghost middle = world@;
    assert(passed(middle, first));
    if let Err(e) = first {
        return Err(e);
    }
    spawn_all_from(ids, from + 1, room_data, quest_data, world, map, resources, depth)
}

impl SpawnEntryType {
    /// Whether the entry applies to the room: always.
    pub fn evaluate(&self, _room_data: &RoomGenerationData, _quest_data: &QuestGenerationData) -> (b:
        bool)
        ensures
            b,
    {
        true
    }

    /// Spawns the entry, where entries may refer to each other `depth`
    /// deep.
    pub fn spawn_within(
        &self,
        room_data: &RoomGenerationData,
        quest_data: &mut QuestGenerationData,
        world: &mut World,
        map: &GameMap,
        resources: &ResourceManager,
        depth: u32,
    ) -> (r: Result<(), Error>)
        requires
            old(world).wf(),
        ensures
            final(world).wf(),
            final(world)@.entity_count >= old(world)@.entity_count,
            entry_spawned(
                *self,
                room_data.room@,
                room_data.level_depth,
                map.map@,
                resources,
                old(world)@,
                final(world)@,
                r,
                depth as nat,
            ),
        decreases depth, 1nat, 0nat,
    {
        match self {
            SpawnEntryType::Concrete(spawn) => spawn.spawn(
                room_data,
                quest_data,
                world,
                map,
                resources,
            ),
            SpawnEntryType::Selection(selection) => {
                if selection.sub_entries.len() == 0 {
                    return Err(Error::EmptyRange);
                }
                let random_index = roll_index(selection.sub_entries.len());
                assert(passed(random_index as int, random_index as int));
                spawn_by_id(
                    selection.sub_entries[random_index],
                    true,
                    room_data,
                    quest_data,
                    world,
                    map,
                    resources,
                    depth,
                )
            },
            SpawnEntryType::Union(union) => {
                assert(union.sub_entries@.subrange(0, union.sub_entries@.len() as int)
                    =~= union.sub_entries@);
                spawn_all_from(
                    &union.sub_entries,
                    0,
                    room_data,
                    quest_data,
                    world,
                    map,
                    resources,
                    depth,
                )
            },
            SpawnEntryType::Player(_) => spawn_by_id(
                SpawnEntryID(PLAYER_SPAWNENTRY),
                true,
                room_data,
                quest_data,
                world,
                map,
                resources,
                depth,
            ),
            SpawnEntryType::Stairs(_) => spawn_by_id(
                SpawnEntryID(STAIRS_SPAWNENTRY),
                true,
                room_data,
                quest_data,
                world,
                map,
                resources,
                depth,
            ),
        }
    }

    /// Spawns the entry.
    pub fn spawn(
        &self,
        room_data: &RoomGenerationData,
        quest_data: &mut QuestGenerationData,
        world: &mut World,
        map: &GameMap,
        resources: &ResourceManager,
    ) -> (r: Result<(), Error>)
        requires
            old(world).wf(),
        ensures
            final(world).wf(),
            final(world)@.entity_count >= old(world)@.entity_count,
            entry_spawned(
                *self,
                room_data.room@,
                room_data.level_depth,
                map.map@,
                resources,
                old(world)@,
                final(world)@,
                r,
                MAX_SPAWN_DEPTH as nat,
            ),
    {
        self.spawn_within(room_data, quest_data, world, map, resources, MAX_SPAWN_DEPTH)
    }
}

} // verus!
