//! Spawning: what is put into the rooms of a level, and where.

pub mod entitytemplate;
pub mod roomtemplate;
pub mod spawnentry;

use vstd::prelude::*;
use self::entitytemplate::spawned;
use self::roomtemplate::RoomTemplate;
use self::spawnentry::{
    entry_spawned, id_spawned, ExtraSpawn, SpawnEntryType, MAX_SPAWN_DEPTH,
};
use crate::error::Error;
use crate::event::response_functions::passed;
use crate::map::room::{
    EntityContainer, EntityContainerView, QuestGenerationData, Room, RoomGenerationData,
};
use crate::map::boxextends::BoxExtends;
use crate::map::utils::{fits_i32, Coordinate};
use crate::map::GameMap;
use crate::random::roll_index;
use crate::resources::id::RoomTemplateID;
use crate::resources::id::{SpawnEntryID, SpawnableID, TileID};
use crate::resources::{ResourceManager, DOOR_SPAWNABLE};
use crate::world::{World, WorldView};

verus! {

/// The smaller of two depths, where both are known; the one that is known,
/// where one is; nothing, where none is.
pub fn option_min(lhs: Option<u32>, rhs: Option<u32>) -> (m: Option<u32>)
    ensures
        m == match (lhs, rhs) {
            (Some(l), Some(r)) => Some(
                if l <= r {
                    l
                } else {
                    r
                },
            ),
            (Some(l), None) => Some(l),
            (None, Some(r)) => Some(r),
            (None, None) => None,
        },
{
    match (lhs, rhs) {
        (Some(lhs), Some(rhs)) => Some(lhs.min(rhs)),
        (Some(lhs), None) => Some(lhs),
        (None, Some(rhs)) => Some(rhs),
        (None, None) => None,
    }
}

/// Whether `post` is what spawning a door at each of `positions` may leave
/// of `pre`. A door that cannot be spawned is left out, as far as it came.
pub open spec fn doors_spawned(
    positions: Seq<Coordinate>,
    depth: u32,
    resources: &ResourceManager,
    pre: WorldView,
    post: WorldView,
) -> bool
    decreases positions.len(),
{
    if positions.len() == 0 {
        post == pre
    } else {
        exists|middle: WorldView, first: Result<usize, Error>| #[trigger]
            passed(middle, first) && spawned(
                resources.templates_of(SpawnableID(DOOR_SPAWNABLE)),
                pre,
                middle,
                depth,
                positions[0],
                resources,
                first,
            ) && doors_spawned(positions.drop_first(), depth, resources, middle, post)
    }
}

fn spawn_doors_from(
    positions: &Vec<Coordinate>,
    from: usize,
    map: &GameMap,
    world: &mut World,
    resources: &ResourceManager,
)
    requires
        old(world).wf(),
        from <= positions@.len(),
    ensures
        final(world).wf(),
        final(world)@.entity_count >= old(world)@.entity_count,
        doors_spawned(
            positions@.subrange(from as int, positions@.len() as int),
            map.depth,
            resources,
            old(world)@,
            final(world)@,
        ),
    decreases positions@.len() - from,
{
    let ghost rest = positions@.subrange(from as int, positions@.len() as int);
    if from >= positions.len() {
        return ;
    }
    assert(rest[0] == positions@[from as int]);
    assert(rest.drop_first() =~= positions@.subrange(from as int + 1, positions@.len() as int));
    let door_templates = resources.get_entity_templates(SpawnableID(DOOR_SPAWNABLE));
    let first = world.spawn_from_templates(&door_templates, map.depth, positions[from], resources);
    let ghost middle = world@;
    assert(passed(middle, first));
    spawn_doors_from(positions, from + 1, map, world, resources);
}

/// Spawns a door at each door location of `room`.
pub fn spawn_doors(room: &Room, map: &GameMap, world: &mut World, resources: &ResourceManager) -> (r:
    Result<(), Error>)
    requires
        old(world).wf(),
    ensures
        r is Ok,
        final(world).wf(),
        final(world)@.entity_count >= old(world)@.entity_count,
        doors_spawned(room.door_locations@, map.depth, resources, old(world)@, final(world)@),
{
    assert(room.door_locations@.subrange(0, room.door_locations@.len() as int)
        =~= room.door_locations@);
    spawn_doors_from(&room.door_locations, 0, map, world, resources);
    Ok(())
}

/// The region of `room` without entities.
pub open spec fn bare(room: Room) -> EntityContainerView {
    EntityContainerView { extends: room.extends, entities: Seq::<usize>::empty() }
}

/// Spawns the player in `room`, from the entry that is set aside for it.
pub fn spawn_player(room: &Room, map: &GameMap, world: &mut World, resources: &ResourceManager) -> (r:
    Result<(), Error>)
    requires
        old(world).wf(),
    ensures
        final(world).wf(),
        final(world)@.entity_count >= old(world)@.entity_count,
        entry_spawned(
            SpawnEntryType::Player(0),
            bare(*room),
            map.depth,
            map.map@,
            resources,
            old(world)@,
            final(world)@,
            r,
            MAX_SPAWN_DEPTH as nat,
        ),
{
    let spawn_entry = SpawnEntryType::Player(0);
    let mut quest_data = QuestGenerationData {  };
    let room_data = RoomGenerationData {
        room: room.to_container(),
        level_depth: map.depth,
        room_depth: 0,
    };
    spawn_entry.spawn(&room_data, &mut quest_data, world, map, resources)
}

/// Spawns the stairs in `room`, from the entry that is set aside for them.
pub fn spawn_stairs(room: &Room, map: &GameMap, world: &mut World, resources: &ResourceManager) -> (r:
    Result<(), Error>)
    requires
        old(world).wf(),
    ensures
        final(world).wf(),
        final(world)@.entity_count >= old(world)@.entity_count,
        entry_spawned(
            SpawnEntryType::Stairs(0),
            bare(*room),
            map.depth,
            map.map@,
            resources,
            old(world)@,
            final(world)@,
            r,
            MAX_SPAWN_DEPTH as nat,
        ),
{
    let spawn_entry = SpawnEntryType::Stairs(0);
    let mut quest_data = QuestGenerationData {  };
    let room_data = RoomGenerationData {
        room: room.to_container(),
        level_depth: map.depth,
        room_depth: 0,
    };
    spawn_entry.spawn(&room_data, &mut quest_data, world, map, resources)
}

/// The region of `room` with the entities that stand in the region in
/// which its top-left corner is looked up.
pub open spec fn room_data_of(room: Room, world: WorldView) -> EntityContainerView {
    EntityContainerView {
        extends: room.extends,
        entities: world.bsp.entities_at_leaf(room.extends.top_left),
    }
}

/// Whether `post` and `r` are what spawning the entries that are filed
/// under `ids` in `room` may leave of `pre`, up to the first that fails.
/// Each entry sees the entities that stand in the room when its turn comes.
/// An entry that is not defined is left out.
pub open spec fn room_filled(
    ids: Seq<SpawnEntryID>,
    room: Room,
    level_depth: u32,
    tiles: Map<Coordinate, TileID>,
    resources: &ResourceManager,
    pre: WorldView,
    post: WorldView,
    r: Result<(), Error>,
) -> bool
    decreases ids.len(),
{
    if ids.len() == 0 {
        r is Ok && post == pre
    } else {
        exists|middle: WorldView, first: Result<(), Error>| #[trigger]
            passed(middle, first) && id_spawned(
                ids[0],
                false,
                room_data_of(room, pre),
                level_depth,
                tiles,
                resources,
                pre,
                middle,
                first,
                (MAX_SPAWN_DEPTH + 1) as nat,
            ) && if first is Err {
                r == first && post == middle
            } else {
                room_filled(ids.drop_first(), room, level_depth, tiles, resources, middle, post, r)
            }
    }
}

fn fill_room_from(
    ids: &Vec<SpawnEntryID>,
    from: usize,
    room: &Room,
    room_depth: u32,
    map: &GameMap,
    world: &mut World,
    resources: &ResourceManager,
) -> (r: Result<(), Error>)
    requires
        old(world).wf(),
        from <= ids@.len(),
    ensures
        final(world).wf(),
        final(world)@.entity_count >= old(world)@.entity_count,
        room_filled(
            ids@.subrange(from as int, ids@.len() as int),
            *room,
            map.depth,
            map.map@,
            resources,
            old(world)@,
            final(world)@,
            r,
        ),
    decreases ids@.len() - from,
{
    let ghost rest = ids@.subrange(from as int, ids@.len() as int);
    if from >= ids.len() {
        return Ok(());
    }
    assert(rest[0] == ids@[from as int]);
    assert(rest.drop_first() =~= ids@.subrange(from as int + 1, ids@.len() as int));
    let mut quest_data = QuestGenerationData {  };
    let first = match resources.get_spawn_entry(ids[from]) {
        None => Ok(()),
        Some(spawn_entry) => {
            let container = world.get_room_data_from(room);
            let room_data = RoomGenerationData {
                room: container,
                level_depth: map.depth,
                room_depth,
            };
            if spawn_entry.evaluate(&room_data, &quest_data) {
                spawn_entry.spawn(&room_data, &mut quest_data, world, map, resources)
            } else {
                Ok(())
            }
        },
    };
    let ghost middle = world@;
    assert(passed(middle, first));
    if let Err(e) = first {
        return Err(e);
    }
    fill_room_from(ids, from + 1, room, room_depth, map, world, resources)
}

/// Spawns in `room` what `room_template` lists. Fails where the room has
/// no depth.
pub fn spawn_room(
    room: &Room,
    room_template: &RoomTemplate,
    map: &GameMap,
    world: &mut World,
    resources: &ResourceManager,
) -> (r: Result<(), Error>)
    requires
        old(world).wf(),
    ensures
        final(world).wf(),
        final(world)@.entity_count >= old(world)@.entity_count,
        room.room_depth is None ==> r == Err::<(), Error>(Error::NoRoomDepth)
            && final(world)@ == old(world)@,
        room.room_depth is Some ==> room_filled(
            room_template.spawns@,
            *room,
            map.depth,
            map.map@,
            resources,
            old(world)@,
            final(world)@,
            r,
        ),
{
    let room_depth = match room.room_depth {
        Some(d) => d,
        None => {
            return Err(Error::NoRoomDepth);
        },
    };
    assert(room_template.spawns@.subrange(0, room_template.spawns@.len() as int)
        =~= room_template.spawns@);
    fill_room_from(&room_template.spawns, 0, room, room_depth, map, world, resources)
}

/// The number of the template of `room`; zero where it has none.
pub open spec fn template_number(room: Room) -> usize {
    match room.template {
        Some(id) => id.0,
        None => 0,
    }
}

/// Whether `post` and `r` are what spawning in `room` may leave of `pre`:
/// its doors; then the player, where the room is set aside for it, and
/// nothing else; else the stairs, where the room is set aside for them, and
/// what the template of the room lists, where it has one that is defined.
pub open spec fn room_spawned(
    room: Room,
    level_depth: u32,
    tiles: Map<Coordinate, TileID>,
    resources: &ResourceManager,
    pre: WorldView,
    post: WorldView,
    r: Result<(), Error>,
) -> bool {
    exists|doors: WorldView, stairs: WorldView, second: Result<(), Error>| #[trigger]
        passed(doors, (stairs, second)) && doors_spawned(
            room.door_locations@,
            level_depth,
            resources,
            pre,
            doors,
        ) && match room.extra_spawn {
            Some(ExtraSpawn::Player(_)) => entry_spawned(
                SpawnEntryType::Player(0),
                bare(room),
                level_depth,
                tiles,
                resources,
                doors,
                post,
                r,
                MAX_SPAWN_DEPTH as nat,
            ),
            extra => (match extra {
                Some(ExtraSpawn::Stairs(_)) => entry_spawned(
                    SpawnEntryType::Stairs(0),
                    bare(room),
                    level_depth,
                    tiles,
                    resources,
                    doors,
                    stairs,
                    second,
                    MAX_SPAWN_DEPTH as nat,
                ),
                _ => second is Ok && stairs == doors,
            }) && if second is Err {
                r == second && post == stairs
            } else if room.template is None || !resources.room_templates().contains_key(
                template_number(room),
            ) {
                r is Ok && post == stairs
            } else if room.room_depth is None {
                r == Err::<(), Error>(Error::NoRoomDepth) && post == stairs
            } else {
                room_filled(
                    resources.room_templates()[template_number(room)].spawns@,
                    room,
                    level_depth,
                    tiles,
                    resources,
                    stairs,
                    post,
                    r,
                )
            },
        }
}

/// Whether `post` and `r` are what spawning in each of `rooms` may leave of
/// `pre`, up to the first room in which that fails.
pub open spec fn rooms_spawned(
    rooms: Seq<Room>,
    level_depth: u32,
    tiles: Map<Coordinate, TileID>,
    resources: &ResourceManager,
    pre: WorldView,
    post: WorldView,
    r: Result<(), Error>,
) -> bool
    decreases rooms.len(),
{
    if rooms.len() == 0 {
        r is Ok && post == pre
    } else {
        exists|middle: WorldView, first: Result<(), Error>| #[trigger]
            passed(middle, first) && room_spawned(
                rooms[0],
                level_depth,
                tiles,
                resources,
                pre,
                middle,
                first,
            ) && if first is Err {
                r == first && post == middle
            } else {
                rooms_spawned(rooms.drop_first(), level_depth, tiles, resources, middle, post, r)
            }
    }
}

fn spawn_in_room(room: &Room, map: &GameMap, world: &mut World, resources: &ResourceManager) -> (r:
    Result<(), Error>)
    requires
        old(world).wf(),
    ensures
        final(world).wf(),
        final(world)@.entity_count >= old(world)@.entity_count,
        room_spawned(*room, map.depth, map.map@, resources, old(world)@, final(world)@, r),
{
    let _ = spawn_doors(room, map, world, resources);
    let ghost doors = world@;
    if let Some(ExtraSpawn::Player(_)) = room.extra_spawn {
        let r = spawn_player(room, map, world, resources);
        assert(passed(doors, (doors, r)));
        return r;
    }
    let second = if let Some(ExtraSpawn::Stairs(_)) = room.extra_spawn {
        spawn_stairs(room, map, world, resources)
    } else {
        Ok(())
    };
    let ghost stairs = world@;
    assert(passed(doors, (stairs, second)));
    if let Err(e) = second {
        return Err(e);
    }
    let template_id = match room.template {
        Some(id) => id,
        None => {
            return Ok(());
        },
    };
    let room_template = match resources.get_room_template(template_id) {
        Some(t) => t,
        None => {
            return Ok(());
        },
    };
    spawn_room(room, room_template, map, world, resources)
}

fn spawn_rooms_from(
    from: usize,
    map: &GameMap,
    world: &mut World,
    resources: &ResourceManager,
) -> (r: Result<(), Error>)
    requires
        old(world).wf(),
        from <= map.rooms@.len(),
    ensures
        final(world).wf(),
        final(world)@.entity_count >= old(world)@.entity_count,
        rooms_spawned(
            map.rooms@.subrange(from as int, map.rooms@.len() as int),
            map.depth,
            map.map@,
            resources,
            old(world)@,
            final(world)@,
            r,
        ),
    decreases map.rooms@.len() - from,
{
    let ghost rest = map.rooms@.subrange(from as int, map.rooms@.len() as int);
    if from >= map.rooms.len() {
        return Ok(());
    }
    assert(rest[0] == map.rooms@[from as int]);
    assert(rest.drop_first() =~= map.rooms@.subrange(from as int + 1, map.rooms@.len() as int));
    let first = spawn_in_room(&map.rooms[from], map, world, resources);
    let ghost middle = world@;
    assert(passed(middle, first));
    if let Err(e) = first {
        return Err(e);
    }
    spawn_rooms_from(from + 1, map, world, resources)
}

/// Spawns the entities of every room of `map`, room by room.
pub fn spawn_all_entities(map: &GameMap, world: &mut World, resources: &ResourceManager) -> (r: Result<
    (),
    Error,
>)
    requires
        old(world).wf(),
    ensures
        final(world).wf(),
        final(world)@.entity_count >= old(world)@.entity_count,
        rooms_spawned(map.rooms@, map.depth, map.map@, resources, old(world)@, final(world)@, r),
{
    assert(map.rooms@.subrange(0, map.rooms@.len() as int) =~= map.rooms@);
    spawn_rooms_from(0, map, world, resources)
}

/// Whether the floor of a room within `extends` is a number of type `i32`,
/// and so are the numbers on the way to it.
pub fn floor_fits(extends: &BoxExtends) -> (b: bool)
    ensures
        b == (fits_i32(extends.width() - 1) && fits_i32(extends.width() - 2) && fits_i32(
            extends.height() - 1,
        ) && fits_i32(extends.height() - 2) && fits_i32(extends.inner_area())),
{
    let width: i128 = extends.bottom_right.x as i128 - extends.top_left.x as i128 + 1;
    let height: i128 = extends.bottom_right.y as i128 - extends.top_left.y as i128 + 1;
    if width - 2 < i32::MIN as i128 || width - 1 > i32::MAX as i128 || height - 2
        < i32::MIN as i128 || height - 1 > i32::MAX as i128 {
        return false;
    }
    if width - 2 <= 0 || height - 2 <= 0 {
        return true;
    }
    assert(0 < (width - 2) * (height - 2) <= 0x1_0000_0000 * 0x1_0000_0000) by (nonlinear_arith)
        requires
            0 < width - 2 <= 0x1_0000_0000,
            0 < height - 2 <= 0x1_0000_0000,
    ;
    (width - 2) * (height - 2) <= i32::MAX as i128
}

/// Whether the room at `start` lies first: with the least column of its
/// top-left corner, and among those with the least row; of several such
/// rooms, the first.
pub open spec fn is_first_room(rooms: Seq<Room>, start: int) -> bool {
    &&& 0 <= start < rooms.len()
    &&& forall|i: int|
        0 <= i < rooms.len() ==> rooms[start].extends.top_left.x < (
        #[trigger] rooms[i]).extends.top_left.x || (rooms[start].extends.top_left.x
            == rooms[i].extends.top_left.x && rooms[start].extends.top_left.y
            <= rooms[i].extends.top_left.y)
    &&& forall|i: int|
        0 <= i < start ==> (#[trigger] rooms[i]).extends.top_left != rooms[start].extends.top_left
}

/// The room that lies first: with the least column of its top-left corner,
/// and among those with the least row; of several such rooms, the first.
pub fn first_room(rooms: &Vec<Room>) -> (start: usize)
    requires
        rooms@.len() > 0,
    ensures
        is_first_room(rooms@, start as int),
{
    let mut start: usize = 0;
    let mut i: usize = 1;
    while i < rooms.len()
        invariant
            1 <= i <= rooms@.len(),
            start < i,
            forall|k: int|
                0 <= k < i ==> rooms@[start as int].extends.top_left.x
                    < (#[trigger] rooms@[k]).extends.top_left.x || (
                rooms@[start as int].extends.top_left.x == rooms@[k].extends.top_left.x
                    && rooms@[start as int].extends.top_left.y <= rooms@[k].extends.top_left.y),
            forall|k: int|
                0 <= k < start ==> (#[trigger] rooms@[k]).extends.top_left
                    != rooms@[start as int].extends.top_left,
        decreases rooms@.len() - i,
    {
        let best = rooms[start].extends.top_left;
        let here = rooms[i].extends.top_left;
        if here.x < best.x || (here.x == best.x && here.y < best.y) {
            start = i;
        }
        i = i + 1;
    }
    start
}

/// Whether the template that is filed under `id` is one that a room within
/// `extends`, at the level `level_depth` and `room_depth` rooms from the
/// start, meets.
pub open spec fn is_viable(
    resources: &ResourceManager,
    extends: BoxExtends,
    level_depth: u32,
    room_depth: u32,
    id: RoomTemplateID,
) -> bool {
    resources.room_templates().contains_key(id.0) && resources.room_templates()[id.0].meets(
        extends.inner_area(),
        level_depth,
        room_depth,
    )
}

/// The identifiers of the room templates that a room within `extends`
/// meets, in the order in which the templates were filed; none, where the
/// floor of the room is no number of type `i32`.
pub open spec fn viable_among(
    resources: &ResourceManager,
    extends: BoxExtends,
    level_depth: u32,
    room_depth: u32,
) -> Seq<RoomTemplateID> {
    if fits_i32(extends.width() - 1) && fits_i32(extends.width() - 2) && fits_i32(
        extends.height() - 1,
    ) && fits_i32(extends.height() - 2) && fits_i32(extends.inner_area()) {
        resources.room_template_order().filter(
            |id: RoomTemplateID| is_viable(resources, extends, level_depth, room_depth, id),
        )
    } else {
        Seq::empty()
    }
}

/// The identifiers of the room templates that a room within `extends`, at
/// the level `level_depth` and `room_depth` rooms from the start, meets.
fn viable_templates(
    extends: BoxExtends,
    level_depth: u32,
    room_depth: u32,
    resources: &ResourceManager,
) -> (viable: Vec<RoomTemplateID>)
    requires
        resources.wf(),
    ensures
        viable@ == viable_among(resources, extends, level_depth, room_depth),
        forall|i: int|
            0 <= i < viable@.len() ==> resources.room_templates().contains_key(
                (#[trigger] viable@[i]).0,
            ),
{
    let mut viable: Vec<RoomTemplateID> = Vec::new();
    if !floor_fits(&extends) {
        return viable;
    }
    let ghost keep = |id: RoomTemplateID| is_viable(resources, extends, level_depth, room_depth, id);
    let room_data = RoomGenerationData {
        room: EntityContainer::new(extends),
        level_depth,
        room_depth,
    };
    let quest_data = QuestGenerationData {  };
    let ids = resources.get_all_room_templates();
    let mut i: usize = 0;
    proof {
        reveal(Seq::filter);
        assert(ids@.take(0).filter(keep) =~= Seq::<RoomTemplateID>::empty());
    }
    while i < ids.len()
        invariant
            i <= ids@.len(),
            ids@ == resources.room_template_order(),
            keep == |id: RoomTemplateID| is_viable(resources, extends, level_depth, room_depth, id),
            viable@ == ids@.take(i as int).filter(keep),
            room_data.level_depth == level_depth,
            room_data.room_depth == room_depth,
            room_data.room.extends == extends,
            fits_i32(extends.width() - 1),
            fits_i32(extends.width() - 2),
            fits_i32(extends.height() - 1),
            fits_i32(extends.height() - 2),
            fits_i32(extends.inner_area()),
            forall|k: int|
                0 <= k < ids@.len() ==> resources.room_templates().contains_key(
                    (#[trigger] ids@[k]).0,
                ),
            forall|k: int|
                0 <= k < viable@.len() ==> resources.room_templates().contains_key(
                    (#[trigger] viable@[k]).0,
                ),
        decreases ids@.len() - i,
    {
        proof {
            reveal(Seq::filter);
            assert(ids@.take(i as int + 1).drop_last() =~= ids@.take(i as int));
            assert(ids@.take(i as int + 1).last() == ids@[i as int]);
        }
        if let Some(template) = resources.get_room_template(ids[i]) {
            if template.validate(&room_data, &quest_data) {
                viable.push(ids[i]);
            }
        }
        i = i + 1;
    }
    assert(ids@.take(i as int) =~= ids@);
    viable
}

/// Goes through the rooms from the room that lies first, each room after
/// the rooms that are joined to it and were gone through before, and gives
/// every room that it reaches its depth, counted in rooms from the start; a
/// template, chosen by chance among the templates that the room meets; the
/// player, to the room at the start; and the stairs, to the room that is
/// gone through last.
pub fn flood_fill_spawn_tables(map: &mut GameMap, resources: &ResourceManager)
    requires
        resources.wf(),
    ensures
        final(map).map == old(map).map,
        final(map).explored == old(map).explored,
        final(map).room_edges == old(map).room_edges,
        final(map).width == old(map).width,
        final(map).height == old(map).height,
        final(map).depth == old(map).depth,
        final(map).pathing_grid == old(map).pathing_grid,
        final(map).rooms@.len() == old(map).rooms@.len(),
        forall|r: int|
            0 <= r < final(map).rooms@.len() ==> (#[trigger] final(map).rooms@[r]).extends == old(map).rooms@[r].extends
                && final(map).rooms@[r].door_locations == old(map).rooms@[r].door_locations
                && (final(map).rooms@[r].template matches Some(id)
                ==> resources.room_templates().contains_key(id.0) || final(map).rooms@[r].template
                == old(map).rooms@[r].template),
        old(map).rooms@.len() > 0 ==> exists|start: int| #[trigger]
            is_first_room(old(map).rooms@, start) && final(map).rooms@[start].room_depth == Some(
                0u32,
            ) && final(map).rooms@[start].extra_spawn is Some,
{
    let count = map.rooms.len();
    if count == 0 {
        return ;
    }
    let start_index = first_room(&map.rooms);
    assert(is_first_room(old(map).rooms@, start_index as int));
    let mut visited: Vec<bool> = Vec::new();
    let mut v: usize = 0;
    while v < count
        invariant
            v <= count,
            visited@.len() == v,
        decreases count - v,
    {
        visited.push(false);
        v = v + 1;
    }
    let mut fill_queue: Vec<usize> = Vec::new();
    fill_queue.push(start_index);
    let mut head: usize = 0;
    let mut fuel: usize = usize::MAX;
    while fuel > 0 && head < fill_queue.len()
        invariant
            resources.wf(),
            count == old(map).rooms@.len(),
            map.rooms@.len() == count,
            visited@.len() == count,
            start_index < count,
            head <= fill_queue@.len(),
            forall|i: int| 0 <= i < fill_queue@.len() ==> #[trigger] fill_queue@[i] < count,
            head == 0 ==> fuel == usize::MAX && fill_queue@ == seq![start_index],
            head > 0 ==> visited@[start_index as int] && map.rooms@[start_index as int].room_depth
                == Some(0u32) && map.rooms@[start_index as int].extra_spawn is Some,
            head > 0 ==> forall|i: int|
                head <= i < fill_queue@.len() ==> #[trigger] fill_queue@[i] != start_index,
            map.map == old(map).map,
            map.explored == old(map).explored,
            map.room_edges == old(map).room_edges,
            map.width == old(map).width,
            map.height == old(map).height,
            map.depth == old(map).depth,
            map.pathing_grid == old(map).pathing_grid,
            forall|r: int|
                0 <= r < map.rooms@.len() ==> (#[trigger] map.rooms@[r]).extends == old(map).rooms@[r].extends
                    && map.rooms@[r].door_locations == old(map).rooms@[r].door_locations
                    && (map.rooms@[r].template matches Some(id)
                    ==> resources.room_templates().contains_key(id.0) || map.rooms@[r].template
                    == old(map).rooms@[r].template),
        decreases fuel,
    {
        fuel = fuel - 1;
        let index = fill_queue[head];
        head = head + 1;
        visited[index] = true;
        if index == start_index {
            map.rooms[index].room_depth = Some(0);
        }
        let new_depth: Option<u32> = match map.rooms[index].room_depth {
            Some(d) => Some(d.saturating_add(1)),
            None => None,
        };
        let mut e: usize = 0;
        while e < map.room_edges.len()
            invariant
                e <= map.room_edges@.len(),
                count == old(map).rooms@.len(),
                map.rooms@.len() == count,
                visited@.len() == count,
                index < count,
                start_index < count,
                1 <= head <= fill_queue@.len(),
                forall|i: int| 0 <= i < fill_queue@.len() ==> #[trigger] fill_queue@[i] < count,
                visited@[start_index as int],
                map.rooms@[start_index as int].room_depth == Some(0u32),
                index != start_index ==> map.rooms@[start_index as int].extra_spawn is Some,
                forall|i: int|
                    head <= i < fill_queue@.len() ==> #[trigger] fill_queue@[i] != start_index,
                map.map == old(map).map,
                map.explored == old(map).explored,
                map.room_edges == old(map).room_edges,
                map.width == old(map).width,
                map.height == old(map).height,
                map.depth == old(map).depth,
                map.pathing_grid == old(map).pathing_grid,
                forall|r: int|
                    0 <= r < map.rooms@.len() ==> (#[trigger] map.rooms@[r]).extends == old(map).rooms@[r].extends
                        && map.rooms@[r].door_locations == old(map).rooms@[r].door_locations
                        && (map.rooms@[r].template matches Some(id)
                        ==> resources.room_templates().contains_key(id.0)
                        || map.rooms@[r].template == old(map).rooms@[r].template),
            decreases map.room_edges@.len() - e,
        {
            let (a, b) = map.room_edges[e];
            let neighbor: Option<usize> = if a == index {
                Some(b)
            } else if b == index {
                Some(a)
            } else {
                None
            };
            if let Some(unvisited_index) = neighbor {
                if unvisited_index < count && !visited[unvisited_index] {
                    let old_depth = map.rooms[unvisited_index].room_depth;
                    map.rooms[unvisited_index].room_depth = option_min(new_depth, old_depth);
                    fill_queue.push(unvisited_index);
                }
            }
            e = e + 1;
        }
        let room_depth = match map.rooms[index].room_depth {
            Some(d) => d,
            None => 0,
        };
        let viable = viable_templates(map.rooms[index].extends, map.depth, room_depth, resources);
        let mut template: Option<RoomTemplateID> = None;
        if viable.len() > 0 {
            let random_index = roll_index(viable.len());
            template = Some(viable[random_index]);
        }
        let mut extra_spawn: Option<ExtraSpawn> = None;
        if index == start_index {
            extra_spawn = Some(ExtraSpawn::Player(0));
        }
        if head == fill_queue.len() {
            extra_spawn = Some(ExtraSpawn::Stairs(0));
        }
        map.rooms[index].template = template;
        map.rooms[index].extra_spawn = extra_spawn;
    }
}

} // verus!
