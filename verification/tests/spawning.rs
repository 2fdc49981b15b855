use rogue_core::component::attributes::{Attributes, XpStatus};
use rogue_core::component::behavior::{BehaviorName, BehaviorState};
use rogue_core::component::combat::{get_adjusted_damage, DamageRange};
use rogue_core::component::health::Health;
use rogue_core::component::tags::Door;
use rogue_core::component::{Component, ComponentType, Position};
use rogue_core::error::Error;
use rogue_core::event::ResponseFuctionName;
use rogue_core::map::boxextends::BoxExtends;
use rogue_core::map::generation::draw_room;
use rogue_core::map::room::{
    EntityContainer, EntityGraph, QuestGenerationData, Room, RoomGenerationData,
};
use rogue_core::map::tile::{GameTile, Los, Passable};
use rogue_core::map::utils::Coordinate;
use rogue_core::map::GameMap;
use rogue_core::resources::id::{
    ImageID, RoomTemplateID, SpawnEntryID, SpawnableID, SpellDefinitionId, TileID,
};
use rogue_core::resources::{
    ResourceManager, DOOR_SPAWNABLE, FLOOR_TILEID, PLAYER_SPAWNENTRY, STAIRS_SPAWNENTRY,
    WALL_TILEID,
};
use rogue_core::spawning::entitytemplate::{
    CombatTemplate, CoreTemplate, DestructibleTemplate, DoorTemplate, EmptyTemplate,
    EntityTemplateEnum, InteractableTemplate, InventoryTemplate, MonsterTemplate,
    PickupTemplate, PlayerTemplate, SpellbookTemplate, StairsTemplate,
};
use rogue_core::spawning::roomtemplate::{RoomCriterion, RoomTemplate};
use rogue_core::spawning::spawnentry::{
    ConcreteSpawn, ExtraSpawn, LocationCriterion, SpawnEntryType, SpawnSelection, SpawnUnion,
};
use rogue_core::spawning::{
    first_room, flood_fill_spawn_tables, floor_fits, option_min, spawn_all_entities,
    spawn_doors, spawn_player, spawn_room, spawn_stairs,
};
use rogue_core::world::World;

const PLAYER: usize = 1;
const STAIRS: usize = 2;
const RAT: usize = 3;

fn boxed(x0: i32, y0: i32, x1: i32, y1: i32) -> BoxExtends {
    BoxExtends {
        top_left: Coordinate { x: x0, y: y0 },
        bottom_right: Coordinate { x: x1, y: y1 },
    }
}

fn at(x: i32, y: i32) -> Coordinate {
    Coordinate { x, y }
}

fn basics(name: &str, image: usize, collision: Passable) -> EntityTemplateEnum {
    EntityTemplateEnum::Core(CoreTemplate {
        name: name.to_string(),
        image: ImageID(image),
        collision,
        los: Los::Clear,
    })
}

fn fighting(health: u32, melee: Option<DamageRange>) -> CombatTemplate {
    CombatTemplate {
        health,
        melee_damage: melee,
        ranged_damage: None,
        attack_response: None,
        shoot_response: None,
        spell_response: None,
        death_response: None,
    }
}

fn resources() -> ResourceManager {
    let mut resources = ResourceManager::new();
    resources.set_tile(
        TileID(FLOOR_TILEID),
        GameTile {
            name: "Floor".to_string(),
            image: ImageID(1),
            passable: Passable::Walk,
            los: Los::Clear,
        },
    );
    resources.set_tile(
        TileID(WALL_TILEID),
        GameTile {
            name: "Wall".to_string(),
            image: ImageID(2),
            passable: Passable::Impassable,
            los: Los::Block,
        },
    );
    resources.set_entity_templates(
        SpawnableID(DOOR_SPAWNABLE),
        vec![
            basics("Door", 7, Passable::Walk),
            EntityTemplateEnum::Door(DoorTemplate::default()),
        ],
    );
    resources.set_entity_templates(
        SpawnableID(PLAYER),
        vec![
            basics("Hero", 3, Passable::Impassable),
            EntityTemplateEnum::Combat(fighting(20, Some(DamageRange(2, 4)))),
            EntityTemplateEnum::Player(PlayerTemplate {
                level: 1,
                attributes: Attributes { might: 1, wit: 1, skill: 1 },
            }),
            EntityTemplateEnum::Spellbook(SpellbookTemplate {
                spells: vec![SpellDefinitionId(0), SpellDefinitionId(1), SpellDefinitionId(9)],
            }),
            EntityTemplateEnum::Inventory(InventoryTemplate { coins: Some(0) }),
        ],
    );
    resources.set_entity_templates(
        SpawnableID(STAIRS),
        vec![
            basics("Stairs", 9, Passable::Walk),
            EntityTemplateEnum::Stairs(StairsTemplate),
        ],
    );
    resources.set_entity_templates(
        SpawnableID(RAT),
        vec![
            basics("Rat", 12, Passable::Impassable),
            EntityTemplateEnum::Monster(MonsterTemplate::new_from(fighting(
                100,
                Some(DamageRange(10, 20)),
            ))),
        ],
    );
    resources.set_spawn_entry(
        SpawnEntryID(PLAYER_SPAWNENTRY),
        SpawnEntryType::Concrete(ConcreteSpawn::new(SpawnableID(PLAYER), 1, 1, vec![])),
    );
    resources.set_spawn_entry(
        SpawnEntryID(STAIRS_SPAWNENTRY),
        SpawnEntryType::Concrete(ConcreteSpawn::new(SpawnableID(STAIRS), 1, 1, vec![])),
    );
    resources.set_spawn_entry(
        SpawnEntryID(2),
        SpawnEntryType::Concrete(ConcreteSpawn::new(SpawnableID(RAT), 2, 3, vec![])),
    );
    resources.set_spawn_entry(
        SpawnEntryID(3),
        SpawnEntryType::Union(SpawnUnion::new(vec![
            SpawnEntryID(2),
            SpawnEntryID(77),
            SpawnEntryID(2),
        ])),
    );
    resources.set_spawn_entry(
        SpawnEntryID(4),
        SpawnEntryType::Selection(SpawnSelection::new(vec![SpawnEntryID(2)])),
    );
    resources.set_spawn_entry(
        SpawnEntryID(5),
        SpawnEntryType::Selection(SpawnSelection::new(vec![SpawnEntryID(5)])),
    );
    resources
}

/// A level with one room, its walls at the columns and rows 1 and 6.
fn one_room() -> (GameMap, World, Room) {
    let mut map = GameMap::new(32, 18);
    map.depth = 1;
    draw_room(boxed(1, 1, 6, 6), &mut map);
    let room = Room::new(boxed(1, 1, 6, 6));
    map.rooms.push(room.clone());
    (map, World::new_with(EntityGraph::new(boxed(0, 0, 31, 17))), room)
}

fn data(room: &Room, world: &World) -> RoomGenerationData {
    RoomGenerationData { room: world.get_room_data_from(room), level_depth: 1, room_depth: 0 }
}

fn name_of(world: &World, e: usize) -> String {
    match world.borrow_entity_component(ComponentType::Name, e) {
        Some(Component::Name(n)) => n.0.clone(),
        _ => panic!("name expected"),
    }
}

fn names(world: &World) -> Vec<String> {
    (0..world.entity_count()).map(|e| name_of(world, e)).collect()
}

#[test]
fn the_lesser_of_two_depths() {
    assert_eq!(option_min(None, None), None);
    assert_eq!(option_min(Some(3), None), Some(3));
    assert_eq!(option_min(None, Some(4)), Some(4));
    assert_eq!(option_min(Some(3), Some(4)), Some(3));
    assert_eq!(option_min(Some(5), Some(4)), Some(4));
}

#[test]
fn room_criteria() {
    let quest = QuestGenerationData {};
    let room = RoomGenerationData {
        room: EntityContainer { extends: boxed(1, 1, 6, 6), entities: vec![] },
        level_depth: 3,
        room_depth: 2,
    };
    // the floor of the room has 16 cells
    assert!(RoomCriterion::LargerThan(15).validate(&room, &quest));
    assert!(!RoomCriterion::LargerThan(16).validate(&room, &quest));
    assert!(RoomCriterion::SmallerThan(17).validate(&room, &quest));
    assert!(!RoomCriterion::SmallerThan(16).validate(&room, &quest));
    assert!(RoomCriterion::DepthGreaterThan(2).validate(&room, &quest));
    assert!(!RoomCriterion::DepthGreaterThan(3).validate(&room, &quest));
    assert!(RoomCriterion::DepthLessThan(4).validate(&room, &quest));
    assert!(!RoomCriterion::DepthLessThan(3).validate(&room, &quest));
    assert!(RoomCriterion::EarlierThan(1).validate(&room, &quest));
    assert!(!RoomCriterion::EarlierThan(2).validate(&room, &quest));
    assert!(RoomCriterion::LaterThan(3).validate(&room, &quest));
    assert!(!RoomCriterion::LaterThan(2).validate(&room, &quest));
    let template = RoomTemplate {
        requirements: vec![RoomCriterion::LargerThan(15), RoomCriterion::LaterThan(3)],
        spawns: vec![SpawnEntryID(2)],
    };
    assert!(template.validate(&room, &quest));
    let template = RoomTemplate {
        requirements: vec![RoomCriterion::LargerThan(15), RoomCriterion::LaterThan(2)],
        spawns: vec![],
    };
    assert!(!template.validate(&room, &quest));
    assert!(RoomTemplate { requirements: vec![], spawns: vec![] }.validate(&room, &quest));
    let copy = template.duplicate();
    assert_eq!(copy.requirements, template.requirements);
    assert_eq!(copy.spawns, template.spawns);
}

#[test]
fn where_something_can_be_spawned() {
    let (map, mut world, room) = one_room();
    let resources = resources();
    let anywhere = ConcreteSpawn::new(SpawnableID(RAT), 1, 1, vec![]);
    let cells = anywhere.viable_locations(&data(&room, &world).room, &world, &map, &resources);
    assert_eq!(cells.len(), 16);
    assert_eq!(cells[0], at(2, 2));
    assert_eq!(cells[1], at(2, 3));
    assert_eq!(cells[4], at(3, 2));
    assert_eq!(cells[15], at(5, 5));
    let by_wall = ConcreteSpawn::new(SpawnableID(RAT), 1, 1, vec![LocationCriterion::ByWall]);
    let cells = by_wall.viable_locations(&data(&room, &world).room, &world, &map, &resources);
    assert_eq!(cells.len(), 12);
    assert!(!cells.contains(&at(3, 3)));
    let inside =
        ConcreteSpawn::new(SpawnableID(RAT), 1, 1, vec![LocationCriterion::AwayFromWall]);
    let cells = inside.viable_locations(&data(&room, &world).room, &world, &map, &resources);
    assert_eq!(cells, vec![at(3, 3), at(3, 4), at(4, 3), at(4, 4)]);
    // a criterion that no cell meets is passed over
    let neither = ConcreteSpawn::new(
        SpawnableID(RAT),
        1,
        1,
        vec![LocationCriterion::AwayFromWall, LocationCriterion::ByWall],
    );
    let cells = neither.viable_locations(&data(&room, &world).room, &world, &map, &resources);
    assert_eq!(cells, vec![at(3, 3), at(3, 4), at(4, 3), at(4, 4)]);
    // a cell on which something stands is out
    let stone = world.new_entity();
    world.add_position(stone, Position::new(at(3, 4))).unwrap();
    let cells = inside.viable_locations(&data(&room, &world).room, &world, &map, &resources);
    assert_eq!(cells, vec![at(3, 3), at(4, 3), at(4, 4)]);
    // and so are the cells beside a door, where that is asked
    let door = world.new_entity();
    world.add_position(door, Position::new(at(4, 2))).unwrap();
    world.add_component(door, Component::Door(Door)).unwrap();
    let shy = ConcreteSpawn::new(
        SpawnableID(RAT),
        1,
        1,
        vec![LocationCriterion::AwayFromWall, LocationCriterion::AwayFromDoor],
    );
    let cells = shy.viable_locations(&data(&room, &world).room, &world, &map, &resources);
    assert_eq!(cells, vec![at(3, 3), at(4, 4)]);
    for _ in 0..20 {
        let cell = shy
            .get_viable_location(&data(&room, &world).room, &world, &map, &resources)
            .unwrap();
        assert!(cell == at(3, 3) || cell == at(4, 4));
    }
    let narrow = Room::new(boxed(10, 10, 11, 14));
    assert_eq!(
        shy.get_viable_location(&data(&narrow, &world).room, &world, &map, &resources),
        Err(Error::NoLegalLocation)
    );
}

#[test]
fn a_concrete_spawn_spawns_between_its_bounds() {
    let resources = resources();
    for _ in 0..20 {
        let (map, mut world, room) = one_room();
        let mut quest = QuestGenerationData {};
        let spawn = ConcreteSpawn::new(SpawnableID(RAT), 2, 3, vec![]);
        assert!(spawn.evaluate(&data(&room, &world), &quest));
        let r = spawn.spawn(&data(&room, &world), &mut quest, &mut world, &map, &resources);
        assert_eq!(r, Ok(()));
        let count = world.entity_count();
        assert!(count == 2 || count == 3);
        for e in 0..count {
            assert_eq!(name_of(&world, e), "Rat");
            let position = world.position_of(e).unwrap();
            assert!(2 <= position.x && position.x <= 5 && 2 <= position.y && position.y <= 5);
            assert!(world.has_component(ComponentType::Monster, e));
        }
    }
    let (map, mut world, room) = one_room();
    let mut quest = QuestGenerationData {};
    let empty = ConcreteSpawn::new(SpawnableID(RAT), 3, 2, vec![]);
    assert_eq!(
        empty.spawn(&data(&room, &world), &mut quest, &mut world, &map, &resources),
        Err(Error::EmptyRange)
    );
    let none = ConcreteSpawn::new(SpawnableID(RAT), 0, 0, vec![]);
    assert_eq!(
        none.spawn(&data(&room, &world), &mut quest, &mut world, &map, &resources),
        Ok(())
    );
    assert_eq!(world.entity_count(), 0);
    // a spawnable without templates gives an entity with a position only
    let unknown = ConcreteSpawn::new(SpawnableID(44), 1, 1, vec![]);
    assert_eq!(
        unknown.spawn(&data(&room, &world), &mut quest, &mut world, &map, &resources),
        Ok(())
    );
    assert_eq!(world.entity_count(), 1);
    assert!(world.position_of(0).is_some());
    assert!(!world.has_component(ComponentType::Name, 0));
    // in a room without a free cell nothing is spawned
    let narrow = Room::new(boxed(10, 10, 11, 14));
    let spawn = ConcreteSpawn::new(SpawnableID(RAT), 1, 1, vec![]);
    assert_eq!(
        spawn.spawn(&data(&narrow, &world), &mut quest, &mut world, &map, &resources),
        Ok(())
    );
    assert_eq!(world.entity_count(), 1);
}

#[test]
fn unions_and_selections() {
    let resources = resources();
    let (map, mut world, room) = one_room();
    let mut quest = QuestGenerationData {};
    // the entry in the middle is not defined and is passed over
    let union = resources.get_spawn_entry(SpawnEntryID(3)).unwrap();
    assert!(union.evaluate(&data(&room, &world), &quest));
    let r = union.spawn(&data(&room, &world), &mut quest, &mut world, &map, &resources);
    assert_eq!(r, Ok(()));
    assert!(4 <= world.entity_count() && world.entity_count() <= 6);

    let (map, mut world, room) = one_room();
    let selection = resources.get_spawn_entry(SpawnEntryID(4)).unwrap();
    let r = selection.spawn(&data(&room, &world), &mut quest, &mut world, &map, &resources);
    assert_eq!(r, Ok(()));
    assert!(2 <= world.entity_count() && world.entity_count() <= 3);
    let nothing = SpawnEntryType::Selection(SpawnSelection::new(vec![]));
    assert_eq!(
        nothing.spawn(&data(&room, &world), &mut quest, &mut world, &map, &resources),
        Err(Error::EmptyRange)
    );
    let missing = SpawnEntryType::Selection(SpawnSelection::new(vec![SpawnEntryID(77)]));
    assert_eq!(
        missing.spawn(&data(&room, &world), &mut quest, &mut world, &map, &resources),
        Err(Error::NoSpawnEntry)
    );
    // an entry that refers to itself gives up
    let before = world.entity_count();
    let endless = resources.get_spawn_entry(SpawnEntryID(5)).unwrap();
    assert_eq!(
        endless.spawn(&data(&room, &world), &mut quest, &mut world, &map, &resources),
        Err(Error::CascadeTooDeep)
    );
    assert_eq!(world.entity_count(), before);
}

#[test]
fn the_player_and_the_stairs() {
    let resources = resources();
    let (map, mut world, room) = one_room();
    assert_eq!(spawn_player(&room, &map, &mut world, &resources), Ok(()));
    assert_eq!(world.entity_count(), 1);
    assert_eq!(world.get_player_id(), Ok(0));
    assert_eq!(name_of(&world, 0), "Hero");
    match world.borrow_entity_component(ComponentType::Attributes, 0) {
        Some(Component::Attributes(a)) => {
            assert_eq!(a.might + a.wit + a.skill, 4);
            assert!(a.might >= 1 && a.wit >= 1 && a.skill >= 1);
        }
        _ => panic!("attributes expected"),
    }
    match world.borrow_entity_component(ComponentType::Xp, 0) {
        Some(Component::Xp(xp)) => {
            assert_eq!((xp.level, xp.current, xp.status), (1, 0, XpStatus::Default));
        }
        _ => panic!("experience expected"),
    }
    match world.borrow_entity_component(ComponentType::Health, 0) {
        Some(Component::Health(h)) => assert_eq!(*h, Health(20, 20)),
        _ => panic!("health expected"),
    }
    match world.borrow_entity_component(ComponentType::Coins, 0) {
        Some(Component::Coins(c)) => assert_eq!(c.0, 0),
        _ => panic!("coins expected"),
    }
    match world.borrow_entity_component(ComponentType::Spellbook, 0) {
        Some(Component::Spellbook(book)) => {
            // the spell without a definition is left out
            let spells = book.get_spells();
            assert_eq!(spells.len(), 2);
            assert_eq!(spells[0].name.0, "Fireball");
            assert_eq!(spells[1].name.0, "Scry");
            assert_eq!(spells[0].casts_max, spells[0].casts_left);
            assert!(spells[0].casts_max == 2 || spells[0].casts_max == 3);
        }
        _ => panic!("spellbook expected"),
    }
    assert_eq!(spawn_stairs(&room, &map, &mut world, &resources), Ok(()));
    assert_eq!(world.entity_count(), 2);
    assert!(world.has_component(ComponentType::StairsDown, 1));
    assert_ne!(world.position_of(1), world.position_of(0));
    let bare = ResourceManager::new();
    assert_eq!(spawn_player(&room, &map, &mut world, &bare), Err(Error::NoSpawnEntry));
    assert_eq!(spawn_stairs(&room, &map, &mut world, &bare), Err(Error::NoSpawnEntry));
}

#[test]
fn doors_are_spawned_at_the_door_locations() {
    let resources = resources();
    let (map, mut world, mut room) = one_room();
    room.door_locations = vec![at(6, 3), at(3, 1)];
    assert_eq!(spawn_doors(&room, &map, &mut world, &resources), Ok(()));
    assert_eq!(world.entity_count(), 2);
    assert_eq!(world.position_of(0), Some(at(6, 3)));
    assert_eq!(world.position_of(1), Some(at(3, 1)));
    for e in 0..2 {
        assert!(world.has_component(ComponentType::Door, e));
        match world.borrow_entity_component(ComponentType::Collision, e) {
            Some(Component::Collision(c)) => assert_eq!(c.0, Passable::Walk),
            _ => panic!("collision expected"),
        }
        match world.borrow_entity_component(ComponentType::InteractResponse, e) {
            Some(Component::InteractResponse(r)) => {
                assert_eq!(r.response, ResponseFuctionName::OpenDoor)
            }
            _ => panic!("response expected"),
        }
        match world.borrow_entity_component(ComponentType::ImageState, e) {
            Some(Component::ImageState(s)) => assert_eq!(s.current, "open"),
            _ => panic!("image states expected"),
        }
    }
    // without the templates of a door the entities are bare
    let bare = ResourceManager::new();
    let (map, mut world, _) = one_room();
    assert_eq!(spawn_doors(&room, &map, &mut world, &bare), Ok(()));
    assert_eq!(world.entity_count(), 2);
    assert_eq!(world.position_of(1), Some(at(3, 1)));
    assert!(!world.has_component(ComponentType::Door, 1));
}

#[test]
fn a_monster_grows_with_the_depth() {
    let resources = resources();
    let templates = resources.get_entity_templates(SpawnableID(RAT));
    assert_eq!(templates.len(), 2);
    for depth in [1u32, 4] {
        assert_eq!(get_adjusted_damage(10, 30), 25);
        let mut world = World::new_with(EntityGraph::new(boxed(0, 0, 31, 17)));
        let e = world.spawn_from_templates(&templates, depth, at(3, 3), &resources).unwrap();
        assert_eq!(world.position_of(e), Some(at(3, 3)));
        assert_eq!(world.get_entities_at_coordinate(at(3, 3)), vec![e]);
        let health = match world.borrow_entity_component(ComponentType::Health, e) {
            Some(Component::Health(h)) => *h,
            _ => panic!("health expected"),
        };
        assert_eq!(health.0, health.1);
        if depth == 1 {
            assert!(90 <= health.0 && health.0 < 110);
        } else {
            // three levels down, at a tenth more per level
            assert!(119 <= health.0 && health.0 < 147);
        }
        match world.borrow_entity_component(ComponentType::Behavior, e) {
            Some(Component::Behavior(b)) => {
                assert_eq!(b.state, BehaviorState::Asleep);
                assert_eq!(b.behavior, BehaviorName::AggressiveMelee);
                assert_eq!(b.action_count, 1);
            }
            _ => panic!("behavior expected"),
        }
        match world.borrow_entity_component(ComponentType::NoiseResponse, e) {
            Some(Component::NoiseResponse(n)) => assert_eq!(n.threshold, 10),
            _ => panic!("noise response expected"),
        }
        match world.borrow_entity_component(ComponentType::Combat, e) {
            Some(Component::Combat(c)) => {
                let attack = c.melee_attack.as_ref().unwrap();
                if depth == 1 {
                    assert_eq!((attack.damage_min, attack.damage_max), (11, 21));
                } else {
                    // 1.1 to the third power is 1.331
                    assert_eq!((attack.damage_min, attack.damage_max), (11, 21));
                }
                assert!(c.ranged_attack.is_none());
            }
            _ => panic!("combat expected"),
        }
    }
    // at depth zero there is nothing to grow from
    let mut world = World::new_with(EntityGraph::new(boxed(0, 0, 31, 17)));
    assert_eq!(
        world.spawn_from_templates(&templates, 0, at(3, 3), &resources),
        Err(Error::Overflow)
    );
}

#[test]
fn templates_of_every_kind() {
    let resources = resources();
    let mut world = World::new_with(EntityGraph::new(boxed(0, 0, 31, 17)));
    assert_eq!(
        EmptyTemplate().add_components(0, &mut world, 1, &resources),
        Err(Error::EmptyTemplate)
    );
    assert_eq!(world.entity_count(), 0);
    let chest = vec![
        basics("Chest", 21, Passable::Impassable),
        EntityTemplateEnum::Interactable(InteractableTemplate {
            response: rogue_core::component::responses::InteractResponse::default(),
            image_states: None,
        }),
        EntityTemplateEnum::Inventory(InventoryTemplate { coins: Some(10) }),
        EntityTemplateEnum::Destructible(DestructibleTemplate {
            health: 5,
            attack_response: None,
            shoot_response: None,
            spell_response: None,
            death_response: None,
        }),
    ];
    let refs: Vec<&EntityTemplateEnum> = chest.iter().collect();
    let e = world.spawn_from_templates(&refs, 1, at(2, 2), &resources).unwrap();
    assert_eq!(e, 0);
    assert_eq!(world.get_entities_at_coordinate(at(2, 2)), vec![e]);
    assert_eq!(name_of(&world, e), "Chest");
    assert!(world.has_component(ComponentType::InteractResponse, e));
    assert!(!world.has_component(ComponentType::ImageState, e));
    assert!(world.has_component(ComponentType::AttackResponse, e));
    assert!(!world.has_component(ComponentType::Combat, e));
    match world.borrow_entity_component(ComponentType::Coins, e) {
        // at the first level the coins are as the template has them, give or take
        Some(Component::Coins(c)) => assert!(8 <= c.0 && c.0 <= 12),
        _ => panic!("coins expected"),
    }
    match world.borrow_entity_component(ComponentType::Health, e) {
        Some(Component::Health(h)) => assert_eq!(*h, Health(5, 5)),
        _ => panic!("health expected"),
    }
    let pile = vec![EntityTemplateEnum::Pickup(PickupTemplate {
        inventory: InventoryTemplate { coins: None },
        pickup_response: None,
    })];
    let refs: Vec<&EntityTemplateEnum> = pile.iter().collect();
    let e = world.spawn_from_templates(&refs, 1, at(2, 3), &resources).unwrap();
    assert!(world.has_component(ComponentType::PickupResponse, e));
    assert!(!world.has_component(ComponentType::Coins, e));
    // a template that fails leaves the entity where it was put
    let player = vec![EntityTemplateEnum::Player(PlayerTemplate {
        level: 1,
        attributes: Attributes { might: u32::MAX, wit: 1, skill: 1 },
    })];
    let refs: Vec<&EntityTemplateEnum> = player.iter().collect();
    assert_eq!(
        world.spawn_from_templates(&refs, 1, at(4, 4), &resources),
        Err(Error::Overflow)
    );
    assert_eq!(world.get_player_id(), Err(Error::NoPlayerFound));
}

fn level() -> GameMap {
    let mut map = GameMap::new(32, 18);
    map.depth = 1;
    for extends in [boxed(12, 1, 18, 7), boxed(1, 1, 7, 7), boxed(22, 1, 28, 7)] {
        draw_room(extends, &mut map);
        map.rooms.push(Room::new(extends));
    }
    map.room_edges = vec![(1, 0), (0, 2)];
    map
}

#[test]
fn the_rooms_get_their_depth_and_their_template() {
    let mut resources = resources();
    resources.set_room_template(
        RoomTemplateID(0),
        RoomTemplate { requirements: vec![RoomCriterion::LaterThan(1)], spawns: vec![] },
    );
    resources.set_room_template(
        RoomTemplateID(1),
        RoomTemplate {
            requirements: vec![RoomCriterion::EarlierThan(0)],
            spawns: vec![SpawnEntryID(2)],
        },
    );
    resources.set_room_template(
        RoomTemplateID(2),
        RoomTemplate { requirements: vec![RoomCriterion::LargerThan(100)], spawns: vec![] },
    );
    assert_eq!(
        resources.get_all_room_templates(),
        &vec![RoomTemplateID(0), RoomTemplateID(1), RoomTemplateID(2)]
    );
    let mut map = level();
    assert_eq!(first_room(&map.rooms), 1);
    flood_fill_spawn_tables(&mut map, &resources);
    let depths: Vec<Option<u32>> = map.rooms.iter().map(|r| r.room_depth).collect();
    assert_eq!(depths, vec![Some(1), Some(0), Some(2)]);
    let templates: Vec<Option<RoomTemplateID>> = map.rooms.iter().map(|r| r.template).collect();
    assert_eq!(
        templates,
        vec![Some(RoomTemplateID(1)), Some(RoomTemplateID(0)), Some(RoomTemplateID(1))]
    );
    assert_eq!(map.rooms[1].extra_spawn, Some(ExtraSpawn::Player(0)));
    assert_eq!(map.rooms[0].extra_spawn, None);
    assert_eq!(map.rooms[2].extra_spawn, Some(ExtraSpawn::Stairs(0)));
    assert_eq!(map.room_edges, vec![(1, 0), (0, 2)]);

    // a room that nothing joins to the start is not reached
    let mut map = level();
    map.room_edges = vec![(1, 0)];
    flood_fill_spawn_tables(&mut map, &resources);
    assert_eq!(map.rooms[2].room_depth, None);
    assert_eq!(map.rooms[2].template, None);
    assert_eq!(map.rooms[0].extra_spawn, Some(ExtraSpawn::Stairs(0)));
    let mut empty = GameMap::new(4, 4);
    flood_fill_spawn_tables(&mut empty, &resources);
    assert!(empty.rooms.is_empty());
}

#[test]
fn a_level_is_filled_room_by_room() {
    let mut resources = resources();
    resources.set_room_template(
        RoomTemplateID(0),
        RoomTemplate { requirements: vec![], spawns: vec![SpawnEntryID(2)] },
    );
    let mut map = level();
    map.rooms[0].door_locations = vec![at(12, 4)];
    flood_fill_spawn_tables(&mut map, &resources);
    let mut world = World::new_with(EntityGraph::new(boxed(0, 0, 31, 17)));
    assert_eq!(spawn_all_entities(&map, &mut world, &resources), Ok(()));
    let names = names(&world);
    assert_eq!(names.iter().filter(|n| *n == "Hero").count(), 1);
    assert_eq!(names.iter().filter(|n| *n == "Stairs").count(), 1);
    assert_eq!(names.iter().filter(|n| *n == "Door").count(), 1);
    // the room of the player holds nothing else
    let rats = names.iter().filter(|n| *n == "Rat").count();
    assert!(4 <= rats && rats <= 6);
    assert_eq!(names[0], "Door");
    let player = world.get_player_id().unwrap();
    assert!(boxed(2, 2, 6, 6).contains_point(world.position_of(player).unwrap()));
    // no two entities stand on one cell
    let mut cells: Vec<(i32, i32)> = (0..world.entity_count())
        .map(|e| world.position_of(e).unwrap())
        .map(|c| (c.x, c.y))
        .collect();
    cells.sort();
    cells.dedup();
    assert_eq!(cells.len(), world.entity_count());
}

#[test]
fn a_room_without_depth_cannot_be_filled() {
    let resources = resources();
    let (map, mut world, room) = one_room();
    let template = RoomTemplate { requirements: vec![], spawns: vec![SpawnEntryID(2)] };
    assert_eq!(
        spawn_room(&room, &template, &map, &mut world, &resources),
        Err(Error::NoRoomDepth)
    );
    assert_eq!(world.entity_count(), 0);
    let mut room = room;
    room.room_depth = Some(0);
    assert_eq!(spawn_room(&room, &template, &map, &mut world, &resources), Ok(()));
    assert!(world.entity_count() >= 2);
}

#[test]
fn the_floor_of_a_room_fits() {
    assert!(floor_fits(&boxed(1, 1, 6, 6)));
    assert!(floor_fits(&boxed(5, 5, 0, 0)));
    assert!(floor_fits(&boxed(0, 0, 46341, 46341)));
    assert!(!floor_fits(&boxed(0, 0, 46342, 46342)));
    assert!(!floor_fits(&boxed(i32::MIN, 0, i32::MAX, 3)));
}
