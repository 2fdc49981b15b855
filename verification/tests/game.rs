use rogue_core::component::attributes::{Attribute, Attributes, XpStatus};
use rogue_core::component::combat::{Attack, DamageRange};
use rogue_core::component::health::{Health, HealthStatus};
use rogue_core::component::{Component, ComponentType};
use rogue_core::error::Error;
use rogue_core::game::{explore_player_room, shown_damage, Game};
use rogue_core::map::boxextends::BoxExtends;
use rogue_core::map::generation::draw_room;
use rogue_core::map::room::{EntityGraph, Room};
use rogue_core::map::tile::{GameTile, Los, Passable};
use rogue_core::map::utils::Coordinate;
use rogue_core::map::GameMap;
use rogue_core::resources::id::{
    ImageID, RoomTemplateID, SpawnEntryID, SpawnableID, SpellDefinitionId, TileID,
};
use rogue_core::resources::{
    ResourceManager, DEFAULT_IMAGE_ID, FLOOR_TILEID, PLAYER_SPAWNENTRY, STAIRS_SPAWNENTRY,
    WALL_TILEID,
};
use rogue_core::spawning::entitytemplate::{
    CombatTemplate, CoreTemplate, EntityTemplateEnum, InventoryTemplate, MonsterTemplate,
    PlayerTemplate, SpellbookTemplate, StairsTemplate,
};
use rogue_core::spawning::roomtemplate::RoomTemplate;
use rogue_core::spawning::spawnentry::{ConcreteSpawn, ExtraSpawn, SpawnEntryType};
use rogue_core::ui::{
    InputCommand, MapModel, PlayerModel, Popups, Reaction, Refusal, SpellbookModel,
};
use rogue_core::world::World;

const PLAYER: usize = 1;
const STAIRS: usize = 2;
const MOTH: usize = 3;

fn boxed(x0: i32, y0: i32, x1: i32, y1: i32) -> BoxExtends {
    BoxExtends {
        top_left: Coordinate { x: x0, y: y0 },
        bottom_right: Coordinate { x: x1, y: y1 },
    }
}

fn at(x: i32, y: i32) -> Coordinate {
    Coordinate { x, y }
}

fn shape(name: &str, image: usize, collision: Passable) -> EntityTemplateEnum {
    EntityTemplateEnum::Core(CoreTemplate {
        name: name.to_string(),
        image: ImageID(image),
        collision,
        los: Los::Clear,
    })
}

fn fighting(health: u32, melee: Option<DamageRange>) -> CombatTemplate {
    CombatTemplate {
        health,
        melee_damage: melee,
        ranged_damage: None,
        attack_response: None,
        shoot_response: None,
        spell_response: None,
        death_response: None,
    }
}

fn resources() -> ResourceManager {
    let mut resources = ResourceManager::new();
    resources.set_tile(
        TileID(FLOOR_TILEID),
        GameTile {
            name: "Floor".to_string(),
            image: ImageID(1),
            passable: Passable::Walk,
            los: Los::Clear,
        },
    );
    resources.set_tile(
        TileID(WALL_TILEID),
        GameTile {
            name: "Wall".to_string(),
            image: ImageID(2),
            passable: Passable::Impassable,
            los: Los::Block,
        },
    );
    resources.set_entity_templates(
        SpawnableID(PLAYER),
        vec![
            shape("Hero", 3, Passable::Impassable),
            EntityTemplateEnum::Combat(fighting(20, Some(DamageRange(2, 4)))),
            EntityTemplateEnum::Player(PlayerTemplate {
                level: 1,
                attributes: Attributes { might: 1, wit: 1, skill: 1 },
            }),
            EntityTemplateEnum::Spellbook(SpellbookTemplate {
                spells: vec![SpellDefinitionId(0), SpellDefinitionId(1)],
            }),
            EntityTemplateEnum::Inventory(InventoryTemplate { coins: Some(0) }),
        ],
    );
    resources.set_entity_templates(
        SpawnableID(STAIRS),
        vec![shape("Stairs", 9, Passable::Walk), EntityTemplateEnum::Stairs(StairsTemplate)],
    );
    resources.set_entity_templates(
        SpawnableID(MOTH),
        vec![
            shape("Moth", 12, Passable::Impassable),
            EntityTemplateEnum::Monster(MonsterTemplate::new_from(fighting(
                1000,
                Some(DamageRange(1, 1)),
            ))),
        ],
    );
    resources.set_spawn_entry(
        SpawnEntryID(PLAYER_SPAWNENTRY),
        SpawnEntryType::Concrete(ConcreteSpawn::new(SpawnableID(PLAYER), 1, 1, vec![])),
    );
    resources.set_spawn_entry(
        SpawnEntryID(STAIRS_SPAWNENTRY),
        SpawnEntryType::Concrete(ConcreteSpawn::new(SpawnableID(STAIRS), 1, 1, vec![])),
    );
    resources.set_spawn_entry(
        SpawnEntryID(2),
        SpawnEntryType::Concrete(ConcreteSpawn::new(SpawnableID(MOTH), 1, 1, vec![])),
    );
    resources.set_room_template(
        RoomTemplateID(0),
        RoomTemplate { requirements: vec![], spawns: vec![SpawnEntryID(2)] },
    );
    resources
}

/// Two rooms with one cell of floor each, (2, 2) and (4, 2), and an opening
/// between them at (3, 2). The player starts in the first; the second holds
/// the stairs, or a monster where `monster` is set.
fn level(depth: u32, monster: bool) -> (GameMap, EntityGraph) {
    let mut map = GameMap::new(8, 5);
    map.depth = depth;
    for extends in [boxed(1, 1, 3, 3), boxed(3, 1, 5, 3)] {
        draw_room(extends, &mut map);
        map.rooms.push(Room::new(extends));
    }
    map.set_game_tile(at(3, 2), TileID(FLOOR_TILEID));
    map.room_edges = vec![(0, 1)];
    map.rooms[0].room_depth = Some(0);
    map.rooms[0].extra_spawn = Some(ExtraSpawn::Player(0));
    map.rooms[1].room_depth = Some(1);
    if monster {
        map.rooms[1].template = Some(RoomTemplateID(0));
    } else {
        map.rooms[1].extra_spawn = Some(ExtraSpawn::Stairs(0));
    }
    (map, EntityGraph::new(boxed(0, 0, 7, 4)))
}

fn game(monster: bool) -> Game {
    let (map, bsp) = level(1, monster);
    Game::new_with(map, bsp, &resources()).unwrap()
}

fn drain(game: &mut Game) -> Vec<String> {
    let mut out = Vec::new();
    while let Some(m) = game.next_message() {
        out.push(m);
    }
    out
}

fn player_position(game: &Game) -> Coordinate {
    game.world().get_player_position().unwrap()
}

fn health_of(world: &World, entity: usize) -> Health {
    match world.borrow_entity_component(ComponentType::Health, entity) {
        Some(Component::Health(h)) => *h,
        _ => panic!("health expected"),
    }
}

#[test]
fn a_new_game() {
    let mut game = game(false);
    assert_eq!(game.world().entity_count(), 2);
    assert_eq!(player_position(&game), at(2, 2));
    assert_eq!(game.next_message(), None);
    assert_eq!(game.get_map_info(), MapModel { width: 8, height: 5, depth: 1 });
    assert_eq!(game.map().depth, 1);
    // the room of the player is seen, the other room is not
    assert!(game.map().is_tile_explored(at(1, 1)));
    assert!(game.map().is_tile_explored(at(3, 3)));
    assert!(!game.map().is_tile_explored(at(4, 2)));
    assert_eq!(game.player_health_status(), HealthStatus::Full);
    assert_eq!(game.player_xp_status(), XpStatus::Default);
    assert!(!game.can_descend());
    assert_eq!(game.next_depth(), Some(2));
}

#[test]
fn a_game_needs_a_player() {
    let (mut map, bsp) = level(1, false);
    map.rooms[0].extra_spawn = None;
    assert_eq!(Game::new_with(map, bsp, &resources()).err(), Some(Error::NoPlayerFound));
    let (map, bsp) = level(1, false);
    assert_eq!(
        Game::new_with(map, bsp, &ResourceManager::new()).err(),
        Some(Error::NoSpawnEntry)
    );
    let mut map = GameMap::new(4, 4);
    let world = World::new_with(EntityGraph::new(boxed(0, 0, 3, 3)));
    assert_eq!(explore_player_room(&mut map, &world), Err(Error::NoPlayerFound));
}

#[test]
fn what_is_shown_of_the_player() {
    let game = game(false);
    let model = game.get_player_info();
    assert_eq!(model.name, "Hero");
    assert_eq!(model.level, 1);
    assert_eq!(model.coins, 0);
    assert_eq!(model.xp_current, 0);
    assert!(model.xp_goal > 0);
    assert_eq!((model.hp_current, model.hp_max), (20, 20));
    assert_eq!(model.might + model.wit + model.skill, 4);
    let attack = Attack::new_melee(2, 4);
    let attributes = Attributes { might: model.might, wit: model.wit, skill: model.skill };
    assert_eq!(model.melee_damage, shown_damage(&attack, Some(attributes)));
    assert_eq!(model.ranged_damage, (0, 0));
    assert_eq!(shown_damage(&attack, None), (2, 4));
    // with a might of 2 the damage grows by 2.4, cut to a whole number
    let strong = Attributes { might: 2, wit: 1, skill: 1 };
    assert_eq!(shown_damage(&attack, Some(strong)), (4, 6));
    let spells = game.get_spell_info();
    assert_eq!(spells.names, vec!["Fireball".to_string(), "Scry".to_string()]);
    assert_eq!(spells.casts.len(), 2);
    assert_eq!(spells.casts[0].0, spells.casts[0].1);
    let blank = PlayerModel::new();
    assert_eq!((blank.name.as_str(), blank.level, blank.hp_max), ("", 0, 0));
    assert!(SpellbookModel::new().names.is_empty());
    assert_eq!(MapModel::default(), MapModel { width: 0, height: 0, depth: 0 });
}

#[test]
fn what_is_shown_of_the_map() {
    let game = game(false);
    let resources = resources();
    let sprites = game.get_sprite_ids(&resources);
    assert_eq!(sprites.len(), 40);
    // unseen
    assert_eq!(sprites[0], vec![DEFAULT_IMAGE_ID]);
    assert_eq!(sprites[2 * 8 + 4], vec![DEFAULT_IMAGE_ID]);
    // a wall, the floor under the player, and the opening
    assert_eq!(sprites[1 * 8 + 1], vec![2]);
    assert_eq!(sprites[2 * 8 + 2], vec![1, 3]);
    assert_eq!(sprites[2 * 8 + 3], vec![1]);
}

#[test]
fn the_player_walks() {
    let mut game = game(false);
    let resources = resources();
    assert_eq!(game.direction_command(at(0, -1), &resources), Ok(()));
    assert_eq!(player_position(&game), at(2, 2));
    assert_eq!(drain(&mut game), vec!["Can't walk there.".to_string()]);
    assert_eq!(game.direction_command(at(1, 0), &resources), Ok(()));
    assert_eq!(player_position(&game), at(3, 2));
    assert_eq!(game.world().get_entities_at_coordinate(at(3, 2)), vec![0]);
    assert!(game.world().get_entities_at_coordinate(at(2, 2)).is_empty());
    assert!(drain(&mut game).is_empty());
    assert_eq!(game.wait_command(&resources), Ok(()));
    assert_eq!(drain(&mut game), vec!["Waited for a turn.".to_string()]);
    assert_eq!(
        game.direction_command(at(i32::MAX, 0), &resources),
        Err(Error::Overflow)
    );
}

#[test]
fn the_player_walks_to_a_cell() {
    let mut game = game(false);
    let resources = resources();
    assert_eq!(game.move_to_command(at(1, 1), &resources), Ok(()));
    assert_eq!(drain(&mut game), vec!["Destination tile is not walkable.".to_string()]);
    assert_eq!(game.move_to_command(at(4, 2), &resources), Ok(()));
    assert_eq!(drain(&mut game), vec!["You haven't explored that tile.".to_string()]);
    assert_eq!(game.move_to_command(at(2, 2), &resources), Ok(()));
    assert_eq!(drain(&mut game), vec!["That tile is blocked.".to_string()]);
    assert_eq!(game.move_to_command(at(3, 2), &resources), Ok(()));
    assert_eq!(player_position(&game), at(3, 2));
    assert_eq!(drain(&mut game), vec!["Arrived at destination.".to_string()]);
}

#[test]
fn the_player_descends() {
    let mut game = game(false);
    let resources = resources();
    let (map, bsp) = level(2, true);
    assert_eq!(game.descend_command(map, bsp, &resources), Err(Error::InvalidTarget));
    assert_eq!(game.map().depth, 1);
    assert_eq!(game.direction_command(at(1, 0), &resources), Ok(()));
    assert_eq!(game.direction_command(at(1, 0), &resources), Ok(()));
    assert_eq!(player_position(&game), at(4, 2));
    assert!(game.can_descend());
    assert_eq!(game.level_up_command(Attribute::Might, 1), Ok(()));
    let before = game.get_player_info();
    let (map, bsp) = level(2, true);
    assert_eq!(game.descend_command(map, bsp, &resources), Ok(()));
    assert_eq!(game.map().depth, 2);
    assert_eq!(game.get_map_info(), MapModel { width: 8, height: 5, depth: 2 });
    assert_eq!(player_position(&game), at(2, 2));
    assert!(!game.can_descend());
    // what the player was is carried over
    let after = game.get_player_info();
    assert_eq!(after.level, 2);
    assert_eq!((after.might, after.wit, after.skill), (before.might, before.wit, before.skill));
    assert_eq!((after.hp_current, after.hp_max), (23, 23));
    assert_eq!(after.name, "Hero");
    // a level that cannot be filled leaves the game as it is
    let mut game = self::game(false);
    game.direction_command(at(1, 0), &resources).unwrap();
    game.direction_command(at(1, 0), &resources).unwrap();
    let (mut map, bsp) = level(2, true);
    map.rooms[0].extra_spawn = None;
    assert_eq!(game.descend_command(map, bsp, &resources), Err(Error::NoPlayerFound));
    assert_eq!(game.map().depth, 1);
    assert_eq!(player_position(&game), at(4, 2));
}

#[test]
fn reaching_the_next_level_of_experience() {
    let mut game = game(false);
    let before = game.get_player_info();
    assert_eq!(game.level_up_command(Attribute::Wit, 2), Ok(()));
    let after = game.get_player_info();
    assert_eq!(after.level, 2);
    assert_eq!(after.wit, before.wit + 2);
    assert_eq!(after.might, before.might);
    assert_eq!(after.skill, before.skill);
    assert_eq!((after.hp_current, after.hp_max), (23, 23));
    assert_eq!(after.xp_current, 0);
    assert!(after.xp_goal > before.xp_goal);
    assert_eq!(game.player_xp_status(), XpStatus::Default);
    // with the wit grow the casts
    let spells = game.get_spell_info();
    let player = game.world().get_player_id().unwrap();
    match game.world().borrow_entity_component(ComponentType::Attributes, player) {
        Some(Component::Attributes(a)) => {
            assert_eq!(spells.casts[0].1, 2 + (a.wit - 1));
            assert_eq!(spells.casts[1].1, 1 + (a.wit - 1));
        }
        _ => panic!("attributes expected"),
    }
    assert_eq!(game.level_up_command(Attribute::Skill, u32::MAX), Err(Error::Overflow));
    assert_eq!(game.get_player_info().level, 2);
}

#[test]
fn the_player_attacks_what_stands_in_the_way() {
    let mut game = game(true);
    let resources = resources();
    assert_eq!(game.world().entity_count(), 2);
    let moth = 1;
    assert_eq!(game.world().position_of(moth), Some(at(4, 2)));
    let full = health_of(game.world(), moth);
    assert!(900 <= full.1 && full.1 < 1100);
    // out of reach nothing happens, and no turn is taken
    assert_eq!(game.force_attack_command(at(1, 0), &resources), Ok(()));
    assert_eq!(drain(&mut game), vec!["Nothing there to attack.".to_string()]);
    assert_eq!(game.direction_command(at(1, 0), &resources), Ok(()));
    assert_eq!(player_position(&game), at(3, 2));
    drain(&mut game);
    assert_eq!(game.direction_command(at(1, 0), &resources), Ok(()));
    assert_eq!(player_position(&game), at(3, 2));
    let hurt = health_of(game.world(), moth);
    let (least, most) = game.get_player_info().melee_damage;
    assert!(full.0 - hurt.0 >= least && full.0 - hurt.0 <= most);
    let messages = drain(&mut game);
    assert_eq!(
        messages,
        vec![format!("Hero attacked Moth for {} damage. ", full.0 - hurt.0)]
    );
    // the player cannot attack itself
    assert_eq!(game.force_attack_command(at(0, 0), &resources), Ok(()));
    assert_eq!(drain(&mut game), vec!["Can't attack yourself.".to_string()]);
}

#[test]
fn shooting_and_interacting() {
    let mut game = game(true);
    let resources = resources();
    assert_eq!(game.shoot_command(at(4, 2), &resources, false), Ok(()));
    assert_eq!(drain(&mut game), vec!["You haven't explored that tile.".to_string()]);
    assert_eq!(game.shoot_command(at(3, 2), &resources, false), Ok(()));
    assert_eq!(drain(&mut game), vec!["You don't have an appropriate attack.".to_string()]);
    assert_eq!(game.interact_command(at(4, 2), &resources), Ok(()));
    assert_eq!(drain(&mut game), vec!["Too far away to interact".to_string()]);
    assert_eq!(game.interact_command(at(3, 2), &resources), Ok(()));
    assert!(drain(&mut game).is_empty());
}

#[test]
fn casting_spells() {
    let mut game = game(true);
    let resources = resources();
    assert_eq!(game.cast_spell_command(7, at(4, 2), &resources), Err(Error::NoSuchSpell));
    let before = game.get_spell_info().casts[1];
    assert!(!game.map().is_tile_explored(at(5, 3)));
    // the room next door is looked into from afar
    assert_eq!(game.cast_spell_command(1, at(4, 2), &resources), Ok(()));
    let after = game.get_spell_info().casts[1];
    assert_eq!(after, (before.0 - 1, before.1));
    assert!(game.map().is_tile_explored(at(5, 3)));
    drain(&mut game);
    // a ball of fire burns the monster
    let full = health_of(game.world(), 1);
    let casts = game.get_spell_info().casts[0];
    assert_eq!(game.cast_spell_command(0, at(4, 2), &resources), Ok(()));
    assert_eq!(game.get_spell_info().casts[0], (casts.0 - 1, casts.1));
    assert!(health_of(game.world(), 1).0 < full.0);
    while game.get_spell_info().casts[0].0 > 0 {
        assert_eq!(game.cast_spell_command(0, at(4, 2), &resources), Ok(()));
    }
    assert_eq!(game.cast_spell_command(0, at(4, 2), &resources), Err(Error::OutOfCasts));
}

fn draws() -> Vec<Vec<u32>> {
    vec![vec![350, 650, 500, 400, 600, 350, 650, 500, 400, 600, 350, 650, 500, 400, 600]; 6]
}

/// Definitions with which a level that is made by chance can be filled.
fn wide_resources() -> ResourceManager {
    let mut resources = resources();
    resources.set_room_template(
        RoomTemplateID(0),
        RoomTemplate { requirements: vec![], spawns: vec![] },
    );
    resources
}

#[test]
fn a_game_on_a_level_made_by_chance() {
    let resources = wide_resources();
    let mut begun = 0;
    for _ in 0..10 {
        let mut game = match Game::new(&resources, &draws()) {
            Ok(game) => game,
            Err(e) => {
                assert_eq!(e, Error::LevelGenerationFailed);
                continue;
            }
        };
        begun += 1;
        assert_eq!(game.get_map_info(), MapModel { width: 32, height: 18, depth: 1 });
        assert_eq!(game.next_message(), None);
        let position = player_position(&game);
        assert!(game.map().is_tile_explored(position));
        assert!(game.map().is_tile_walkable(position, &resources));
    }
    assert!(begun > 0);
    // without fractions no level is made
    assert_eq!(Game::new(&resources, &vec![]).err(), Some(Error::LevelGenerationFailed));
    // and without definitions no game begins
    assert_eq!(
        Game::new(&ResourceManager::new(), &draws()).err(),
        Some(Error::LevelGenerationFailed)
    );
}

#[test]
fn taking_the_stairs() {
    let resources = wide_resources();
    let mut game = game(false);
    assert_eq!(game.descend(&resources, &draws()), Err(Error::InvalidTarget));
    game.direction_command(at(1, 0), &resources).unwrap();
    game.direction_command(at(1, 0), &resources).unwrap();
    assert!(game.can_descend());
    assert_eq!(game.descend(&resources, &vec![]), Err(Error::LevelGenerationFailed));
    assert_eq!(game.map().depth, 1);
    let mut r = Err(Error::LevelGenerationFailed);
    for _ in 0..10 {
        r = game.descend(&resources, &draws());
        if r.is_ok() {
            break;
        }
    }
    assert_eq!(r, Ok(()));
    assert_eq!(game.get_map_info(), MapModel { width: 32, height: 18, depth: 2 });
    assert_eq!(game.get_player_info().name, "Hero");
}

#[test]
fn inputs() {
    let resources = wide_resources();
    let none: Vec<Vec<u32>> = vec![];
    let mut game = game(false);
    let r = game.received_input(InputCommand::Direction, 1, 0, 0, &resources, &none);
    assert_eq!(r, Reaction::Done(Ok(())));
    assert_eq!(player_position(&game), at(3, 2));
    let r = game.received_input(InputCommand::Position, 2, 2, 0, &resources, &none);
    assert_eq!(r, Reaction::Done(Ok(())));
    assert_eq!(player_position(&game), at(2, 2));
    assert_eq!(drain(&mut game), vec!["Arrived at destination.".to_string()]);
    let r = game.received_input(InputCommand::Shoot, 3, 2, 0, &resources, &none);
    assert_eq!(r, Reaction::Done(Ok(())));
    assert_eq!(drain(&mut game), vec!["You don't have an appropriate attack.".to_string()]);
    let r = game.received_input(InputCommand::ForceShoot, 7, 4, 0, &resources, &none);
    assert_eq!(r, Reaction::Done(Ok(())));
    assert_eq!(drain(&mut game), vec!["You haven't explored that tile.".to_string()]);
    let r = game.received_input(InputCommand::ForceAttack, 1, 0, 0, &resources, &none);
    assert_eq!(r, Reaction::Done(Ok(())));
    assert_eq!(drain(&mut game), vec!["Nothing there to attack.".to_string()]);
    let r = game.received_input(InputCommand::Spell, 4, 2, -1, &resources, &none);
    assert_eq!(r, Reaction::Refused(Refusal::SpellIndex));
    let r = game.received_input(InputCommand::Spell, 4, 2, 9, &resources, &none);
    assert_eq!(r, Reaction::Done(Err(Error::NoSuchSpell)));
    let r = game.received_input(InputCommand::Spell, 4, 2, 1, &resources, &none);
    assert_eq!(r, Reaction::Done(Ok(())));
    assert!(game.map().is_tile_explored(at(5, 3)));
    drain(&mut game);
    let r = game.received_input(InputCommand::Descend, 0, 0, 0, &resources, &none);
    assert_eq!(r, Reaction::Done(Err(Error::InvalidTarget)));
    let r = game.received_input(InputCommand::Wait, 0, 0, 0, &resources, &none);
    assert_eq!(r, Reaction::Done(Ok(())));
    assert_eq!(drain(&mut game), vec!["Waited for a turn.".to_string()]);
    let r = game.received_input(InputCommand::LevelUp, 3, 1, 0, &resources, &none);
    assert_eq!(r, Reaction::Refused(Refusal::Attribute));
    let r = game.received_input(InputCommand::LevelUp, 0, -1, 0, &resources, &none);
    assert_eq!(r, Reaction::Refused(Refusal::Amount));
    let might = game.get_player_info().might;
    let r = game.received_input(InputCommand::LevelUp, 0, 2, 0, &resources, &none);
    assert_eq!(r, Reaction::Done(Ok(())));
    assert_eq!(game.get_player_info().might, might + 2);
    assert_eq!(game.get_player_info().level, 2);
    let r = game.received_input(InputCommand::Unrecognized, 0, 0, 0, &resources, &none);
    assert_eq!(r, Reaction::Refused(Refusal::Command));
    let r = game.received_input(InputCommand::Quit, 0, 0, 0, &resources, &none);
    assert_eq!(r, Reaction::Quit);
    // a new game that cannot begin leaves the game as it is
    let r = game.received_input(InputCommand::Restart, 0, 0, 0, &resources, &none);
    assert_eq!(r, Reaction::Done(Err(Error::LevelGenerationFailed)));
    assert_eq!(game.get_player_info().level, 2);
    assert_eq!(drain(&mut game), vec!["Failed to initialize new game.".to_string()]);
    // on the stairs, to wait is to descend
    game.received_input(InputCommand::Position, 4, 2, 0, &resources, &none);
    assert!(game.can_descend());
    drain(&mut game);
    let r = game.received_input(InputCommand::Wait, 0, 0, 0, &resources, &none);
    assert_eq!(r, Reaction::Done(Err(Error::LevelGenerationFailed)));
    assert!(drain(&mut game).is_empty());
    let mut r = Reaction::Quit;
    for _ in 0..10 {
        r = game.received_input(InputCommand::Restart, 0, 0, 0, &resources, &draws());
        if r == Reaction::Done(Ok(())) {
            break;
        }
        drain(&mut game);
    }
    assert_eq!(r, Reaction::Done(Ok(())));
    assert_eq!(game.get_player_info().level, 1);
    assert_eq!(game.get_map_info().width, 32);
}

#[test]
fn what_is_shown_on_top() {
    let mut game = game(false);
    assert_eq!(game.popups(), Popups { death: false, level_up: false });
    assert_eq!(game.level_up_command(Attribute::Might, 1), Ok(()));
    assert_eq!(game.popups(), Popups { death: false, level_up: false });
}

#[test]
fn after_spawning_every_entity_stands_in_its_region() {
    let resources = wide_resources();
    for _ in 0..10 {
        let game = match Game::new(&resources, &draws()) {
            Ok(game) => game,
            Err(_) => continue,
        };
        let world = game.world();
        let tree = world.regions();
        for entity in 0..world.entity_count() {
            if let Some(position) = world.position_of(entity) {
                let home = tree.region_for(position);
                for node in 0..tree.node_count() {
                    let occurrences =
                        tree.node(node).entities.iter().filter(|e| **e == entity).count();
                    assert_eq!(occurrences, if node == home { 1 } else { 0 });
                }
                assert!(tree.is_leaf(home));
                assert!(tree.node(home).extends.contains_point(position));
            }
        }
    }
}
