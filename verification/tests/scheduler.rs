use rogue_core::component::attributes::{Xp, XpStatus};
use rogue_core::component::behavior::{AIAction, Behavior, BehaviorName, BehaviorState};
use rogue_core::component::combat::{Attack, AttackType, Combat};
use rogue_core::component::health::Health;
use rogue_core::component::image::ImageState;
use rogue_core::component::responses::AttackResponse;
use rogue_core::component::spell::{SpellEffectName, SpellInstance, Spellbook};
use rogue_core::component::{Component, ComponentType, Name, Position};
use rogue_core::error::{Error, MonsterTurnError};
use rogue_core::logger::MessageLog;
use rogue_core::map::boxextends::BoxExtends;
use rogue_core::map::room::EntityGraph;
use rogue_core::map::tile::{GameTile, Los, Passable};
use rogue_core::map::utils::Coordinate;
use rogue_core::map::GameMap;
use rogue_core::resources::id::{ImageID, TileID};
use rogue_core::resources::ResourceManager;
use rogue_core::system::definitions::{
    level_up_check, monster_turns, reap_units, spell_cooldowns,
};
use rogue_core::system::{Scheduler, System, TimeSlot};
use rogue_core::world::World;

fn at(x: i32, y: i32) -> Coordinate {
    Coordinate { x, y }
}

struct Setup {
    world: World,
    map: GameMap,
    resources: ResourceManager,
    log: MessageLog,
}

fn setup() -> Setup {
    let tree = EntityGraph::new(BoxExtends {
        top_left: at(0, 0),
        bottom_right: at(31, 17),
    });
    let mut map = GameMap::new(32, 18);
    map.depth = 1;
    let mut resources = ResourceManager::new();
    resources.set_tile(
        TileID(1),
        GameTile {
            name: "Floor".to_string(),
            image: ImageID(1),
            passable: Passable::Walk,
            los: Los::Clear,
        },
    );
    for x in 0..32 {
        for y in 0..18 {
            map.set_game_tile(at(x, y), TileID(1));
        }
    }
    Setup { world: World::new_with(tree), map, resources, log: MessageLog::new() }
}

fn xp_of(world: &World, e: usize) -> Xp {
    match world.borrow_entity_component(ComponentType::Xp, e) {
        Some(Component::Xp(xp)) => *xp,
        _ => panic!("xp expected"),
    }
}

#[test]
fn a_failing_system_does_not_stop_the_next() {
    let mut s = setup();
    let player = s.world.new_entity();
    s.world.mark_as_player(player).unwrap();
    s.world
        .add_component(
            player,
            Component::Xp(Xp { level: 1, current: 100, max: 100, status: XpStatus::Default }),
        )
        .unwrap();
    // no health was ever inserted, so reaping fails
    assert_eq!(
        reap_units(&mut s.world, &mut s.map, &s.resources, &mut s.log),
        Err(Error::MissingColumn(ComponentType::Health))
    );
    let mut scheduler = Scheduler::new();
    scheduler.add_system(System::ReapUnits, TimeSlot::EndOfTurn);
    scheduler.add_system(System::LevelUpCheck, TimeSlot::EndOfTurn);
    assert_eq!(
        scheduler.on_end_turn(&mut s.world, &mut s.map, &s.resources, &mut s.log),
        Ok(())
    );
    assert_eq!(xp_of(&s.world, player).status, XpStatus::LevelUp);
}

#[test]
fn systems_run_in_the_slot_for_which_they_are_registered() {
    let mut s = setup();
    let player = s.world.new_entity();
    s.world.mark_as_player(player).unwrap();
    s.world
        .add_component(
            player,
            Component::Xp(Xp { level: 1, current: 100, max: 100, status: XpStatus::Default }),
        )
        .unwrap();
    let mut scheduler = Scheduler::new();
    scheduler.add_system(System::LevelUpCheck, TimeSlot::EndOfLevel);
    assert_eq!(
        scheduler.on_end_turn(&mut s.world, &mut s.map, &s.resources, &mut s.log),
        Ok(())
    );
    assert_eq!(
        scheduler.on_clear_room(&mut s.world, &mut s.map, &s.resources, &mut s.log),
        Ok(())
    );
    assert_eq!(xp_of(&s.world, player).status, XpStatus::Default);
    assert_eq!(
        scheduler.on_descend_floor(&mut s.world, &mut s.map, &s.resources, &mut s.log),
        Ok(())
    );
    assert_eq!(xp_of(&s.world, player).status, XpStatus::LevelUp);
    assert_eq!(
        scheduler.run(TimeSlot::EndOfRoom, &mut s.world, &mut s.map, &s.resources, &mut s.log),
        Ok(())
    );
}

#[test]
fn systems_run_in_the_order_of_their_registration() {
    // a monster that dies this turn still attacks where the turns come first,
    // and does not where the reaping comes first
    for reap_first in [true, false] {
        let mut s = setup();
        let player = s.world.new_entity();
        s.world.mark_as_player(player).unwrap();
        s.world.add_position(player, Position::new(at(5, 5))).unwrap();
        s.world.add_component(player, Component::Health(Health::new(20))).unwrap();
        s.world
            .add_component(player, Component::AttackResponse(AttackResponse::default()))
            .unwrap();
        let monster = s.world.new_entity();
        s.world.add_position(monster, Position::new(at(5, 6))).unwrap();
        s.world.add_component(monster, Component::Health(Health(0, 5))).unwrap();
        s.world
            .add_component(monster, Component::Combat(Combat::new_melee(Attack::new_melee(3, 3))))
            .unwrap();
        s.world
            .add_component(monster, Component::Behavior(Behavior::new_melee()))
            .unwrap();
        let mut scheduler = Scheduler::new();
        if reap_first {
            scheduler.add_system(System::ReapUnits, TimeSlot::EndOfTurn);
            scheduler.add_system(System::MonsterTurns, TimeSlot::EndOfTurn);
        } else {
            scheduler.add_system(System::MonsterTurns, TimeSlot::EndOfTurn);
            scheduler.add_system(System::ReapUnits, TimeSlot::EndOfTurn);
        }
        assert_eq!(
            scheduler.on_end_turn(&mut s.world, &mut s.map, &s.resources, &mut s.log),
            Ok(())
        );
        let expected = if reap_first { Health(20, 20) } else { Health(17, 20) };
        match s.world.borrow_entity_component(ComponentType::Health, player) {
            Some(Component::Health(h)) => assert_eq!(*h, expected),
            _ => panic!("health expected"),
        }
        assert!(!s.world.has_component(ComponentType::Behavior, monster));
    }
}

#[test]
fn reaping_takes_the_components_of_the_dead() {
    let mut s = setup();
    let alive = s.world.new_entity();
    let dead = s.world.new_entity();
    let healthless = s.world.new_entity();
    s.world.add_component(alive, Component::Health(Health(1, 5))).unwrap();
    s.world.add_component(dead, Component::Health(Health(0, 5))).unwrap();
    s.world
        .add_component(dead, Component::Name(Name("Bat".to_string())))
        .unwrap();
    s.world
        .add_component(healthless, Component::Name(Name("Rock".to_string())))
        .unwrap();
    assert_eq!(reap_units(&mut s.world, &mut s.map, &s.resources, &mut s.log), Ok(()));
    assert!(s.world.has_component(ComponentType::Health, alive));
    assert!(!s.world.has_component(ComponentType::Health, dead));
    assert!(!s.world.has_component(ComponentType::Name, dead));
    assert!(s.world.has_component(ComponentType::Name, healthless));
}

#[test]
fn the_level_up_check_fails_without_a_player() {
    let mut s = setup();
    assert_eq!(level_up_check(&mut s.world), Err(Error::NoPlayerFound));
    let player = s.world.new_entity();
    s.world.mark_as_player(player).unwrap();
    assert_eq!(
        level_up_check(&mut s.world),
        Err(Error::MissingComponent { entity: player, component: ComponentType::Xp })
    );
    s.world
        .add_component(
            player,
            Component::Xp(Xp { level: 1, current: 99, max: 100, status: XpStatus::LevelUp }),
        )
        .unwrap();
    assert_eq!(level_up_check(&mut s.world), Ok(()));
    assert_eq!(
        xp_of(&s.world, player),
        Xp { level: 1, current: 99, max: 100, status: XpStatus::Default }
    );
}

fn spell(casts_left: u32, casts_max: u32, reset: TimeSlot) -> SpellInstance {
    SpellInstance {
        name: Name("Spell".to_string()),
        icon_states: ImageState::new(),
        effect: SpellEffectName::Scry,
        casts_left,
        casts_max,
        reset_timeslot: reset,
    }
}

#[test]
fn spells_of_a_level_come_back() {
    let mut s = setup();
    assert_eq!(spell_cooldowns(&mut s.world), Ok(()));
    let a = s.world.new_entity();
    let _b = s.world.new_entity();
    let c = s.world.new_entity();
    s.world
        .add_component(
            a,
            Component::Spellbook(Spellbook {
                spells: vec![
                    spell(0, 2, TimeSlot::EndOfLevel),
                    spell(1, 3, TimeSlot::EndOfTurn),
                ],
            }),
        )
        .unwrap();
    s.world
        .add_component(
            c,
            Component::Spellbook(Spellbook { spells: vec![spell(1, 4, TimeSlot::EndOfLevel)] }),
        )
        .unwrap();
    assert_eq!(spell_cooldowns(&mut s.world), Ok(()));
    let casts = |world: &World, e: usize| -> Vec<(u32, u32)> {
        match world.borrow_entity_component(ComponentType::Spellbook, e) {
            Some(Component::Spellbook(book)) => {
                book.spells.iter().map(|s| (s.casts_left, s.casts_max)).collect()
            }
            _ => panic!("book expected"),
        }
    };
    assert_eq!(casts(&s.world, a), vec![(2, 2), (1, 3)]);
    assert_eq!(casts(&s.world, c), vec![(4, 4)]);
}

fn monster(s: &mut Setup, position: Coordinate, behavior: Behavior, combat: Combat) -> usize {
    let e = s.world.new_entity();
    s.world.add_position(e, Position::new(position)).unwrap();
    s.world.add_component(e, Component::Behavior(behavior)).unwrap();
    s.world.add_component(e, Component::Combat(combat)).unwrap();
    e
}

#[test]
fn what_a_monster_chooses() {
    let mut s = setup();
    let melee = Combat::new_melee(Attack::new_melee(1, 1));
    let sleeper = monster(
        &mut s,
        at(9, 9),
        Behavior::new(BehaviorName::AggressiveMelee, None),
        melee,
    );
    let choose = |s: &Setup, e: usize, name: BehaviorName, state: BehaviorState| {
        name.choose_action(e, state, &s.world, &s.map, &s.resources)
    };
    assert_eq!(
        choose(&s, sleeper, BehaviorName::AggressiveMelee, BehaviorState::Asleep),
        Ok(AIAction::Sleep)
    );
    assert_eq!(
        choose(&s, sleeper, BehaviorName::AggressiveRanged, BehaviorState::Alerted),
        Ok(AIAction::WakeUp)
    );
    assert_eq!(
        choose(&s, sleeper, BehaviorName::Passive, BehaviorState::Awake),
        Err(Error::MonsterTurnError(MonsterTurnError::BehaviorNotImplemented {
            entity: sleeper,
            behavior: BehaviorName::Passive
        }))
    );
    assert_eq!(
        choose(&s, sleeper, BehaviorName::AggressiveMelee, BehaviorState::Awake),
        Err(Error::NoPlayerFound)
    );
    let player = s.world.new_entity();
    s.world.mark_as_player(player).unwrap();
    assert_eq!(
        choose(&s, sleeper, BehaviorName::AggressiveMelee, BehaviorState::Awake),
        Err(Error::MonsterTurnError(MonsterTurnError::NoPositionFound { entity: player }))
    );
    s.world.add_position(player, Position::new(at(9, 10))).unwrap();
    assert_eq!(
        choose(&s, sleeper, BehaviorName::AggressiveMelee, BehaviorState::Awake),
        Ok(AIAction::Attack(player))
    );
    assert_eq!(
        choose(&s, sleeper, BehaviorName::AggressiveRanged, BehaviorState::Awake),
        Err(Error::MonsterTurnError(MonsterTurnError::NoAttackFound {
            entity: sleeper,
            attack_type: AttackType::Ranged
        }))
    );
    // a diagonal is out of the reach of a melee attack
    s.world.update_position(player, at(10, 10));
    assert_eq!(
        choose(&s, sleeper, BehaviorName::AggressiveMelee, BehaviorState::Awake),
        Ok(AIAction::Approach)
    );
    let archer = monster(
        &mut s,
        at(10, 15),
        Behavior::new_ranged(),
        Combat::new_ranged(Attack::new_ranged(1, 1)),
    );
    assert_eq!(
        choose(&s, archer, BehaviorName::AggressiveRanged, BehaviorState::Awake),
        Ok(AIAction::Shoot(player))
    );
    s.world.update_position(player, at(10, 9));
    assert_eq!(
        choose(&s, archer, BehaviorName::AggressiveRanged, BehaviorState::Awake),
        Ok(AIAction::Approach)
    );
    let unplaced = s.world.new_entity();
    assert_eq!(
        choose(&s, unplaced, BehaviorName::AggressiveMelee, BehaviorState::Awake),
        Err(Error::MonsterTurnError(MonsterTurnError::NoPositionFound { entity: unplaced }))
    );
}

#[test]
fn monsters_approach_along_the_pathing_grid() {
    let mut s = setup();
    let player = s.world.new_entity();
    s.world.mark_as_player(player).unwrap();
    s.world.add_position(player, Position::new(at(5, 5))).unwrap();
    let m = monster(
        &mut s,
        at(5, 9),
        Behavior::new_fast(),
        Combat::new_melee(Attack::new_melee(1, 1)),
    );
    assert_eq!(
        AIAction::Approach.perform(m, &mut s.world, &mut s.map, &s.resources, &mut s.log),
        Err(Error::MonsterTurnError(MonsterTurnError::NoPathfindingData {
            entity: m,
            coordinate: at(5, 9)
        }))
    );
    s.map.update_pathing_grid(at(5, 5), &s.world, &s.resources);
    assert_eq!(monster_turns(&mut s.world, &mut s.map, &s.resources, &mut s.log), Ok(()));
    // two actions: two steps
    assert_eq!(s.world.position_of(m), Some(at(5, 7)));
    assert_eq!(
        AIAction::Flee.perform(m, &mut s.world, &mut s.map, &s.resources, &mut s.log),
        Err(Error::MonsterTurnError(MonsterTurnError::FailedToCompleteAction {
            entity: m,
            action: AIAction::Flee
        }))
    );
    assert_eq!(
        AIAction::Sleep.perform(m, &mut s.world, &mut s.map, &s.resources, &mut s.log),
        Ok(())
    );
}

#[test]
fn monster_turns_need_behaviors() {
    let mut s = setup();
    assert_eq!(
        monster_turns(&mut s.world, &mut s.map, &s.resources, &mut s.log),
        Err(Error::MissingColumn(ComponentType::Behavior))
    );
    let m = s.world.new_entity();
    s.world
        .add_component(m, Component::Behavior(Behavior::new(BehaviorName::AggressiveMelee, None)))
        .unwrap();
    // the monster sleeps; with the state of an alerted one it wakes up
    assert_eq!(monster_turns(&mut s.world, &mut s.map, &s.resources, &mut s.log), Ok(()));
    s.world
        .add_component(
            m,
            Component::Behavior(Behavior {
                state: BehaviorState::Alerted,
                behavior: BehaviorName::AggressiveMelee,
                action_count: 1,
            }),
        )
        .unwrap();
    assert_eq!(monster_turns(&mut s.world, &mut s.map, &s.resources, &mut s.log), Ok(()));
    match s.world.borrow_entity_component(ComponentType::Behavior, m) {
        Some(Component::Behavior(b)) => assert_eq!(b.state, BehaviorState::Awake),
        _ => panic!("behavior expected"),
    }
}
