use rogue_core::component::attributes::{
    attack_damage_boost, level_requirement_fits, next_level_requirement, spell_damage_boost,
    Attributes, Xp, XpStatus,
};
use rogue_core::component::behavior::{Behavior, BehaviorName, BehaviorState};
use rogue_core::component::combat::{
    calculate_armor_reduction, calculate_attack, calculate_attack_with, calculate_melee_attack,
    calculate_ranged_attack, checked_adjusted_damage, get_adjusted_damage, Attack, AttackReport,
    AttackType, Combat, DamageRange, DamageType, HitMessage,
};
use rogue_core::component::effect::{Duration, Effect, EffectHandler, EffectType};
use rogue_core::component::health::{get_adjusted_health, Health, HealthStatus};
use rogue_core::component::image::ImageState;
use rogue_core::component::items::{
    adjust_for_depth, get_adjusted_coins, item_damage_boost, Coins, Inventory,
};
use rogue_core::component::responses::{AttackResponse, NoiseResponse, PickupResponse};
use rogue_core::component::spell::{SpellEffectName, SpellInstance, Spellbook};
use rogue_core::component::{Component, ComponentType, Name, Position};
use rogue_core::error::Error;
use rogue_core::event::{Arguments, MessageArguments, ResponseFuctionName};
use rogue_core::logger::{
    generate_attack_message, generate_is_burning_message, generate_on_fire_message,
    generate_receive_gold_message, generate_sleep_message, generate_take_damage_message,
    generate_wake_up_message, log_message, number_text, MessageLog,
};
use rogue_core::map::utils::Coordinate;
use rogue_core::random::{grow, roll, roll_index};
use rogue_core::resources::id::{ImageID, SpellDefinitionId};
use rogue_core::resources::ResourceManager;
use rogue_core::system::TimeSlot;

#[test]
fn health_arithmetic() {
    let mut h = Health::new(10);
    assert_eq!(h, Health(10, 10));
    h.sub_current(4);
    assert_eq!(h, Health(6, 10));
    h.add_current(3);
    assert_eq!(h, Health(9, 10));
    h.add_current(5);
    assert_eq!(h, Health(10, 10));
    h.sub_current(14);
    assert_eq!(h, Health(0, 10));
    h.add_max(5);
    assert_eq!(h, Health(5, 15));
    h.reset_to_max();
    assert_eq!(h, Health(15, 15));
}

#[test]
fn health_status() {
    assert_eq!(HealthStatus::from(Health(10, 10)), HealthStatus::Full);
    assert_eq!(HealthStatus::from(Health(3, 10)), HealthStatus::Hurt);
    assert_eq!(HealthStatus::from(Health(0, 10)), HealthStatus::Dead);
    assert_eq!(HealthStatus::from(Health(0, 0)), HealthStatus::Full);
}

#[test]
fn experience_requirements() {
    assert_eq!(next_level_requirement(0), 0);
    assert_eq!(next_level_requirement(1), 100);
    assert_eq!(next_level_requirement(2), 300);
    assert_eq!(next_level_requirement(3), 600);
    assert_eq!(next_level_requirement(9267), 4294327800);
    assert!(level_requirement_fits(9267));
    assert!(!level_requirement_fits(9268));
    assert!(!level_requirement_fits(u32::MAX));
    assert_eq!(
        Xp::new(4),
        Xp { level: 4, current: 0, max: 1000, status: XpStatus::Default }
    );
}

#[test]
fn damage_boosts() {
    let melee = Attack::new_melee(1, 2);
    let ranged = Attack::new_ranged(1, 2);
    let stats = Attributes { might: 6, wit: 4, skill: 3 };
    assert_eq!(attack_damage_boost(10, &melee, &stats), 22);
    assert_eq!(attack_damage_boost(10, &ranged, &stats), 13);
    let weak = Attributes { might: 0, wit: 0, skill: 1 };
    assert_eq!(attack_damage_boost(10, &melee, &weak), 10);
    assert_eq!(attack_damage_boost(10, &ranged, &weak), 10);
    let two = Attributes { might: 2, wit: 2, skill: 2 };
    assert_eq!(attack_damage_boost(0, &melee, &two), 2);
    assert_eq!(attack_damage_boost(0, &ranged, &two), 1);
    assert_eq!(attack_damage_boost(u32::MAX, &melee, &stats), u32::MAX);
    assert_eq!(spell_damage_boost(&stats), 10);
    assert_eq!(spell_damage_boost(&two), 3);
    assert_eq!(spell_damage_boost(&weak), 0);
    assert_eq!(spell_damage_boost(&Attributes { might: 1, wit: u32::MAX, skill: 1 }), u32::MAX);
    assert_eq!(item_damage_boost(7, &melee, &Inventory), 7);
}

#[test]
fn attacks_and_their_ranges() {
    assert_eq!(
        Attack::new(1, 2, DamageType::Burning, AttackType::Ranged, 3),
        Attack {
            damage_min: 1,
            damage_max: 2,
            damage_type: DamageType::Burning,
            attack_type: AttackType::Ranged,
            range: 13
        }
    );
    assert_eq!(Attack::new_melee(1, 2).range, 5);
    assert_eq!(Attack::new_ranged(1, 2).range, 21);
    assert_eq!(Attack::optional_melee(None), None);
    assert_eq!(
        Attack::optional_melee(Some(DamageRange(3, 4))),
        Some(Attack::new_melee(3, 4))
    );
    assert_eq!(
        Attack::optional_ranged(Some(DamageRange(3, 4))),
        Some(Attack::new_ranged(3, 4))
    );
    let both = Combat::new(Some(Attack::new_melee(1, 1)), Some(Attack::new_ranged(2, 2)));
    assert_eq!(both.get_attack(AttackType::Melee), Some(Attack::new_melee(1, 1)));
    assert_eq!(both.get_attack(AttackType::Ranged), Some(Attack::new_ranged(2, 2)));
    assert_eq!(Combat::new_ranged(Attack::new_ranged(2, 2)).melee_attack, None);
    assert_eq!(DamageRange(1, 2).plus(3), DamageRange(4, 5));
    assert_eq!(DamageRange(1, 2).plus_range(DamageRange(10, 20)), DamageRange(11, 22));
    assert_eq!(DamageRange::default(), DamageRange(0, 0));
}

#[test]
fn working_out_attacks() {
    let attack = Attack::new_melee(5, 9);
    let stats = Attributes { might: 6, wit: 1, skill: 1 };
    assert_eq!(
        calculate_attack_with(&attack, Some(&stats), Some(&Inventory), 7),
        AttackReport {
            damage: 19,
            damage_type: DamageType::Physical,
            attack_type: AttackType::Melee,
            hit_message: HitMessage::Attacked
        }
    );
    assert_eq!(calculate_attack_with(&Attack::new_ranged(1, 1), None, None, 1).hit_message.as_str(), "shot");
    assert_eq!(HitMessage::Attacked.as_str(), "attacked");
    for _ in 0..50 {
        let report = calculate_attack(&attack, None, None);
        assert!(5 <= report.damage && report.damage <= 9);
    }
    let combat = Combat::new_melee(attack);
    assert!(calculate_melee_attack(&combat, None, None).is_ok());
    assert_eq!(
        calculate_ranged_attack(&combat, None, None),
        Err(Error::NoAttack(AttackType::Ranged))
    );
    assert_eq!(
        calculate_melee_attack(&Combat::new(None, None), None, None),
        Err(Error::NoAttack(AttackType::Melee))
    );
    let report = calculate_attack_with(&attack, None, None, 6);
    assert_eq!(calculate_armor_reduction(&report, None, None), 6);
}

#[test]
fn growth_with_depth() {
    assert_eq!(grow(1_000_000, 0, 1100), 1_000_000);
    assert_eq!(grow(1_000_000, 1, 1100), 1_100_000);
    assert_eq!(grow(1_000_000, 2, 1100), 1_210_000);
    assert_eq!(grow(1_000_000, 8, 1100), 2_143_588);
    assert_eq!(grow(0, 1000, 1100), 0);
    assert_eq!(grow(1_000_000, 100_000, 1100), 4_294_967_295_000_000);
    assert_eq!(get_adjusted_damage(5, 1), 6);
    assert_eq!(get_adjusted_damage(5, 8), 6);
    assert_eq!(get_adjusted_damage(5, 9), 7);
    assert_eq!(get_adjusted_damage(0, 25), 9);
    assert_eq!(checked_adjusted_damage(5, 0), None);
    assert_eq!(checked_adjusted_damage(5, 9), Some(7));
    assert_eq!(checked_adjusted_damage(u32::MAX, 1), None);
    assert_eq!(checked_adjusted_damage(1, 1000), None);
    assert_eq!(adjust_for_depth(100, 1, 1200, 1000), 100);
    assert_eq!(adjust_for_depth(100, 2, 1200, 1000), 120);
    assert_eq!(adjust_for_depth(100, 3, 1200, 1000), 144);
    assert_eq!(adjust_for_depth(100, 3, 1200, 800), 115);
    assert_eq!(adjust_for_depth(100, 3, 1200, 1199), 172);
    assert_eq!(adjust_for_depth(u32::MAX, 9, 1200, 1200), u32::MAX);
    for _ in 0..50 {
        let coins = get_adjusted_coins(100, 2);
        assert!(96 <= coins && coins <= 143);
        let health = get_adjusted_health(100, 2);
        assert!(99 <= health && health <= 120);
    }
}

#[test]
fn chance_stays_within_its_bounds() {
    let mut seen_low = false;
    let mut seen_high = false;
    for _ in 0..400 {
        let r = roll(3, 6);
        assert!(3 <= r && r <= 6);
        seen_low |= r == 3;
        seen_high |= r == 6;
        assert!(roll_index(5) < 5);
    }
    assert!(seen_low && seen_high);
    assert_eq!(roll(9, 9), 9);
    assert_eq!(roll_index(1), 0);
}

#[test]
fn effects_merge_and_tick() {
    let mut handler = EffectHandler::new();
    handler.add_effect(Effect { effect_type: EffectType::Burning, duration: Duration(3) });
    handler.add_effect(Effect { effect_type: EffectType::Burning, duration: Duration(4) });
    assert_eq!(
        handler.active_effects,
        vec![Effect { effect_type: EffectType::Burning, duration: Duration(7) }]
    );
    handler.tick_all();
    handler.tick_all();
    assert_eq!(handler.active_effects[0].duration, Duration(5));
    let a = Effect { effect_type: EffectType::Burning, duration: Duration(1) };
    assert!(a.same_type(&handler.active_effects[0]));
    assert_eq!(Duration(3).plus(Duration(4)), Duration(7));
    assert_eq!(Duration(4).minus(Duration(3)), Duration(1));
}

#[test]
fn behaviors() {
    assert_eq!(
        Behavior::new(BehaviorName::AggressiveRanged, None),
        Behavior {
            state: BehaviorState::Asleep,
            behavior: BehaviorName::AggressiveRanged,
            action_count: 1
        }
    );
    assert_eq!(Behavior::new(BehaviorName::Passive, Some(4)).action_count, 4);
    assert_eq!(Behavior::new_melee().state, BehaviorState::Awake);
    assert_eq!(Behavior::new_ranged().behavior, BehaviorName::AggressiveRanged);
    assert_eq!(Behavior::new_fast().action_count, 2);
    assert_eq!(BehaviorState::default(), BehaviorState::Asleep);
    assert_eq!(BehaviorName::default(), BehaviorName::AggressiveMelee);
}

#[test]
fn responses() {
    let half = AttackResponse::new_half_damage();
    assert_eq!(half.args.damage_multiplier, Some(500));
    assert_eq!(half.args.damage_multiplier_override, None);
    assert_eq!(half.response, ResponseFuctionName::Default);
    assert_eq!(half.args.multiplier(), 500);
    assert_eq!(Arguments::new().multiplier(), 1000);
    assert_eq!(
        Arguments { damage_multiplier: Some(2), damage_multiplier_override: Some(7) }.multiplier(),
        7
    );
    assert_eq!(AttackResponse::new_reflect().response, ResponseFuctionName::ReflectAll);
    let custom = AttackResponse::new_with_args(
        Arguments { damage_multiplier: Some(1), damage_multiplier_override: None },
        MessageArguments::new(),
    );
    assert_eq!(custom.args.damage_multiplier, Some(1));
    assert_eq!(NoiseResponse::new(12).threshold, 12);
    assert_eq!(PickupResponse::default().response, ResponseFuctionName::Pickup);
    assert_eq!(ResponseFuctionName::default(), ResponseFuctionName::Default);
    let cloned = custom.clone();
    assert_eq!(cloned.args, custom.args);
}

#[test]
fn messages() {
    let bat = Name("Bat".to_string());
    let hero = Name("Hero".to_string());
    assert_eq!(
        generate_attack_message(Some(&bat), Some(&hero), "bit", "You are now poisoned.", 3),
        "Bat bit Hero for 3 damage. You are now poisoned."
    );
    assert_eq!(
        generate_attack_message(None, None, "attacked", "", 120),
        "Someone attacked Someone for 120 damage. "
    );
    assert_eq!(
        generate_take_damage_message(Some(&bat), 15, "It's super effective."),
        "Bat took 15 damage. It's super effective."
    );
    assert_eq!(generate_receive_gold_message(40), "You found 40 gold!");
    assert_eq!(
        generate_is_burning_message(None, 2),
        "Someone is burning! Took 2 damage."
    );
    assert_eq!(generate_on_fire_message(Some(&hero)), "Hero catches on fire!");
    assert_eq!(generate_wake_up_message(Some(&bat)), "Bat woke up!");
    assert_eq!(generate_sleep_message(None), "Someone doesn't notice you.");
    assert_eq!(number_text(0), "0");
    assert_eq!(number_text(7), "7");
    assert_eq!(number_text(10), "10");
    assert_eq!(number_text(4294967295), "4294967295");
}

#[test]
fn the_message_log_is_a_queue() {
    let mut log = MessageLog::new();
    assert_eq!(log.next_message(), None);
    log.queue_message("one");
    log_message(&mut log, "two");
    assert_eq!(log.next_message(), Some("one".to_string()));
    log.queue_message("three");
    assert_eq!(log.next_message(), Some("two".to_string()));
    assert_eq!(log.next_message(), Some("three".to_string()));
    assert_eq!(log.next_message(), None);
}

#[test]
fn image_states() {
    let mut states = ImageState::new();
    states.add_state("open", ImageID(7));
    states.add_state("closed", ImageID(8));
    states.add_state("open", ImageID(9));
    assert_eq!(states.image_of("open"), Some(ImageID(7)));
    assert_eq!(states.image_of("closed"), Some(ImageID(8)));
    assert_eq!(states.image_of("ajar"), None);
    let copy = states.clone();
    assert_eq!(copy.states.len(), 3);
    assert_eq!(copy.image_of("closed"), Some(ImageID(8)));
}

#[test]
fn spellbooks() {
    let resources = ResourceManager::new();
    let fireball = resources.get_spell(SpellDefinitionId(0)).unwrap();
    let scry = resources.get_spell(SpellDefinitionId(1)).unwrap();
    assert!(resources.get_spell(SpellDefinitionId(2)).is_none());
    let mut book = Spellbook::new(vec![fireball, scry]);
    assert_eq!(book.get_spells().len(), 2);
    assert_eq!(book.get_spell(0).unwrap().name.0, "Fireball");
    assert_eq!(book.get_spell(0).unwrap().casts_left, 2);
    assert_eq!(book.get_spell(1).unwrap().effect, SpellEffectName::Scry);
    assert!(book.get_spell(2).is_none());
    assert_eq!(book.register_cast(0), Ok(()));
    assert_eq!(book.register_cast(1), Ok(()));
    assert_eq!(book.register_cast(1), Ok(()));
    assert_eq!(book.register_cast(2), Err(Error::NoSuchSpell));
    assert_eq!(book.get_spell(0).unwrap().casts_left, 1);
    assert_eq!(book.get_spell(1).unwrap().casts_left, 0);
    book.get_spell_mut(0).unwrap().reset_timeslot = TimeSlot::EndOfTurn;
    book.reset_spells(TimeSlot::EndOfLevel);
    assert_eq!(book.get_spell(0).unwrap().casts_left, 1);
    assert_eq!(book.get_spell(1).unwrap().casts_left, 1);
    book.on_wit_increased(2);
    assert_eq!(book.get_spell(0).unwrap().casts_left, 3);
    assert_eq!(book.get_spell(0).unwrap().casts_max, 4);
    let stats = Attributes { might: 1, wit: 3, skill: 1 };
    assert_eq!(
        book.add_spell(SpellDefinitionId(1), Some(&stats), None, &resources),
        Ok(())
    );
    assert_eq!(book.get_spell(2).unwrap().casts_max, 4);
    assert_eq!(
        book.add_spell(SpellDefinitionId(9), None, None, &resources),
        Err(Error::NoSuchSpell)
    );
    let full = Attributes { might: 1, wit: u32::MAX, skill: 1 };
    assert_eq!(
        book.add_spell(SpellDefinitionId(1), Some(&full), None, &resources),
        Err(Error::Overflow)
    );
    let copy: SpellInstance = book.get_spell(0).unwrap().clone();
    assert_eq!(copy.casts_left, 3);
}

#[test]
fn positions_and_component_types() {
    let mut p = Position::new(Coordinate { x: 1, y: 2 });
    assert_eq!(p.coordinate(), Coordinate { x: 1, y: 2 });
    assert!(p.is_at(Coordinate { x: 1, y: 2 }));
    p.move_to(Coordinate { x: 3, y: 4 });
    assert_eq!(p, Position(Coordinate { x: 3, y: 4 }));
    assert_eq!(Component::Coins(Coins(1)).get_type(), ComponentType::Coins);
    assert_eq!(Component::Position(p).get_type(), ComponentType::Position);
    assert_eq!(ComponentType::Name.index(), 0);
    assert_eq!(ComponentType::DeathResponse.index(), 26);
    let name = Component::Name(Name("x".to_string()));
    match name.clone() {
        Component::Name(n) => assert_eq!(n.0, "x"),
        _ => panic!("name expected"),
    }
}
