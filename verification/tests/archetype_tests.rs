use bw_scripting::archetypes::ability_archetype::{AbilityTarget, AbilityCost};
use bw_scripting::archetypes::effect_archetype::{EffectType, StackingBehavior, EffectTrigger};
use bw_scripting::archetypes::registry::{ArchetypeRegistry, LoadResult};

#[test]
fn test_ability_target_from_str() {
    assert_eq!(AbilityTarget::from_str("self"), AbilityTarget::SelfTarget);
    assert_eq!(AbilityTarget::from_str("friendly"), AbilityTarget::Friendly);
    assert_eq!(AbilityTarget::from_str("enemy"), AbilityTarget::Enemy);
    assert_eq!(AbilityTarget::from_str("area"), AbilityTarget::Area);
    assert_eq!(AbilityTarget::from_str("unknown"), AbilityTarget::SelfTarget);
}

#[test]
fn test_ability_cost_is_free() {
    let free = AbilityCost::default();
    assert!(free.is_free());

    let not_free = AbilityCost { energy: 10, ..Default::default() };
    assert!(!not_free.is_free());
}

#[test]
fn test_effect_type_from_str() {
    assert_eq!(EffectType::from_str("instant"), EffectType::Instant);
    assert_eq!(EffectType::from_str("duration"), EffectType::Duration);
    assert_eq!(EffectType::from_str("trigger"), EffectType::Trigger);
    assert_eq!(EffectType::from_str("unknown"), EffectType::Instant);
}

#[test]
fn test_stacking_from_str() {
    assert_eq!(StackingBehavior::from_str("refresh"), StackingBehavior::Refresh);
    assert_eq!(StackingBehavior::from_str("stack"), StackingBehavior::Stack);
    assert_eq!(StackingBehavior::from_str("ignore"), StackingBehavior::Ignore);
}

#[test]
fn ability_target_ignores_case() {
    assert_eq!(AbilityTarget::from_str("ENEMY"), AbilityTarget::Enemy);
    assert_eq!(AbilityTarget::from_str("Area"), AbilityTarget::Area);
}

#[test]
fn effect_trigger_names() {
    assert!(EffectTrigger::from_str("no_such_trigger").is_none());
}

#[test]
fn load_result_counts() {
    let r = LoadResult::default();
    assert!(!r.has_errors());
    assert_eq!(r.total_loaded(), 0);
}

use bw_scripting::archetypes::ability_archetype::{AbilityArchetype, AbilityEffect, AbilityRequirements};
use bw_scripting::archetypes::effect_archetype::EffectArchetype;

#[test]
fn ability_definitions_take_defaults() {
    let cost = AbilityCost::from_amounts(Some(10), None, None, Some(1 << 40), Some(1 << 33));
    assert_eq!(cost.energy, 10);
    assert_eq!(cost.fuel, 0);
    assert_eq!(cost.credits, 1 << 40);
    assert_eq!(cost.shields, 0);
    let reqs = AbilityRequirements::from_values(Some(2), vec!["corvette".to_string()], vec![], Some(true), None, None, Some(-5));
    assert_eq!(reqs.min_tier, Some(2));
    assert!(reqs.out_of_combat_only);
    assert!(!reqs.in_combat_only);
    assert_eq!(reqs.min_reputation, Some(-5));
    let effects: Vec<AbilityEffect<u8>> = vec![AbilityEffect::from_values(Some("burn".to_string()), None).unwrap()];
    assert!(AbilityEffect::<u8>::from_values(None, Some(3)).is_none());
    let a = AbilityArchetype::from_values(
        Some("overload".to_string()), None, None, Some(-1), cost, Some("AOE"), effects, reqs, None, None, None,
    )
    .unwrap();
    assert_eq!(a.name, "overload");
    assert_eq!(a.cooldown, u32::MAX);
    assert_eq!(a.target, AbilityTarget::Area);
    assert_eq!(a.tier, 1);
    assert!(!a.is_passive);
    assert!(a.has_effects());
    assert!(a.has_cooldown());
    assert!(AbilityArchetype::<u8>::from_values(None, None, None, None, cost, None, vec![], AbilityRequirements::default(), None, None, None).is_none());
    let d: AbilityArchetype<u8> = AbilityArchetype::default();
    assert_eq!(d.tier, 1);
    assert!(!d.has_effects());
}

#[test]
fn effect_definitions_take_defaults() {
    let e: EffectArchetype<u8> = EffectArchetype::from_values(
        Some("burn".to_string()), None, None, Some("Duration"), None, None, Some("stack"), Some("ON_TICK"),
    )
    .unwrap();
    assert_eq!(e.name, "burn");
    assert_eq!(e.effect_type, EffectType::Duration);
    assert_eq!(e.handler, "");
    assert_eq!(e.stacking, StackingBehavior::Stack);
    assert_eq!(e.trigger, Some(EffectTrigger::OnTick));
    let plain: EffectArchetype<u8> = EffectArchetype::from_values(Some("x".to_string()), Some("X".to_string()), None, None, Some("dot".to_string()), Some(4), None, None).unwrap();
    assert_eq!(plain.effect_type, EffectType::Instant);
    assert_eq!(plain.stacking, StackingBehavior::Refresh);
    assert_eq!(plain.params, 4);
    assert!(EffectArchetype::<u8>::from_values(None, None, None, None, None, None, None, None).is_none());
}

struct TestShip {
    name: String,
    tier: u32,
}

#[test]
fn test_empty_registry() {
    let registry: ArchetypeRegistry<TestShip, String> = ArchetypeRegistry::new();
    assert_eq!(registry.ship_count(), 0);
    assert_eq!(registry.weapon_count(), 0);
}

#[test]
fn test_register_ship() {
    let mut registry: ArchetypeRegistry<TestShip, String> = ArchetypeRegistry::new();

    let ship = TestShip { name: "Test Ship".to_string(), tier: 1 };

    registry.register_ship("test_ship".to_string(), true, false, ship);

    assert!(registry.has_ship("test_ship"));
    assert_eq!(registry.ship_count(), 1);

    let loaded = registry.get_ship("test_ship").unwrap();
    assert_eq!(loaded.name, "Test Ship");
    assert_eq!(loaded.tier, 1);
}

#[test]
fn registry_selects_player_and_hostile_ships_in_order() {
    let mut registry: ArchetypeRegistry<TestShip, String> = ArchetypeRegistry::new();
    registry.register_ship("a".to_string(), true, false, TestShip { name: "A".to_string(), tier: 1 });
    registry.register_ship("b".to_string(), false, true, TestShip { name: "B".to_string(), tier: 2 });
    registry.register_ship("c".to_string(), true, true, TestShip { name: "C".to_string(), tier: 3 });
    registry.register_weapon("laser".to_string(), "Laser".to_string());
    let players: Vec<&str> = registry.player_ships().iter().map(|s| s.name.as_str()).collect();
    assert_eq!(players, vec!["A", "C"]);
    let hostile: Vec<&str> = registry.hostile_ships().iter().map(|s| s.name.as_str()).collect();
    assert_eq!(hostile, vec!["B", "C"]);
    assert_eq!(registry.all_ships().len(), 3);
    assert_eq!(registry.get_weapon("laser").map(|w| w.as_str()), Some("Laser"));
    assert!(registry.get_ship("laser").is_none());
    assert_eq!(registry.all_weapons().len(), 1);
    registry.register_ship("a".to_string(), false, false, TestShip { name: "A2".to_string(), tier: 4 });
    assert_eq!(registry.ship_count(), 3);
    assert_eq!(registry.get_ship("a").unwrap().name, "A2");
    registry.clear();
    assert_eq!(registry.ship_count(), 0);
    assert!(!registry.has_weapon("laser"));
}
