use std::cell::RefCell;
use bw_scripting::events::{EventRegistry, EventSubscription, EventFilter, GameEventType, parse_event_type};
use bw_scripting::events::dispatcher::{EventDispatcher, EventInfo, HandlerCall, accepts, handler_call};

#[test]
fn test_registry_subscribe_unsubscribe() {
    let mut registry = EventRegistry::new();

    let sub = EventSubscription::new("test.rhai", "on_combat", vec![GameEventType::CombatStarted]);
    let id = sub.id;

    registry.subscribe(sub);
    assert_eq!(registry.subscription_count(), 1);

    let handlers = registry.get_handlers(GameEventType::CombatStarted);
    assert_eq!(handlers.len(), 1);

    registry.unsubscribe(id);
    assert_eq!(registry.subscription_count(), 0);
}

#[test]
fn test_parse_event_type() {
    assert_eq!(parse_event_type("ShipSpawned"), Some(GameEventType::ShipSpawned));
    assert_eq!(parse_event_type("ship_spawned"), Some(GameEventType::ShipSpawned));
    assert_eq!(parse_event_type("combat_started"), Some(GameEventType::CombatStarted));
    assert_eq!(parse_event_type("invalid"), None);
}

#[test]
fn parse_event_type_ignores_case_and_underscores() {
    assert_eq!(parse_event_type("DISTRESS_SIGNAL_RECEIVED"), Some(GameEventType::DistressSignalReceived));
    assert_eq!(parse_event_type("Squadron_War_Declared"), Some(GameEventType::SquadronWarDeclared));
    assert_eq!(parse_event_type(""), None);
}

#[test]
fn handlers_sorted_by_priority_keep_registration_order_for_ties() {
    let mut registry = EventRegistry::new();
    let a = EventSubscription::new("a.rhai", "h", vec![GameEventType::ShipDamaged]).with_priority(5);
    let b = EventSubscription::new("b.rhai", "h", vec![GameEventType::ShipDamaged]).with_priority(-1);
    let c = EventSubscription::new("c.rhai", "h", vec![GameEventType::ShipDamaged, GameEventType::ShipDestroyed]).with_priority(5);
    let (ia, ib, ic) = (a.id, b.id, c.id);
    registry.subscribe(a);
    registry.subscribe(b);
    registry.subscribe(c);
    let ids: Vec<u128> = registry.get_handlers_sorted(GameEventType::ShipDamaged).iter().map(|s| s.id).collect();
    assert_eq!(ids, vec![ib, ia, ic]);
    assert_eq!(registry.get_handlers(GameEventType::ShipDestroyed).len(), 1);
    assert!(registry.get_handlers(GameEventType::FameLost).is_empty());
}

#[test]
fn owner_cleanup_and_enable() {
    let mut registry = EventRegistry::new();
    let a = EventSubscription::new("a.rhai", "h", vec![GameEventType::ShipDamaged]).with_owner(1);
    let b = EventSubscription::new("b.rhai", "h", vec![GameEventType::ShipDamaged]).with_owner(1);
    let c = EventSubscription::new("c.rhai", "h", vec![GameEventType::ShipDamaged]).with_owner(2);
    let ic = c.id;
    let ia = a.id;
    registry.subscribe(a);
    registry.subscribe(b);
    registry.subscribe(c);
    assert_eq!(registry.count_for_entity(1), 2);
    registry.set_enabled(ia, false);
    assert_eq!(registry.get(ia).map(|s| s.enabled), Some(false));
    registry.unsubscribe_for_entity(1);
    assert_eq!(registry.count(), 1);
    assert_eq!(registry.count_for_entity(1), 0);
    assert_eq!(registry.list_all()[0].id, ic);
    assert!(!registry.unsubscribe(ia));
}

#[test]
fn filters_match() {
    assert!(EventFilter::SectorId(3).matches(3, None, None));
    assert!(!EventFilter::SectorId(3).matches(4, None, None));
    assert!(EventFilter::ActorId(7).matches(0, Some(7), None));
    assert!(!EventFilter::TargetId(7).matches(0, Some(7), None));
    assert!(EventFilter::Custom("f".to_string()).matches(0, None, None));
}

#[test]
fn dispatch_calls_the_handlers_that_take_the_event() {
    let mut registry = EventRegistry::new();
    let plain = EventSubscription::new("a.rhai", "on_dmg", vec![GameEventType::ShipDamaged]).with_priority(2);
    let other_sector = EventSubscription::new("b.rhai", "on_dmg", vec![GameEventType::ShipDamaged]).with_sector(99);
    let mut disabled = EventSubscription::new("c.rhai", "on_dmg", vec![GameEventType::ShipDamaged]);
    disabled.enabled = false;
    let failing = EventSubscription::new("d.rhai", "on_dmg", vec![GameEventType::ShipDamaged]).with_priority(1);
    let missing = EventSubscription::new("gone.rhai", "on_dmg", vec![GameEventType::ShipDamaged]).with_priority(3);
    let (ip, ifail, imiss) = (plain.id, failing.id, missing.id);
    for s in [plain, other_sector, disabled, failing, missing] {
        registry.subscribe(s);
    }
    let dispatcher = EventDispatcher::new(registry);
    let calls = RefCell::new(Vec::new());
    let event = EventInfo { event_type: GameEventType::ShipDamaged, sector_id: 1, actor_id: None, target_id: None };
    let r = dispatcher.dispatch(&event, |call: HandlerCall| -> Option<Result<Vec<u32>, String>> {
        calls.borrow_mut().push(call.subscription_id);
        if call.script_path == "d.rhai" {
            Some(Err("bad".to_string()))
        } else if call.script_path == "gone.rhai" {
            None
        } else {
            Some(Ok(vec![1, 2]))
        }
    });
    assert_eq!(calls.borrow().clone(), vec![ifail, ip, imiss]);
    assert_eq!(r.handlers_called, 3);
    assert_eq!(r.successes, 1);
    assert_eq!(r.mutations, vec![1, 2]);
    assert_eq!(r.failures, vec![(ifail, "bad".to_string()), (imiss, "Script not found: gone.rhai".to_string())]);
}

#[test]
fn handler_calls_carry_permissions_and_context() {
    let sub = EventSubscription::new("npc.rhai", "on_x", vec![GameEventType::AttackHit]).with_owner(4).with_sector(5);
    let call = handler_call(&sub);
    assert_eq!(call.permissions.owner_entity_id, Some(4));
    assert_eq!(call.context.sector_id, Some(5));
    let keys: Vec<&str> = call.context_entries.iter().map(|e| e.0.as_str()).collect();
    assert_eq!(keys, vec!["entity_id", "sector_id", "subscription_id"]);
    let plain = EventSubscription::new("g.rhai", "on_x", vec![GameEventType::AttackHit]);
    assert!(handler_call(&plain).permissions.can_spawn_entities);
    let event = EventInfo { event_type: GameEventType::AttackHit, sector_id: 5, actor_id: None, target_id: None };
    assert!(accepts(&sub, &event));
    let filtered = EventSubscription::new("f.rhai", "on_x", vec![GameEventType::AttackHit]).with_filter(EventFilter::ActorId(1));
    assert!(!accepts(&filtered, &event));
}
