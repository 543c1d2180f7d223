use bw_scripting::behaviors::{hook_result, BehaviorState, EntityBehavior, HookCall, HookOutcome};
use bw_scripting::behaviors::manager::BehaviorManager;
use bw_scripting::debug::controller::DebugController;
use bw_scripting::debug::types::{Breakpoint, DebugTarget};
use bw_scripting::events::{EventRegistry, EventSubscription, GameEventType};
use bw_scripting::engine::ScriptError;
use bw_scripting::state::EntityType;

fn ran(_c: HookCall<i64>) -> HookOutcome<i64> {
    HookOutcome::Ran(Ok(None))
}

#[test]
fn hook_results_read_the_outcome() {
    let r = hook_result::<i64>(9, HookOutcome::Ran(Ok(Some(3))));
    assert!(r.success);
    assert_eq!(r.updated_local_data, Some(3));
    let r = hook_result::<i64>(9, HookOutcome::Ran(Err("Function not found: on_update".to_string())));
    assert!(r.success);
    assert_eq!(r.error, None);
    let r = hook_result::<i64>(9, HookOutcome::Ran(Err("boom".to_string())));
    assert!(!r.success);
    assert_eq!(r.error, Some("boom".to_string()));
    let r = hook_result::<i64>(9, HookOutcome::NotEntered("busy".to_string()));
    assert!(!r.success);
    assert_eq!(r.behavior_id, 9);
}

#[test]
fn attach_needs_a_loaded_script_and_calls_on_attach() {
    let mut m: BehaviorManager<i64, ()> = BehaviorManager::new();
    m.set_state_accessor_configured(true);
    match m.attach(false, 1, EntityType::Ship, "npc/patrol.rhai", None, 0, None, ran) {
        Err(ScriptError::NotFound(p)) => assert_eq!(p, "npc/patrol.rhai"),
        _ => panic!("expected a missing script"),
    }
    assert_eq!(m.active_count(), 0);

    let id = m
        .attach(true, 1, EntityType::Ship, "npc/patrol.rhai", Some(4), 0, None, |c: HookCall<i64>| {
            assert_eq!(c.hook_name, "on_spawn");
            assert_eq!(c.entity_id, 1);
            assert_eq!(c.context.sector_id, Some(4));
            assert_eq!(c.entity_context.entity_type, "ship");
            HookOutcome::Ran(Ok(Some(10)))
        })
        .unwrap();
    let b = m.get(id).unwrap();
    assert_eq!(b.local_data, 10);
    assert_eq!(b.state, BehaviorState::Active);
    assert_eq!(m.count_for_entity(1), 1);
    assert_eq!(m.get_behaviors(1).len(), 1);
}

#[test]
fn hooks_fail_without_a_state_accessor() {
    let mut m: BehaviorManager<i64, ()> = BehaviorManager::new();
    match m.attach(true, 1, EntityType::Ship, "a.rhai", None, 0, None, ran) {
        Err(ScriptError::RuntimeError(e)) => assert_eq!(e, "No state accessor configured"),
        _ => panic!("expected the hook to fail"),
    }
    assert_eq!(m.count_for_entity(1), 0);
}

#[test]
fn pause_resume_and_update() {
    let mut m: BehaviorManager<i64, ()> = BehaviorManager::new();
    m.set_state_accessor_configured(true);
    let a = m.attach(true, 1, EntityType::Ship, "a.rhai", None, 0, None, ran).unwrap();
    let b = m.attach(true, 2, EntityType::Station, "b.rhai", None, 5, None, ran).unwrap();
    assert_eq!(m.active_count(), 2);

    assert!(m.pause(a));
    assert_eq!(m.active_count(), 1);
    let results = m.update_all(7, None, |c: HookCall<i64>| {
        assert_eq!(c.hook_name, "on_update");
        assert_eq!(c.tick, 7);
        HookOutcome::Ran(Ok(Some(c.local_data + 1)))
    });
    assert_eq!(results.len(), 1);
    assert_eq!(results[0].behavior_id, b);
    assert_eq!(m.get(b).unwrap().local_data, 6);
    assert_eq!(m.get(a).unwrap().local_data, 0);

    assert!(m.resume(a));
    assert_eq!(m.active_count(), 2);
    assert!(!m.pause(12345));
}

#[test]
fn detach_removes_behaviors_and_their_subscriptions() {
    let mut m: BehaviorManager<i64, ()> = BehaviorManager::new();
    m.set_state_accessor_configured(true);
    let mut events = EventRegistry::new();
    let a = m.attach(true, 1, EntityType::Ship, "a.rhai", None, 0, None, ran).unwrap();
    m.attach(true, 1, EntityType::Ship, "b.rhai", None, 0, None, ran).unwrap();
    let c = m.attach(true, 2, EntityType::Ship, "c.rhai", None, 0, None, ran).unwrap();
    events.subscribe(EventSubscription::new("a.rhai", "on_event", vec![GameEventType::ShipDestroyed]).with_owner(1));
    events.subscribe(EventSubscription::new("c.rhai", "on_event", vec![GameEventType::ShipDestroyed]).with_owner(2));

    assert!(m.detach(a, None, &mut events, |h: HookCall<i64>| {
        assert_eq!(h.hook_name, "on_destroy");
        HookOutcome::Ran(Ok(None))
    }));
    assert!(m.get(a).is_none());
    assert_eq!(events.count_for_entity(1), 0);
    assert_eq!(events.count_for_entity(2), 1);
    assert!(!m.detach(a, None, &mut events, ran));

    m.detach_for_entity(1, None, &mut events, ran);
    assert_eq!(m.count_for_entity(1), 0);
    assert!(m.get(c).is_some());
}

#[test]
fn debug_sessions_watching_the_script_are_named_in_the_call() {
    let mut controller = DebugController::new();
    let sid = controller.start_session(77, DebugTarget::Live);
    controller.set_breakpoint(sid, Breakpoint::at_line("a.rhai", 2));
    let mut m: BehaviorManager<i64, ()> = BehaviorManager::new();
    m.set_state_accessor_configured(true);
    m.set_debug_target(DebugTarget::Live);
    m.attach(true, 1, EntityType::Ship, "a.rhai", None, 0, Some(&controller), |c: HookCall<i64>| {
        assert_eq!(c.debug_session, Some(sid));
        HookOutcome::Ran(Ok(None))
    })
    .unwrap();
    m.attach(true, 2, EntityType::Ship, "b.rhai", None, 0, Some(&controller), |c: HookCall<i64>| {
        assert_eq!(c.debug_session, None);
        HookOutcome::Ran(Ok(None))
    })
    .unwrap();
}

#[test]
fn behaviors_carry_their_sector_and_tree() {
    let b: EntityBehavior<i64, u8> = EntityBehavior::new(3, EntityType::Station, "s.rhai", 0).with_sector(8).with_behavior_tree(1);
    assert!(!b.is_active());
    assert!(b.has_behavior_tree());
    assert_eq!(b.sector_id, Some(8));
}

#[test]
fn notify_event_hands_the_event_to_listening_behaviors() {
    let mut m: BehaviorManager<i64, ()> = BehaviorManager::new();
    m.set_state_accessor_configured(true);
    let here = m.attach(true, 1, EntityType::Ship, "a.rhai", Some(4), 0, None, ran).unwrap();
    let _elsewhere = m.attach(true, 2, EntityType::Ship, "b.rhai", Some(5), 0, None, ran).unwrap();
    let anywhere = m.attach(true, 3, EntityType::Ship, "c.rhai", None, 0, None, ran).unwrap();
    let results = m.notify_event(4, &42, |c: HookCall<i64>| {
        assert_eq!(c.hook_name, "on_event");
        assert_eq!(c.event_data, Some(42));
        HookOutcome::Ran(Ok(Some(c.event_data.unwrap() + c.local_data)))
    });
    assert_eq!(results.len(), 2);
    assert_eq!(results[0].behavior_id, here);
    assert_eq!(results[1].behavior_id, anywhere);
    assert_eq!(m.get(here).unwrap().local_data, 42);
    let _ = m.update_all(1, None, |c: HookCall<i64>| {
        assert_eq!(c.event_data, None);
        HookOutcome::Ran(Ok(None))
    });
}
