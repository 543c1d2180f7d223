use bw_scripting::context::{
    current_owner_entity, current_script_path, current_sector, current_tick, is_executing, with_context,
    ExecutionError, ExecutionGuard, ExecutionSlot, ScriptExecutionContext,
};
use bw_scripting::bindings::{get_context, subscribe_event, ScriptContext};
use bw_scripting::events::{EventRegistry, GameEventType};
use bw_scripting::errors::{get_current_script, get_current_tick, ErrorLog};

fn entity() -> u128 {
    uuid::Uuid::new_v4().as_u128()
}

#[test]
fn test_execution_guard_basic() {
    let mut slot = ExecutionSlot::new();
    let mut log = ErrorLog::new();
    let context = ScriptExecutionContext::new()
        .with_script_path("test.rhai")
        .with_tick(42);

    assert!(!is_executing(&slot));

    {
        let guard = ExecutionGuard::enter(&mut slot, &mut log, context).unwrap();
        assert!(is_executing(&slot));
        assert_eq!(current_script_path(&slot), Some("test.rhai".to_string()));
        assert_eq!(current_tick(&slot), 42);
        guard.exit(&mut slot, &mut log);
    }

    assert!(!is_executing(&slot));
}

#[test]
fn test_reentrant_execution_prevented() {
    let mut slot = ExecutionSlot::new();
    let mut log = ErrorLog::new();
    let context1 = ScriptExecutionContext::new();
    let context2 = ScriptExecutionContext::new();

    let _guard = ExecutionGuard::enter(&mut slot, &mut log, context1).unwrap();

    let result = ExecutionGuard::enter(&mut slot, &mut log, context2);
    assert!(matches!(result, Err(ExecutionError::ReentrantExecution)));
}

#[test]
fn test_with_context() {
    let mut slot = ExecutionSlot::new();
    let mut log = ErrorLog::new();
    let entity_id = entity();
    let context = ScriptExecutionContext::new().with_owner_entity(entity_id);

    let _guard = ExecutionGuard::enter(&mut slot, &mut log, context).unwrap();

    let result = with_context(&slot, |ctx| ctx.owner_entity_id);
    assert_eq!(result, Some(Some(entity_id)));
}

#[test]
fn test_script_context_via_execution_guard() {
    let mut slot = ExecutionSlot::new();
    let mut log = ErrorLog::new();
    let entity_id = entity();

    let ctx = ScriptExecutionContext::new()
        .with_script_path("test.rhai")
        .with_owner_entity(entity_id);

    let _guard = ExecutionGuard::enter(&mut slot, &mut log, ctx).expect("Failed to enter execution context");

    let retrieved = get_context(&slot);
    assert_eq!(retrieved.script_path, "test.rhai");
    assert_eq!(retrieved.owner_entity_id, Some(entity_id));
}

#[test]
fn test_context_cleared_after_guard_drop() {
    let mut slot = ExecutionSlot::new();
    let mut log = ErrorLog::new();

    {
        let ctx = ScriptExecutionContext::new().with_script_path("test.rhai");
        let guard = ExecutionGuard::enter(&mut slot, &mut log, ctx).expect("Failed to enter execution context");
        assert_eq!(get_context(&slot).script_path, "test.rhai");
        guard.exit(&mut slot, &mut log);
    }

    let cleared = get_context(&slot);
    assert!(cleared.script_path.is_empty());
}

#[test]
fn entering_sets_the_error_log_script_and_leaving_clears_it() {
    let mut slot = ExecutionSlot::new();
    let mut log = ErrorLog::new();
    let ctx = ScriptExecutionContext::new().with_script_path("npc.rhai").with_tick(7).with_sector(5);
    let guard = ExecutionGuard::enter(&mut slot, &mut log, ctx).unwrap();
    assert_eq!(get_current_script(&log), "npc.rhai");
    assert_eq!(get_current_tick(&log), 7);
    assert_eq!(current_sector(&slot), Some(5));
    assert_eq!(current_owner_entity(&slot), None);
    let back = guard.exit(&mut slot, &mut log).unwrap();
    assert_eq!(back.script_path, "npc.rhai");
    assert_eq!(get_current_script(&log), "");
    assert_eq!(current_tick(&slot), 0);
    assert!(with_context(&slot, |c| c.tick).is_none());
}

#[test]
fn subscription_ids_come_back_as_hyphenated_lowercase_text() {
    let mut registry = EventRegistry::new();
    let ctx = ScriptContext::empty();
    let text = subscribe_event(&mut registry, &ctx, "combat_started", "on_combat");
    let subs = registry.get_handlers(GameEventType::CombatStarted);
    assert_eq!(subs.len(), 1);
    assert_eq!(text, uuid::Uuid::from_u128(subs[0].id).to_string());
    assert_eq!(text.len(), 36);
    assert_ne!(text, subs[0].id.to_string());
}
