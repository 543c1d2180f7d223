use std::cell::RefCell;
use bw_scripting::coroutines::{CoroutineExecResult, CoroutineState, YieldRequest, YieldType, YieldSlot, take_yield_request, classify_run};
use bw_scripting::coroutines::scheduler::{CoroutineScheduler, CoroutineRun, RunReport};
use bw_scripting::coroutines::CoroutineTickResult;
use bw_scripting::engine::ScriptError;

fn completes(_run: CoroutineRun<i64>) -> RunReport<i64> {
    RunReport { result: CoroutineExecResult::Completed(1), script_loaded: true }
}

#[test]
fn test_yield_type_ticks() {
    let req = YieldRequest::<i64>::ticks(10);
    assert!(matches!(req.yield_type, YieldType::Ticks(10)));
}

#[test]
fn spawn_needs_a_loaded_script() {
    let mut s: CoroutineScheduler<i64> = CoroutineScheduler::new();
    assert_eq!(s.spawn(false, "missing.rhai", "main", 0), Err(ScriptError::NotFound("missing.rhai".to_string())));
    assert_eq!(s.active_count(), 0);
}

#[test]
fn spawned_coroutine_runs_and_completes() {
    let mut s: CoroutineScheduler<i64> = CoroutineScheduler::new();
    let id = s.spawn(true, "a.rhai", "main", 0).unwrap();
    assert_eq!(s.active_count(), 1);
    let seen = RefCell::new(Vec::new());
    let r = s.tick(1, |run: CoroutineRun<i64>| {
        seen.borrow_mut().push((run.id, run.script_path.clone(), run.function_name.clone(), run.context.tick));
        RunReport { result: CoroutineExecResult::Completed(7), script_loaded: true }
    });
    assert_eq!(r.completed, vec![id]);
    assert!(r.failed.is_empty());
    assert_eq!(r.pending_count, 0);
    assert_eq!(seen.borrow().clone(), vec![(id, "a.rhai".to_string(), "main".to_string(), 1)]);
}

#[test]
fn failure_is_reported_with_its_message() {
    let mut s: CoroutineScheduler<i64> = CoroutineScheduler::new();
    let id = s.spawn(true, "a.rhai", "main", 0).unwrap();
    let r = s.tick(1, |_run: CoroutineRun<i64>| RunReport { result: CoroutineExecResult::Failed("boom".to_string()), script_loaded: true });
    assert_eq!(r.failed, vec![(id, "boom".to_string())]);
    assert_eq!(s.active_count(), 0);
}

#[test]
fn waiting_for_ticks_resumes_on_time() {
    let mut s: CoroutineScheduler<i64> = CoroutineScheduler::new();
    let id = s.spawn(true, "a.rhai", "main", 0).unwrap();
    let r = s.tick(10, |_run: CoroutineRun<i64>| RunReport { result: CoroutineExecResult::Yielded(YieldRequest::ticks(5)), script_loaded: true });
    assert!(r.completed.is_empty());
    assert_eq!(r.pending_count, 1);
    let c = &s.list_all()[0];
    assert_eq!(c.state, CoroutineState::WaitingForTicks);
    assert_eq!(c.resume_at, Some(15));

    // tick 14: not yet
    let r = s.tick(14, completes);
    assert!(r.completed.is_empty());
    // tick 15: runs and completes
    let r = s.tick(15, completes);
    assert_eq!(r.completed, vec![id]);
}

#[test]
fn waiting_for_an_event_resumes_with_its_data() {
    let mut s: CoroutineScheduler<i64> = CoroutineScheduler::new();
    let id = s.spawn(true, "a.rhai", "main", 0).unwrap();
    s.tick(1, |_run: CoroutineRun<i64>| RunReport { result: CoroutineExecResult::Yielded(YieldRequest::event("combat")), script_loaded: true });
    assert_eq!(s.list_all()[0].state, CoroutineState::WaitingForEvent("combat".to_string()));

    // another event wakes nothing
    s.notify_event("trade", 1);
    let r = s.tick(2, completes);
    assert!(r.completed.is_empty());

    s.notify_event("combat", 99);
    let resumed = RefCell::new(None);
    let r = s.tick(3, |run: CoroutineRun<i64>| {
        *resumed.borrow_mut() = run.resume_value;
        RunReport { result: CoroutineExecResult::Completed(0), script_loaded: true }
    });
    assert_eq!(r.completed, vec![id]);
    assert_eq!(*resumed.borrow(), Some(99));
}

#[test]
fn next_frame_waiters_run_next_tick() {
    let mut s: CoroutineScheduler<i64> = CoroutineScheduler::new();
    let id = s.spawn(true, "a.rhai", "main", 0).unwrap();
    s.tick(1, |_run: CoroutineRun<i64>| RunReport { result: CoroutineExecResult::Yielded(YieldRequest::next_frame()), script_loaded: true });
    let r = s.tick(2, completes);
    assert_eq!(r.completed, vec![id]);
}

#[test]
fn schedule_spawns_a_waiting_callback() {
    let mut s: CoroutineScheduler<i64> = CoroutineScheduler::new();
    let id = s.spawn_with_context(true, "a.rhai", "main", 0, Some(5), Some(6)).unwrap();
    let req = YieldRequest { yield_type: YieldType::Schedule { delay_ticks: 3, callback: "later".to_string() }, data: bw_scripting::maps::StrMap::new() };
    let cell = RefCell::new(Some(req));
    let r = s.tick(10, |_run: CoroutineRun<i64>| {
        let result = match cell.borrow_mut().take() {
            Some(req) => CoroutineExecResult::Yielded(req),
            None => CoroutineExecResult::Completed(0),
        };
        RunReport { result, script_loaded: true }
    });
    assert_eq!(r.completed, vec![id]);
    assert_eq!(s.active_count(), 1);
    let all = s.list_all();
    let cb = &all[0];
    assert!(cb.id != id);
    assert_eq!(cb.function_name, "later");
    assert_eq!(cb.resume_at, Some(13));
    assert_eq!(cb.owner_entity_id, Some(5));
    assert_eq!(cb.sector_id, Some(6));
    assert_eq!(s.count_for_entity(5), 1);
}

#[test]
fn cancel_and_cancel_for_entity() {
    let mut s: CoroutineScheduler<i64> = CoroutineScheduler::new();
    let a = s.spawn_with_context(true, "a.rhai", "main", 0, Some(1), None).unwrap();
    let _b = s.spawn_with_context(true, "a.rhai", "main", 0, Some(1), None).unwrap();
    let c = s.spawn_scheduled(true, "a.rhai", "main", 0, 10, Some(2), None).unwrap();
    assert!(s.cancel(a));
    assert!(!s.cancel(a));
    s.cancel_for_entity(1);
    assert_eq!(s.active_count(), 1);
    assert_eq!(s.list_all()[0].id, c);
    // cancelled coroutines leave the ready queue: the next tick reports none of them
    let r = s.tick(1, completes);
    assert!(r.failed.is_empty());
    assert!(r.completed.is_empty());
    assert_eq!(r.pending_count, 1);
}

#[test]
fn at_most_max_per_tick_run() {
    let mut s: CoroutineScheduler<i64> = CoroutineScheduler::new();
    for _ in 0..105 {
        s.spawn(true, "a.rhai", "main", 0).unwrap();
    }
    let r: CoroutineTickResult = s.tick(1, completes);
    assert_eq!(r.completed.len(), 100);
    assert_eq!(r.pending_count, 5);
    let r = s.tick(2, completes);
    assert_eq!(r.completed.len(), 5);
}

#[test]
fn npc_coroutines_run_with_npc_permissions() {
    let mut s: CoroutineScheduler<i64> = CoroutineScheduler::new();
    s.spawn_with_context(true, "a.rhai", "main", 0, Some(8), Some(9)).unwrap();
    s.spawn(true, "b.rhai", "main", 0).unwrap();
    let perms = RefCell::new(Vec::new());
    s.tick(1, |run: CoroutineRun<i64>| {
        perms.borrow_mut().push((run.permissions.owner_entity_id, run.permissions.can_spawn_entities));
        RunReport { result: CoroutineExecResult::Completed(0), script_loaded: true }
    });
    assert_eq!(perms.borrow().clone(), vec![(Some(8), false), (None, true)]);
}

#[test]
fn yield_slot_and_classification() {
    let mut slot: YieldSlot<i64> = YieldSlot::new();
    assert!(take_yield_request(&mut slot).is_none());
    slot.request(YieldRequest::ticks(2));
    let y = take_yield_request(&mut slot);
    assert!(y.is_some());
    assert!(take_yield_request(&mut slot).is_none());
    assert!(matches!(classify_run(y, Ok(3)), CoroutineExecResult::Yielded(_)));
    assert!(matches!(classify_run::<i64>(None, Ok(3)), CoroutineExecResult::Completed(3)));
    assert!(matches!(classify_run::<i64>(None, Err("e".to_string())), CoroutineExecResult::Failed(_)));
}

#[test]
fn cancelled_coroutine_is_not_reported_on_the_next_tick() {
    let mut s: CoroutineScheduler<i64> = CoroutineScheduler::new();
    let id = s.spawn(true, "a.rhai", "main", 0).unwrap();
    assert!(s.cancel(id));
    let r = s.tick(1, completes);
    assert!(r.completed.is_empty());
    assert!(r.failed.is_empty());
    assert_eq!(r.pending_count, s.active_count());
}
