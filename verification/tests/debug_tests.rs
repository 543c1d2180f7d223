use bw_scripting::debug::types::{Breakpoint, DebugCommand, DebugTarget, PauseReason, StepMode};
use bw_scripting::debug::controller::DebugController;
use bw_scripting::debug::stepping::{
    decide_on_event, dynamic_to_variable, engine_breakpoints, expand_array, expand_map, on_command, show_value,
    CommandOutcome, DebugEvent, EventDecision, ResumeCommand, StepState, ValueShape,
};

fn owner() -> u128 {
    uuid::Uuid::new_v4().as_u128()
}

#[test]
fn test_session_lifecycle() {
    let mut controller = DebugController::new();
    let owner_id = owner();

    let session_id = controller.start_session(owner_id, DebugTarget::Live);
    assert_eq!(controller.session_count(), 1);

    let session = controller.get_session(session_id).unwrap();
    assert_eq!(session.owner_id, owner_id);

    controller.end_session(session_id);
    assert_eq!(controller.session_count(), 0);
}

#[test]
fn test_breakpoint_management() {
    let mut controller = DebugController::new();
    let owner_id = owner();
    let session_id = controller.start_session(owner_id, DebugTarget::Live);

    let bp = Breakpoint::at_line("test.rhai", 10);
    let bp_id = bp.id;
    controller.set_breakpoint(session_id, bp);

    let bps = controller.get_breakpoints(session_id);
    assert_eq!(bps.len(), 1);
    assert_eq!(bps[0].line, 10);

    controller.set_breakpoint_enabled(session_id, bp_id, false);
    let bps = controller.get_breakpoints(session_id);
    assert!(!bps[0].enabled);

    assert!(controller.remove_breakpoint(session_id, bp_id));
    assert!(controller.get_breakpoints(session_id).is_empty());
}

#[test]
fn test_dynamic_to_variable() {
    let var = dynamic_to_variable("x", "i64", &ValueShape::Int(42), "x");
    assert_eq!(var.name, "x");
    assert_eq!(var.value, "42");
    assert!(!var.expandable);

    let var = dynamic_to_variable("s", "string", &ValueShape::Str("hello".to_string()), "s");
    assert_eq!(var.value, "\"hello\"");

    let var = dynamic_to_variable("arr", "array", &ValueShape::Array(2), "arr");
    assert_eq!(var.value, "Array[2]");
    assert!(var.expandable);

    let var = dynamic_to_variable("map", "map", &ValueShape::MapEntries(1), "map");
    assert_eq!(var.value, "Map{1 entries}");
    assert!(var.expandable);
}

#[test]
fn test_expand_array() {
    let elements = vec![
        ("i64".to_string(), ValueShape::Int(1)),
        ("i64".to_string(), ValueShape::Int(2)),
    ];
    let children = expand_array(&elements, "arr");

    assert_eq!(children.len(), 2);
    assert_eq!(children[0].name, "[0]");
    assert_eq!(children[0].path, "arr[0]");
    assert_eq!(children[1].name, "[1]");
    assert_eq!(children[1].path, "arr[1]");
}

#[test]
fn test_expand_map() {
    let entries = vec![
        ("foo".to_string(), "i64".to_string(), ValueShape::Int(42)),
        ("bar".to_string(), "string".to_string(), ValueShape::Str("hello".to_string())),
    ];
    let children = expand_map(&entries, "data");
    assert_eq!(children.len(), 2);
    assert!(children.iter().any(|c| c.path == "data.foo"));
    assert!(children.iter().any(|c| c.path == "data.bar"));
}

#[test]
fn values_are_shown_by_shape() {
    assert_eq!(show_value(&ValueShape::Unit), "()");
    assert_eq!(show_value(&ValueShape::Bool(false)), "false");
    assert_eq!(show_value(&ValueShape::Int(-7)), "-7");
    assert_eq!(show_value(&ValueShape::Int(i64::MIN)), "-9223372036854775808");
    assert_eq!(show_value(&ValueShape::Float("2.500000".to_string())), "2.500000");
    assert_eq!(show_value(&ValueShape::Other("Fn(x)".to_string())), "Fn(x)");
}

#[test]
fn step_into_pauses_at_the_next_step() {
    let mut state = StepState { step_mode: None, step_depth: 0 };
    assert!(matches!(decide_on_event(&mut state, 3, DebugEvent::Step, &vec![]), EventDecision::Continue));
    let outcome = on_command(&mut state, Some(DebugCommand::StepInto), 2);
    assert_eq!(outcome, CommandOutcome::Resume(ResumeCommand::StepInto));
    assert!(matches!(decide_on_event(&mut state, 5, DebugEvent::Step, &vec![]), EventDecision::Pause(PauseReason::Step)));
    assert_eq!(state.step_mode, None);
}

#[test]
fn step_over_and_step_out_wait_for_their_depth() {
    let mut state = StepState { step_mode: None, step_depth: 0 };
    assert_eq!(on_command(&mut state, Some(DebugCommand::StepOver), 2), CommandOutcome::Resume(ResumeCommand::StepOver));
    assert_eq!(state.step_mode, Some(StepMode::StepOver));
    assert!(matches!(decide_on_event(&mut state, 3, DebugEvent::Step, &vec![]), EventDecision::Continue));
    assert!(matches!(decide_on_event(&mut state, 2, DebugEvent::Step, &vec![]), EventDecision::Pause(PauseReason::Step)));

    assert_eq!(on_command(&mut state, Some(DebugCommand::StepOut), 2), CommandOutcome::Resume(ResumeCommand::Continue));
    assert!(matches!(decide_on_event(&mut state, 2, DebugEvent::FunctionExitWithValue, &vec![]), EventDecision::Continue));
    assert!(matches!(decide_on_event(&mut state, 1, DebugEvent::FunctionExitWithValue, &vec![]), EventDecision::Pause(PauseReason::Step)));
}

#[test]
fn commands_that_keep_waiting_or_terminate() {
    let mut state = StepState { step_mode: None, step_depth: 0 };
    assert_eq!(on_command(&mut state, Some(DebugCommand::Pause), 1), CommandOutcome::Wait);
    assert_eq!(on_command(&mut state, None, 1), CommandOutcome::Terminated);
    assert_eq!(on_command(&mut state, Some(DebugCommand::Continue), 1), CommandOutcome::Resume(ResumeCommand::Continue));
}

#[test]
fn breakpoints_and_errors_pause() {
    let bp = Breakpoint::at_line("a.rhai", 4);
    let id = bp.id;
    let bps = vec![bp];
    let mut state = StepState { step_mode: None, step_depth: 0 };
    match decide_on_event(&mut state, 1, DebugEvent::BreakPoint(0), &bps) {
        EventDecision::Pause(PauseReason::Breakpoint { breakpoint_id }) => assert_eq!(breakpoint_id, id),
        _ => panic!("expected a breakpoint pause"),
    }
    match decide_on_event(&mut state, 1, DebugEvent::FunctionExitWithError("boom".to_string()), &bps) {
        EventDecision::Pause(PauseReason::Exception { message }) => assert_eq!(message, "boom"),
        _ => panic!("expected an exception pause"),
    }
}

#[test]
fn engine_gets_enabled_breakpoints_of_the_script() {
    let a = Breakpoint::at_line("a.rhai", 4);
    let b = Breakpoint::at_line("b.rhai", 9);
    let c = Breakpoint::at_line("a.rhai", 12).with_enabled(false);
    let ebs = engine_breakpoints(&vec![a, b, c], "a.rhai");
    assert_eq!(ebs.len(), 1);
    assert_eq!(ebs[0].line, 4);
    assert_eq!(ebs[0].column, 1);
}

#[test]
fn sessions_by_owner_target_and_script() {
    let mut controller = DebugController::new();
    let owner_id = owner();
    let playtest = owner();
    let sid = controller.start_session(owner_id, DebugTarget::Playtest(playtest));
    assert!(controller.has_session_for_target(&DebugTarget::Playtest(playtest)));
    assert!(!controller.has_session_for_target(&DebugTarget::Live));
    assert_eq!(controller.get_session_by_owner(owner_id).unwrap().id, sid);
    assert!(controller.get_session(owner()).is_none());
    controller.set_breakpoint(sid, Breakpoint::at_line("missions/x.rhai", 3));
    assert_eq!(controller.sessions_for_script("missions/x.rhai"), vec![sid]);
    assert!(controller.sessions_for_script("missions/y.rhai").is_empty());
    assert_eq!(controller.sessions_for_script_with_target("missions/x.rhai", &DebugTarget::Playtest(playtest)), vec![sid]);
    assert!(controller.sessions_for_script_with_target("missions/x.rhai", &DebugTarget::Live).is_empty());
    assert!(controller.has_breakpoints_for_script(sid, "missions/x.rhai"));
    assert!(!controller.is_paused(sid));
    assert!(controller.set_breakpoint(owner(), Breakpoint::at_line("z.rhai", 1)).is_none());
}
