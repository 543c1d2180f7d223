use bw_scripting::mission_runner::{MissionState, outcome_state, outcome_complete, mission_call_result, tick_result, TickCall, combat_request, fallback_enemy, CombatRequest};
use bw_scripting::engine::ScriptError;

#[test]
fn test_mission_state_parsing() {
    assert_eq!(MissionState::from_string("started"), MissionState::Started);
    assert_eq!(MissionState::from_string("choice"), MissionState::AwaitingChoice);
    assert_eq!(MissionState::from_string("combat"), MissionState::InCombat);
    assert_eq!(MissionState::from_string("success"), MissionState::CompletedSuccess);
    assert_eq!(MissionState::from_string("custom_state"), MissionState::Custom("custom_state".to_string()));
}

#[test]
fn state_names_round_trip() {
    for s in [MissionState::Started, MissionState::AwaitingChoice, MissionState::InCombat, MissionState::InProgress,
              MissionState::CompletedSuccess, MissionState::CompletedFailure, MissionState::Abandoned] {
        assert_eq!(MissionState::from_string(s.as_str()), s);
    }
    assert_eq!(MissionState::from_string("FAILURE"), MissionState::CompletedFailure);
}

#[test]
fn outcome_readings() {
    assert_eq!(outcome_state(None), MissionState::InProgress);
    assert_eq!(outcome_state(Some("Combat")), MissionState::InCombat);
    assert!(outcome_complete(None, &MissionState::CompletedSuccess, None));
    assert!(!outcome_complete(None, &MissionState::InProgress, Some("in_progress")));
    assert!(outcome_complete(None, &MissionState::Custom("complete".to_string()), Some("complete")));
    assert!(!outcome_complete(Some(false), &MissionState::CompletedFailure, None));
}

#[test]
fn mission_call_and_tick_results() {
    assert_eq!(mission_call_result(Some(3)), Ok(3));
    assert_eq!(mission_call_result::<i32>(None), Err(ScriptError::RuntimeError("Invalid mission result".to_string())));
    assert_eq!(tick_result::<i32>(TickCall::ScriptMissing), Ok(None));
    assert_eq!(tick_result::<i32>(TickCall::Unit), Ok(None));
    assert_eq!(tick_result(TickCall::Value(Some(5))), Ok(Some(5)));
    assert_eq!(tick_result::<i32>(TickCall::Failed(ScriptError::NoResult, true)), Ok(None));
    assert_eq!(tick_result::<i32>(TickCall::Failed(ScriptError::NoResult, false)), Err(ScriptError::NoResult));
}

#[test]
fn combat_comes_from_the_map_else_a_default_when_asked() {
    assert_eq!(combat_request(true, Some(false)), CombatRequest::FromMap);
    assert_eq!(combat_request(false, Some(true)), CombatRequest::Fallback);
    assert_eq!(combat_request(false, Some(false)), CombatRequest::NoCombat);
    assert_eq!(combat_request(false, None), CombatRequest::NoCombat);
    assert_eq!(fallback_enemy(), ("unknown".to_string(), 1, true));
}

#[test]
fn parsing_ignores_ascii_case() {
    assert_eq!(MissionState::from_string("COMBAT"), MissionState::InCombat);
    assert_eq!(MissionState::from_string("MyState"), MissionState::Custom("mystate".to_string()));
    assert_eq!(MissionState::from_string("In_Progress"), MissionState::from_string("in_progress"));
}
