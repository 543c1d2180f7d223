use bw_scripting::actions::registry::{ActionHandler, ActionRegistry, ActionRequirement};
use bw_scripting::actions::dispatcher::{
    parse_action_result, validate_requirements, ActionContext, ActionDispatcher, ActionResult, ActionRun, ReturnValue,
};
use bw_scripting::bindings::{parse_requirement, RequirementValue};
use bw_scripting::ships::locked_target_from_text;

#[test]
fn test_register_unregister() {
    let mut registry = ActionRegistry::new();

    let handler = ActionHandler::new("dock", "station.rhai", "handle_dock");
    registry.register(handler);

    assert!(registry.is_registered("dock"));
    assert_eq!(registry.count(), 1);

    let h = registry.get("dock").unwrap();
    assert_eq!(h.action, "dock");
    assert_eq!(h.script_path, "station.rhai");
    assert_eq!(h.handler_function, "handle_dock");

    registry.unregister("dock");
    assert!(!registry.is_registered("dock"));
    assert_eq!(registry.count(), 0);
}

#[test]
fn test_unregister_for_script() {
    let mut registry = ActionRegistry::new();

    registry.register(ActionHandler::new("dock", "station.rhai", "handle_dock"));
    registry.register(ActionHandler::new("undock", "station.rhai", "handle_undock"));
    registry.register(ActionHandler::new("attack", "combat.rhai", "handle_attack"));

    assert_eq!(registry.count(), 3);

    registry.unregister_for_script("station.rhai");

    assert_eq!(registry.count(), 1);
    assert!(!registry.is_registered("dock"));
    assert!(!registry.is_registered("undock"));
    assert!(registry.is_registered("attack"));
}

#[test]
fn test_requirements() {
    let handler = ActionHandler::new("dock", "station.rhai", "handle_dock")
        .with_requirements(vec![
            ActionRequirement::Authenticated,
            ActionRequirement::ShipStatus(vec!["idle".into()]),
        ]);

    assert_eq!(handler.requirements.len(), 2);
}

#[test]
fn test_action_result_error() {
    let result = ActionResult::<(), ()>::error("test error");
    assert!(!result.success);
    assert_eq!(result.error, Some("test error".to_string()));
}

#[test]
fn test_parse_action_result_unit() {
    let result: ActionResult<(), ()> = parse_action_result(ReturnValue::Unit);
    assert!(result.success);
}

#[test]
fn test_parse_action_result_bool() {
    let result: ActionResult<(), ()> = parse_action_result(ReturnValue::Bool(true));
    assert!(result.success);

    let result: ActionResult<(), ()> = parse_action_result(ReturnValue::Bool(false));
    assert!(!result.success);
}

#[test]
fn test_parse_action_result_map() {
    let value: ReturnValue<()> = ReturnValue::Table { success: Some(true), error: None, data: None };
    let result: ActionResult<(), ()> = parse_action_result(value);
    assert!(result.success);
}

#[test]
fn test_parse_requirement_string() {
    assert_eq!(
        parse_requirement(RequirementValue::Text("authenticated".to_string())),
        Some(ActionRequirement::Authenticated)
    );
    assert_eq!(
        parse_requirement(RequirementValue::Text("must_be_docked".to_string())),
        Some(ActionRequirement::MustBeDocked)
    );
    assert_eq!(
        parse_requirement(RequirementValue::Text("not_in_combat".to_string())),
        Some(ActionRequirement::NotInCombat)
    );
}

#[test]
fn test_parse_requirement_custom() {
    assert_eq!(
        parse_requirement(RequirementValue::Text("my_custom_validator".to_string())),
        Some(ActionRequirement::Custom("my_custom_validator".to_string()))
    );
}

#[test]
fn test_parse_requirement_map() {
    let statuses = vec!["idle".to_string(), "docked".to_string()];
    let req = parse_requirement(RequirementValue::Table(Some(statuses)));
    assert!(matches!(req, Some(ActionRequirement::ShipStatus(_))));

    if let Some(ActionRequirement::ShipStatus(list)) = req {
        assert_eq!(list, vec!["idle".to_string(), "docked".to_string()]);
    }
}

#[test]
fn test_uuid_parsing() {
    let valid = "550e8400-e29b-41d4-a716-446655440000";
    let invalid = "not-a-uuid";

    assert!(uuid::Uuid::parse_str(valid).is_ok());
    assert!(uuid::Uuid::parse_str(invalid).is_err());
}

#[test]
fn parsed_ids_keep_their_value() {
    assert_eq!(locked_target_from_text("550e8400-e29b-41d4-a716-446655440000"), Some(Some(0x550e8400e29b41d4a716446655440000u128)));
    assert_eq!(locked_target_from_text("not-a-uuid"), None);
    assert_eq!(locked_target_from_text(""), Some(None));
}

#[test]
fn requirement_names_ignore_case_and_other_values_give_none() {
    assert_eq!(parse_requirement(RequirementValue::Text("Docked".to_string())), Some(ActionRequirement::MustBeDocked));
    assert_eq!(parse_requirement(RequirementValue::Text("UNDOCKED".to_string())), Some(ActionRequirement::MustBeUndocked));
    assert_eq!(parse_requirement(RequirementValue::Text("same_sector".to_string())), Some(ActionRequirement::SameSector));
    assert_eq!(parse_requirement(RequirementValue::Table(Some(vec![]))), None);
    assert_eq!(parse_requirement(RequirementValue::Table(None)), None);
    assert_eq!(parse_requirement(RequirementValue::Other), None);
}

#[test]
fn map_results_give_their_error_and_data() {
    let value = ReturnValue::Table { success: Some(false), error: Some("no fuel".to_string()), data: Some(7u32) };
    let result: ActionResult<u32, ()> = parse_action_result(value);
    assert!(!result.success);
    assert_eq!(result.error, Some("no fuel".to_string()));
    assert_eq!(result.data, Some(7));
    let missing: ActionResult<u32, ()> = parse_action_result(ReturnValue::Table { success: None, error: None, data: None });
    assert!(missing.success);
    let failed: ActionResult<(), ()> = parse_action_result(ReturnValue::Bool(false));
    assert_eq!(failed.error, Some("Action failed".to_string()));
}

#[test]
fn requirement_checks_against_the_ship_status() {
    let reqs = vec![ActionRequirement::Authenticated, ActionRequirement::ShipStatus(vec!["idle".to_string()])];
    assert!(validate_requirements(&reqs, Some("idle")).is_ok());
    assert_eq!(
        validate_requirements(&reqs, Some("docked")),
        Err("Action requires ship status [\"idle\"], but ship is 'docked'".to_string())
    );
    assert!(validate_requirements(&reqs, None).is_ok());
    assert_eq!(
        validate_requirements(&vec![ActionRequirement::MustBeDocked], Some("idle")),
        Err("Must be docked to perform this action".to_string())
    );
    assert_eq!(
        validate_requirements(&vec![ActionRequirement::MustBeUndocked], Some("docked")),
        Err("Cannot perform this action while docked".to_string())
    );
    assert_eq!(
        validate_requirements(&vec![ActionRequirement::NotInCombat], Some("in_combat")),
        Err("Cannot perform this action during combat".to_string())
    );
}

fn context(action: &str) -> ActionContext<()> {
    ActionContext { player_id: 1, ship_id: 2, sector_id: 3, action: action.to_string(), params: () }
}

#[test]
fn dispatch_errors_and_handler_results() {
    let mut registry = ActionRegistry::new();
    registry.register(ActionHandler::new("dock", "station.rhai", "handle_dock"));
    registry.register(ActionHandler::new("scan", "sensors.rhai", "handle_scan"));
    registry.set_enabled("scan", false);
    let dispatcher = ActionDispatcher::new(registry);

    let r: ActionResult<(), u8> = dispatcher.dispatch(&context("warp"), None, |_c| ActionRun::ScriptMissing);
    assert_eq!(r.error, Some("Unknown action: warp".to_string()));

    let r: ActionResult<(), u8> = dispatcher.dispatch(&context("scan"), None, |_c| ActionRun::ScriptMissing);
    assert_eq!(r.error, Some("Action 'scan' is currently disabled".to_string()));

    let r: ActionResult<(), u8> = dispatcher.dispatch(&context("dock"), None, |_c| ActionRun::ScriptMissing);
    assert_eq!(r.error, Some("Script not found: station.rhai".to_string()));

    let r: ActionResult<(), u8> = dispatcher.dispatch(&context("dock"), None, |_c| ActionRun::NotEntered("busy".to_string()));
    assert_eq!(r.error, Some("Execution context error: busy".to_string()));

    let r: ActionResult<(), u8> = dispatcher.dispatch(&context("dock"), None, |c| {
        assert_eq!(c.script_path, "station.rhai");
        assert_eq!(c.handler_function, "handle_dock");
        assert_eq!(c.context.owner_entity_id, Some(2));
        assert_eq!(c.context.sector_id, Some(3));
        ActionRun::Ran(Ok((ReturnValue::Unit, vec![9u8])))
    });
    assert!(r.success);
    assert_eq!(r.mutations, vec![9u8]);
}
