use bw_scripting::validation::{
    FunctionSpec, ValidationResult, ScriptFunctionInfo, infer_contract, validate_functions, validate_script,
};
use bw_scripting::validation::contracts;

#[test]
fn test_function_spec() {
    let spec = FunctionSpec::with_params("on_start", 1, "Test function");
    assert_eq!(spec.name, "on_start");
    assert_eq!(spec.param_count, Some(1));
}

#[test]
fn test_validation_result() {
    let mut result = ValidationResult::new("test.rhai");
    assert!(result.is_valid());

    result.missing_required.push(FunctionSpec::with_params("on_start", 1, "Test"));
    assert!(!result.is_valid());
    assert!(result.error_message().is_some());
}

#[test]
fn test_infer_contract() {
    let mission_contract = infer_contract("missions/random/pirate.rhai");
    assert!(!mission_contract.required.is_empty());

    let behavior_contract = infer_contract("ai/npc_behaviors.rhai");
    assert!(behavior_contract.required.is_empty()); // Behaviors have no strict requirements
}

#[test]
fn error_message_text() {
    let mut result = ValidationResult::new("m.rhai");
    result.missing_required.push(FunctionSpec::with_params("on_start", 1, "Start"));
    result.wrong_params.push((FunctionSpec::with_params("on_choice", 2, "Choice"), 3));
    assert_eq!(
        result.error_message().unwrap(),
        "Script 'm.rhai' validation failed:\n  - Missing required function: on_start (Start)\n  - Function 'on_choice' has 3 parameters, expected 2 (Choice)"
    );
}

#[test]
fn validate_functions_against_mission_contract() {
    let fns = vec![
        ScriptFunctionInfo { name: "on_start".to_string(), param_count: 1 },
        ScriptFunctionInfo { name: "on_choice".to_string(), param_count: 1 },
        ScriptFunctionInfo { name: "on_tick".to_string(), param_count: 3 },
    ];
    let result = validate_functions(&fns, &contracts::mission(), "missions/x.rhai");
    assert!(result.missing_required.is_empty());
    assert_eq!(result.wrong_params.len(), 1);
    assert_eq!(result.wrong_params[0].0.name, "on_choice");
    assert_eq!(result.wrong_params[0].1, 1);
    assert_eq!(result.warnings, vec![
        "Optional function 'on_tick' has 3 parameters, expected 2 (Called each tick for timed missions, receives context and elapsed_seconds)".to_string()
    ]);
    let empty: Vec<ScriptFunctionInfo> = vec![];
    let missing = validate_functions(&empty, &contracts::mission(), "m");
    assert_eq!(missing.missing_required.len(), 2);
}

#[test]
fn validate_compiled_script() {
    let engine = rhai::Engine::new();
    let ast = engine.compile("fn on_start(ctx) { 1 } fn on_choice(ctx, id) { 2 }").unwrap();
    let result = validate_script(&engine, &ast, &contracts::mission(), "missions/ok.rhai");
    assert!(result.is_valid());
    let bad = engine.compile("fn on_start() { 1 }").unwrap();
    let result = validate_script(&engine, &bad, &contracts::mission(), "missions/bad.rhai");
    assert!(!result.is_valid());
    assert_eq!(result.missing_required.len(), 1);
    assert_eq!(result.wrong_params.len(), 1);
}

#[test]
fn contract_kinds() {
    assert_eq!(infer_contract("combat/ai.rhai").optional.len(), 5);
    assert_eq!(infer_contract("behaviors/patrol.rhai").optional.len(), 4);
    assert!(infer_contract("misc/x.rhai").optional.is_empty());
    assert_eq!(contracts::minimal().required.len(), 0);
    assert_eq!(contracts::combat_ai().required.len(), 0);
    assert_eq!(contracts::behavior().optional[0].name, "on_spawn");
    assert_eq!(FunctionSpec::any_params("f", "d").param_count, None);
    assert_eq!(FunctionSpec::new("f", Some(2), "d").description, "d");
}
