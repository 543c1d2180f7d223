use bw_scripting::handlers::{
    parse_handler_result, Handler, HandlerContext, HandlerDispatcher, HandlerRegistry, HandlerResult, HandlerReturn,
    HandlerRun, HandlerType,
};

struct TestHandler {
    factor: i64,
}

struct TestContext {
    value: i64,
}

impl HandlerContext for TestContext {
    fn sector_id(&self) -> Option<u128> {
        Some(11)
    }
}

#[test]
fn test_registry_register_unregister() {
    let mut registry = HandlerRegistry::<TestHandler>::new();

    let handler = Handler::builtin("test", TestHandler { factor: 2 });
    registry.register(handler);

    assert!(registry.is_registered("test"));
    assert_eq!(registry.count(), 1);

    registry.unregister("test");
    assert!(!registry.is_registered("test"));
    assert_eq!(registry.count(), 0);
}

#[test]
fn test_handler_result_parsing() {
    let r: HandlerResult<(), ()> = parse_handler_result(HandlerReturn::Unit);
    assert!(r.success);

    let r: HandlerResult<(), ()> = parse_handler_result(HandlerReturn::Bool(true));
    assert!(r.success);

    let r: HandlerResult<(), ()> = parse_handler_result(HandlerReturn::Bool(false));
    assert!(!r.success);

    let r: HandlerResult<(), ()> = parse_handler_result(HandlerReturn::Table { success: Some(true), error: None, data: None });
    assert!(r.success);

    let result: HandlerResult<(), ()> = parse_handler_result(HandlerReturn::Table {
        success: Some(false),
        error: Some("test error".to_string()),
        data: None,
    });
    assert!(!result.success);
    assert_eq!(result.error, Some("test error".to_string()));
}

#[test]
fn other_values_become_data_and_false_gives_its_message() {
    let r: HandlerResult<i64, ()> = parse_handler_result(HandlerReturn::Other(5));
    assert!(r.success);
    assert_eq!(r.data, Some(5));
    let r: HandlerResult<i64, ()> = parse_handler_result(HandlerReturn::Bool(false));
    assert_eq!(r.error, Some("Handler returned false".to_string()));
}

#[test]
fn script_handlers_are_listed_by_script() {
    let mut registry = HandlerRegistry::<TestHandler>::new();
    registry.register(Handler::script("shield_pierce", "effects/pierce.rhai", "apply"));
    registry.register(Handler::script("dot", "effects/dot.rhai", "tick"));
    registry.register(Handler::builtin("double", TestHandler { factor: 2 }));
    assert_eq!(registry.count(), 3);
    assert_eq!(registry.list_names(), vec!["shield_pierce".to_string(), "dot".to_string(), "double".to_string()]);
    registry.unregister_for_script("effects/pierce.rhai");
    assert!(!registry.is_registered("shield_pierce"));
    assert!(registry.is_registered("dot"));
    match &registry.get("dot").unwrap().handler_type {
        HandlerType::Script { script_path, function_name } => {
            assert_eq!(script_path, "effects/dot.rhai");
            assert_eq!(function_name, "tick");
        },
        HandlerType::Builtin(_) => panic!("expected a script handler"),
    }
}

#[test]
fn dispatch_runs_builtin_and_script_handlers() {
    let mut registry = HandlerRegistry::<TestHandler>::new();
    registry.register(Handler::builtin("double", TestHandler { factor: 2 }));
    registry.register(Handler::script("dot", "effects/dot.rhai", "tick"));
    registry.register(Handler::script("off", "effects/off.rhai", "tick"));
    registry.set_enabled("off", false);
    let dispatcher = HandlerDispatcher::new(registry);
    let ctx = TestContext { value: 21 };

    let r: HandlerResult<i64, ()> = dispatcher.dispatch("double", &ctx, |h, call| {
        assert!(call.is_none());
        match &h.handler_type {
            HandlerType::Builtin(b) => HandlerRun::Builtin(HandlerResult::success_with_data(ctx.value * b.factor)),
            HandlerType::Script { .. } => HandlerRun::ScriptMissing,
        }
    });
    assert!(r.success);
    assert_eq!(r.data, Some(42));

    let r: HandlerResult<i64, u8> = dispatcher.dispatch("dot", &ctx, |_h, call| {
        let call = call.unwrap();
        assert_eq!(call.script_path, "effects/dot.rhai");
        assert_eq!(call.function_name, "tick");
        assert_eq!(call.context.sector_id, Some(11));
        assert_eq!(call.context.owner_entity_id, None);
        HandlerRun::Ran(Ok((HandlerReturn::Bool(true), vec![1u8, 2u8])))
    });
    assert!(r.success);
    assert_eq!(r.mutations, vec![1u8, 2u8]);

    let r: HandlerResult<i64, ()> = dispatcher.dispatch("dot", &ctx, |_h, _c| HandlerRun::ScriptMissing);
    assert_eq!(r.error, Some("Script not found: effects/dot.rhai".to_string()));

    let r: HandlerResult<i64, ()> = dispatcher.dispatch("missing", &ctx, |_h, _c| HandlerRun::ScriptMissing);
    assert_eq!(r.error, Some("Unknown handler: missing".to_string()));

    let r: HandlerResult<i64, ()> = dispatcher.dispatch("off", &ctx, |_h, _c| HandlerRun::ScriptMissing);
    assert_eq!(r.error, Some("Handler 'off' is currently disabled".to_string()));
}
