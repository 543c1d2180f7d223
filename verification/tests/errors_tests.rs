use bw_scripting::errors::{
    ErrorLog, ScriptError, ScriptErrorContext, MAX_ERRORS, push_error, take_errors, last_error,
    last_error_message, has_errors, clear_errors, error_count, set_current_script, get_current_script,
    clear_current_script, set_current_tick, get_current_tick,
};

#[test]
fn test_push_and_take_errors() {
    let mut log = ErrorLog::new();
    clear_errors(&mut log);

    push_error(&mut log, ScriptError::new("test_fn", "Something went wrong"));
    push_error(&mut log, ScriptError::new("another_fn", "Another error"));

    assert_eq!(error_count(&log), 2);

    let errors = take_errors(&mut log);
    assert_eq!(errors.len(), 2);
    assert_eq!(errors[0].function, "test_fn");
    assert_eq!(errors[1].function, "another_fn");

    assert_eq!(error_count(&log), 0);
}

#[test]
fn test_last_error() {
    let mut log = ErrorLog::new();
    clear_errors(&mut log);

    assert!(last_error(&log).is_none());

    push_error(&mut log, ScriptError::new("fn1", "error1"));
    push_error(&mut log, ScriptError::new("fn2", "error2"));

    let last = last_error(&log).unwrap();
    assert_eq!(last.function, "fn2");
    assert_eq!(last.message, "error2");

    // Didn't consume the error
    assert_eq!(error_count(&log), 2);
}

#[test]
fn test_error_context() {
    let mut log = ErrorLog::new();
    clear_errors(&mut log);
    set_current_script(&mut log, "outer.rhai");

    {
        let ctx = ScriptErrorContext::new(&mut log, "inner.rhai");
        push_error(&mut log, ScriptError::new("inner_fn", "inner error"));
        ctx.end(&mut log);
    }

    // Script context restored
    push_error(&mut log, ScriptError::new("outer_fn", "outer error"));

    let errors = take_errors(&mut log);
    assert_eq!(errors[0].script, "inner.rhai");
    assert_eq!(errors[1].script, "outer.rhai");
}

#[test]
fn test_max_errors() {
    let mut log = ErrorLog::new();
    clear_errors(&mut log);

    for i in 0..150 {
        push_error(&mut log, ScriptError::new("fn", &format!("error {}", i)));
    }

    assert_eq!(error_count(&log), MAX_ERRORS);

    let errors = take_errors(&mut log);
    // Should have the last MAX_ERRORS errors
    assert_eq!(errors[0].message, "error 50");
    assert_eq!(errors[99].message, "error 149");
}

#[test]
fn push_fills_tick_and_keeps_explicit_values() {
    let mut log = ErrorLog::new();
    set_current_tick(&mut log, 42);
    set_current_script(&mut log, "ctx.rhai");
    push_error(&mut log, ScriptError::new("a", "m"));
    push_error(&mut log, ScriptError::new("b", "m").with_script("own.rhai").with_tick(7).with_position(3, 4));
    let errors = take_errors(&mut log);
    assert_eq!(errors[0].tick, 42);
    assert_eq!(errors[0].script, "ctx.rhai");
    assert_eq!(errors[1].tick, 7);
    assert_eq!(errors[1].script, "own.rhai");
    assert_eq!((errors[1].line, errors[1].column), (3, 4));
    assert_eq!(get_current_tick(&log), 42);
}

#[test]
fn last_error_message_and_flags() {
    let mut log = ErrorLog::new();
    assert_eq!(last_error_message(&log), "");
    assert!(!has_errors(&log));
    push_error(&mut log, ScriptError::new("f", "boom"));
    assert!(has_errors(&log));
    assert_eq!(last_error_message(&log), "boom");
    clear_errors(&mut log);
    assert!(!has_errors(&log));
}

#[test]
fn current_script_set_get_clear() {
    let mut log = ErrorLog::new();
    set_current_script(&mut log, "a.rhai");
    assert_eq!(get_current_script(&log), "a.rhai");
    clear_current_script(&mut log);
    assert_eq!(get_current_script(&log), "");
}
