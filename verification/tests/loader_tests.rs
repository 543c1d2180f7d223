use bw_scripting::loader::{validate_script_path, join_path, path_under};

fn no_disk(_p: &str) -> Option<String> {
    None
}

fn identity(p: &str) -> Option<String> {
    Some(p.to_string())
}

#[test]
fn test_path_traversal_prevention() {
    assert!(!validate_script_path("/scripts", "../etc/passwd", no_disk));
    assert!(!validate_script_path("/scripts", "missions/../../../etc/passwd", no_disk));
}

#[test]
fn safe_paths_under_the_base_pass() {
    assert!(validate_script_path("/scripts", "missions/pirate.rhai", identity));
    // an absolute path elsewhere is not under the base
    assert!(!validate_script_path("/scripts", "/etc/passwd", identity));
    // nothing can be resolved: not safe
    assert!(!validate_script_path("/scripts", "ai/patrol.rhai", no_disk));
}

#[test]
fn joining_and_containment() {
    assert_eq!(join_path("/scripts", "a.rhai"), "/scripts/a.rhai");
    assert_eq!(join_path("/scripts/", "a.rhai"), "/scripts/a.rhai");
    assert_eq!(join_path("/scripts", "/abs.rhai"), "/abs.rhai");
    assert_eq!(join_path("", "a.rhai"), "a.rhai");
    assert!(path_under("/scripts/a.rhai", "/scripts"));
    assert!(path_under("/scripts", "/scripts"));
    assert!(!path_under("/scripts2/a.rhai", "/scripts"));
}
