use quecto_tools::bash::{allowed_shells, select_shell, ExecOptions, ExecTool};
use std::time::Duration;
use quecto_tools::tool::Sandbox;
use quecto_tools::truncate::{truncate_tail, TruncatedBy};

fn shells() -> Vec<String> {
    allowed_shells()
}

#[test]
fn test_exec_disallowed_shell_falls_back_to_sh() {
    // $SHELL pointing to a non-allowlisted binary should silently fall back to /bin/sh.
    assert!(shells().contains(&"/bin/sh".to_string()));
    assert!(shells().contains(&"/bin/bash".to_string()));
    assert!(!shells().contains(&"/tmp/evil".to_string()));
    let env = vec![("SHELL".to_string(), "/tmp/evil".to_string())];
    assert_eq!(select_shell(&env), "/bin/sh");
    let env = vec![("SHELL".to_string(), "/bin/bash".to_string())];
    assert_eq!(select_shell(&env), "/bin/bash");
}

// --- Truncation notice format ---

#[test]
fn test_exec_truncation_byte_notice_uses_truncate_tail() {
    // Generate content that will be truncated by bytes (multi-line, >50KB)
    let line = "x".repeat(50) + "\n"; // 51 bytes per line
    let content: String = line.repeat(1500); // ~76.5KB
    let tr = truncate_tail(&content, 2000, 50 * 1024);
    assert!(tr.truncated, "should be truncated by bytes");
    assert_eq!(tr.truncated_by, Some(TruncatedBy::Bytes));
}

#[test]
fn test_exec_truncation_line_notice_uses_truncate_tail() {
    // 3000 lines, each <50 bytes → truncated by lines
    let content: String = (1..=3000).map(|i| format!("line{}\n", i)).collect();
    let tr = truncate_tail(&content, 2000, 50 * 1024);
    assert!(tr.truncated, "should be truncated by lines");
    assert_eq!(tr.truncated_by, Some(TruncatedBy::Lines));
    assert!(tr.content.contains("line3000"), "tail should include the last line");
}

#[test]
fn test_exec_empty_object_returns_actionable_error() {
    let tool = ExecTool::new("/tmp".to_string(), Sandbox::new(Some("/tmp".to_string()), false));
    let result = tool.plan_run("{}", None);
    let err = match result {
        Err(e) => e,
        Ok(_) => panic!("expected error"),
    };
    assert!(err.is_error);
    assert!(err.content.contains("command"));
    assert!(err.content.contains("Example"));
}

#[test]
fn test_exec_invalid_json_returns_actionable_error() {
    let tool = ExecTool::new("/tmp".to_string(), Sandbox::new(None, false));
    let err = match tool.plan_run("not json", None) {
        Err(e) => e,
        Ok(_) => panic!("expected error"),
    };
    assert!(err.content.starts_with("invalid JSON arguments: "));
    assert!(err.content.ends_with(". Example: {\"command\": \"ls -la\"}"));
}

#[test]
fn test_exec_plan_applies_prefix_and_caps_timeout() {
    let opts = ExecOptions {
        timeout: Duration::from_secs(10),
        command_prefix: Some("shopt -s expand_aliases".to_string()),
        ..ExecOptions::default()
    };
    let tool = ExecTool::with_options("/tmp".to_string(), Sandbox::new(None, false), opts);
    let plan = match tool.plan_run(r#"{"command": "ls"}"#, Some(60)) {
        Ok(p) => p,
        Err(_) => panic!("expected a plan"),
    };
    assert_eq!(plan.command, "shopt -s expand_aliases\nls");
    assert_eq!(plan.timeout, Duration::from_secs(10));
    let plan = match tool.plan_run(r#"{"command": "ls"}"#, Some(3)) {
        Ok(p) => p,
        Err(_) => panic!("expected a plan"),
    };
    assert_eq!(plan.timeout, Duration::from_secs(3));
    let plan = match tool.plan_run(r#"{"command": "ls"}"#, Some(0)) {
        Ok(p) => p,
        Err(_) => panic!("expected a plan"),
    };
    assert_eq!(plan.timeout, Duration::from_secs(10));
}

#[test]
fn test_exec_description_includes_example() {
    let tool = ExecTool::new("/tmp/test".to_string(), Sandbox::new(Some("/tmp/test".to_string()), false));
    let def = tool.definition();
    assert!(
        def.description.contains("Example"),
        "bash description should include Example, got: {}",
        def.description
    );
}
