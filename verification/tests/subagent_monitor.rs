use quecto_tools::subagent_monitor::{
    agent_end_is_terminal, apply_event, canonical_workflow_forward, forward_child_workflow_event,
    handle_monitor_close, handle_monitor_line, mark_exited, parse_child_event, truncate_string,
};
use quecto_tools::subagent_registry::{
    SubagentEntry, SubagentNotification, SubagentRegistry, SubagentStatus,
};

fn test_entry() -> SubagentEntry {
    SubagentEntry::new("/tmp/test.sock".to_string(), 0)
}

#[test]
fn test_agent_start_sets_running() {
    let mut entry = test_entry();
    entry.status = SubagentStatus::Idle;
    apply_event(&mut entry, r#"{"type":"agent_start"}"#);
    assert_eq!(entry.status, SubagentStatus::Running);
}

#[test]
fn test_agent_start_clears_last_error() {
    let mut entry = test_entry();
    entry.status = SubagentStatus::Error;
    entry.last_error = Some("old error".to_string());
    apply_event(&mut entry, r#"{"type":"agent_start"}"#);
    assert_eq!(entry.status, SubagentStatus::Running);
    assert!(entry.last_error.is_none());
}

#[test]
fn test_agent_end_sets_idle() {
    let mut entry = test_entry();
    entry.status = SubagentStatus::Running;
    apply_event(&mut entry, r#"{"type":"agent_end","messages":[]}"#);
    assert_eq!(entry.status, SubagentStatus::Idle);
}

#[test]
fn test_tool_start_sets_running_and_last_tool() {
    let mut entry = test_entry();
    entry.status = SubagentStatus::Running;
    apply_event(
        &mut entry,
        r#"{"type":"tool_execution_start","toolCallId":"c1","toolName":"bash","args":{}}"#,
    );
    assert_eq!(entry.status, SubagentStatus::Running);
    assert_eq!(entry.last_tool.as_deref(), Some("bash"));
}

#[test]
fn test_tool_end_error_sets_error_and_last_error() {
    let mut entry = test_entry();
    entry.status = SubagentStatus::Running;
    apply_event(
        &mut entry,
        r#"{"type":"tool_execution_end","toolCallId":"c1","toolName":"edit","result":{"content":[]},"isError":true}"#,
    );
    assert_eq!(entry.status, SubagentStatus::Error);
    assert!(entry.last_error.as_ref().unwrap().contains("edit"));
}

#[test]
fn test_tool_end_no_error_keeps_running() {
    let mut entry = test_entry();
    entry.status = SubagentStatus::Running;
    apply_event(
        &mut entry,
        r#"{"type":"tool_execution_end","toolCallId":"c1","toolName":"read","result":{"content":[]},"isError":false}"#,
    );
    assert_eq!(entry.status, SubagentStatus::Running);
}

#[test]
fn test_tool_end_success_clears_last_error() {
    let mut entry = test_entry();
    entry.status = SubagentStatus::Running;
    entry.last_error = Some("previous error".to_string());
    apply_event(
        &mut entry,
        r#"{"type":"tool_execution_end","toolCallId":"c1","toolName":"read","result":{"content":[]},"isError":false}"#,
    );
    assert!(entry.last_error.is_none());
}

#[test]
fn test_unknown_event_ignored() {
    let mut entry = test_entry();
    entry.status = SubagentStatus::Idle;
    apply_event(&mut entry, r#"{"type":"token","token":"hello"}"#);
    assert_eq!(entry.status, SubagentStatus::Idle);
}

#[test]
fn test_malformed_json_ignored() {
    let mut entry = test_entry();
    entry.status = SubagentStatus::Idle;
    apply_event(&mut entry, "not valid json");
    assert_eq!(entry.status, SubagentStatus::Idle);
}

#[test]
fn test_mark_exited() {
    let mut entry = test_entry();
    entry.status = SubagentStatus::Running;
    mark_exited(&mut entry);
    assert_eq!(entry.status, SubagentStatus::Exited);
}

#[test]
fn test_truncate_string_short() {
    assert_eq!(truncate_string("hello", 10), "hello");
}

#[test]
fn test_truncate_string_exact() {
    assert_eq!(truncate_string("hello", 5), "hello");
}

#[test]
fn test_truncate_string_long() {
    let result = truncate_string("hello world", 5);
    assert_eq!(result, "hello…");
}

#[test]
fn test_pre_filter_skips_token_events() {
    let mut entry = test_entry();
    entry.status = SubagentStatus::Idle;
    apply_event(&mut entry, r#"{"type":"token","token":"hello"}"#);
    assert_eq!(entry.status, SubagentStatus::Idle);
}

#[test]
fn test_full_lifecycle() {
    let mut entry = test_entry();
    assert_eq!(entry.status, SubagentStatus::Starting);

    apply_event(&mut entry, r#"{"type":"agent_start"}"#);
    assert_eq!(entry.status, SubagentStatus::Running);

    apply_event(
        &mut entry,
        r#"{"type":"tool_execution_start","toolCallId":"c1","toolName":"bash","args":{}}"#,
    );
    assert_eq!(entry.status, SubagentStatus::Running);
    assert_eq!(entry.last_tool.as_deref(), Some("bash"));

    apply_event(
        &mut entry,
        r#"{"type":"tool_execution_end","toolCallId":"c1","toolName":"bash","result":{"content":[]},"isError":false}"#,
    );
    assert_eq!(entry.status, SubagentStatus::Running);

    apply_event(&mut entry, r#"{"type":"agent_end","messages":[]}"#);
    assert_eq!(entry.status, SubagentStatus::Idle);

    mark_exited(&mut entry);
    assert_eq!(entry.status, SubagentStatus::Exited);
}

#[test]
fn agent_end_terminal_when_no_workflow() {
    assert!(agent_end_is_terminal(None));
}

#[test]
fn agent_end_not_terminal_mid_workflow() {
    assert!(!agent_end_is_terminal(Some("active")));
    assert!(!agent_end_is_terminal(Some("selecting_template")));
}

#[test]
fn agent_end_terminal_when_workflow_complete() {
    assert!(agent_end_is_terminal(Some("complete")));
}

// --- own tests ---

fn registry_with(id: &str) -> SubagentRegistry {
    let mut r = SubagentRegistry::new();
    r.insert(id.to_string(), SubagentEntry::new(String::new(), 0));
    r
}

#[test]
fn truncate_string_keeps_multibyte_boundary() {
    // "é" is two bytes: a cut at 3 bytes falls after "aé".
    assert_eq!(truncate_string("aéz", 3), "aé…");
}

#[test]
fn workflow_emits_single_completion_across_steps() {
    let mut registry = registry_with("worker");
    let wf = |mode: &str| {
        format!(r#"{{"type":"workflow_state","mode":"{mode}","progress":{{"done":1,"total":2}}}}"#)
    };
    let agent_end = r#"{"type":"agent_end","messages":[{"role":"assistant","content":"step done"}]}"#;
    let mut completions = 0;
    let mut count = |o: &quecto_tools::subagent_monitor::MonitorOutput| {
        if let Some(n) = &o.notification {
            if matches!(n.notification, SubagentNotification::Completed { .. }) {
                completions += 1;
            }
        }
    };
    for _ in 0..3 {
        let o = handle_monitor_line(&mut registry, &wf("active"), "worker", None);
        count(&o);
        let o = handle_monitor_line(&mut registry, agent_end, "worker", None);
        count(&o);
    }
    let o = handle_monitor_line(&mut registry, &wf("complete"), "worker", None);
    count(&o);
    let o = handle_monitor_line(&mut registry, agent_end, "worker", None);
    count(&o);
    assert_eq!(completions, 1);
}

#[test]
fn non_workflow_agent_completes_with_summary() {
    let mut registry = registry_with("solo");
    let o = handle_monitor_line(
        &mut registry,
        r#"{"type":"agent_end","messages":[{"role":"assistant","content":"all done"}]}"#,
        "solo",
        None,
    );
    let n = o.notification.expect("a note");
    assert_eq!(n.sequence, 1);
    match n.notification {
        SubagentNotification::Completed { agent_id, summary } => {
            assert_eq!(agent_id, "solo");
            assert_eq!(summary, "all done");
        }
        other => panic!("unexpected {other:?}"),
    }
}

#[test]
fn tool_error_still_notifies_mid_workflow() {
    let mut registry = registry_with("worker");
    handle_monitor_line(
        &mut registry,
        r#"{"type":"workflow_state","mode":"active","progress":{"done":0,"total":2}}"#,
        "worker",
        None,
    );
    let o = handle_monitor_line(
        &mut registry,
        r#"{"type":"tool_execution_end","isError":true,"toolName":"bash"}"#,
        "worker",
        None,
    );
    match o.notification.expect("a note").notification {
        SubagentNotification::Errored { error, .. } => {
            assert_eq!(error, "tool 'bash' returned error");
        }
        other => panic!("unexpected {other:?}"),
    }
    let e = registry.get("worker").unwrap();
    assert_eq!(e.status, SubagentStatus::Error);
    assert_eq!(e.notification_sequence, 2);
    let w = e.workflow.as_ref().unwrap();
    assert_eq!(w.mode, "active");
    assert_eq!(w.steps_total, 2);
}

#[test]
fn workflow_state_is_forwarded_with_identity() {
    let mut registry = registry_with("kid");
    let o = handle_monitor_line(
        &mut registry,
        r#"{"type":"workflow_state","mode":"active","progress":{"total":3,"done":1},"extra":true}"#,
        "kid",
        Some("boss"),
    );
    assert_eq!(
        o.forward.as_deref(),
        Some(r#"{"agent_id":"kid","mode":"active","parent_id":"boss","progress":{"done":1,"total":3},"type":"workflow_state"}"#)
    );
    let direct = forward_child_workflow_event(
        r#"{"type":"workflow_state"}"#,
        "kid",
        None,
    );
    assert_eq!(
        direct.as_deref(),
        Some(r#"{"agent_id":"kid","mode":null,"parent_id":null,"progress":null,"type":"workflow_state"}"#)
    );
    let ev = parse_child_event(r#"{"type":"agent_end"}"#).unwrap();
    assert!(canonical_workflow_forward(&ev, "kid", None).is_none());
}

#[test]
fn agent_error_response_sets_run_error() {
    let mut entry = test_entry();
    apply_event(
        &mut entry,
        r#"{"type":"response","command":"agent_error","error":"provider down"}"#,
    );
    assert_eq!(entry.status, SubagentStatus::Error);
    assert_eq!(entry.run_error.as_deref(), Some("provider down"));
    // A failed run stays failed at turn end.
    apply_event(&mut entry, r#"{"type":"agent_end"}"#);
    assert_eq!(entry.status, SubagentStatus::Error);
}

#[test]
fn long_lines_and_unregistered_agents() {
    let mut registry = registry_with("a");
    let big = format!(r#"{{"type":"agent_start","pad":"{}"}}"#, "x".repeat(1024 * 1024));
    let o = handle_monitor_line(&mut registry, &big, "a", None);
    assert!(o.notification.is_none());
    assert_eq!(registry.get("a").unwrap().status, SubagentStatus::Starting);
    let n = handle_monitor_close(&mut registry, "a");
    assert_eq!(n.sequence, 1);
    assert_eq!(registry.get("a").unwrap().status, SubagentStatus::Exited);
    let n = handle_monitor_close(&mut registry, "ghost");
    assert_eq!(n.sequence, 0);
}
