use quecto_tools::subagent_registry::is_response_event;
use quecto_tools::subagent_registry::{
    consume_await_dedupe, extract_summary, new_active_awaits, new_registry, truncate_summary,
    AwaitResult, MessageView, SequencedSubagentNotification, SubagentEntry, SubagentNotification,
    SubagentStatus, VerdictStatus, WorkflowResult, WorkflowSnapshot, ResultProgress,
    SubagentRegistry, MAX_ERROR_CAUSE_CHARS,
};

fn entry(parent: Option<&str>) -> SubagentEntry {
    let mut e = SubagentEntry::new("/tmp/a.sock".to_string(), 7);
    e.parent_id = parent.map(|p| p.to_string());
    e
}

#[test]
fn status_wire_names_round_trip() {
    for s in [
        SubagentStatus::Starting,
        SubagentStatus::Idle,
        SubagentStatus::Running,
        SubagentStatus::Error,
        SubagentStatus::Exited,
    ] {
        assert_eq!(SubagentStatus::from_wire_str(s.to_wire_str()), s);
    }
    assert_eq!(SubagentStatus::from_wire_str("bogus"), SubagentStatus::Starting);
    assert_eq!(SubagentStatus::Running.to_wire_str(), "running");
    assert_eq!(SubagentStatus::Running.display_name(), "Running");
}

#[test]
fn verdicts() {
    let done = WorkflowSnapshot { mode: "complete".to_string(), steps_completed: 3, steps_total: 3 };
    let r = WorkflowResult::derive("idle", None, Some(&done), None);
    assert_eq!(r.status, VerdictStatus::Completed);
    assert_eq!(r.summary, "workflow complete (3/3 steps)");
    let r = WorkflowResult::derive("idle", None, None, None);
    assert_eq!(r.status, VerdictStatus::Incomplete);
    assert_eq!(r.summary, "went idle without completing the workflow (no workflow)");
    let r = WorkflowResult::derive("exited", Some("exit_code_0"), None, None);
    assert_eq!(r.status, VerdictStatus::Incomplete);
    let r = WorkflowResult::derive("exited", Some("signal_9"), None, None);
    assert_eq!(r.status, VerdictStatus::Failed);
    assert_eq!(r.summary, "subagent exited: signal_9");
    let r = WorkflowResult::derive("error", Some("agent_error"), None, Some("boom"));
    assert_eq!(r.status, VerdictStatus::Failed);
    assert_eq!(r.summary, "await error: agent_error \u{2014} boom");
    let r = WorkflowResult::derive("weird", None, None, None);
    assert_eq!(r.summary, "subagent status: weird");
    let a = AwaitResult::new("timeout", None, "w1".to_string(), 5, None);
    assert_eq!(a.result.summary, "await timed out before the subagent completed");
    assert!(a.error.is_none());
}

#[test]
fn notifications() {
    let n = SequencedSubagentNotification::new(
        4,
        SubagentNotification::Errored { agent_id: "w1".to_string(), error: "bad".to_string() },
    );
    assert_eq!(n.dedupe_key(), ("w1".to_string(), 4));
    assert_eq!(n.to_message(), "Agent 'w1' failed: bad");
    let m = SubagentNotification::Exited { agent_id: "w2".to_string() }.to_message();
    assert_eq!(m, "Agent 'w2' exited unexpectedly");
}

#[test]
fn summaries() {
    assert_eq!(truncate_summary("short"), "short");
    let long = "é".repeat(250);
    let t = truncate_summary(&long);
    assert_eq!(t.chars().count(), 203);
    assert!(t.ends_with("..."));
    let msgs = vec![
        MessageView { role: Some("assistant".to_string()), content: Some("first".to_string()) },
        MessageView { role: Some("user".to_string()), content: Some("q".to_string()) },
        MessageView { role: Some("assistant".to_string()), content: Some(String::new()) },
    ];
    assert_eq!(extract_summary(Some(&msgs)), "first");
    assert_eq!(extract_summary(None), "(no output)");
    assert_eq!(extract_summary(Some(&[])), "(no output)");
}

#[test]
fn cascade_remove_takes_the_subtree() {
    let mut reg = new_registry();
    reg.insert("root".to_string(), entry(None));
    reg.insert("a".to_string(), entry(Some("root")));
    reg.insert("b".to_string(), entry(Some("a")));
    reg.insert("other".to_string(), entry(None));
    reg.insert("c".to_string(), entry(Some("other")));
    let mut removed = reg.cascade_remove("a");
    removed.sort();
    assert_eq!(removed, vec!["a".to_string(), "b".to_string()]);
    assert!(reg.contains_key("root"));
    assert!(reg.contains_key("other") && reg.contains_key("c"));
    assert!(!reg.contains_key("b"));
    assert!(reg.cascade_remove("nope").is_empty());
    assert_eq!(reg.lookup_subagent_socket("root").unwrap(), "/tmp/a.sock");
    assert_eq!(
        reg.lookup_subagent_socket("b").unwrap_err(),
        "subagent 'b' not found in registry"
    );
}

#[test]
fn await_dedupe_is_consumed_once() {
    let mut reg = new_registry();
    reg.insert("w".to_string(), entry(None));
    reg.mark_completion_consumed_by_await("w");
    let mut opt = Some(reg);
    assert!(consume_await_dedupe(&mut opt, "w"));
    assert!(!consume_await_dedupe(&mut opt, "w"));
    let mut none = None;
    assert!(!consume_await_dedupe(&mut none, "w"));
}

#[test]
fn active_awaits_allow_one_per_agent() {
    let mut a = new_active_awaits();
    assert!(a.try_begin("w"));
    assert!(!a.try_begin("w"));
    assert!(a.try_begin("v"));
    a.end("w");
    assert!(a.try_begin("w"));
}

#[test]
fn only_response_events_answer_a_command() {
    assert!(is_response_event(r#"{"type":"response","command":"prompt","success":true}"#));
    assert!(!is_response_event(r#"{"type":"token","text":"hi"}"#));
    assert!(!is_response_event(r#"{"command":"prompt"}"#));
    assert!(!is_response_event("not json"));
    assert!(!is_response_event(r#"{"type":5}"#));
}

#[test]
fn await_results_carry_progress_and_bounded_causes() {
    let w = WorkflowSnapshot { mode: "complete".to_string(), steps_completed: 7, steps_total: 7 };
    let r = AwaitResult::new("idle", Some("idle"), "w1".to_string(), 5000, Some(w));
    assert_eq!(r.result.status, VerdictStatus::Completed);
    assert_eq!(r.result.workflow_progress, Some(ResultProgress { done: 7, total: 7 }));
    assert!(r.error.is_none());
    let long = "x".repeat(2500);
    let e = AwaitResult::with_error("error", Some("run_failed"), "w1".to_string(), 1, None, Some(&long));
    assert_eq!(e.error.as_ref().unwrap().chars().count(), MAX_ERROR_CAUSE_CHARS);
    assert_eq!(e.result.status, VerdictStatus::Failed);
    assert!(e.result.summary.ends_with(&"x".repeat(2000)));
    assert!(!e.result.summary.contains(&"x".repeat(2001)));
}

#[test]
fn cascade_remove_lists_the_agent_first() {
    let mut reg = SubagentRegistry::new();
    let mut child = SubagentEntry::new("/c".to_string(), 2);
    child.parent_id = Some("root".to_string());
    reg.insert("child".to_string(), child);
    reg.insert("root".to_string(), SubagentEntry::new("/r".to_string(), 1));
    let removed = reg.cascade_remove("root");
    assert_eq!(removed[0], "root");
    assert_eq!(removed.len(), 2);
    assert!(reg.is_empty());
}
