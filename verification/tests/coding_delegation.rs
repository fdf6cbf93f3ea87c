use quecto_tools::coding_delegation::{
    attach_notifications, delegation_action, delegation_reply, is_known_action, new_command_id,
    next_poll_delay, poll_exhausted, poll_step, poll_timeout_error, CoordinatorDelegationTool,
    PollStep,
};

#[test]
fn delegation_checks_actions() {
    assert_eq!(delegation_action(r#"{"action":"run","goal":"g"}"#).unwrap(), "run");
    assert_eq!(delegation_action(r#"{"action":"shutdown"}"#).unwrap(), "shutdown");
    assert_eq!(delegation_action(r#"{"action":"message"}"#).unwrap_err(), "unknown action: message");
    assert!(delegation_action("not json").unwrap_err().starts_with("invalid JSON: "));
    assert_eq!(delegation_action(r#"{"goal":"g"}"#).unwrap_err(), "missing required field: action");
    assert!(is_known_action("cleanup_all"));
    assert!(!is_known_action("explode"));
}

#[test]
fn command_ids_and_polling() {
    let a = new_command_id([0u8; 16]);
    let b = new_command_id([0xffu8; 16]);
    assert_eq!(a, "cmd_00000000000040008000000000000000");
    assert_eq!(b, "cmd_ffffffffffff4fffbfffffffffffffff");
    assert_eq!(a.len(), 36);
    assert_ne!(a, b);
    assert_eq!(next_poll_delay(50), 100);
    assert_eq!(next_poll_delay(400), 500);
    assert_eq!(next_poll_delay(500), 500);
    assert_eq!(poll_timeout_error(), "timeout: coordinator did not respond");
}

#[test]
fn replies_from_answers() {
    assert_eq!(delegation_reply(true, Some(r#"{"job_id":"j"}"#.to_string()), None).unwrap(), r#"{"job_id":"j"}"#);
    assert_eq!(delegation_reply(true, None, None).unwrap(), "{}");
    assert_eq!(delegation_reply(false, None, Some("boom".to_string())).unwrap_err(), "error: boom");
    assert_eq!(delegation_reply(false, None, None).unwrap_err(), "error: unknown");
}

fn make_tool() -> CoordinatorDelegationTool {
    CoordinatorDelegationTool::with_polling(1, 3)
}

#[test]
fn coding_delegation_test_definition_name() {
    let tool = make_tool();
    assert_eq!(tool.definition().name, "coding_job");
}

#[test]
fn coding_delegation_test_definition_schema_has_action() {
    let tool = make_tool();
    assert!(tool.definition().parameters_schema.contains("action"));
}

#[test]
fn coding_delegation_test_definition_description() {
    let tool = make_tool();
    assert!(tool.definition().description.contains("WORKFLOW"));
}

#[test]
fn coding_delegation_test_debug_format() {
    let tool = make_tool();
    assert!(format!("{tool:?}").contains("CoordinatorDelegationTool"));
}

/// Drives the wait as the caller does, with an outbox that answers after
/// `misses` empty looks (never, for `None`).
fn wait_for(tool: &CoordinatorDelegationTool, misses: Option<u32>) -> (Result<&'static str, String>, Vec<u64>) {
    let mut state = tool.begin_poll();
    let mut waits = Vec::new();
    let mut looks = 0u32;
    loop {
        if let Some(e) = poll_exhausted(state) {
            return (Err(e), waits);
        }
        let read: Result<Option<&'static str>, String> = match misses {
            Some(n) if looks >= n => Ok(Some("answer")),
            _ => Ok(None),
        };
        looks += 1;
        match poll_step(state, read) {
            PollStep::Answered(a) => return (Ok(a), waits),
            PollStep::Wait { delay_ms, next } => {
                waits.push(delay_ms);
                state = next;
            }
            PollStep::Failed(e) => return (Err(e), waits),
        }
    }
}

#[test]
fn polling_times_out_after_the_allowed_looks() {
    let tool = CoordinatorDelegationTool::with_polling(1, 2);
    let (r, waits) = wait_for(&tool, None);
    assert!(r.unwrap_err().contains("timeout"));
    assert_eq!(waits, vec![1, 2]);
}

#[test]
fn polling_backs_off_up_to_half_a_second() {
    let tool = CoordinatorDelegationTool::new();
    assert!(!tool.has_spawner());
    let (r, waits) = wait_for(&tool, Some(6));
    assert_eq!(r.unwrap(), "answer");
    assert_eq!(waits, vec![50, 100, 200, 400, 500, 500]);
    let s = CoordinatorDelegationTool::with_spawner_and_polling(5, 1);
    assert!(s.has_spawner());
    assert!(CoordinatorDelegationTool::with_spawner().has_spawner());
}

#[test]
fn a_failed_read_ends_the_wait() {
    let tool = make_tool();
    let r: PollStep<()> = poll_step(tool.begin_poll(), Err("disk gone".to_string()));
    match r {
        PollStep::Failed(m) => assert_eq!(m, "ipc read: disk gone"),
        other => panic!("unexpected {other:?}"),
    }
}

#[test]
fn notifications_are_attached_to_object_replies() {
    let body = r#"{"state":"failed"}"#.to_string();
    let note = r#"{"job_id":"j1","notification_type":"job_failed"}"#.to_string();
    let out = attach_notifications(body.clone(), &[note]);
    assert!(out.contains("notifications"));
    assert!(out.contains("job_failed"));
    assert_eq!(attach_notifications(body.clone(), &[]), body);
    assert_eq!(attach_notifications("[1]".to_string(), &["{}".to_string()]), "[1]");
    let two = attach_notifications("{}".to_string(), &["1".to_string(), "2".to_string()]);
    assert_eq!(two, r#"{"notifications":[1,2]}"#);
}

#[test]
fn coding_delegation_test_invalid_json() {
    let r = delegation_action("not json");
    assert!(r.is_err());
    assert!(r.unwrap_err().contains("invalid JSON"));
}

#[test]
fn coding_delegation_test_missing_action() {
    let r = delegation_action(r#"{"goal":"t"}"#);
    assert!(r.is_err());
    assert!(r.unwrap_err().contains("action"));
}

#[test]
fn coding_delegation_test_unknown_action() {
    let r = delegation_action(r#"{"action":"explode"}"#);
    assert!(r.is_err());
    assert!(r.unwrap_err().contains("unknown action"));
}

#[test]
fn test_timeout() {
    assert_eq!(delegation_action(r#"{"action":"status","job_id":"j1"}"#).unwrap(), "status");
    let tool = CoordinatorDelegationTool::with_polling(1, 2);
    let (r, _) = wait_for(&tool, None);
    assert!(r.is_err());
    assert!(r.unwrap_err().contains("timeout"));
}

#[test]
fn test_error_response() {
    assert_eq!(delegation_action(r#"{"action":"status","job_id":"miss"}"#).unwrap(), "status");
    let r = delegation_reply(false, None, Some("not_found".to_string()));
    assert!(r.is_err());
    assert!(r.unwrap_err().contains("not_found"));
}

#[test]
fn test_run_action() {
    assert_eq!(
        delegation_action(r#"{"action":"run","goal":"Fix","repo":"test","base_ref":"main"}"#).unwrap(),
        "run"
    );
    let r = delegation_reply(true, Some(r#"{"job_id":"j1","run_id":"r1","state":"queued"}"#.to_string()), None);
    assert!(r.is_ok());
    assert!(r.unwrap().contains("job_id"));
}

#[test]
fn test_notifications_included_in_response() {
    let body = delegation_reply(true, Some(r#"{"state":"failed"}"#.to_string()), None).unwrap();
    let note = r#"{"detail":"OOM","job_id":"j1","job_ids":[],"notification_type":"job_failed","ts":"2026-01-15T10:00:00Z"}"#;
    let out = attach_notifications(body, &[note.to_string()]);
    assert!(out.contains("notifications"));
    assert!(out.contains("job_failed"));
}
