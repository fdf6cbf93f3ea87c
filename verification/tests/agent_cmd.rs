use quecto_tools::agent_cmd::{
    await_result, await_start, await_step, await_timed_out, exit_reason, is_await_command,
    is_supported_command, parse_await_request, send_reply, timeout_end, workflow_from_state,
    AgentCmdTool, AwaitRequest, AwaitState, AwaitStep, CommandPlan,
};
use quecto_tools::subagent_registry::{
    new_registry, ExitSignal, SubagentEntry, SubagentStatus, VerdictStatus,
};

fn empty_tool() -> AgentCmdTool {
    AgentCmdTool::new(new_registry())
}

fn parsed(line: &str) -> serde_json::Value {
    serde_json::from_str(line).unwrap()
}

#[test]
fn agent_cmd_tests_test_definition_name() {
    let tool = empty_tool();
    assert_eq!(tool.definition().name, "agent_cmd");
}

#[test]
fn test_definition_requires_agent_id_and_command() {
    let tool = empty_tool();
    let def = tool.definition();
    let schema: serde_json::Value = serde_json::from_str(&def.parameters_schema).unwrap();
    let required = schema["required"].as_array().unwrap();
    assert!(required.iter().any(|v| v.as_str() == Some("agent_id")));
    assert!(required.iter().any(|v| v.as_str() == Some("command")));
}

#[test]
fn test_parse_missing_agent_id() {
    let tool = empty_tool();
    let result = tool.parse_and_build(r#"{"command":"get_state"}"#);
    assert!(result.is_err());
    assert!(result.unwrap_err().contains("agent_id"));
}

#[test]
fn test_parse_missing_command() {
    let tool = empty_tool();
    let result = tool.parse_and_build(r#"{"agent_id":"w1"}"#);
    assert!(result.is_err());
    assert!(result.unwrap_err().contains("command"));
}

#[test]
fn test_parse_invalid_json() {
    let tool = empty_tool();
    let result = tool.parse_and_build("not json");
    assert!(result.is_err());
    assert!(result.unwrap_err().contains("invalid JSON"));
}

#[test]
fn test_parse_unsupported_command() {
    let tool = empty_tool();
    let result = tool.parse_and_build(r#"{"agent_id":"w1","command":"delete_all"}"#);
    assert!(result.is_err());
    assert!(result.unwrap_err().contains("unsupported command"));
}

#[test]
fn test_parse_invalid_agent_id_format() {
    let tool = empty_tool();
    let result = tool.parse_and_build(r#"{"agent_id":"bad id!","command":"get_state"}"#);
    assert!(result.is_err());
    assert!(result.unwrap_err().contains("[a-zA-Z0-9_-]"));
}

#[test]
fn test_parse_get_state_builds_json() {
    let tool = empty_tool();
    let (agent_id, json) = tool
        .parse_and_build(r#"{"agent_id":"w1","command":"get_state"}"#)
        .unwrap();
    assert_eq!(agent_id, "w1");
    let parsed = parsed(&json);
    assert_eq!(parsed["type"], "get_state");
}

#[test]
fn test_parse_prompt_requires_message() {
    let tool = empty_tool();
    let result = tool.parse_and_build(r#"{"agent_id":"w1","command":"prompt"}"#);
    assert!(result.is_err());
    assert!(result.unwrap_err().contains("message"));
}

#[test]
fn test_parse_prompt_with_message() {
    let tool = empty_tool();
    let (_, json) = tool
        .parse_and_build(r#"{"agent_id":"w1","command":"prompt","message":"hello"}"#)
        .unwrap();
    let parsed = parsed(&json);
    assert_eq!(parsed["type"], "prompt");
    assert_eq!(parsed["message"], "hello");
}

#[test]
fn test_parse_steer_requires_message() {
    let tool = empty_tool();
    let result = tool.parse_and_build(r#"{"agent_id":"w1","command":"steer"}"#);
    assert!(result.is_err());
    assert!(result.unwrap_err().contains("message"));
}

#[test]
fn test_parse_get_messages_tail_default_count() {
    let tool = empty_tool();
    let (_, json) = tool
        .parse_and_build(r#"{"agent_id":"w1","command":"get_messages_tail"}"#)
        .unwrap();
    let parsed = parsed(&json);
    assert_eq!(parsed["type"], "get_messages_tail");
    assert_eq!(parsed["count"], 1);
}

#[test]
fn test_parse_get_messages_tail_custom_count() {
    let tool = empty_tool();
    let (_, json) = tool
        .parse_and_build(r#"{"agent_id":"w1","command":"get_messages_tail","count":5}"#)
        .unwrap();
    let parsed = parsed(&json);
    assert_eq!(parsed["count"], 5);
}

#[test]
fn test_parse_abort() {
    let tool = empty_tool();
    let (_, json) = tool
        .parse_and_build(r#"{"agent_id":"w1","command":"abort"}"#)
        .unwrap();
    assert_eq!(parsed(&json)["type"], "abort");
}

#[test]
fn test_parse_get_session_stats() {
    let tool = empty_tool();
    let (_, json) = tool
        .parse_and_build(r#"{"agent_id":"w1","command":"get_session_stats"}"#)
        .unwrap();
    assert_eq!(parsed(&json)["type"], "get_session_stats");
}

#[test]
fn test_lookup_unknown_agent() {
    let tool = empty_tool();
    let result = tool.lookup_socket("nonexistent");
    assert!(result.is_err());
    assert!(result.unwrap_err().contains("not found"));
}

#[test]
fn test_lookup_known_agent() {
    let mut registry = new_registry();
    registry.insert(
        "w1".to_string(),
        SubagentEntry::new("/tmp/test.sock".to_string(), 0),
    );
    let tool = AgentCmdTool::new(registry);
    let path = tool.lookup_socket("w1").unwrap();
    assert_eq!(path, "/tmp/test.sock");
}

#[test]
fn test_parse_follow_up_requires_message() {
    let tool = empty_tool();
    let result = tool.parse_and_build(r#"{"agent_id":"w1","command":"follow_up"}"#);
    assert!(result.is_err());
    assert!(result.unwrap_err().contains("message"));
}

#[test]
fn test_parse_follow_up_with_message() {
    let tool = empty_tool();
    let (_, json) = tool
        .parse_and_build(r#"{"agent_id":"w1","command":"follow_up","message":"After done"}"#)
        .unwrap();
    let parsed = parsed(&json);
    assert_eq!(parsed["type"], "follow_up");
    assert_eq!(parsed["message"], "After done");
}

#[test]
fn test_parse_get_messages() {
    let tool = empty_tool();
    let (_, json) = tool
        .parse_and_build(r#"{"agent_id":"w1","command":"get_messages"}"#)
        .unwrap();
    assert_eq!(parsed(&json)["type"], "get_messages");
}

#[test]
fn test_parse_set_model_requires_model() {
    let tool = empty_tool();
    let result = tool.parse_and_build(r#"{"agent_id":"w1","command":"set_model"}"#);
    assert!(result.is_err());
    assert!(result.unwrap_err().contains("model"));
}

#[test]
fn test_parse_set_model_with_model() {
    let tool = empty_tool();
    let (_, json) = tool
        .parse_and_build(r#"{"agent_id":"w1","command":"set_model","model":"vendor/large-20250514"}"#)
        .unwrap();
    let parsed = parsed(&json);
    assert_eq!(parsed["type"], "set_model");
    assert_eq!(parsed["model"], "vendor/large-20250514");
}

#[test]
fn test_parse_set_model_with_provider_and_model_id() {
    let tool = empty_tool();
    let (_, json) = tool
        .parse_and_build(r#"{"agent_id":"w1","command":"set_model","provider":"vendor","model_id":"large-20250514"}"#)
        .unwrap();
    let parsed = parsed(&json);
    assert_eq!(parsed["type"], "set_model");
    assert_eq!(parsed["provider"], "vendor");
    assert_eq!(parsed["modelId"], "large-20250514");
}

#[test]
fn test_parse_clear_history() {
    let tool = empty_tool();
    let (_, json) = tool
        .parse_and_build(r#"{"agent_id":"w1","command":"clear_history"}"#)
        .unwrap();
    assert_eq!(parsed(&json)["type"], "clear_history");
}

#[test]
fn test_parse_get_subagents() {
    let tool = empty_tool();
    let (_, json) = tool
        .parse_and_build(r#"{"agent_id":"w1","command":"get_subagents"}"#)
        .unwrap();
    assert_eq!(parsed(&json)["type"], "get_subagents");
}

#[test]
fn test_parse_get_extensions() {
    let tool = empty_tool();
    let (_, json) = tool
        .parse_and_build(r#"{"agent_id":"w1","command":"get_extensions"}"#)
        .unwrap();
    assert_eq!(parsed(&json)["type"], "get_extensions");
}

#[test]
fn test_parse_reload_extensions() {
    let tool = empty_tool();
    let (_, json) = tool
        .parse_and_build(r#"{"agent_id":"w1","command":"reload_extensions"}"#)
        .unwrap();
    assert_eq!(parsed(&json)["type"], "reload_extensions");
}

#[test]
fn test_parse_set_model_empty_string_rejected() {
    let tool = empty_tool();
    let result = tool.parse_and_build(r#"{"agent_id":"w1","command":"set_model","model":""}"#);
    assert!(result.is_err());
    assert!(result.unwrap_err().contains("model"));
}

#[test]
fn test_parse_set_model_provider_without_model_id() {
    let tool = empty_tool();
    let result =
        tool.parse_and_build(r#"{"agent_id":"w1","command":"set_model","provider":"vendor"}"#);
    assert!(result.is_err());
    assert!(result.unwrap_err().contains("model_id"));
}

#[test]
fn test_parse_set_model_model_id_without_provider() {
    let tool = empty_tool();
    let result = tool.parse_and_build(
        r#"{"agent_id":"w1","command":"set_model","model_id":"large-20250514"}"#,
    );
    assert!(result.is_err());
    assert!(result.unwrap_err().contains("provider"));
}

#[test]
fn test_definition_lists_new_commands() {
    let tool = empty_tool();
    let def = tool.definition();
    assert!(def.description.contains("follow_up"));
    assert!(def.description.contains("set_model"));
    assert!(def.description.contains("clear_history"));
    assert!(def.description.contains("get_messages"));
    assert!(def.description.contains("get_subagents"));
    assert!(def.description.contains("kill"));
}

#[test]
fn test_parse_kill_command() {
    let _tool = empty_tool();
    assert!(is_supported_command("kill"));
}

// --- own tests: planning a call ---

fn registry_with(id: &str, parent: Option<&str>, pid: u32) -> quecto_tools::subagent_registry::SubagentRegistry {
    let mut r = new_registry();
    let mut e = SubagentEntry::new(format!("/tmp/{id}.sock"), pid);
    e.parent_id = parent.map(|p| p.to_string());
    r.insert(id.to_string(), e);
    r
}

#[test]
fn plan_unknown_agent_is_error() {
    let mut tool = empty_tool();
    match tool.plan_command(r#"{"agent_id":"nonexistent","command":"get_state"}"#) {
        CommandPlan::Reply(r) => {
            assert!(r.is_error);
            assert!(r.content.contains("not found"));
        }
        other => panic!("unexpected {other:?}"),
    }
    match tool.plan_command("not json") {
        CommandPlan::Reply(r) => assert!(r.content.contains("invalid JSON")),
        other => panic!("unexpected {other:?}"),
    }
    match tool.plan_command(r#"{"agent_id":"w1"}"#) {
        CommandPlan::Reply(r) => assert!(r.content.contains("command")),
        other => panic!("unexpected {other:?}"),
    }
}

#[test]
fn plan_send_and_await() {
    let mut tool = AgentCmdTool::new(registry_with("w1", None, 0));
    match tool.plan_command(r#"{"agent_id":"w1","command":"abort"}"#) {
        CommandPlan::Send { socket_path, line } => {
            assert_eq!(socket_path, "/tmp/w1.sock");
            assert_eq!(line, r#"{"ack":"accept","type":"abort"}"#);
        }
        other => panic!("unexpected {other:?}"),
    }
    assert!(matches!(
        tool.plan_command(r#"{"agent_id":"w1","command":"await"}"#),
        CommandPlan::Await
    ));
    assert!(is_await_command(r#"{"command":"await"}"#));
    assert!(!is_await_command("nope"));
}

#[test]
fn kill_removes_agent_and_children() {
    let mut registry = registry_with("w1", None, 42);
    registry.insert("kid".to_string(), {
        let mut e = SubagentEntry::new("/tmp/kid.sock".to_string(), 0);
        e.parent_id = Some("w1".to_string());
        e
    });
    registry.insert("other".to_string(), SubagentEntry::new("/tmp/o.sock".to_string(), 0));
    let mut tool = AgentCmdTool::new(registry);
    match tool.plan_command(r#"{"agent_id":"w1","command":"kill"}"#) {
        CommandPlan::Killed { reply, pid, removed } => {
            assert!(!reply.is_error);
            assert_eq!(reply.content, "Subagent 'w1' killed (pid=42).");
            assert_eq!(pid, 42);
            assert_eq!(removed.len(), 2);
        }
        other => panic!("unexpected {other:?}"),
    }
    assert!(tool.registry.get("w1").is_none());
    assert!(tool.registry.get("kid").is_none());
    assert!(tool.registry.get("other").is_some());
    match tool.plan_command(r#"{"agent_id":"nonexistent","command":"kill"}"#) {
        CommandPlan::Reply(r) => {
            assert!(r.is_error);
            assert!(r.content.contains("not found"));
        }
        other => panic!("unexpected {other:?}"),
    }
}

#[test]
fn send_reply_wraps_failures() {
    assert_eq!(send_reply(Ok("{}".to_string())).content, "{}");
    let r = send_reply(Err("broken pipe".to_string()));
    assert!(r.is_error);
    assert_eq!(r.content, "agent_cmd error: broken pipe");
}

// --- own tests: await ---

fn req(idle: u64) -> AwaitRequest {
    AwaitRequest { agent_id: "w1".to_string(), timeout_secs: 10, idle_timeout_secs: idle }
}

#[test]
fn await_request_defaults_and_cap() {
    let r = parse_await_request(r#"{"agent_id":"w1"}"#).ok().unwrap();
    assert_eq!(r.timeout_secs, 300);
    assert_eq!(r.idle_timeout_secs, 5);
    let r = parse_await_request(r#"{"agent_id":"w1","timeout":99999,"idle_timeout":0}"#)
        .ok()
        .unwrap();
    assert_eq!(r.timeout_secs, 3600);
    assert_eq!(r.idle_timeout_secs, 0);
    let e = parse_await_request("{oops").err().unwrap();
    assert!(e.is_error);
    assert!(e.content.starts_with("invalid JSON arguments: "));
    let e = parse_await_request("{}").err().unwrap();
    assert_eq!(e.content, "missing required field: agent_id");
}

#[test]
fn await_begin_refuses_unknown_and_duplicates() {
    let mut tool = AgentCmdTool::new(registry_with("w1", None, 0));
    let e = tool.begin_await(&AwaitRequest {
        agent_id: "ghost".to_string(),
        timeout_secs: 1,
        idle_timeout_secs: 1,
    });
    let r = e.err().unwrap();
    assert_eq!(r.status, "error");
    assert_eq!(r.reason.as_deref(), Some("agent_not_found"));
    let socket = tool.begin_await(&req(5)).ok().unwrap();
    assert_eq!(socket, "/tmp/w1.sock");
    let r = tool.begin_await(&req(5)).err().unwrap();
    assert_eq!(r.reason.as_deref(), Some("another_await_active"));
    tool.end_await("w1");
    assert!(tool.begin_await(&req(5)).is_ok());
    let u = tool.unreachable_result("w1", 7);
    assert_eq!(u.reason.as_deref(), Some("connection_failed"));
    assert_eq!(u.elapsed_ms, 7);
}

#[test]
fn await_steps_through_idle_countdown() {
    let q = req(5);
    let s = await_start();
    // Working: keep waiting, countdown reset.
    let s = match await_step(&q, s, 100, None, Some(SubagentStatus::Running), None) {
        AwaitStep::Wait(s) => s,
        _ => panic!("should wait"),
    };
    assert_eq!(s, AwaitState { idle_since_ms: None });
    // Idle starts the countdown.
    let s = match await_step(&q, s, 1000, None, Some(SubagentStatus::Idle), None) {
        AwaitStep::Wait(s) => s,
        _ => panic!("should wait"),
    };
    assert_eq!(s.idle_since_ms, Some(1000));
    // Not yet 5 s.
    assert!(matches!(
        await_step(&q, s, 5999, None, Some(SubagentStatus::Idle), None),
        AwaitStep::Wait(_)
    ));
    match await_step(&q, s, 6000, None, Some(SubagentStatus::Idle), None) {
        AwaitStep::Finish(e) => {
            assert_eq!(e.status, "idle");
            assert_eq!(e.reason.as_deref(), Some("completed"));
            assert!(e.fetch_workflow);
        }
        _ => panic!("should finish"),
    }
}

#[test]
fn await_exit_and_timeout() {
    let q = req(5);
    let sig = ExitSignal { exit_code: None, signal: Some(15) };
    match await_step(&q, await_start(), 1, Some(sig), Some(SubagentStatus::Running), None) {
        AwaitStep::Finish(e) => {
            assert_eq!(e.status, "exited");
            assert_eq!(e.reason.as_deref(), Some("signal_15"));
        }
        _ => panic!("should finish"),
    }
    match await_step(&q, await_start(), 1, None, None, None) {
        AwaitStep::Finish(e) => assert_eq!(e.reason.as_deref(), Some("exit_code_0")),
        _ => panic!("should finish"),
    }
    assert_eq!(
        exit_reason(&ExitSignal { exit_code: Some(-2), signal: None }),
        "exit_code_-2"
    );
    assert!(!await_timed_out(&q, 9999));
    assert!(await_timed_out(&q, 10000));
    let end = timeout_end();
    let r = await_result("w1", &end, 10000, None);
    assert_eq!(r.status, "timeout");
    assert!(r.reason.is_none());
    // An erroring child with no idle wait returns at once.
    assert!(matches!(
        await_step(&req(0), await_start(), 1, None, Some(SubagentStatus::Error), None),
        AwaitStep::Finish(_)
    ));
}

#[test]
fn workflow_snapshot_from_state_answer() {
    let w = workflow_from_state(
        r#"{"type":"response","data":{"workflow":{"mode":"active","stepsCompleted":2,"steps_total":5}}}"#,
    )
    .unwrap();
    assert_eq!(w.mode, "active");
    assert_eq!(w.steps_completed, 2);
    assert_eq!(w.steps_total, 5);
    let w = workflow_from_state(r#"{"data":{"workflowState":{"steps_completed":"x"}}}"#).unwrap();
    assert_eq!(w.mode, "unknown");
    assert_eq!(w.steps_completed, 0);
    assert!(workflow_from_state(r#"{"data":{}}"#).is_none());
    assert!(workflow_from_state("garbage").is_none());
}


fn parsed_line(tool: &AgentCmdTool, args: &str) -> serde_json::Value {
    let (_, cmd) = tool.parse_and_build(args).unwrap();
    serde_json::from_str(&cmd).unwrap()
}

#[test]
fn control_commands_carry_accept_marker() {
    let tool = AgentCmdTool::new(new_registry());
    for (args, ty) in [
        (r#"{"agent_id":"w1","command":"prompt","message":"m"}"#, "prompt"),
        (r#"{"agent_id":"w1","command":"steer","message":"m"}"#, "steer"),
        (r#"{"agent_id":"w1","command":"follow_up","message":"m"}"#, "follow_up"),
        (r#"{"agent_id":"w1","command":"abort"}"#, "abort"),
    ] {
        let v = parsed_line(&tool, args);
        assert_eq!(v["type"], ty);
        assert_eq!(v["ack"], "accept", "{ty} must carry the acceptance marker (#876)");
    }
}

#[test]
fn non_control_commands_do_not_carry_accept_marker() {
    let tool = AgentCmdTool::new(new_registry());
    for args in [
        r#"{"agent_id":"w1","command":"get_state"}"#,
        r#"{"agent_id":"w1","command":"get_messages"}"#,
        r#"{"agent_id":"w1","command":"get_session_stats"}"#,
        r#"{"agent_id":"w1","command":"clear_history"}"#,
    ] {
        let v = parsed_line(&tool, args);
        assert!(v.get("ack").is_none(), "read/query commands must NOT carry the marker: {args}");
    }
}

#[test]
fn is_control_command_matches_only_the_four() {
    for c in ["prompt", "steer", "follow_up", "abort"] {
        assert!(AgentCmdTool::is_control_command(c), "{c} is control");
    }
    for c in ["get_state", "get_messages", "await", "kill", "set_model"] {
        assert!(!AgentCmdTool::is_control_command(c), "{c} is not control");
    }
}

#[test]
fn await_of_unknown_agent_fails_with_a_verdict() {
    let mut tool = AgentCmdTool::new(new_registry());
    let req = parse_await_request(r#"{"agent_id":"nope","command":"await","idle_timeout":0}"#).unwrap();
    let r = match tool.begin_await(&req) {
        Err(r) => r,
        Ok(_) => panic!("unknown agent must be refused"),
    };
    assert_eq!(r.status, "error");
    assert_eq!(r.reason.as_deref(), Some("agent_not_found"));
    assert_eq!(r.agent_id, "nope");
    assert_eq!(r.elapsed_ms, 0);
    assert_eq!(r.result.status, VerdictStatus::Failed);
    assert!(tool.active_awaits.try_begin("nope"));
}
