use quecto_tools::spawn::{
    build_child_cli_args, effective_config_path, exit_signal_of, failed_spawn, running_message,
    shutdown_all, validate_config_path, workflow_spec_too_large, SpawnTool, SubagentConfig,
};
use quecto_tools::subagent_registry::{validate_agent_id_format, SubagentEntry, SubagentRegistry};

fn test_tool() -> SpawnTool {
    SpawnTool::new(vec!["news-bot".to_string(), "weather-bot".to_string()], true)
}

fn bare_config() -> SubagentConfig {
    SubagentConfig {
        task: None,
        agent_id: None,
        restrict_to_workspace: true,
        system: None,
        config_path: None,
        workflow: false,
        workflow_guards: false,
        workflow_spec: None,
        model: None,
    }
}

#[test]
fn parse_args_without_workflow_spec_leaves_it_none() {
    let tool = test_tool();
    let cfg = tool.parse_args(r#"{"task":"t"}"#).unwrap();
    assert!(cfg.workflow_spec.is_none());
}

#[test]
fn spawn_tests_test_definition() {
    let tool = test_tool();
    let def = tool.definition();
    assert_eq!(def.name, "spawn");
    assert!(!def.description.is_empty());
    assert!(def.description.contains("agent_cmd"));
}

#[test]
fn test_definition_task_not_required() {
    let tool = test_tool();
    let def = tool.definition();
    let schema: serde_json::Value = serde_json::from_str(&def.parameters_schema).unwrap();
    assert!(
        schema.get("required").is_none(),
        "task should not be required in schema"
    );
}

#[test]
fn test_parse_valid_task() {
    let tool = test_tool();
    let config = tool.parse_args(r#"{"task":"Summarize news"}"#).unwrap();
    assert_eq!(config.task.as_deref(), Some("Summarize news"));
    assert!(config.agent_id.is_none());
}

#[test]
fn test_parse_without_task() {
    let tool = test_tool();
    let config = tool.parse_args(r#"{"agent_id":"news-bot"}"#).unwrap();
    assert!(config.task.is_none());
    assert_eq!(config.agent_id.as_deref(), Some("news-bot"));
}

#[test]
fn test_parse_empty_object() {
    let tool = test_tool();
    let config = tool.parse_args(r#"{}"#).unwrap();
    assert!(config.task.is_none());
    assert!(config.agent_id.is_none());
}

#[test]
fn test_parse_with_agent_id() {
    let tool = test_tool();
    let config = tool
        .parse_args(r#"{"task":"Get weather","agent_id":"weather-bot"}"#)
        .unwrap();
    assert_eq!(config.agent_id.as_deref(), Some("weather-bot"));
}

#[test]
fn test_parse_disallowed_agent() {
    let tool = test_tool();
    let result = tool.parse_args(r#"{"task":"Evil task","agent_id":"evil-bot"}"#);
    assert!(result.is_err());
    assert!(result.unwrap_err().contains("not allowed"));
}

#[test]
fn test_parse_empty_allowlist_permits_any() {
    let tool = SpawnTool::new(vec![], true);
    let config = tool
        .parse_args(r#"{"task":"Do stuff","agent_id":"any-bot"}"#)
        .unwrap();
    assert_eq!(config.agent_id.as_deref(), Some("any-bot"));
}

#[test]
fn test_parse_with_system_prompt() {
    let tool = test_tool();
    let config = tool
        .parse_args(r#"{"task":"Summarize","system":"You are a summarizer"}"#)
        .unwrap();
    assert_eq!(config.system.as_deref(), Some("You are a summarizer"));
}

#[test]
fn test_parse_rejects_invalid_agent_id_format() {
    let tool = SpawnTool::new(vec![], true);
    let result = tool.parse_args(r#"{"task":"Do stuff","agent_id":"../escape"}"#);
    assert!(result.is_err());
    assert!(result.unwrap_err().contains("[a-zA-Z0-9_-]"));
}

#[test]
fn test_with_base_dir_sets_fields() {
    let base = "/tmp/quecto-test".to_string();
    let tool = SpawnTool::with_base_dir(vec!["bot-a".to_string()], false, base.clone());
    assert_eq!(tool.base_dir, base);
    assert_eq!(tool.allowed_agents, vec!["bot-a".to_string()]);
    assert!(!tool.restrict_to_workspace);
}

#[test]
fn test_new_sets_empty_base_dir() {
    let tool = SpawnTool::new(vec![], false);
    assert!(tool.base_dir.is_empty());
}

#[test]
fn test_validate_agent_id_format_empty_string() {
    let result = validate_agent_id_format("");
    assert!(result.is_err());
    assert!(result.unwrap_err().contains("1-64 characters"));
}

#[test]
fn test_validate_agent_id_format_max_length_64() {
    let id = "a".repeat(64);
    let result = validate_agent_id_format(&id);
    assert!(result.is_ok());
}

#[test]
fn test_validate_agent_id_format_too_long_65() {
    let id = "a".repeat(65);
    let result = validate_agent_id_format(&id);
    assert!(result.is_err());
    assert!(result.unwrap_err().contains("1-64 characters"));
}

#[test]
fn test_validate_agent_id_format_all_valid_chars() {
    assert!(validate_agent_id_format("abcXYZ019_-").is_ok());
}

#[test]
fn test_validate_agent_id_format_single_char() {
    assert!(validate_agent_id_format("a").is_ok());
    assert!(validate_agent_id_format("Z").is_ok());
    assert!(validate_agent_id_format("0").is_ok());
    assert!(validate_agent_id_format("_").is_ok());
    assert!(validate_agent_id_format("-").is_ok());
}

#[test]
fn test_validate_agent_id_format_invalid_dot() {
    let result = validate_agent_id_format("hello.world");
    assert!(result.is_err());
    assert!(result.unwrap_err().contains("[a-zA-Z0-9_-]"));
}

#[test]
fn test_validate_agent_id_format_invalid_space() {
    let result = validate_agent_id_format("hello world");
    assert!(result.is_err());
    assert!(result.unwrap_err().contains("[a-zA-Z0-9_-]"));
}

#[test]
fn test_validate_agent_id_format_invalid_slash() {
    let result = validate_agent_id_format("a/b");
    assert!(result.is_err());
}

#[test]
fn test_validate_agent_id_format_invalid_unicode() {
    let result = validate_agent_id_format("böt");
    assert!(result.is_err());
}

#[test]
fn test_parse_args_invalid_json_garbage() {
    let tool = test_tool();
    let result = tool.parse_args("{garbage}}}");
    assert!(result.is_err());
    assert!(result.unwrap_err().contains("invalid JSON"));
}

#[test]
fn test_parse_args_task_not_string() {
    let tool = test_tool();
    let config = tool.parse_args(r#"{"task":42}"#).unwrap();
    assert!(config.task.is_none());
}

#[test]
fn test_parse_args_task_null() {
    let tool = test_tool();
    let config = tool.parse_args(r#"{"task":null}"#).unwrap();
    assert!(config.task.is_none());
}

#[test]
fn test_parse_args_system_not_string_ignored() {
    let tool = test_tool();
    let config = tool.parse_args(r#"{"task":"work","system":123}"#).unwrap();
    assert!(config.system.is_none());
}

#[test]
fn test_parse_args_agent_id_not_string_ignored() {
    let tool = test_tool();
    let config = tool
        .parse_args(r#"{"task":"work","agent_id":999}"#)
        .unwrap();
    assert!(config.agent_id.is_none());
}

#[test]
fn test_parse_args_restrict_to_workspace_inherited() {
    let tool_true = SpawnTool::new(vec![], true);
    let tool_false = SpawnTool::new(vec![], false);
    let cfg_t = tool_true.parse_args(r#"{"task":"a"}"#).unwrap();
    let cfg_f = tool_false.parse_args(r#"{"task":"a"}"#).unwrap();
    assert!(cfg_t.restrict_to_workspace);
    assert!(!cfg_f.restrict_to_workspace);
}

#[test]
fn test_shutdown_all_clears_registry() {
    let mut registry = SubagentRegistry::new();
    registry.insert(
        "bot".to_string(),
        SubagentEntry::new("/tmp/test.sock".to_string(), 0),
    );
    assert!(!registry.is_empty());
    let pids = shutdown_all(&mut registry);
    assert!(registry.is_empty());
    assert!(pids.is_empty());
}

#[test]
fn test_debug_trait() {
    let tool = SpawnTool::new(vec!["bot".to_string()], true);
    let debug_str = format!("{:?}", tool);
    assert!(debug_str.contains("SpawnTool"));
    assert!(debug_str.contains("bot"));
    assert!(debug_str.contains("restrict_to_workspace: true"));
}

#[test]
fn test_debug_with_base_dir() {
    let tool = SpawnTool::with_base_dir(vec![], false, "/some/path".to_string());
    let debug_str = format!("{:?}", tool);
    assert!(debug_str.contains("/some/path"));
}

#[test]
fn test_effective_config_path_prefers_explicit_config() {
    let explicit = "/tmp/explicit.json".to_string();
    let inherited = "/tmp/inherited.json".to_string();
    assert_eq!(
        effective_config_path(Some(&explicit), Some(inherited)),
        Some(explicit)
    );
}

#[test]
fn test_effective_config_path_inherits_runtime_config_when_explicit_absent() {
    let inherited = "/home/appuser/.quecto/runtime-configs/run.json".to_string();
    assert_eq!(
        effective_config_path(None, Some(inherited.clone())),
        Some(inherited)
    );
}

#[test]
fn test_parse_config_path_valid_absolute() {
    let tool = SpawnTool::new(vec![], true);
    let cfg = tool
        .parse_args(r#"{"task":"work","config":"/home/user/.quecto/config.json"}"#)
        .unwrap();
    assert_eq!(
        cfg.config_path,
        Some("/home/user/.quecto/config.json".to_string())
    );
}

#[test]
fn test_parse_config_path_valid_relative() {
    let tool = SpawnTool::new(vec![], true);
    let cfg = tool
        .parse_args(r#"{"task":"work","config":"configs/custom.json"}"#)
        .unwrap();
    assert_eq!(cfg.config_path, Some("configs/custom.json".to_string()));
}

#[test]
fn test_parse_config_path_traversal_rejected() {
    let tool = SpawnTool::new(vec![], true);
    let result = tool.parse_args(r#"{"task":"work","config":"../../etc/shadow"}"#);
    assert!(result.is_err());
    let err = result.unwrap_err();
    assert!(err.contains(".."), "expected '..' in error, got: {err}");
    assert!(
        err.contains("not allowed"),
        "expected 'not allowed' in error, got: {err}"
    );
}

#[test]
fn test_parse_config_path_traversal_absolute_rejected() {
    let tool = SpawnTool::new(vec![], true);
    let result = tool.parse_args(r#"{"task":"work","config":"/safe/../etc/shadow"}"#);
    assert!(result.is_err());
}

#[test]
fn test_parse_config_path_absent_is_none() {
    let tool = SpawnTool::new(vec![], true);
    let cfg = tool.parse_args(r#"{"task":"work"}"#).unwrap();
    assert!(cfg.config_path.is_none());
}

#[test]
fn test_parse_config_path_non_string_ignored() {
    let tool = SpawnTool::new(vec![], true);
    let cfg = tool.parse_args(r#"{"task":"work","config":123}"#).unwrap();
    assert!(cfg.config_path.is_none());
}

#[test]
fn test_parse_workflow_true() {
    let tool = SpawnTool::new(vec![], true);
    let cfg = tool
        .parse_args(r#"{"task":"work","workflow":true}"#)
        .unwrap();
    assert!(cfg.workflow);
    assert!(!cfg.workflow_guards);
}

#[test]
fn test_parse_workflow_false_by_default() {
    let tool = SpawnTool::new(vec![], true);
    let cfg = tool.parse_args(r#"{"task":"work"}"#).unwrap();
    assert!(!cfg.workflow);
    assert!(!cfg.workflow_guards);
}

#[test]
fn test_parse_workflow_guards_requires_workflow() {
    let tool = SpawnTool::new(vec![], true);
    let result = tool.parse_args(r#"{"task":"work","workflow_guards":true}"#);
    assert!(result.is_err());
    assert!(result
        .unwrap_err()
        .contains("workflow_guards requires workflow"));
}

#[test]
fn test_parse_workflow_guards_with_workflow_ok() {
    let tool = SpawnTool::new(vec![], true);
    let cfg = tool
        .parse_args(r#"{"task":"work","workflow":true,"workflow_guards":true}"#)
        .unwrap();
    assert!(cfg.workflow);
    assert!(cfg.workflow_guards);
}

#[test]
fn test_parse_workflow_non_bool_ignored() {
    let tool = SpawnTool::new(vec![], true);
    let cfg = tool
        .parse_args(r#"{"task":"work","workflow":"yes"}"#)
        .unwrap();
    assert!(!cfg.workflow);
}

#[test]
fn test_parse_workflow_guards_non_bool_ignored() {
    let tool = SpawnTool::new(vec![], true);
    let cfg = tool
        .parse_args(r#"{"task":"work","workflow_guards":1}"#)
        .unwrap();
    assert!(!cfg.workflow_guards);
}

#[test]
fn test_validate_config_path_clean_absolute() {
    let result = validate_config_path("/home/user/.quecto/config.json");
    assert!(result.is_ok());
}

#[test]
fn test_validate_config_path_clean_relative() {
    let result = validate_config_path("configs/custom.json");
    assert!(result.is_ok());
}

#[test]
fn test_validate_config_path_dotdot_relative() {
    let result = validate_config_path("../../etc/shadow");
    assert!(result.is_err());
    let err = result.unwrap_err();
    assert!(err.contains(".."));
    assert!(err.contains("not allowed"));
}

#[test]
fn test_validate_config_path_dotdot_embedded() {
    let result = validate_config_path("/safe/path/../etc/passwd");
    assert!(result.is_err());
}

#[test]
fn test_validate_config_path_single_dot_ok() {
    let result = validate_config_path("./config.json");
    assert!(result.is_ok());
}

// --- launch planning and the rest ---

fn base_config() -> SubagentConfig {
    let mut c = bare_config();
    c.agent_id = Some("w1".into());
    c
}

#[test]
fn includes_model_flag_when_set() {
    let mut cfg = base_config();
    cfg.model = Some("openai/gpt-5.5".into());
    let strs = build_child_cli_args("w1", "/run/w1.sock", &cfg, None, None, true, None);
    let pos = strs
        .iter()
        .position(|a| a == "--model")
        .expect("--model should be forwarded");
    assert_eq!(strs[pos + 1], "openai/gpt-5.5");
}

#[test]
fn omits_model_flag_when_absent() {
    let cfg = base_config();
    let strs = build_child_cli_args("w1", "/run/w1.sock", &cfg, None, None, true, None);
    assert!(
        !strs.iter().any(|a| a == "--model"),
        "no --model expected, got {strs:?}"
    );
}

#[test]
fn forwards_existing_flags_alongside_model() {
    let mut cfg = base_config();
    cfg.system = Some("be terse".into());
    cfg.model = Some("provider/large-model-4-6".into());
    cfg.workflow = true;
    cfg.workflow_guards = true;
    let conf = "/cfg.json".to_string();
    let parent = "parent-7".to_string();
    let spec = "/run/spec.json".to_string();
    let strs = build_child_cli_args(
        "w1",
        "/run/w1.sock",
        &cfg,
        Some(&conf),
        Some(&parent),
        false,
        Some(&spec),
    );
    for expected in [
        "--system",
        "--model",
        "--config",
        "--parent-id",
        "--workflow",
        "--workflow-guards",
        "--workflow-spec",
        "--no-sandbox",
    ] {
        assert!(
            strs.iter().any(|a| a == expected),
            "expected {expected} in {strs:?}"
        );
    }
}

#[test]
fn child_args_full_layout() {
    let mut cfg = bare_config();
    cfg.system = Some("sys".to_string());
    cfg.workflow = true;
    cfg.workflow_guards = true;
    let conf = "/c.json".to_string();
    let parent = "boss".to_string();
    let spec = "/tmp/wf.json".to_string();
    let args = build_child_cli_args(
        "kid",
        "/tmp/k.sock",
        &cfg,
        Some(&conf),
        Some(&parent),
        false,
        Some(&spec),
    );
    let expected: Vec<&str> = vec![
        "agent",
        "--mode",
        "uds",
        "-s",
        "kid",
        "--socket",
        "/tmp/k.sock",
        "--persist",
        "--system",
        "sys",
        "--config",
        "/c.json",
        "--parent-id",
        "boss",
        "--workflow",
        "--workflow-guards",
        "--workflow-spec",
        "/tmp/wf.json",
        "--no-sandbox",
    ];
    assert_eq!(args, expected);
}

#[test]
fn stub_spawn_registers_default_session() {
    let mut tool = SpawnTool::new(vec![], true);
    let cfg = tool.parse_args(r#"{"task":"hi"}"#).unwrap();
    let r = tool.stub_spawn(&cfg);
    assert!(!r.is_error);
    assert_eq!(
        r.content,
        "Subagent 'subagent' is running. Use agent_cmd to interact."
    );
    let e = tool.registry.get("subagent").expect("registered");
    assert_eq!(e.socket_path, "/stub/quecto-agent-subagent.sock");
    assert_eq!(e.pid, 0);
}

#[test]
fn plan_launch_refuses_running_name() {
    let mut tool = SpawnTool::with_base_dir(vec![], true, "/base".to_string());
    tool.register_launched("kid".to_string(), "/tmp/k.sock".to_string(), 42);
    let mut cfg = bare_config();
    cfg.agent_id = Some("kid".to_string());
    let r = tool.plan_launch(&cfg, None, None);
    match r {
        Err(e) => {
            assert!(e.is_error);
            assert_eq!(
                e.content,
                "Failed to spawn subagent: agent 'kid' is already running"
            );
        }
        Ok(_) => panic!("expected refusal"),
    }
}

#[test]
fn plan_launch_places_socket_and_inherits_config() {
    let tool = SpawnTool::with_base_dir(vec![], true, "/base".to_string())
        .with_socket_dir("/run/q".to_string());
    let mut cfg = bare_config();
    cfg.agent_id = Some("kid".to_string());
    let plan = tool
        .plan_launch(&cfg, Some("/inherited.json".to_string()), None)
        .ok()
        .expect("planned");
    assert_eq!(plan.session_name, "kid");
    assert_eq!(plan.socket_path, "/run/q/quecto-agent-kid.sock");
    assert!(plan.args.windows(2).any(|w| w[0] == "--config" && w[1] == "/inherited.json"));
}

#[test]
fn shutdown_all_returns_real_pids() {
    let mut registry = SubagentRegistry::new();
    registry.insert("a".to_string(), SubagentEntry::new("/a".to_string(), 0));
    registry.insert("b".to_string(), SubagentEntry::new("/b".to_string(), 77));
    let pids = shutdown_all(&mut registry);
    assert_eq!(pids, vec![77]);
    assert!(registry.is_empty());
}

#[test]
fn exit_signal_prefers_signal() {
    let e = exit_signal_of(true, None, Some(9));
    assert_eq!(e.signal, Some(9));
    assert_eq!(e.exit_code, None);
    let e = exit_signal_of(true, Some(3), None);
    assert_eq!(e.exit_code, Some(3));
    let e = exit_signal_of(false, Some(3), None);
    assert_eq!(e.exit_code, None);
}

#[test]
fn messages_of_spawn() {
    assert_eq!(
        running_message("w"),
        "Subagent 'w' is running. Use agent_cmd to interact."
    );
    let r = failed_spawn("boom");
    assert!(r.is_error);
    assert_eq!(r.content, "Failed to spawn subagent: boom");
}

#[test]
fn parse_args_accepts_by_value_workflow_spec() {
    let tool = test_tool();
    let args = r#"{"task":"t","workflow_spec":{"template":{"id":"rev","label":"Rev","description":"d","steps":[{"key":"a","label":"A","phase":"review"}]}}}"#;
    let cfg = tool.parse_args(args).expect("should parse");
    let spec = cfg.workflow_spec.expect("workflow_spec should be set");
    let v: serde_json::Value = serde_json::from_str(&spec).unwrap();
    assert_eq!(v["template"]["id"], "rev");
    assert_eq!(v["template"]["steps"].as_array().unwrap().len(), 1);
}

#[test]
fn parse_args_rejects_workflow_spec_without_template() {
    let tool = test_tool();
    let args = r#"{"task":"t","workflow_spec":{"inputs":{"pr":7}}}"#;
    let err = tool.parse_args(args).unwrap_err();
    assert!(err.contains("invalid workflow_spec"), "got: {err}");
    let err = tool.parse_args(r#"{"task":"t","workflow_spec":{"template":3}}"#).unwrap_err();
    assert!(err.contains("invalid workflow_spec"), "got: {err}");
}

#[test]
fn workflow_spec_size_is_bounded() {
    assert_eq!(workflow_spec_too_large(10, 10), None);
    assert_eq!(workflow_spec_too_large(0, 0), None);
    assert_eq!(
        workflow_spec_too_large(1025, 1024),
        Some("workflow spec too large: 1025 bytes (max 1024)".to_string())
    );
}
