use quecto_tools::registry::{
    normalise_arguments, unknown_tool, AgentDefaults, AgentsConfig, Config, ToolRegistryImpl,
};
use quecto_tools::tool::{DomainError, Sandbox, ToolDefinition};

fn def(name: &str) -> ToolDefinition {
    ToolDefinition {
        name: name.to_string(),
        description: format!("{name} tool"),
        parameters_schema: "{}".to_string(),
    }
}

#[test]
fn core_tools_are_registered_in_name_order() {
    let reg = ToolRegistryImpl::with_core_tools("/w".to_string(), Sandbox::new(Some("/w".to_string()), true));
    let names: Vec<String> = reg.definitions().iter().map(|d| d.name.clone()).collect();
    assert_eq!(names, vec!["bash", "docs", "edit", "find", "grep", "ls", "read", "write"]);
    assert!(reg.get("grep").is_some());
    assert!(reg.get("nope").is_none());
}

#[test]
fn removed_names_stay_denied() {
    let mut reg = ToolRegistryImpl::new();
    assert!(reg.register(def("a")));
    assert!(reg.remove("a"));
    assert!(!reg.contains("a"));
    assert!(!reg.register(def("a")));
    assert!(!reg.register_extension(def("a")));
    assert!(!reg.contains("a"));
    assert!(!reg.remove("ghost"));
}

#[test]
fn extensions_cannot_shadow_core_tools() {
    let mut reg = ToolRegistryImpl::new();
    reg.register(def("core"));
    assert!(!reg.register_extension(def("core")));
    assert!(reg.register_extension(def("ext")));
    assert!(reg.register_extension(def("ext")));
    assert_eq!(reg.extension_names(), vec!["ext".to_string()]);
    reg.unregister_extension("core");
    assert!(reg.contains("core"));
    reg.unregister_extension("ext");
    assert!(!reg.contains("ext"));
    assert!(reg.extension_names().is_empty());
}

#[test]
fn remove_all_warns_for_missing_names() {
    let mut reg = ToolRegistryImpl::new();
    reg.register(def("a"));
    reg.register(def("b"));
    let w = reg.remove_all(&["a".to_string(), "x".to_string(), "a".to_string()]);
    assert_eq!(w, vec!["x".to_string(), "a".to_string()]);
    assert_eq!(reg.names(), vec!["b".to_string()]);
}

#[test]
fn replacing_keeps_one_definition() {
    let mut reg = ToolRegistryImpl::new();
    reg.register(def("b"));
    reg.register(def("a"));
    let mut d = def("b");
    d.description = "second".to_string();
    reg.register(d);
    assert_eq!(reg.definitions().len(), 2);
    assert_eq!(reg.get("b").unwrap().description, "second");
    assert_eq!(reg.definitions()[0].name, "a");
}

#[test]
fn guards_and_arguments() {
    let mut reg = ToolRegistryImpl::new();
    assert_eq!(reg.guard_count(), 0);
    reg.register_guard(7);
    assert_eq!(reg.guard_count(), 1);
    reg.register_guard(3);
    assert_eq!(reg.guards(), &[7u64, 3u64][..]);
    assert_eq!(normalise_arguments("  \n"), "{}");
    assert_eq!(normalise_arguments(r#"{"a":1}"#), r#"{"a":1}"#);
    match unknown_tool("zap") {
        DomainError::Tool(m) => assert_eq!(m, "unknown tool: zap"),
        _ => panic!("expected a tool error"),
    }
}

#[test]
fn exec_settings_do_not_change_the_core_set() {
    let a = ToolRegistryImpl::with_core_tools_and_exec_settings(
        "/w".to_string(),
        Sandbox::new(None, false),
        1024,
    );
    let b = ToolRegistryImpl::with_core_tools("/w".to_string(), Sandbox::new(None, false));
    let mut na = a.names();
    let mut nb = b.names();
    na.sort();
    nb.sort();
    assert_eq!(na, nb);
    assert_eq!(na.len(), 8);
    assert!(a.contains("bash") && a.contains("docs"));
}

#[test]
fn names_and_extension_names_have_no_duplicates() {
    let reg = ToolRegistryImpl::with_core_tools("/w".to_string(), Sandbox::new(None, false));
    assert_eq!(reg.guard_count(), 0);
    assert_eq!(reg.names().len(), reg.definitions().len());
    let mut reg = ToolRegistryImpl::new();
    assert!(reg.register_extension(def("x")));
    assert!(reg.register_extension(def("x")));
    assert_eq!(reg.extension_names(), vec!["x".to_string()]);
    let a = ToolRegistryImpl::with_core_tools_and_exec_settings("/a".to_string(), Sandbox::new(None, false), 5);
    let b = ToolRegistryImpl::with_core_tools("/b".to_string(), Sandbox::new(None, true));
    assert_eq!(a.definitions().len(), b.definitions().len());
    for (x, y) in a.definitions().iter().zip(b.definitions()) {
        assert_eq!(x.name, y.name);
        assert_eq!(x.description, y.description);
        assert_eq!(x.parameters_schema, y.parameters_schema);
    }
}

#[test]
fn session_key_is_kept_and_replaced() {
    let mut reg = ToolRegistryImpl::with_core_tools("/w".to_string(), Sandbox::new(None, false));
    assert_eq!(reg.session_key(), None);
    reg.set_session_key("s1");
    assert_eq!(reg.session_key(), Some("s1"));
    reg.set_session_key("s2");
    assert_eq!(reg.session_key(), Some("s2"));
    assert_eq!(reg.names().len(), 8);
}

#[test]
fn exec_settings_come_from_the_agent_defaults() {
    let config = Config {
        agents: AgentsConfig { defaults: AgentDefaults { exec_max_capture_bytes: 4096 } },
    };
    assert_eq!(ToolRegistryImpl::exec_registry_settings_from_config(&config), 4096);
}
