use quecto_tools::coding_job::{coding_job_result, format_command_error, CodingAction, CodingJobTool};

fn make_tool() -> CodingJobTool {
    CodingJobTool::new()
}

#[test]
fn coding_job_test_definition_name() {
    assert_eq!(make_tool().definition().name, "coding_job");
}

#[test]
fn coding_job_test_definition_schema_has_action() {
    let def = make_tool().definition();
    assert!(def.parameters_schema.contains("action"));
    assert!(def.parameters_schema.contains("required"));
}

#[test]
fn coding_job_test_definition_description() {
    let desc = make_tool().definition().description;
    assert!(desc.contains("WORKFLOW"));
    assert!(desc.contains("create"));
    assert!(desc.contains("import"));
    assert!(desc.contains("run"));
}

#[test]
fn test_definition_schema_has_create_import() {
    let schema = make_tool().definition().parameters_schema;
    assert!(schema.contains("\"create\""));
    assert!(schema.contains("\"import\""));
    assert!(schema.contains("\"url\""));
    assert!(schema.contains("\"name\""));
}

#[test]
fn coding_job_test_debug_format() {
    assert!(format!("{:?}", make_tool()).contains("CodingJobTool"));
}

#[test]
fn test_message_action_requires_subagent_mode() {
    let r = make_tool().route_action(r#"{"action":"message","text":"hi"}"#);
    let e = r.unwrap_err();
    assert!(e.contains("subagent"));
}

#[test]
fn coding_job_test_unknown_action() {
    let e = make_tool().route_action(r#"{"action":"explode"}"#).unwrap_err();
    assert!(e.contains("unknown action"));
    assert_eq!(e, "unknown action: explode");
}

#[test]
fn coding_job_test_invalid_json() {
    let e = make_tool().route_action("not json").unwrap_err();
    assert!(e.contains("invalid JSON"));
}

#[test]
fn coding_job_test_missing_action() {
    let e = make_tool().route_action(r#"{"goal":"t"}"#).unwrap_err();
    assert!(e.contains("action"));
}

#[test]
fn test_status_missing_ids() {
    let e = make_tool().route_action(r#"{"action":"status"}"#).unwrap_err();
    assert_eq!(e, "status requires job_id or run_id");
}

#[test]
fn routes_carry_their_ids() {
    let t = make_tool();
    match t.route_action(r#"{"action":"status","run_id":"r1"}"#).unwrap() {
        CodingAction::StatusByRun(r) => assert_eq!(r, "r1"),
        other => panic!("unexpected {other:?}"),
    }
    match t.route_action(r#"{"action":"status","job_id":"j1","run_id":"r1"}"#).unwrap() {
        CodingAction::StatusByJob(j) => assert_eq!(j, "j1"),
        other => panic!("unexpected {other:?}"),
    }
    match t.route_action(r#"{"action":"cleanup","job_id":"j1"}"#).unwrap() {
        CodingAction::Cleanup { job_id, keep_artifacts } => {
            assert_eq!(job_id, "j1");
            assert!(keep_artifacts);
        }
        other => panic!("unexpected {other:?}"),
    }
    assert_eq!(
        t.route_action(r#"{"action":"cancel"}"#).unwrap_err(),
        "cancel requires job_id"
    );
    assert!(matches!(
        t.route_action(r#"{"action":"list"}"#).unwrap(),
        CodingAction::List
    ));
}

#[test]
fn results_and_errors() {
    let r = coding_job_result(Ok("{}".to_string()));
    assert!(!r.is_error);
    let r = coding_job_result(Err(format_command_error("boom")));
    assert!(r.is_error);
    assert_eq!(r.content, "error: boom");
}
