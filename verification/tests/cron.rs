use quecto_tools::cron::{
    add_reply, cron_definition, cron_result, format_cron_list, job_id, job_not_found,
    removed_reply, route_cron_action, set_enabled_reply, CronAction, CronJob, CronSchedule, CronTool,
};

fn add(args: &str) -> CronJob {
    match route_cron_action(args).unwrap() {
        CronAction::Add(j) => j,
        other => panic!("unexpected {other:?}"),
    }
}

#[test]
fn adds_interval_and_cron_jobs() {
    let j = add(r#"{"action":"add","name":"Hourly Check","message":"Check health","interval_seconds":3600}"#);
    assert_eq!(j.id, "hourly-check");
    assert_eq!(j.schedule, CronSchedule::Interval { seconds: 3600 });
    assert!(j.enabled);
    assert!(!j.run_once);
    let j = add(r#"{"action":"add","name":"Daily Report","message":"Generate report","cron_expression":"0 9 * * *","run_once":true,"deliver_to":"telegram:1"}"#);
    assert_eq!(j.schedule, CronSchedule::Cron { expression: "0 9 * * *".to_string() });
    assert!(j.run_once);
    assert_eq!(j.deliver_to.as_deref(), Some("telegram:1"));
    assert_eq!(add_reply("Daily Report", true).unwrap(), "Job 'Daily Report' added successfully.");
    assert_eq!(add_reply("X", false).unwrap_err(), "job 'X' already exists");
}

#[test]
fn refuses_bad_calls() {
    assert!(route_cron_action("not json").unwrap_err().contains("invalid JSON"));
    assert!(route_cron_action(r#"{"name":"test"}"#).unwrap_err().contains("action"));
    assert_eq!(route_cron_action(r#"{"action":"purge"}"#).unwrap_err(), "unknown action: purge");
    assert!(route_cron_action(r#"{"action":"add","message":"t","interval_seconds":60}"#)
        .unwrap_err()
        .contains("name"));
    assert_eq!(
        route_cron_action(r#"{"action":"add","name":"Job","message":"test"}"#).unwrap_err(),
        "must provide either cron_expression or interval_seconds"
    );
    assert_eq!(
        route_cron_action(r#"{"action":"add","name":"Job","message":"test","interval_seconds":0}"#)
            .unwrap_err(),
        "interval_seconds must be greater than 0"
    );
}

#[test]
fn names_the_job_acted_on() {
    match route_cron_action(r#"{"action":"disable","name":"My Job"}"#).unwrap() {
        CronAction::SetEnabled(n, e) => {
            assert_eq!(n, "My Job");
            assert!(!e);
        }
        other => panic!("unexpected {other:?}"),
    }
    assert!(matches!(route_cron_action(r#"{"action":"list"}"#).unwrap(), CronAction::List));
    assert_eq!(set_enabled_reply("My Job", true), "Job 'My Job' enabled.");
    assert_eq!(removed_reply("Temp Job"), "Job 'Temp Job' removed.");
    assert_eq!(job_not_found("z"), "job 'z' not found");
    assert_eq!(job_id("A B  c"), "a-b--c");
}

#[test]
fn lists_jobs() {
    assert_eq!(format_cron_list(&[], 0), "No cron jobs configured.");
    let mut j = add(r#"{"action":"add","name":"Test Job","message":"m","interval_seconds":60,"run_once":true}"#);
    j.last_run_at = 100;
    j.last_error = Some("boom".to_string());
    let out = format_cron_list(&[j], 160);
    assert_eq!(
        out,
        "1 cron job(s):\n- Test Job [one-shot] [enabled] (every 60s) last_run: 60s ago last_error: boom\n"
    );
    let r = cron_result(Err("x".to_string()));
    assert!(r.is_error);
    assert_eq!(cron_definition().name, "cron");
}

fn test_tool() -> CronTool {
    CronTool::new(Vec::new())
}

fn find_by_name<'a>(tool: &'a CronTool, name: &str) -> Option<&'a CronJob> {
    tool.job_list().iter().find(|j| j.name == name)
}

#[test]
fn test_add_interval_job() {
    let mut tool = test_tool();
    let result = tool.execute(
        r#"{"action":"add","name":"Hourly Check","message":"Check health","interval_seconds":3600}"#,
        1000,
    );
    assert!(!result.is_error);
    assert!(result.content.contains("added"));
}

#[test]
fn test_add_cron_job() {
    let mut tool = test_tool();
    let result = tool.execute(
        r#"{"action":"add","name":"Daily Report","message":"Generate report","cron_expression":"0 9 * * *"}"#,
        1000,
    );
    assert!(!result.is_error);
    assert!(result.content.contains("added"));
}

#[test]
fn test_add_run_once_job() {
    let mut tool = test_tool();
    let result = tool.execute(
        r#"{"action":"add","name":"Reminder","message":"Call dentist","interval_seconds":1800,"run_once":true}"#,
        1000,
    );
    assert!(!result.is_error);
    assert!(result.content.contains("added"));
    let job = find_by_name(&tool, "Reminder").unwrap();
    assert!(job.run_once, "job should have run_once=true");
}

#[test]
fn test_add_job_without_run_once_defaults_to_false() {
    let mut tool = test_tool();
    let result = tool.execute(
        r#"{"action":"add","name":"Recurring","message":"check","interval_seconds":60}"#,
        1000,
    );
    assert!(!result.is_error);
    let job = find_by_name(&tool, "Recurring").unwrap();
    assert!(!job.run_once, "job should default to run_once=false");
}

#[test]
fn test_list_shows_one_shot_for_run_once_jobs() {
    let mut tool = test_tool();
    tool.execute(
        r#"{"action":"add","name":"Reminder","message":"test","interval_seconds":1800,"run_once":true}"#,
        1000,
    );
    let result = tool.execute(r#"{"action":"list"}"#, 1000);
    assert!(!result.is_error);
    assert!(
        result.content.contains("one-shot"),
        "list output should show 'one-shot' for run_once jobs, got: {}",
        result.content
    );
}

#[test]
fn cron_tool_test_list_empty() {
    let mut tool = test_tool();
    let result = tool.execute(r#"{"action":"list"}"#, 1000);
    assert!(!result.is_error);
    assert!(result.content.contains("No cron jobs"));
}

#[test]
fn test_list_with_jobs() {
    let mut tool = test_tool();
    tool.execute(
        r#"{"action":"add","name":"Test Job","message":"test","interval_seconds":60}"#,
        1000,
    );
    let result = tool.execute(r#"{"action":"list"}"#, 1000);
    assert!(!result.is_error);
    assert!(result.content.contains("Test Job"));
}

#[test]
fn test_disable_job() {
    let mut tool = test_tool();
    tool.execute(
        r#"{"action":"add","name":"My Job","message":"test","interval_seconds":60}"#,
        1000,
    );
    let result = tool.execute(r#"{"action":"disable","name":"My Job"}"#, 1000);
    assert!(!result.is_error);
    assert!(result.content.contains("disabled"));
}

#[test]
fn test_remove_job() {
    let mut tool = test_tool();
    tool.execute(
        r#"{"action":"add","name":"Temp Job","message":"test","interval_seconds":60}"#,
        1000,
    );
    let result = tool.execute(r#"{"action":"remove","name":"Temp Job"}"#, 1000);
    assert!(!result.is_error);
    assert!(result.content.contains("removed"));
}

#[test]
fn cron_tool_test_missing_action() {
    let mut tool = test_tool();
    let result = tool.execute(r#"{"name":"test"}"#, 1000);
    assert!(result.is_error);
    assert!(result.content.contains("action"));
}

#[test]
fn cron_tool_test_unknown_action() {
    let mut tool = test_tool();
    let result = tool.execute(r#"{"action":"purge"}"#, 1000);
    assert!(result.is_error);
    assert!(result.content.contains("unknown action"));
}

#[test]
fn test_add_missing_name() {
    let mut tool = test_tool();
    let result = tool.execute(r#"{"action":"add","message":"test","interval_seconds":60}"#, 1000);
    assert!(result.is_error);
    assert!(result.content.contains("name"));
}

#[test]
fn test_add_missing_schedule() {
    let mut tool = test_tool();
    let result = tool.execute(r#"{"action":"add","name":"Job","message":"test"}"#, 1000);
    assert!(result.is_error);
    assert!(result.content.contains("cron_expression or interval_seconds"));
}

#[test]
fn cron_tool_test_invalid_json() {
    let mut tool = test_tool();
    let result = tool.execute("not json", 1000);
    assert!(result.is_error);
    assert!(result.content.contains("invalid JSON"));
}

#[test]
fn test_enable_job() {
    let mut tool = test_tool();
    tool.execute(
        r#"{"action":"add","name":"My Job","message":"test","interval_seconds":60}"#,
        1000,
    );
    tool.execute(r#"{"action":"disable","name":"My Job"}"#, 1000);
    let result = tool.execute(r#"{"action":"enable","name":"My Job"}"#, 1000);
    assert!(!result.is_error);
    assert!(result.content.contains("enabled"));
}

#[test]
fn test_add_with_deliver_to() {
    let mut tool = test_tool();
    let result = tool.execute(
        r#"{"action":"add","name":"Notify","message":"check","interval_seconds":60,"deliver_to":"telegram:123"}"#,
        1000,
    );
    assert!(!result.is_error);
    assert!(result.content.contains("added"));
}

#[test]
fn cron_tool_test_definition() {
    let tool = test_tool();
    let def = tool.definition();
    assert_eq!(def.name, "cron");
    assert!(def.description.contains("cron"));
}

#[test]
fn cron_tool_test_debug_format() {
    let tool = test_tool();
    let debug = format!("{:?}", tool);
    assert!(debug.contains("CronTool"));
}

#[test]
fn duplicate_ids_are_refused_and_state_is_kept() {
    let mut tool = test_tool();
    let first = tool.execute(r#"{"action":"add","name":"Hello World","message":"a","interval_seconds":5}"#, 0);
    assert!(!first.is_error);
    let second = tool.execute(r#"{"action":"add","name":"hello world","message":"b","interval_seconds":5}"#, 0);
    assert!(second.is_error);
    assert_eq!(second.content, "job 'hello world' already exists");
    assert_eq!(tool.job_list().len(), 1);
    let gone = tool.execute(r#"{"action":"remove","name":"Nope"}"#, 0);
    assert_eq!(gone.content, "job 'Nope' not found");
    let jobs = tool.into_jobs();
    assert_eq!(jobs[0].id, "hello-world");
}
