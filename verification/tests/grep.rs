use quecto_tools::grep::{
    build_rg_command, format_grep_matches, parse_grep_args, parse_rg_matches, relative_path,
    rg_failure, truncate_line, GrepTool, RgMatch,
};
use quecto_tools::tool::Sandbox;

fn rg_line(path: &str, n: u64) -> String {
    format!(
        r#"{{"type":"match","data":{{"path":{{"text":"{path}"}},"lines":{{"text":"x\n"}},"line_number":{n}}}}}"#
    )
}

#[test]
fn parses_only_match_events() {
    let out = format!(
        "{}\n{}\n{}\n\n{}\n",
        r#"{"type":"begin","data":{"path":{"text":"/w/a.rs"}}}"#,
        rg_line("/w/a.rs", 3),
        "garbage",
        rg_line("/w/b.rs", 7)
    );
    let ms = parse_rg_matches(&out);
    assert_eq!(ms.len(), 2);
    assert_eq!(ms[0].file_path, "/w/a.rs");
    assert_eq!(ms[0].line_number, 3);
    assert_eq!(ms[1].file_path, "/w/b.rs");
    assert_eq!(ms[1].line_number, 7);
}

#[test]
fn truncate_line_cuts_on_char_boundary() {
    assert_eq!(truncate_line("short", 10), ("short".to_string(), false));
    let (t, cut) = truncate_line("aaaaaaaaaa", 4);
    assert!(cut);
    assert_eq!(t, "aaaa… [line is 10B]");
    let (t, _) = truncate_line("ééé", 3);
    assert_eq!(t, "é… [line is 6B]");
}

fn files() -> Vec<(String, Vec<String>)> {
    vec![(
        "/w/a.rs".to_string(),
        (1..=10).map(|i| format!("line {i}")).collect(),
    )]
}

fn m(path: &str, n: u64) -> RgMatch {
    RgMatch { file_path: path.to_string(), line_number: n }
}

#[test]
fn formats_match_with_context() {
    let ms = vec![m("/w/a.rs", 5)];
    let out = format_grep_matches(&ms, &[true], &files(), "/w", 100, 1, 500, 51200);
    assert_eq!(out, "a.rs-4- line 4\na.rs:5: line 5\na.rs-6- line 6");
}

#[test]
fn limit_notice_only_when_more_matches() {
    let ms = vec![m("/w/a.rs", 1), m("/w/a.rs", 2), m("/w/a.rs", 3)];
    let out = format_grep_matches(&ms, &[true, true, true], &files(), "/w", 2, 0, 500, 51200);
    assert_eq!(
        out,
        "a.rs:1: line 1\na.rs:2: line 2\n\n[2 matches limit reached. Use limit=4 for more, or refine pattern]"
    );
    let out = format_grep_matches(&ms, &[true, true, true], &files(), "/w", 3, 0, 500, 51200);
    assert!(!out.contains("limit reached"));
}

#[test]
fn rejected_paths_and_empty_results() {
    let ms = vec![m("/etc/passwd", 1)];
    let out = format_grep_matches(&ms, &[false], &files(), "/w", 100, 0, 500, 51200);
    assert_eq!(out, "No matches found");
    let out = format_grep_matches(&[], &[], &files(), "/w", 100, 0, 500, 51200);
    assert_eq!(out, "No matches found");
}

#[test]
fn byte_cap_and_cut_lines_are_noted() {
    let ms = vec![m("/w/a.rs", 1), m("/w/a.rs", 2)];
    // The first line "a.rs:1: line 1" is 14 bytes (+1 newline): only it fits in 20.
    let out = format_grep_matches(&ms, &[true, true], &files(), "/w", 100, 0, 500, 20);
    assert_eq!(out, "a.rs:1: line 1\n\n[20B limit reached]");
    let out = format_grep_matches(&ms[..1], &[true], &files(), "/w", 100, 0, 3, 51200);
    assert_eq!(
        out,
        "a.rs:1: lin… [line is 6B]\n\n[Some lines truncated to 3 chars. Use read tool to see full lines]"
    );
}

#[test]
fn relative_paths() {
    assert_eq!(relative_path("/w/src/a.rs", "/w"), "src/a.rs");
    assert_eq!(relative_path("/other/a.rs", "/w"), "/other/a.rs");
}

#[test]
fn grep_args_and_command() {
    let q = parse_grep_args(r#"{"pattern":"fn main","glob":"*.rs","literal":true}"#)
        .ok()
        .unwrap();
    assert_eq!(q.path, ".");
    let cmd = build_rg_command("rg", "/w", &q, "/w/.");
    assert_eq!(
        cmd.args,
        vec!["--json", "--line-number", "--color=never", "--hidden", "--fixed-strings", "--glob", "*.rs", "--", "fn main", "/w/."]
    );
    assert_eq!(cmd.current_dir, "/w");
    match parse_grep_args(r#"{"path":"x"}"#) {
        Err(Ok(r)) => {
            assert!(r.is_error);
            assert!(r.content.starts_with("missing 'pattern' argument"));
        }
        _ => panic!("expected a reply"),
    }
    assert!(matches!(parse_grep_args("{bad"), Err(Err(_))));
}

#[test]
fn rg_exit_codes() {
    assert!(rg_failure(Some(0), false, "").is_none());
    assert!(rg_failure(Some(1), true, "").is_none());
    assert_eq!(
        rg_failure(Some(2), false, "  bad regex \n").unwrap().content,
        "grep error: bad regex"
    );
    assert_eq!(
        rg_failure(None, true, "").unwrap().content,
        "rg exited unexpectedly"
    );
    assert!(rg_failure(None, false, "").is_none());
}

#[test]
fn grep_tool_definition() {
    let t = GrepTool::new("/w".to_string(), Sandbox::new(Some("/w".to_string()), true));
    let d = t.definition();
    assert_eq!(d.name, "grep");
    assert!(d.description.contains("Example"));
    assert_eq!(t.rg_cmd(), "rg");
    let v: serde_json::Value = serde_json::from_str(&d.parameters_schema).unwrap();
    assert_eq!(v["required"][0], "pattern");
}
