use quecto_tools::find::{
    build_fd_command, build_full_path_pattern, fd_failure, format_find_output,
    is_catch_all_gitignore, parse_find_args, pattern_has_path_segment, FindTool,
};
use quecto_tools::tool::Sandbox;

#[test]
fn full_path_patterns() {
    assert_eq!(build_full_path_pattern("src/*.rs"), "**/src/*.rs");
    assert_eq!(build_full_path_pattern("./src/*.rs"), "**/src/*.rs");
    assert_eq!(build_full_path_pattern("/src/*.rs"), "**/src/*.rs");
    assert_eq!(build_full_path_pattern("**/*.rs"), "**/*.rs");
    assert_eq!(build_full_path_pattern("*.rs"), "*.rs");
    assert!(pattern_has_path_segment("a/b"));
    assert!(!pattern_has_path_segment("ab"));
}

#[test]
fn fd_command_layout() {
    let ig = vec!["/w/.gitignore".to_string()];
    let c = build_fd_command("fd", "/w", "src/*.rs", "/w/.", 1000, &ig);
    assert_eq!(
        c.args,
        vec![
            "--glob", "--color=never", "--hidden", "--max-results", "1000", "--full-path",
            "--ignore-file", "/w/.gitignore", "--", "**/src/*.rs", "/w/."
        ]
    );
    let c = build_fd_command("fd", "/w", "*.rs", "/w", 5, &Vec::new());
    assert_eq!(c.args, vec!["--glob", "--color=never", "--hidden", "--max-results", "5", "--", "*.rs", "/w"]);
}

#[test]
fn catch_all_gitignores() {
    assert!(is_catch_all_gitignore("*"));
    assert!(is_catch_all_gitignore("*\n!.gitignore"));
    assert!(is_catch_all_gitignore("**\n# comment\n!README.md"));
    assert!(!is_catch_all_gitignore("target/\n*.log"));
    assert!(!is_catch_all_gitignore("node_modules/"));
    assert!(!is_catch_all_gitignore("# only a comment\n"));
}

#[test]
fn find_output_layout() {
    assert_eq!(format_find_output("  \n", "/w", 1000, 51200), "No files found matching pattern");
    assert_eq!(format_find_output("/w/a.rs\n/w/b/c.rs\n", "/w", 1000, 51200), "a.rs\nb/c.rs");
    assert_eq!(
        format_find_output("/w/a.rs\n/w/b.rs\n", "/w", 2, 51200),
        "a.rs\nb.rs\n[2 results limit reached. Use limit=4 for more, or refine pattern]"
    );
    assert_eq!(
        format_find_output("/w/a.rs\n/w/b.rs\n", "/w", 1000, 6),
        "a.rs\n[6B limit reached]"
    );
}

#[test]
fn find_args_and_failures() {
    let (p, d) = parse_find_args(r#"{"pattern":"*.rs"}"#).ok().unwrap();
    assert_eq!(p, "*.rs");
    assert_eq!(d, ".");
    match parse_find_args("{}") {
        Err(Ok(r)) => assert!(r.content.contains("missing 'pattern'")),
        _ => panic!("expected reply"),
    }
    assert!(fd_failure(Some(1), true, "").is_none());
    assert!(fd_failure(Some(3), false, "x").is_none());
    assert_eq!(fd_failure(Some(2), false, " oops ").unwrap().content, "find error: oops");
    assert_eq!(fd_failure(None, true, "").unwrap().content, "fd exited unexpectedly");
    let t = FindTool::new("/w".to_string(), Sandbox::new(None, false));
    assert_eq!(t.fd_cmd(), "fd");
    assert_eq!(t.definition().name, "find");
}
