use quecto_tools::path_utils::{
    expand_tilde, expand_tilde_with, normalize_at_prefix, normalize_unicode_spaces,
    pick_read_path, read_path_candidates, resolve_read_path, resolve_to_cwd, resolve_with_home,
};

// --- normalize_at_prefix ---

#[test]
fn strips_at_prefix() {
    assert_eq!(normalize_at_prefix("@src/main.rs"), "src/main.rs");
}

#[test]
fn no_at_prefix_unchanged() {
    assert_eq!(normalize_at_prefix("src/main.rs"), "src/main.rs");
}

#[test]
fn double_at_strips_one() {
    assert_eq!(normalize_at_prefix("@@foo"), "@foo");
}

// --- expand_tilde ---

#[test]
fn tilde_alone_expands_to_home() {
    let result = expand_tilde("~");
    let home = dirs::home_dir().unwrap();
    assert_eq!(result, home.to_string_lossy());
}

#[test]
fn tilde_slash_expands() {
    let result = expand_tilde("~/foo/bar");
    let home = dirs::home_dir().unwrap();
    assert_eq!(result, home.join("foo/bar").to_string_lossy());
}

#[test]
fn no_tilde_unchanged() {
    assert_eq!(expand_tilde("foo/bar"), "foo/bar");
}

#[test]
fn absolute_path_unchanged_by_tilde_expand() {
    assert_eq!(expand_tilde("/usr/bin/ls"), "/usr/bin/ls");
}

#[test]
fn tilde_without_home_is_kept() {
    assert_eq!(expand_tilde_with("~", None), "~");
    assert_eq!(expand_tilde_with("~/a", None), "~/a");
    assert_eq!(expand_tilde_with("~/a", Some("/home/u".to_string())), "/home/u/a");
    assert_eq!(expand_tilde_with("~user/a", Some("/home/u".to_string())), "~user/a");
}

// --- normalize_unicode_spaces ---

#[test]
fn nbsp_normalised() {
    assert_eq!(normalize_unicode_spaces("my\u{00A0}file.txt"), "my file.txt");
}

#[test]
fn narrow_nbsp_normalised() {
    assert_eq!(normalize_unicode_spaces("my\u{202F}file.txt"), "my file.txt");
}

#[test]
fn regular_space_unchanged() {
    assert_eq!(normalize_unicode_spaces("my file.txt"), "my file.txt");
}

#[test]
fn no_special_spaces_fast_path() {
    let s = "hello_world.rs";
    let result = normalize_unicode_spaces(s);
    assert_eq!(result, s);
}

#[test]
fn all_special_spaces_normalised() {
    let s = "a\u{2002}b\u{200A}c\u{205F}d\u{3000}e\u{2001}f";
    assert_eq!(normalize_unicode_spaces(s), "a b c d e\u{2001}f");
}

// --- resolve_to_cwd ---

#[test]
fn relative_path_resolved_against_cwd() {
    assert_eq!(resolve_to_cwd("sub/file.txt", "/tmp/work"), "/tmp/work/sub/file.txt");
}

#[test]
fn absolute_path_returned_as_is() {
    assert_eq!(resolve_to_cwd("/etc/hosts", "/tmp/work"), "/etc/hosts");
}

#[test]
fn tilde_resolved() {
    let home = dirs::home_dir().unwrap();
    let result = resolve_to_cwd("~/foo.txt", "/tmp/work");
    assert_eq!(result, home.join("foo.txt").to_string_lossy());
}

#[test]
fn at_prefix_stripped_then_resolved() {
    assert_eq!(resolve_to_cwd("@src/main.rs", "/tmp/work"), "/tmp/work/src/main.rs");
}

#[test]
fn nbsp_normalised_in_path() {
    assert_eq!(resolve_to_cwd("my\u{00A0}file.txt", "/tmp/work"), "/tmp/work/my file.txt");
}

#[test]
fn dot_resolves_to_cwd() {
    assert_eq!(resolve_to_cwd(".", "/tmp/work"), "/tmp/work/.");
}

#[test]
fn resolve_with_explicit_home() {
    assert_eq!(resolve_with_home("@~/x\u{00A0}y", "/w", Some("/h".to_string())), "/h/x y");
}

#[test]
fn non_existent_file_returns_primary() {
    let dir = "/nonexistent-quecto-test-dir";
    let result = resolve_read_path("missing.txt", dir);
    assert_eq!(result, "/nonexistent-quecto-test-dir/missing.txt");
}

#[test]
fn read_candidates_try_screenshot_spellings() {
    let c = read_path_candidates("/d/Shot 10.01 AM.png");
    assert_eq!(c, vec!["/d/Shot 10.01 AM.png".to_string(), "/d/Shot 10.01\u{202F}AM.png".to_string()]);
    let c = read_path_candidates("/d/Capture d\u{2019}\u{E9}cran.png");
    assert_eq!(c, vec!["/d/Capture d\u{2019}\u{E9}cran.png".to_string(), "/d/Capture d'\u{E9}cran.png".to_string()]);
    let c = read_path_candidates("/d/\u{2018}x\u{2019} PM");
    assert_eq!(c.len(), 4);
    assert_eq!(c[3], "/d/'x\u{2019} PM");
    assert_eq!(read_path_candidates("/d/plain.txt"), vec!["/d/plain.txt".to_string()]);
    assert_eq!(read_path_candidates("/d/.."), vec!["/d/..".to_string()]);
}

#[test]
fn picks_the_first_found_candidate() {
    let c = vec!["a".to_string(), "b".to_string(), "c".to_string()];
    assert_eq!(pick_read_path(&c, &[false, true, true]), "b");
    assert_eq!(pick_read_path(&c, &[false, false, false]), "a");
    assert_eq!(pick_read_path(&c, &[true, false, true]), "a");
}
