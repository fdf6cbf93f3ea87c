use quecto_tools::ls::{entry_name, ls_listing, ls_path, LsTool};
use quecto_tools::tool::Sandbox;

fn names(v: &[&str]) -> Vec<String> {
    v.iter().map(|s| s.to_string()).collect()
}

#[test]
fn test_ls_lists_files_and_dirs() {
    let out = ls_listing(&names(&["a.txt", &entry_name("subdir", true)]), 500);
    assert!(out.contains("a.txt"));
    assert!(out.contains("subdir/"));
}

#[test]
fn test_ls_empty_directory_message() {
    assert_eq!(ls_listing(&Vec::new(), 500), "(empty directory)");
}

#[test]
fn test_ls_case_insensitive_sort() {
    let out = ls_listing(&names(&["Makefile", "app.rs", "Zoo.rs"]), 500);
    let lines: Vec<&str> = out.lines().collect();
    let idx_app = lines.iter().position(|&l| l == "app.rs").unwrap();
    let idx_make = lines.iter().position(|&l| l == "Makefile").unwrap();
    let idx_zoo = lines.iter().position(|&l| l == "Zoo.rs").unwrap();
    assert!(idx_app < idx_make && idx_make < idx_zoo, "got: {}", out);
}

#[test]
fn test_ls_limit_parameter() {
    // The caller reads at most limit + 1 entries.
    let v: Vec<String> = (0..6).map(|i| format!("file_{:04}.txt", i)).collect();
    let out = ls_listing(&v, 5);
    assert!(out.contains("5 entries limit reached"), "got: {}", out);
    assert!(out.contains("limit=10"), "got: {}", out);
    assert!(!out.contains("file_0005.txt"));
}

#[test]
fn test_ls_default_limit_is_500() {
    let v: Vec<String> = (0..501).map(|i| format!("file_{:04}.txt", i)).collect();
    let out = ls_listing(&v, 500);
    assert!(out.contains("500 entries limit reached"));
}

#[test]
fn test_ls_description_includes_example() {
    let tool = LsTool::new("/w".to_string(), Sandbox::new(Some("/w".to_string()), true));
    let def = tool.definition();
    assert!(def.description.contains("Example"));
    assert_eq!(def.name, "ls");
}

// --- own tests ---

#[test]
fn ties_keep_their_order_and_suggestion_is_capped() {
    let out = ls_listing(&names(&["b", "B", "a"]), 500);
    assert_eq!(out, "a\nb\nB");
    let out = ls_listing(&names(&["B", "b"]), 500);
    assert_eq!(out, "B\nb");
    let v: Vec<String> = (0..4001).map(|i| format!("f{:05}", i)).collect();
    let out = ls_listing(&v, 4000);
    assert!(out.ends_with("Use limit=5000 for more, or use a more specific path]"));
}

#[test]
fn listing_is_cut_at_byte_cap() {
    let v: Vec<String> = (0..200).map(|i| format!("{:0300}", i)).collect();
    let out = ls_listing(&v, 500);
    assert!(out.ends_with("\n[Output truncated at 51200 bytes]"));
    assert_eq!(out.len(), 51200 + "\n[Output truncated at 51200 bytes]".len());
}

#[test]
fn ls_path_defaults_and_errors() {
    assert_eq!(ls_path("{}").ok().unwrap(), ".");
    assert_eq!(ls_path(r#"{"path":"src"}"#).ok().unwrap(), "src");
    let e = ls_path("nope").err().unwrap();
    assert!(e.content.starts_with("invalid JSON arguments: "));
}
