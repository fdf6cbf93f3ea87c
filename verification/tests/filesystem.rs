use quecto_tools::filesystem::{
    append_success, check_edit_size, edit_file_apply, join_with_newlines, label_entry,
    list_dir_listing, required_str, write_success, AppendFileTool, EditFileTool, ListDirTool, WriteTool,
};
use quecto_tools::tool::{DomainError, Sandbox};

fn sandbox() -> Sandbox {
    Sandbox::new(Some("/tmp/ws".to_string()), true)
}

#[test]
fn write_args_and_reply() {
    let tool = WriteTool::new("/tmp/ws".to_string(), sandbox());
    assert_eq!(tool.definition().name, "write");
    match tool.parse_args("{}") {
        Ok(Err(e)) => {
            assert!(e.is_error);
            assert!(e.content.contains("path") && e.content.contains("Example"));
        }
        _ => panic!("expected an error result"),
    }
    match tool.parse_args(r#"{"path": "a.txt"}"#) {
        Ok(Err(e)) => assert!(e.content.starts_with("missing 'content' argument")),
        _ => panic!("expected an error result"),
    }
    assert!(tool.parse_args("nope").is_err());
    match tool.parse_args(r#"{"path": "sub/a.txt", "content": "héllo"}"#) {
        Ok(Ok(q)) => {
            assert_eq!(q.path, "sub/a.txt");
            assert_eq!(q.content, "héllo");
            assert_eq!(write_success(&q.content, &q.path).content, "Successfully wrote 6 bytes to sub/a.txt");
        }
        _ => panic!("expected a request"),
    }
}

#[test]
fn edit_file_replaces_first_occurrence() {
    let (updated, reply) = edit_file_apply("a-b-a", "a", "x", "f.txt");
    assert_eq!(updated, Some("x-b-a".to_string()));
    assert_eq!(reply.content, "replaced 'a' with 'x' in f.txt");
    let (updated, reply) = edit_file_apply("abc", "zz", "x", "f.txt");
    assert!(updated.is_none());
    assert!(reply.is_error);
    assert_eq!(reply.content, "substring 'zz' not found in f.txt");
    assert_eq!(EditFileTool::new("/w".to_string(), sandbox()).definition().name, "edit_file");
}

#[test]
fn edit_size_limit() {
    assert!(check_edit_size("f", 1024 * 1024).is_ok());
    match check_edit_size("f", 1024 * 1024 + 1) {
        Err(DomainError::Tool(m)) => assert_eq!(
            m,
            "file 'f' exceeds maximum allowed size for editing (1048577 > 1048576 bytes)"
        ),
        _ => panic!("expected an error"),
    }
}

#[test]
fn append_and_list_dir() {
    assert_eq!(append_success("abc", "log.txt").content, "appended 3 bytes to log.txt");
    assert_eq!(AppendFileTool::new("/w".to_string(), sandbox()).definition().name, "append_file");
    assert_eq!(ListDirTool::new("/w".to_string(), sandbox()).definition().name, "list_dir");
    assert_eq!(label_entry("src".to_string(), true), "src/");
    assert_eq!(label_entry("a.txt".to_string(), false), "a.txt");
    let names = vec!["a".to_string(), "b/".to_string()];
    assert_eq!(join_with_newlines(&names), "a\nb/");
    assert_eq!(join_with_newlines(&[]), "");
}

#[test]
fn required_str_errors() {
    match required_str("{}", "path") {
        Err(DomainError::Tool(m)) => assert_eq!(m, "missing 'path' argument"),
        _ => panic!("expected an error"),
    }
    assert_eq!(required_str(r#"{"path": "p"}"#, "path").unwrap(), "p");
    assert!(required_str("[", "path").is_err());
}

#[test]
fn test_write_description_includes_example() {
    let tool = WriteTool::new("/w".to_string(), Sandbox::new(Some("/w".to_string()), true));
    let def = tool.definition();
    assert!(
        def.description.contains("Example"),
        "write description should include Example, got: {}",
        def.description
    );
}

#[test]
fn list_dir_lists_labels_in_code_point_order() {
    let labels = vec!["b".to_string(), "a/".to_string(), "B".to_string(), "a".to_string()];
    assert_eq!(list_dir_listing(&labels), "B\na\na/\nb");
    assert_eq!(list_dir_listing(&Vec::new()), "");
}
