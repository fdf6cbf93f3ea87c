use quecto_tools::recall::{extract_id, list_result, recall_result, RecallTool, SpillIndex};

#[test]
fn test_extract_id() {
    assert_eq!(extract_id(r#"{"id":"turn5:bash:0"}"#), "turn5:bash:0");
    assert_eq!(extract_id(r#"{"id":"list"}"#), "list");
    assert_eq!(extract_id(r#"{}"#), "");
    assert_eq!(extract_id("invalid"), "");
}

#[test]
fn test_tool_definition() {
    let tool = RecallTool::new("test".to_string());
    let def = tool.definition();
    assert_eq!(def.name, "recall");
    assert!(def.description.contains("collapsed tool output"));
}

#[test]
fn recall_counts_each_id() {
    let mut tool = RecallTool::new("s".to_string());
    assert_eq!(tool.note_recall("a"), 1);
    assert_eq!(tool.note_recall("b"), 1);
    assert_eq!(tool.note_recall("a"), 2);
    assert_eq!(tool.note_recall("a"), 3);
    assert_eq!(tool.note_recall("b"), 2);
}

#[test]
fn recall_replies() {
    let r = recall_result("turn5:bash:0", Some("hello world output".to_string()));
    assert!(!r.is_error);
    assert_eq!(r.content, "hello world output");
    let r = recall_result("nonexistent:id:0", None);
    assert!(r.is_error);
    assert_eq!(r.content, "No spilled output found for id: nonexistent:id:0");
}

#[test]
fn recall_list_replies() {
    let r = list_result(&[]);
    assert!(!r.is_error);
    assert!(r.content.contains("No spilled outputs"));
    let entries = vec![
        SpillIndex {
            id: "turn5:bash:0".to_string(),
            tool: "bash".to_string(),
            input_preview: "echo hello".to_string(),
            tokens: 100,
        },
        SpillIndex {
            id: "turn6:bash:0".to_string(),
            tool: "bash".to_string(),
            input_preview: "ls -la".to_string(),
            tokens: 200,
        },
    ];
    let r = list_result(&entries);
    assert_eq!(
        r.content,
        "Spilled outputs (2 entries):\n  turn5:bash:0 \u{2014} echo hello (100 tokens)\n  turn6:bash:0 \u{2014} ls -la (200 tokens)\n"
    );
}
