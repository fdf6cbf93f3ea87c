use quecto_tools::docs::{available_listing, docs_reply, lookup_doc, normalize_name, requested_doc, DocsTool};

#[test]
fn lookup_doc_resolves_plain_md_and_prefixed_names() {
    assert!(lookup_doc("quecto").is_some());
    assert!(lookup_doc("quecto.md").is_some());
    assert!(lookup_doc("docs/quecto.md").is_some());
    assert!(lookup_doc("  SUBAGENTS  ").is_some());
    assert!(lookup_doc("nope").is_none());
}

#[test]
fn normalize_name_strips_repeated_affixes() {
    assert_eq!(normalize_name(" docs/docs/Workflow.md.md "), "workflow");
    assert_eq!(lookup_doc("docs/UDS-Protocol.md"), Some("uds-protocol"));
}

#[test]
fn listing_names_builtin_and_skill_docs() {
    let listing = available_listing(&[]);
    assert!(listing.starts_with("Available quecto capability docs:\n- quecto\n- subagents\n"));
    assert!(listing.ends_with("\nRead one with: docs {\"name\": \"quecto\"}"));
    assert!(!listing.contains("legacy skill"));
    let skills = vec![
        ("skills/review".to_string(), "Review code".to_string()),
        ("skills/plain".to_string(), String::new()),
    ];
    let listing = available_listing(&skills);
    assert!(listing.contains(
        "\nAvailable legacy skill knowledge docs:\n- skills/review \u{2014} Review code\n- skills/plain\n"
    ));
}

#[test]
fn requested_doc_ignores_blank_names() {
    assert_eq!(requested_doc("{}"), None);
    assert_eq!(requested_doc(r#"{"name": "   "}"#), None);
    assert_eq!(requested_doc("not json"), None);
    assert_eq!(requested_doc(r#"{"name": "quecto"}"#), Some("quecto".to_string()));
    assert!(DocsTool::new().legacy_skills_workspace.is_none());
    assert_eq!(DocsTool::with_workspace("/w".to_string()).definition().name, "docs");
}

#[test]
fn docs_reply_lists_reads_or_refuses() {
    let skills = vec![("skills/x".to_string(), "does x".to_string())];
    let listing = docs_reply(None, None, None, &skills);
    assert!(!listing.is_error);
    assert_eq!(listing.content, available_listing(&skills));
    let doc = docs_reply(Some("quecto".to_string()), Some("BODY".to_string()), None, &skills);
    assert_eq!(doc.content, "BODY");
    let skill = docs_reply(Some("skills/x".to_string()), None, Some("SKILL".to_string()), &skills);
    assert!(!skill.is_error);
    assert_eq!(skill.content, "SKILL");
    let missing = docs_reply(Some("nope".to_string()), None, None, &[]);
    assert!(missing.is_error);
    assert!(missing.content.starts_with("No embedded doc or legacy skill knowledge doc named 'nope'.\n\nAvailable quecto capability docs:\n"));
}

#[test]
fn docs_default_is_new() {
    let d = DocsTool::default();
    assert!(d.legacy_skills_workspace.is_none());
    assert_eq!(d.definition().name, "docs");
}
