use quecto_tools::message::{message_sent, MessageTool};
use quecto_tools::tool::DomainError;

#[test]
fn test_send_message_with_default_target() {
    let tool = MessageTool::new(Some("telegram:12345".to_string()));
    let m = tool.plan_message(r#"{"text":"Hello user!"}"#).ok().unwrap();
    assert_eq!(m.target, "telegram:12345");
    assert_eq!(m.text, "Hello user!");
    let r = message_sent(&m.target, Ok(())).ok().unwrap();
    assert!(!r.is_error);
    assert!(r.content.contains("telegram:12345"));
}

#[test]
fn test_send_message_with_explicit_target() {
    let tool = MessageTool::new(None);
    let m = tool
        .plan_message(r#"{"text":"Hi there","target":"telegram:99999"}"#)
        .ok()
        .unwrap();
    assert_eq!(m.target, "telegram:99999");
    assert_eq!(m.text, "Hi there");
}

#[test]
fn test_send_message_no_target() {
    let tool = MessageTool::new(None);
    match tool.plan_message(r#"{"text":"Hi"}"#) {
        Err(DomainError::Tool(m)) => assert!(m.contains("no target")),
        _ => panic!("expected error"),
    }
    match tool.plan_message(r#"{"target":"x"}"#) {
        Err(DomainError::Tool(m)) => assert_eq!(m, "missing required field: text"),
        _ => panic!("expected error"),
    }
    match message_sent("t", Err("closed".to_string())) {
        Err(DomainError::Tool(m)) => assert_eq!(m, "failed to send message: closed"),
        _ => panic!("expected error"),
    }
    assert_eq!(tool.definition().name, "message");
}

#[test]
fn message_test_definition() {
    let tool = MessageTool::new(None);
    let def = tool.definition();
    assert_eq!(def.name, "message");
    assert!(def.description.contains("message"));
}
