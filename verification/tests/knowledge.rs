//! The knowledge plugin and the knowledge rules of the database.
use kokoro_chat::error::AppError;
use kokoro_chat::models::knowledge::KnowledgeEntry;
use kokoro_chat::models::plugin::{ToolCall, ToolExecutionContext};
use kokoro_chat::plugin::knowledge::{call_session, get_knowledge_result, knowledge_args, KnowledgePlugin};

fn entry(name: &str, content: &str) -> KnowledgeEntry {
    KnowledgeEntry {
        id: format!("id-{}", name),
        session_id: "s1".to_string(),
        file_name: name.to_string(),
        content: content.to_string(),
        size_bytes: content.len() as i64,
        enabled: true,
        injection_mode: "tool_reference".to_string(),
        created_at: "2024-01-01T00:00:00Z".to_string(),
    }
}

fn call(name: &str, args: &str, session: Option<&str>) -> ToolCall {
    ToolCall {
        id: "k1".to_string(),
        name: name.to_string(),
        arguments: serde_json::from_str(args).unwrap(),
        context: Some(ToolExecutionContext { session_id: session.map(|s| s.to_string()), plugin_config_json: None }),
    }
}

#[test]
fn knowledge_plugin_metadata() {
    let p = KnowledgePlugin;
    assert_eq!(p.name(), "knowledge");
    assert!(p.description().starts_with("[Purpose]"));
    let tools = p.tools();
    assert_eq!(tools.len(), 1);
    assert_eq!(tools[0].name, "get_knowledge");
    assert_eq!(tools[0].parameters["required"][0], "file_name");
}

#[test]
fn matching_entry_returns_its_content() {
    let entries = vec![entry("a.md", "A"), entry("b.md", "B"), entry("b.md", "B2")];
    let r = get_knowledge_result("k1", "b.md", &entries);
    assert!(!r.is_error);
    assert_eq!(r.content, "B");
    assert_eq!(r.tool_call_id, "k1");
}

#[test]
fn names_must_match_exactly() {
    let entries = vec![entry("a.md", "A"), entry("b.md", "B")];
    let r = get_knowledge_result("k1", "A.md", &entries);
    assert!(r.is_error);
    assert_eq!(r.content, "'A.md' に一致するナレッジなし。利用可能: [a.md, b.md]");
    let none = get_knowledge_result("k1", "x", &[]);
    assert_eq!(none.content, "'x' に一致するナレッジなし。利用可能: [（なし）]");
}

#[test]
fn arguments_are_checked_in_order() {
    let p = KnowledgePlugin;
    match p.prepare(&call("other", "{}", Some("s"))) {
        Err(AppError::Plugin(m)) => assert_eq!(m, "Unknown tool: other"),
        _ => panic!("unknown tool"),
    }
    match p.prepare(&call("get_knowledge", "{}", None)) {
        Err(AppError::Plugin(m)) => assert_eq!(m, "'file_name' パラメータが必要"),
        _ => panic!("missing file name"),
    }
    match p.prepare(&call("get_knowledge", r#"{"file_name":"a.md"}"#, None)) {
        Err(AppError::Plugin(m)) => assert_eq!(m, "session_id が取得できない"),
        _ => panic!("missing session"),
    }
    let (f, s) = p.prepare(&call("get_knowledge", r#"{"file_name":"a.md"}"#, Some("s9"))).unwrap();
    assert_eq!(f, "a.md");
    assert_eq!(s, "s9");
    assert!(knowledge_args(None, None).is_err());
    assert_eq!(call_session(&call("x", "{}", Some("z"))), Some("z".to_string()));
}
