//! Compressing a conversation into a memory.
use kokoro_chat::error::AppError;
use kokoro_chat::llm::client::{LLMResponse, MessageRole};
use kokoro_chat::memory::manager::{
    compression_request, compression_system_prompt, format_messages_for_compression,
    memory_from_summary, should_compress, summary_of,
};
use kokoro_chat::models::chat::{ChatMessageRecord, ChatRole};

fn record(id: &str, role: ChatRole, content: &str) -> ChatMessageRecord {
    ChatMessageRecord {
        id: id.to_string(),
        session_id: "sess-001".to_string(),
        role,
        content: content.to_string(),
        attachments: None,
        tool_calls: None,
        tool_call_id: None,
        created_at: "2024-01-01T00:00:00Z".to_string(),
    }
}

#[test]
fn test_compression_system_prompt_contains_key_points() {
    let prompt = compression_system_prompt();
    assert!(prompt.contains("重要な事実"));
    assert!(prompt.contains("トピック"));
    assert!(prompt.contains("好み"));
    assert!(prompt.contains("約束"));
}

#[test]
fn test_format_messages_for_compression() {
    let messages = vec![
        ChatMessageRecord {
            id: "msg-001".to_string(),
            session_id: "sess-001".to_string(),
            role: ChatRole::User,
            content: "こんにちは".to_string(),
            attachments: None,
            tool_calls: None,
            tool_call_id: None,
            created_at: "2024-01-01T00:00:00Z".to_string(),
        },
        ChatMessageRecord {
            id: "msg-002".to_string(),
            session_id: "sess-001".to_string(),
            role: ChatRole::Assistant,
            content: "はい、こんにちは！".to_string(),
            attachments: None,
            tool_calls: None,
            tool_call_id: None,
            created_at: "2024-01-01T00:01:00Z".to_string(),
        },
    ];

    let formatted = format_messages_for_compression(&messages);
    assert!(formatted.contains("ユーザー: こんにちは"));
    assert!(formatted.contains("アシスタント: はい、こんにちは！"));
}

#[test]
fn formatted_conversation_is_exact() {
    let messages = vec![
        record("1", ChatRole::User, "a"),
        record("2", ChatRole::Spontaneous, "b"),
        record("3", ChatRole::Tool, "c"),
        record("4", ChatRole::Assistant, "d"),
    ];
    assert_eq!(
        format_messages_for_compression(&messages),
        "ユーザー: a\nアシスタント（自発）: b\nツール: c\nアシスタント: d"
    );
    assert_eq!(format_messages_for_compression(&[]), "");
}

#[test]
fn threshold_decides_compression() {
    assert!(!should_compress(19, 20));
    assert!(should_compress(20, 20));
    assert!(should_compress(0, 0));
}

#[test]
fn compression_request_holds_prompt_and_conversation() {
    let r = compression_request(&[record("1", ChatRole::User, "hi")]);
    assert_eq!(r.len(), 2);
    assert_eq!(r[0].role, MessageRole::System);
    assert_eq!(r[0].content, compression_system_prompt());
    assert_eq!(r[1].role, MessageRole::User);
    assert_eq!(r[1].content, "以下の会話を要約してください：\n\nユーザー: hi");
}

#[test]
fn summary_is_the_reply_text() {
    let ok = summary_of(LLMResponse::Text { content: "sum".to_string(), thinking: None });
    assert_eq!(ok.unwrap(), "sum");
    match summary_of(LLMResponse::ToolCalls { calls: vec![], thinking: None }) {
        Err(AppError::LlmApi(m)) => assert_eq!(m, "Unexpected tool call response during compression"),
        _ => panic!("tool calls are an error"),
    }
}

#[test]
fn memory_names_first_and_last_message() {
    let messages = vec![record("m1", ChatRole::User, "a"), record("m2", ChatRole::Assistant, "b")];
    let m = memory_from_summary(
        "id".to_string(),
        "char-001".to_string(),
        "summary".to_string(),
        "sess-001",
        &messages,
        "2024-01-02T00:00:00Z",
    );
    assert_eq!(m.source_message_from, Some("m1".to_string()));
    assert_eq!(m.source_message_to, Some("m2".to_string()));
    assert_eq!(m.source_session_id, Some("sess-001".to_string()));
    assert_eq!(m.created_at, m.updated_at);
    let empty = memory_from_summary(String::new(), String::new(), String::new(), "s", &[], "t");
    assert_eq!(empty.source_message_from, None);
    assert_eq!(empty.source_message_to, None);
}
