//! The rules of the repositories: stored roles, accepted values and generated statements.
use kokoro_chat::db::rules::{
    character_update_sql, chat_role_of_text, chat_role_text, check_injection_mode,
    check_knowledge_size, knowledge_not_found, message_not_found, thoughts_query, CharacterFields,
};
use kokoro_chat::db::rules::{custom_tool_not_found, new_custom_tool_record};
use kokoro_chat::error::AppError;
use kokoro_chat::models::chat::ChatRole;
use kokoro_chat::models::plugin::CustomToolType;

#[test]
fn roles_round_trip_through_storage() {
    for r in [ChatRole::User, ChatRole::Assistant, ChatRole::Spontaneous, ChatRole::Tool] {
        assert_eq!(chat_role_of_text(chat_role_text(r)), r);
    }
    assert_eq!(chat_role_text(ChatRole::Spontaneous), "spontaneous");
    assert_eq!(chat_role_of_text("bogus"), ChatRole::User);
}

#[test]
fn test_add_knowledge_size_limit() {
    assert!(check_knowledge_size(&"a".repeat(512 * 1024)).is_ok());
    match check_knowledge_size(&"a".repeat(512 * 1024 + 1)) {
        Err(AppError::Validation(m)) => assert_eq!(m, "ファイルサイズが上限(512KB)を超えている"),
        _ => panic!("too large"),
    }
}

#[test]
fn test_set_injection_mode_invalid() {
    assert!(check_injection_mode("system_prompt").is_ok());
    assert!(check_injection_mode("tool_reference").is_ok());
    match check_injection_mode("invalid_mode") {
        Err(AppError::Validation(m)) => {
            assert_eq!(m, "injection_modeは'system_prompt'または'tool_reference'のみ許可")
        }
        _ => panic!("invalid mode"),
    }
}

#[test]
fn not_found_errors() {
    match knowledge_not_found() {
        AppError::NotFound(m) => assert_eq!(m, "指定されたナレッジエントリが見つからない"),
        _ => panic!("not found"),
    }
    match message_not_found("m1") {
        AppError::NotFound(m) => assert_eq!(m, "Message not found: m1"),
        _ => panic!("not found"),
    }
    match custom_tool_not_found("t9") {
        AppError::NotFound(m) => assert_eq!(m, "Custom tool 't9' not found"),
        _ => panic!("not found"),
    }
}

#[test]
fn test_get_thoughts_with_limit() {
    assert!(thoughts_query(Some(2)).ends_with("ORDER BY created_at DESC LIMIT 2"));
    assert!(thoughts_query(None).ends_with("ORDER BY created_at DESC"));
}

#[test]
fn test_update_character_empty_updates() {
    let none = CharacterFields { name: false, description: false, system_prompt: false, avatar_path: false, tts_config: false };
    assert_eq!(character_update_sql(none), None);
}

#[test]
fn test_update_character() {
    let f = CharacterFields { name: true, description: false, system_prompt: true, avatar_path: false, tts_config: true };
    assert_eq!(
        character_update_sql(f).unwrap(),
        "UPDATE characters SET name = ?, system_prompt = ?, tts_config = ?, updated_at = ? WHERE id = ?"
    );
}

#[test]
fn new_custom_tool_records_are_enabled_and_fresh() {
    let schema: serde_json::Value = serde_json::from_str("{}").unwrap();
    let a = new_custom_tool_record("t".to_string(), CustomToolType::Cli, "d".to_string(), schema.clone(), schema.clone());
    let b = new_custom_tool_record("t".to_string(), CustomToolType::Cli, "d".to_string(), schema.clone(), schema);
    assert!(a.enabled);
    assert_eq!(a.name, "t");
    assert_eq!(a.tool_type, CustomToolType::Cli);
    assert_ne!(a.id, b.id);
    assert!(!a.created_at.is_empty());
}
