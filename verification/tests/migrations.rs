//! The schema statements.
use kokoro_chat::db::migrations::{create_indexes_sql, create_tables_sql};


#[test]
fn test_create_tables_sql_not_empty() {
    let sql = create_tables_sql();
    assert!(!sql.is_empty());
    assert!(sql.contains("CREATE TABLE IF NOT EXISTS characters"));
    assert!(sql.contains("CREATE TABLE IF NOT EXISTS chat_sessions"));
    assert!(sql.contains("CREATE TABLE IF NOT EXISTS chat_messages"));
    assert!(sql.contains("CREATE TABLE IF NOT EXISTS memories"));
    assert!(sql.contains("CREATE TABLE IF NOT EXISTS thoughts"));
    assert!(sql.contains("CREATE TABLE IF NOT EXISTS plugins"));
    assert!(sql.contains("CREATE TABLE IF NOT EXISTS attachments"));
    assert!(sql.contains("CREATE TABLE IF NOT EXISTS chat_tool_permissions"));
    assert!(sql.contains("CREATE TABLE IF NOT EXISTS custom_tools"));
    assert!(sql.contains("CREATE TABLE IF NOT EXISTS chat_plugin_configs"));
    assert!(sql.contains("CREATE TABLE IF NOT EXISTS session_knowledge"));
}

#[test]
fn test_create_indexes_sql_not_empty() {
    let sql = create_indexes_sql();
    assert!(!sql.is_empty());
    assert!(sql.contains("idx_chat_sessions_character"));
    assert!(sql.contains("idx_chat_messages_session"));
    assert!(sql.contains("idx_memories_character"));
    assert!(sql.contains("idx_thoughts_character"));
    assert!(sql.contains("idx_attachments_message"));
    assert!(sql.contains("idx_chat_tool_permissions_session"));
    assert!(sql.contains("idx_custom_tools_name"));
    assert!(sql.contains("idx_chat_plugin_configs_session"));
    assert!(sql.contains("idx_session_knowledge_session"));
}

#[test]
fn test_tables_have_foreign_keys() {
    let sql = create_tables_sql();
    assert!(sql.contains("REFERENCES characters(id) ON DELETE CASCADE"));
    assert!(sql.contains("REFERENCES chat_sessions(id) ON DELETE CASCADE"));
    assert!(sql.contains("REFERENCES chat_messages(id) ON DELETE CASCADE"));
}

#[test]
fn test_chat_messages_role_check_constraint() {
    let sql = create_tables_sql();
    assert!(sql.contains("CHECK(role IN ('user', 'assistant', 'spontaneous', 'tool'))"));
}

#[test]
fn test_attachments_type_check_constraint() {
    let sql = create_tables_sql();
    assert!(sql.contains("CHECK(attachment_type IN ('text', 'pdf', 'image'))"));
}

#[test]
fn test_session_knowledge_check_constraint() {
    let sql = create_tables_sql();
    assert!(sql.contains("CHECK(injection_mode IN ('system_prompt', 'tool_reference'))"));
}

#[test]
fn test_session_knowledge_unique_constraint() {
    let sql = create_tables_sql();
    assert!(sql.contains("UNIQUE(session_id, file_name)"));
}

#[test]
fn every_statement_is_guarded_by_if_not_exists() {
    let tables = create_tables_sql();
    assert_eq!(tables.matches("CREATE TABLE").count(), tables.matches("CREATE TABLE IF NOT EXISTS ").count());
    assert_eq!(tables.matches("CREATE TABLE IF NOT EXISTS ").count(), 11);
    let indexes = create_indexes_sql();
    assert_eq!(indexes.matches("CREATE INDEX").count(), indexes.matches("CREATE INDEX IF NOT EXISTS ").count());
    assert_eq!(indexes.matches("CREATE INDEX IF NOT EXISTS ").count(), 9);
}

#[test]
fn every_index_is_on_a_column_of_a_created_table() {
    let tables = create_tables_sql();
    for line in create_indexes_sql().lines().filter(|l| !l.is_empty()) {
        let on = line.split(" ON ").nth(1).unwrap();
        let (table, rest) = on.split_once('(').unwrap();
        let column = rest.split(')').next().unwrap();
        let start = tables.find(&format!("CREATE TABLE IF NOT EXISTS {} (", table)).unwrap();
        let statement = &tables[start..start + tables[start..].find(");").unwrap()];
        assert!(statement.contains(&format!("\n  {} ", column)), "{} {}", table, column);
    }
}
