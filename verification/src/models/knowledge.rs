//! Knowledge files attached to a session.
use vstd::prelude::*;

verus! {

/// A knowledge file as stored.
#[derive(Debug, Clone)]
pub struct KnowledgeEntry {
    pub id: String,
    pub session_id: String,
    pub file_name: String,
    pub content: String,
    pub size_bytes: i64,
    pub enabled: bool,
    /// `system_prompt` or `tool_reference`.
    pub injection_mode: String,
    pub created_at: String,
}

/// A knowledge file without its content.
#[derive(Debug, Clone)]
pub struct KnowledgeEntryMeta {
    pub id: String,
    pub file_name: String,
    pub size_bytes: i64,
    pub enabled: bool,
    pub injection_mode: String,
    pub created_at: String,
}

} // verus!
