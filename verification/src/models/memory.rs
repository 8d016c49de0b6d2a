//! Long-term memories.
use vstd::prelude::*;

verus! {

/// A summary of past conversation that a character remembers.
#[derive(Debug, Clone)]
pub struct Memory {
    pub id: String,
    pub character_id: String,
    pub content: String,
    pub source_session_id: Option<String>,
    /// First message the summary covers.
    pub source_message_from: Option<String>,
    /// Last message the summary covers.
    pub source_message_to: Option<String>,
    pub created_at: String,
    pub updated_at: String,
}

} // verus!
