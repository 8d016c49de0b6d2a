//! Chat sessions and messages.
use vstd::prelude::*;
use crate::models::plugin::ToolCall;

verus! {

/// A chat session with one character.
#[derive(Debug, Clone)]
pub struct ChatSession {
    pub id: String,
    pub character_id: String,
    pub title: Option<String>,
    pub last_message_at: Option<String>,
    pub last_message_preview: Option<String>,
    pub created_at: String,
}

/// Who wrote a stored chat message.
#[derive(Debug, Clone, Copy, PartialEq, Eq, Structural)]
pub enum ChatRole {
    User,
    Assistant,
    /// A message the character said on its own.
    Spontaneous,
    Tool,
}

/// A chat message as stored.
#[derive(Debug, Clone)]
pub struct ChatMessageRecord {
    pub id: String,
    pub session_id: String,
    pub role: ChatRole,
    pub content: String,
    pub attachments: Option<Vec<MessageAttachment>>,
    /// Tool calls the assistant requested.
    pub tool_calls: Option<Vec<ToolCall>>,
    /// The tool call a tool message answers.
    pub tool_call_id: Option<String>,
    pub created_at: String,
}

/// A file attached to a message.
#[derive(Debug, Clone)]
pub struct MessageAttachment {
    pub file_name: String,
    pub attachment_type: String,
    pub extracted_text: Option<String>,
    pub base64_data: Option<String>,
}

/// Access that a session grants to the file tools under one directory.
#[derive(Debug, Clone)]
pub struct DirectoryPermission {
    pub path: String,
    pub allow_read: bool,
    pub allow_write: bool,
}

/// Per-session configuration of the file tools: the directories they may reach.
#[derive(Debug, Clone)]
pub struct FileOpsConfig {
    pub directories: Vec<DirectoryPermission>,
}

} // verus!
