//! Plugins and tools: definitions, calls and results.
use vstd::prelude::*;
use crate::json::{json_of_text, parse_json_text};
use crate::text::same_text;

verus! {

/// How a user-defined tool is run.
#[derive(Debug, Clone, Copy, PartialEq, Eq, Structural)]
pub enum CustomToolType {
    Http,
    Cli,
}

/// The stored name of a tool kind.
pub open spec fn tool_type_text(t: CustomToolType) -> Seq<char> {
    match t {
        CustomToolType::Http => "http"@,
        CustomToolType::Cli => "cli"@,
    }
}

/// The tool kind a stored name stands for, if any.
pub open spec fn tool_type_of_text(s: Seq<char>) -> Option<CustomToolType> {
    if s == "http"@ {
        Some(CustomToolType::Http)
    } else if s == "cli"@ {
        Some(CustomToolType::Cli)
    } else {
        None
    }
}

impl CustomToolType {
    /// The stored name: `http` or `cli`.
    pub fn as_str(&self) -> (s: &str)
        ensures
            s@ == tool_type_text(*self),
    {
        match self {
            CustomToolType::Http => "http",
            CustomToolType::Cli => "cli",
        }
    }

    /// The tool kind named `s`; `None` for any other text.
    pub fn from_str(s: &str) -> (r: Option<Self>)
        ensures
            r == tool_type_of_text(s@),
    {
        if same_text(s, "http") {
            Some(CustomToolType::Http)
        } else if same_text(s, "cli") {
            Some(CustomToolType::Cli)
        } else {
            None
        }
    }
}

/// Round trip: reading back the stored name of a tool kind gives that kind.
pub proof fn lemma_tool_type_round_trip(t: CustomToolType)
    ensures
        tool_type_of_text(tool_type_text(t)) == Some(t),
{
    reveal_strlit("http");
    reveal_strlit("cli");
    assert("http"@.len() == 4);
    assert("cli"@.len() == 3);
}

/// Settings of a tool run as an HTTP request.
#[derive(Debug, Clone)]
pub struct HttpToolConfig {
    pub url: String,
    pub method: String,
    pub headers: std::collections::HashMap<String, String>,
}

/// Default method of an HTTP tool: POST.
pub fn default_http_method() -> (m: String)
    ensures
        m@ == "POST"@,
{
    String::from_str("POST")
}

/// Settings of a tool run as a command line.
#[derive(Debug, Clone)]
pub struct CliToolConfig {
    pub command: String,
    /// Argument templates; `{{key}}` is replaced by the call's argument `key`.
    pub args: Vec<String>,
}

/// A user-defined tool as stored.
#[derive(Debug, Clone)]
pub struct CustomToolRecord {
    pub id: String,
    pub name: String,
    pub tool_type: CustomToolType,
    pub description: String,
    pub parameters_schema: serde_json::Value,
    pub config_json: serde_json::Value,
    pub enabled: bool,
    pub created_at: String,
}

/// A tool offered to the model (OpenAI function-calling shape).
#[derive(Debug, Clone)]
pub struct ToolDefinition {
    pub name: String,
    pub description: String,
    /// JSON Schema of the parameters.
    pub parameters: serde_json::Value,
}

/// `t` is the tool `name` with `description` and the parameters that `schema` (JSON text)
/// stands for.
pub open spec fn is_tool(t: ToolDefinition, name: Seq<char>, description: Seq<char>, schema: Seq<char>) -> bool {
    t.name@ == name && t.description@ == description && t.parameters == json_of_text(schema)
}

/// The tool `name` with `description` and the parameters given as JSON text.
pub fn make_tool(name: &str, description: &str, schema: &str) -> (t: ToolDefinition)
    ensures
        is_tool(t, name@, description@, schema@),
{
    ToolDefinition {
        name: String::from_str(name),
        description: String::from_str(description),
        parameters: parse_json_text(schema),
    }
}

/// What the application tells a tool about the call's session.
#[derive(Debug, Clone)]
pub struct ToolExecutionContext {
    pub session_id: Option<String>,
    /// The session's stored configuration of the tool's plugin, as JSON text.
    pub plugin_config_json: Option<String>,
}

/// A tool call requested by the model.
#[derive(Debug, Clone)]
pub struct ToolCall {
    pub id: String,
    pub name: String,
    pub arguments: serde_json::Value,
    pub context: Option<ToolExecutionContext>,
}

/// The result of running a tool call.
#[derive(Debug, Clone)]
pub struct ToolResult {
    pub tool_call_id: String,
    pub content: String,
    pub is_error: bool,
}

/// Description of a registered plugin.
#[derive(Debug, Clone)]
pub struct PluginInfo {
    pub name: String,
    pub description: String,
    pub version: String,
    pub enabled: bool,
    pub tools: Vec<ToolDefinition>,
    pub config: Option<serde_json::Value>,
}

} // verus!
