//! The knowledge plugin: its `get_knowledge` tool returns the content of a knowledge file of
//! the session, found by its exact file name.
use vstd::prelude::*;
use crate::error::AppError;
use crate::json::{json_string_at, string_field};
use crate::models::knowledge::KnowledgeEntry;
use crate::models::plugin::{is_tool, make_tool, ToolCall, ToolDefinition, ToolResult};
use crate::text::same_text;

verus! {

/// The knowledge plugin; the caller reads the session's entries from the database.
#[derive(Debug, Clone, Copy)]
pub struct KnowledgePlugin;

/// The description of the `get_knowledge` tool.
pub const GET_KNOWLEDGE_DESCRIPTION: &'static str = "[Purpose] Retrieve the full content of a knowledge file registered in the current session.\n[When to use] When you need to reference detailed information from a knowledge file. Call this tool with the exact file_name of the knowledge entry you want to access.\n[Out of scope] Cannot modify knowledge entries. Only returns content for files registered with tool_reference mode.";

/// The JSON schema of the `get_knowledge` tool's parameters.
pub const GET_KNOWLEDGE_SCHEMA: &'static str = "{\"type\":\"object\",\"properties\":{\"file_name\":{\"type\":\"string\",\"description\":\"The exact file name of the knowledge entry to retrieve. Must match case-sensitively.\"}},\"required\":[\"file_name\"]}";

/// The first entry named exactly `file_name`, or -1.
pub open spec fn entry_position(entries: Seq<KnowledgeEntry>, file_name: Seq<char>, i: int) -> int
    decreases entries.len() - i,
{
    if i < 0 || i >= entries.len() {
        -1
    } else if entries[i].file_name@ == file_name {
        i
    } else {
        entry_position(entries, file_name, i + 1)
    }
}

/// The file names of the entries joined by `, `, or `（なし）` when there are none.
pub open spec fn available_list(entries: Seq<KnowledgeEntry>) -> Seq<char> {
    if entries.len() == 0 {
        "（なし）"@
    } else {
        names_joined(entries)
    }
}

/// The file names of the entries joined by `, `.
pub open spec fn names_joined(entries: Seq<KnowledgeEntry>) -> Seq<char>
    decreases entries.len(),
{
    if entries.len() <= 1 {
        if entries.len() == 1 {
            entries[0].file_name@
        } else {
            Seq::empty()
        }
    } else {
        names_joined(entries.drop_last()) + ", "@ + entries.last().file_name@
    }
}

/// The answer when no entry has the requested name.
pub open spec fn no_match_message(file_name: Seq<char>, entries: Seq<KnowledgeEntry>) -> Seq<char> {
    "'"@ + file_name + "' に一致するナレッジなし。利用可能: ["@ + available_list(entries) + "]"@
}

fn join_names(entries: &[KnowledgeEntry]) -> (s: String)
    ensures
        s@ == names_joined(entries@),
{
    let mut s = String::new();
    let mut i: usize = 0;
    while i < entries.len()
        invariant
            i <= entries.len(),
            s@ == names_joined(entries@.subrange(0, i as int)),
        decreases entries.len() - i,
    {
        assert(entries@.subrange(0, i + 1).drop_last() =~= entries@.subrange(0, i as int));
        if i > 0 {
            s.append(", ");
        }
        s.append(entries[i].file_name.as_str());
        proof {
            reveal_strlit(", ");
            if i == 0 {
                assert(s@ =~= names_joined(entries@.subrange(0, 1)));
            }
        }
        i += 1;
    }
    assert(entries@.subrange(0, entries.len() as int) =~= entries@);
    s
}

/// The result of `get_knowledge` for `file_name` among the session's tool-reference entries:
/// the content of the first entry of that exact name; else an error result naming the
/// available files.
pub fn get_knowledge_result(call_id: &str, file_name: &str, entries: &[KnowledgeEntry]) -> (r:
    ToolResult)
    ensures
        r.tool_call_id@ == call_id@,
        entry_position(entries@, file_name@, 0) >= 0 ==> !r.is_error && r.content@ == entries@[entry_position(
            entries@,
            file_name@,
            0,
        )].content@,
        entry_position(entries@, file_name@, 0) < 0 ==> r.is_error && r.content@ == no_match_message(
            file_name@,
            entries@,
        ),
{
    let mut i: usize = 0;
    while i < entries.len()
        invariant
            i <= entries.len(),
            entry_position(entries@, file_name@, 0) == entry_position(entries@, file_name@, i as int),
        decreases entries.len() - i,
    {
        if same_text(entries[i].file_name.as_str(), file_name) {
            return ToolResult {
                tool_call_id: String::from_str(call_id),
                content: entries[i].content.clone(),
                is_error: false,
            };
        }
        i += 1;
    }
    let list = if entries.len() == 0 {
        String::from_str("（なし）")
    } else {
        join_names(entries)
    };
    let mut m = String::from_str("'");
    m.append(file_name);
    m.append("' に一致するナレッジなし。利用可能: [");
    m.append(list.as_str());
    m.append("]");
    ToolResult { tool_call_id: String::from_str(call_id), content: m, is_error: true }
}

/// What `get_knowledge` needs before reading the database: the file name argument, then the
/// session of the call; each missing one is an error, the file name first.
pub fn knowledge_args(file_name: Option<String>, session_id: Option<String>) -> (r: Result<
    (String, String),
    AppError,
>)
    ensures
        match (file_name, session_id) {
            (None, _) => r matches Err(AppError::Plugin(m)) && m@ == "'file_name' パラメータが必要"@,
            (Some(_), None) => r matches Err(AppError::Plugin(m)) && m@ == "session_id が取得できない"@,
            (Some(f), Some(s)) => r matches Ok((f2, s2)) && f2 == f && s2 == s,
        },
{
    match file_name {
        None => Err(AppError::Plugin(String::from_str("'file_name' パラメータが必要"))),
        Some(f) => match session_id {
            None => Err(AppError::Plugin(String::from_str("session_id が取得できない"))),
            Some(s) => Ok((f, s)),
        },
    }
}

/// The session that a call's context names, if any.
pub open spec fn session_of(call: ToolCall) -> Option<Seq<char>> {
    match call.context {
        Some(c) => match c.session_id {
            Some(s) => Some(s@),
            None => None,
        },
        None => None,
    }
}

/// The session of a call, if its context names one.
pub fn call_session(call: &ToolCall) -> (r: Option<String>)
    ensures
        match r {
            Some(t) => session_of(*call) == Some(t@),
            None => session_of(*call) is None,
        },
{
    match &call.context {
        Some(c) => match &c.session_id {
            Some(s) => Some(s.clone()),
            None => None,
        },
        None => None,
    }
}

impl KnowledgePlugin {
    /// The plugin's name.
    pub fn name(&self) -> (s: &'static str)
        ensures
            s@ == "knowledge"@,
    {
        "knowledge"
    }

    /// The plugin's description.
    pub fn description(&self) -> (s: &'static str)
        ensures
            s@ == "[Purpose] A plugin that provides the AI with access to user-uploaded knowledge files. Offers a get_knowledge tool that retrieves the content of a specific knowledge file by name.\n[When to use] Enable this plugin when knowledge files with injection_mode=tool_reference are registered in the session. The AI can call get_knowledge to retrieve file content on demand without consuming prompt space every turn.\n[Out of scope] Cannot modify or delete knowledge entries. Cannot access knowledge entries from other sessions."@,
    {
        "[Purpose] A plugin that provides the AI with access to user-uploaded knowledge files. Offers a get_knowledge tool that retrieves the content of a specific knowledge file by name.\n[When to use] Enable this plugin when knowledge files with injection_mode=tool_reference are registered in the session. The AI can call get_knowledge to retrieve file content on demand without consuming prompt space every turn.\n[Out of scope] Cannot modify or delete knowledge entries. Cannot access knowledge entries from other sessions."
    }

    /// The plugin's one tool, `get_knowledge`.
    pub fn tools(&self) -> (tools: Vec<ToolDefinition>)
        ensures
            tools@.len() == 1,
            is_tool(tools@[0], "get_knowledge"@, GET_KNOWLEDGE_DESCRIPTION@, GET_KNOWLEDGE_SCHEMA@),
    {
        let mut tools: Vec<ToolDefinition> = Vec::new();
        tools.push(make_tool("get_knowledge", GET_KNOWLEDGE_DESCRIPTION, GET_KNOWLEDGE_SCHEMA));
        tools
    }

    /// What a call needs before the database is read: the tool must be `get_knowledge`, then
    /// its file name and session (see `knowledge_args`).
    pub fn prepare(&self, call: &ToolCall) -> (r: Result<(String, String), AppError>)
        ensures
            call.name@ != "get_knowledge"@ ==> (r matches Err(AppError::Plugin(m)) && m@
                == "Unknown tool: "@ + call.name@),
            call.name@ == "get_knowledge"@ ==> match (
                json_string_at(call.arguments, "file_name"@),
                session_of(*call),
            ) {
                (None, _) => r matches Err(AppError::Plugin(m)) && m@ == "'file_name' パラメータが必要"@,
                (Some(_), None) => r matches Err(AppError::Plugin(m)) && m@
                    == "session_id が取得できない"@,
                (Some(f), Some(s)) => r matches Ok((f2, s2)) && f2@ == f && s2@ == s,
            },
    {
        proof {
            reveal_strlit("get_knowledge");
        }
        if !same_text(call.name.as_str(), "get_knowledge") {
            let mut m = String::from_str("Unknown tool: ");
            m.append(call.name.as_str());
            return Err(AppError::Plugin(m));
        }
        let file_name = string_field(&call.arguments, "file_name");
        knowledge_args(file_name, call_session(call))
    }
}

} // verus!
