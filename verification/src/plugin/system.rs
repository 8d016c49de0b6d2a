//! Dispatching the model's tool calls: a call that no plugin can serve still gets an answer.
use vstd::prelude::*;
use crate::error::AppError;
use crate::models::plugin::{ToolCall, ToolResult};

verus! {

/// The answer to a call that could not be executed.
pub open spec fn unavailable_message(name: Seq<char>) -> Seq<char> {
    "Tool '"@ + name + "' not found or not available"@
}

/// The result of a tool call given what its execution gave: the tool's result, or, when
/// executing failed, an error result saying the tool is not available.
pub fn tool_result_or_unavailable(call: &ToolCall, outcome: Result<ToolResult, AppError>) -> (r:
    ToolResult)
    ensures
        match outcome {
            Ok(t) => r == t,
            Err(_) => r.tool_call_id@ == call.id@ && r.content@ == unavailable_message(call.name@)
                && r.is_error,
        },
{
    match outcome {
        Ok(t) => t,
        Err(_) => {
            let mut m = String::from_str("Tool '");
            m.append(call.name.as_str());
            m.append("' not found or not available");
            ToolResult { tool_call_id: call.id.clone(), content: m, is_error: true }
        },
    }
}

} // verus!
