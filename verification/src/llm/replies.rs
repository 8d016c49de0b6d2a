//! Turning the replies of the three model APIs into an `LLMResponse`.
//!
//! The caller reads the fields that matter out of the JSON reply into the plain structures of
//! this module; the decisions (what is text, what is thinking, what is an error) are made here.
use vstd::prelude::*;
use crate::error::AppError;
use crate::json::{json_bool, json_of_text, parse_json_text, as_bool};
use crate::llm::stream::{at_first, at_key, first_of, items_at, items_of, key_of, text_at, text_of};
use crate::llm::client::{strip_think_spec, strip_think_tags, LLMResponse};
use crate::models::plugin::ToolCall;
use crate::text::same_text;

verus! {

/// One part of the first candidate of a Gemini reply.
#[derive(Debug, Clone)]
pub struct GeminiPart {
    /// The part's `text`, when it is a string.
    pub text: Option<String>,
    /// The part's `thought` flag, when it is a boolean.
    pub thought: Option<bool>,
}

/// What is read of a Gemini `generateContent` reply.
#[derive(Debug, Clone)]
pub struct GeminiReply {
    /// `candidates` is a non-empty array.
    pub has_candidates: bool,
    /// The parts of the first candidate's content, when they form an array.
    pub parts: Option<Vec<GeminiPart>>,
}

/// The concatenated texts of the parts that are thoughts (`thought == true`) or, for
/// `thoughts == false`, of the parts that are not.
pub open spec fn gemini_texts(parts: Seq<GeminiPart>, thoughts: bool) -> Seq<char>
    decreases parts.len(),
{
    if parts.len() == 0 {
        Seq::empty()
    } else {
        let p = parts.last();
        let prev = gemini_texts(parts.drop_last(), thoughts);
        if (p.thought == Some(true)) == thoughts && p.text is Some {
            prev + p.text->0@
        } else {
            prev
        }
    }
}

/// `None` for empty text, else the text.
pub open spec fn non_empty(s: Seq<char>) -> Option<Seq<char>> {
    if s.len() == 0 {
        None
    } else {
        Some(s)
    }
}

/// The view of an optional string.
pub open spec fn opt_view(s: Option<String>) -> Option<Seq<char>> {
    match s {
        Some(t) => Some(t@),
        None => None,
    }
}

fn gemini_collect(parts: &Vec<GeminiPart>, thoughts: bool) -> (r: String)
    ensures
        r@ == gemini_texts(parts@, thoughts),
{
    let mut r = String::new();
    let mut i: usize = 0;
    while i < parts.len()
        invariant
            i <= parts.len(),
            r@ == gemini_texts(parts@.subrange(0, i as int), thoughts),
        decreases parts.len() - i,
    {
        let p = &parts[i];
        assert(parts@.subrange(0, i + 1).drop_last() =~= parts@.subrange(0, i as int));
        let is_thought = match p.thought {
            Some(true) => true,
            _ => false,
        };
        if is_thought == thoughts {
            match &p.text {
                Some(t) => r.append(t.as_str()),
                None => {},
            }
        }
        i += 1;
    }
    assert(parts@.subrange(0, parts.len() as int) =~= parts@);
    r
}

/// A Gemini reply without candidates (e.g. withheld by safety settings) is an error; else the
/// text of the non-thought parts, with the text of the thought parts as thinking (none if
/// empty). Without parts the reply is empty text.
pub fn parse_gemini_response(body: &GeminiReply) -> (r: Result<LLMResponse, AppError>)
    ensures
        !body.has_candidates ==> (r matches Err(AppError::LlmApi(m)) && m@
            == "Gemini response has no candidates (possibly filtered by safety settings)"@),
        body.has_candidates ==> (r matches Ok(LLMResponse::Text { content, thinking }) && match
            body.parts {
            Some(parts) => content@ == gemini_texts(parts@, false) && opt_view(thinking)
                == non_empty(gemini_texts(parts@, true)),
            None => content@ == Seq::<char>::empty() && thinking is None,
        }),
{
    if !body.has_candidates {
        return Err(
            AppError::LlmApi(
                String::from_str(
                    "Gemini response has no candidates (possibly filtered by safety settings)",
                ),
            ),
        );
    }
    match &body.parts {
        Some(parts) => {
            let text = gemini_collect(parts, false);
            let thinking_text = gemini_collect(parts, true);
            let thinking = if thinking_text.as_str().is_empty() {
                None
            } else {
                Some(thinking_text)
            };
            Ok(LLMResponse::Text { content: text, thinking })
        },
        None => Ok(LLMResponse::Text { content: String::new(), thinking: None }),
    }
}

/// One content block of an Anthropic reply.
#[derive(Debug, Clone)]
pub struct AnthropicBlock {
    /// The block's `type`, when it is a string.
    pub block_type: Option<String>,
    /// The block's `thinking` text, when it is a string.
    pub thinking: Option<String>,
    /// The block's `text`, when it is a string.
    pub text: Option<String>,
}

/// What is read of an Anthropic Messages reply: its content blocks, when `content` is an array.
#[derive(Debug, Clone)]
pub struct AnthropicReply {
    pub content: Option<Vec<AnthropicBlock>>,
}

/// Placeholder accumulated for a `redacted_thinking` block.
pub const REDACTED_THINKING_MARKER: &'static str = "[REDACTED_THINKING]";

/// Whether a block's type is `t`.
pub open spec fn block_is(b: AnthropicBlock, t: Seq<char>) -> bool {
    b.block_type is Some && b.block_type->0@ == t
}

/// The thinking pieces of the blocks, in order: the non-empty text of each `thinking` block and
/// the marker for each `redacted_thinking` block.
pub open spec fn anthropic_thinking_parts(blocks: Seq<AnthropicBlock>) -> Seq<Seq<char>>
    decreases blocks.len(),
{
    if blocks.len() == 0 {
        Seq::empty()
    } else {
        let b = blocks.last();
        let prev = anthropic_thinking_parts(blocks.drop_last());
        if block_is(b, "thinking"@) {
            if b.thinking is Some && b.thinking->0@.len() > 0 {
                prev.push(b.thinking->0@)
            } else {
                prev
            }
        } else if block_is(b, "redacted_thinking"@) {
            prev.push(REDACTED_THINKING_MARKER@)
        } else {
            prev
        }
    }
}

/// The concatenated texts of the `text` blocks.
pub open spec fn anthropic_text(blocks: Seq<AnthropicBlock>) -> Seq<char>
    decreases blocks.len(),
{
    if blocks.len() == 0 {
        Seq::empty()
    } else {
        let b = blocks.last();
        let prev = anthropic_text(blocks.drop_last());
        if block_is(b, "text"@) && b.text is Some {
            prev + b.text->0@
        } else {
            prev
        }
    }
}

fn block_type_is(b: &AnthropicBlock, t: &str) -> (r: bool)
    ensures
        r == block_is(*b, t@),
{
    match &b.block_type {
        Some(bt) => same_text(bt.as_str(), t),
        None => false,
    }
}

/// A reply without a `content` array is an error; else the text of its `text` blocks, with the
/// thinking of its `thinking` and `redacted_thinking` blocks (none if there is none).
pub fn parse_anthropic_response(body: &AnthropicReply) -> (r: Result<LLMResponse, AppError>)
    ensures
        body.content is None ==> (r matches Err(AppError::LlmApi(m)) && m@
            == "Invalid Anthropic response: missing 'content' array"@),
        body.content matches Some(blocks) ==> (r matches Ok(LLMResponse::Text { content, thinking })
            && content@ == anthropic_text(blocks@) && opt_view(thinking) == (if anthropic_thinking_parts(
            blocks@,
        ).len() == 0 {
            None
        } else {
            Some(anthropic_thinking_parts(blocks@).flatten())
        })),
{
    let blocks = match &body.content {
        Some(b) => b,
        None => {
            return Err(
                AppError::LlmApi(
                    String::from_str("Invalid Anthropic response: missing 'content' array"),
                ),
            );
        },
    };
    let mut thinking = String::new();
    let mut n_parts: usize = 0;
    let mut text = String::new();
    let mut i: usize = 0;
    while i < blocks.len()
        invariant
            i <= blocks.len(),
            thinking@ == anthropic_thinking_parts(blocks@.subrange(0, i as int)).flatten(),
            n_parts == anthropic_thinking_parts(blocks@.subrange(0, i as int)).len(),
            n_parts <= i,
            text@ == anthropic_text(blocks@.subrange(0, i as int)),
        decreases blocks.len() - i,
    {
        let b = &blocks[i];
        let ghost prev = anthropic_thinking_parts(blocks@.subrange(0, i as int));
        assert(blocks@.subrange(0, i + 1).drop_last() =~= blocks@.subrange(0, i as int));
        if block_type_is(b, "thinking") {
            match &b.thinking {
                Some(t) => {
                    if !t.as_str().is_empty() {
                        proof {
                            prev.lemma_flatten_push(t@);
                        }
                        thinking.append(t.as_str());
                        n_parts += 1;
                    }
                },
                None => {},
            }
        } else if block_type_is(b, "redacted_thinking") {
            proof {
                prev.lemma_flatten_push(REDACTED_THINKING_MARKER@);
            }
            thinking.append(REDACTED_THINKING_MARKER);
            n_parts += 1;
        }
        if block_type_is(b, "text") {
            match &b.text {
                Some(t) => text.append(t.as_str()),
                None => {},
            }
        }
        i += 1;
    }
    assert(blocks@.subrange(0, blocks.len() as int) =~= blocks@);
    let thinking = if n_parts == 0 {
        None
    } else {
        Some(thinking)
    };
    Ok(LLMResponse::Text { content: text, thinking })
}

/// One tool call of the first choice of an OpenAI-format reply.
#[derive(Debug, Clone)]
pub struct OpenAIToolCallData {
    /// The call's `id`, when it is a string.
    pub id: Option<String>,
    /// The call's `function.name`, when it is a string.
    pub name: Option<String>,
    /// The call's `function.arguments` (JSON text), when it is a string.
    pub arguments: Option<String>,
}

/// What is read of an OpenAI-format chat completion.
#[derive(Debug, Clone)]
pub struct OpenAIReply {
    /// Number of choices, when `choices` is an array.
    pub choice_count: Option<usize>,
    /// The first choice's `message.tool_calls`, when it is an array.
    pub tool_calls: Option<Vec<OpenAIToolCallData>>,
    /// The first choice's `message.content`, when it is a string.
    pub content: Option<String>,
}

/// The text of an optional string, or `default`.
pub open spec fn text_or(s: Option<String>, default: Seq<char>) -> Seq<char> {
    match s {
        Some(t) => t@,
        None => default,
    }
}

/// The tool call built from the data of one call: missing id and name become empty, missing
/// arguments become `{}`, and the arguments are parsed as JSON.
pub open spec fn tool_call_of(d: OpenAIToolCallData, c: ToolCall) -> bool {
    &&& c.id@ == text_or(d.id, ""@)
    &&& c.name@ == text_or(d.name, ""@)
    &&& c.arguments == json_of_text(text_or(d.arguments, "{}"@))
    &&& c.context is None
}

fn text_or_default(s: &Option<String>, default: &str) -> (r: String)
    ensures
        r@ == text_or(*s, default@),
{
    match s {
        Some(t) => t.clone(),
        None => String::from_str(default),
    }
}

/// A reply without a `choices` array, or with no choice, is an error. When the first choice
/// asks for tool calls, they are the reply; else its content (empty when missing) with think
/// blocks removed.
pub fn parse_openai_response(body: &OpenAIReply) -> (r: Result<LLMResponse, AppError>)
    ensures
        body.choice_count is None ==> (r matches Err(AppError::LlmApi(m)) && m@
            == "Invalid response: missing choices"@),
        body.choice_count == Some(0usize) ==> (r matches Err(AppError::LlmApi(m)) && m@
            == "Invalid response: empty choices"@),
        body.choice_count matches Some(n) && n > 0 ==> match body.tool_calls {
            Some(data) if data.len() > 0 => (r matches Ok(LLMResponse::ToolCalls { calls, thinking })
                && thinking is None && calls.len() == data.len() && forall|i: int|
                0 <= i < data.len() ==> tool_call_of(#[trigger] data@[i], calls@[i])),
            _ => (r matches Ok(LLMResponse::Text { content, thinking }) && thinking is None
                && content@ == strip_think_spec(text_or(body.content, ""@))),
        },
{
    match body.choice_count {
        None => {
            return Err(AppError::LlmApi(String::from_str("Invalid response: missing choices")));
        },
        Some(n) => {
            if n == 0 {
                return Err(AppError::LlmApi(String::from_str("Invalid response: empty choices")));
            }
        },
    }
    match &body.tool_calls {
        Some(data) => {
            if data.len() > 0 {
                let mut calls: Vec<ToolCall> = Vec::new();
                let mut i: usize = 0;
                while i < data.len()
                    invariant
                        i <= data.len(),
                        calls.len() == i,
                        forall|k: int| 0 <= k < i ==> tool_call_of(#[trigger] data@[k], calls@[k]),
                    decreases data.len() - i,
                {
                    let d = &data[i];
                    let id = text_or_default(&d.id, "");
                    let name = text_or_default(&d.name, "");
                    let args_text = text_or_default(&d.arguments, "{}");
                    let arguments = parse_json_text(args_text.as_str());
                    calls.push(ToolCall { id, name, arguments, context: None });
                    i += 1;
                }
                return Ok(LLMResponse::ToolCalls { calls, thinking: None });
            }
        },
        None => {},
    }
    let content = text_or_default(&body.content, "");
    let cleaned = strip_think_tags(content.as_str());
    Ok(LLMResponse::Text { content: cleaned, thinking: None })
}

// ---------------------------------------------------------------------------------------
// Reading the JSON of a reply
// ---------------------------------------------------------------------------------------

/// What a tool call of an OpenAI reply says: `id`, `function.name`, `function.arguments`,
/// each when a string.
pub open spec fn tool_data_of(tc: serde_json::Value) -> (Option<Seq<char>>, Option<Seq<char>>, Option<Seq<char>>) {
    let o = Some(tc);
    (
        text_at(at_key(o, "id"@)),
        text_at(at_key(at_key(o, "function"@), "name"@)),
        text_at(at_key(at_key(o, "function"@), "arguments"@)),
    )
}

/// The plain value of a read tool call.
pub open spec fn tool_data_view(d: OpenAIToolCallData) -> (Option<Seq<char>>, Option<Seq<char>>, Option<Seq<char>>) {
    (opt_view(d.id), opt_view(d.name), opt_view(d.arguments))
}

/// What is read of an OpenAI chat completion: the number of `choices` when it is an array;
/// the first choice's `message.tool_calls` when an array (each as `tool_data_of`) and
/// `message.content` when a string.
pub open spec fn openai_reply_matches(r: OpenAIReply, v: serde_json::Value) -> bool {
    let choices = at_key(Some(v), "choices"@);
    let message = at_key(at_first(choices), "message"@);
    &&& r.choice_count == match items_at(choices) {
        Some(items) => Some(items.len() as usize),
        None => None,
    }
    &&& match (r.tool_calls, items_at(at_key(message, "tool_calls"@))) {
        (None, None) => true,
        (Some(ds), Some(items)) => ds@.map_values(|d: OpenAIToolCallData| tool_data_view(d))
            == items.map_values(|x: serde_json::Value| tool_data_of(x)),
        _ => false,
    }
    &&& opt_view(r.content) == text_at(at_key(message, "content"@))
}

fn tool_data_from(tc: &serde_json::Value) -> (d: OpenAIToolCallData)
    ensures
        tool_data_view(d) == tool_data_of(*tc),
{
    let o = Some(tc.clone());
    let f = key_of(&o, "function");
    OpenAIToolCallData {
        id: text_of(&key_of(&o, "id")),
        name: text_of(&key_of(&f, "name")),
        arguments: text_of(&key_of(&f, "arguments")),
    }
}

/// Reads an OpenAI chat completion (see `openai_reply_matches`).
pub fn openai_reply_of(v: &serde_json::Value) -> (r: OpenAIReply)
    ensures
        openai_reply_matches(r, *v),
{
    let choices = key_of(&Some(v.clone()), "choices");
    let choice_count = match items_of(&choices) {
        Some(items) => Some(items.len()),
        None => None,
    };
    let message = key_of(&first_of(&choices), "message");
    let tool_calls = match items_of(&key_of(&message, "tool_calls")) {
        Some(items) => {
            let mut ds: Vec<OpenAIToolCallData> = Vec::new();
            let mut i: usize = 0;
            while i < items.len()
                invariant
                    i <= items.len(),
                    ds@.map_values(|d: OpenAIToolCallData| tool_data_view(d)) == items@.subrange(
                        0,
                        i as int,
                    ).map_values(|x: serde_json::Value| tool_data_of(x)),
                decreases items.len() - i,
            {
                let ghost old_ds = ds@;
                let d = tool_data_from(&items[i]);
                ds.push(d);
                assert(ds@.map_values(|d: OpenAIToolCallData| tool_data_view(d)) =~= old_ds.map_values(
                    |d: OpenAIToolCallData| tool_data_view(d),
                ).push(tool_data_view(d)));
                assert(items@.subrange(0, i + 1) =~= items@.subrange(0, i as int).push(items@[i as int]));
                i += 1;
            }
            assert(items@.subrange(0, items.len() as int) =~= items@);
            Some(ds)
        },
        None => None,
    };
    OpenAIReply { choice_count, tool_calls, content: text_of(&key_of(&message, "content")) }
}

/// What a part of a Gemini reply says: `text` when a string, `thought` when a boolean.
pub open spec fn gemini_part_of(p: GeminiPart, x: serde_json::Value) -> bool {
    &&& opt_view(p.text) == text_at(at_key(Some(x), "text"@))
    &&& p.thought == match at_key(Some(x), "thought"@) {
        Some(t) => json_bool(t),
        None => None,
    }
}

/// What is read of a Gemini reply: whether `candidates` is a non-empty array, and the first
/// candidate's `content.parts` when an array (each as `gemini_part_of`).
pub open spec fn gemini_reply_matches(r: GeminiReply, v: serde_json::Value) -> bool {
    let candidates = at_key(Some(v), "candidates"@);
    &&& r.has_candidates == match items_at(candidates) {
        Some(c) => c.len() > 0,
        None => false,
    }
    &&& match (r.parts, items_at(at_key(at_key(at_first(candidates), "content"@), "parts"@))) {
        (None, None) => true,
        (Some(ps), Some(items)) => ps@.len() == items.len() && forall|i: int|
            0 <= i < items.len() ==> gemini_part_of(#[trigger] ps@[i], items[i]),
        _ => false,
    }
}

/// Reads a Gemini reply (see `gemini_reply_matches`).
pub fn gemini_reply_of(v: &serde_json::Value) -> (r: GeminiReply)
    ensures
        gemini_reply_matches(r, *v),
{
    let candidates = key_of(&Some(v.clone()), "candidates");
    let has_candidates = match items_of(&candidates) {
        Some(c) => c.len() > 0,
        None => false,
    };
    let content = key_of(&first_of(&candidates), "content");
    let parts = match items_of(&key_of(&content, "parts")) {
        Some(items) => {
            let mut ps: Vec<GeminiPart> = Vec::new();
            let mut i: usize = 0;
            while i < items.len()
                invariant
                    i <= items.len(),
                    ps@.len() == i,
                    forall|j: int| 0 <= j < i ==> gemini_part_of(#[trigger] ps@[j], items@[j]),
                decreases items.len() - i,
            {
                let o = Some(items[i].clone());
                let thought = match key_of(&o, "thought") {
                    Some(t) => as_bool(&t),
                    None => None,
                };
                ps.push(GeminiPart { text: text_of(&key_of(&o, "text")), thought });
                i += 1;
            }
            Some(ps)
        },
        None => None,
    };
    GeminiReply { has_candidates, parts }
}

/// What a content block of an Anthropic reply says: `type`, `thinking` and `text`, each when
/// a string.
pub open spec fn anthropic_block_of(b: AnthropicBlock, x: serde_json::Value) -> bool {
    let o = Some(x);
    &&& opt_view(b.block_type) == text_at(at_key(o, "type"@))
    &&& opt_view(b.thinking) == text_at(at_key(o, "thinking"@))
    &&& opt_view(b.text) == text_at(at_key(o, "text"@))
}

/// What is read of an Anthropic reply: its `content` blocks when an array (each as
/// `anthropic_block_of`).
pub open spec fn anthropic_reply_matches(r: AnthropicReply, v: serde_json::Value) -> bool {
    match (r.content, items_at(at_key(Some(v), "content"@))) {
        (None, None) => true,
        (Some(bs), Some(items)) => bs@.len() == items.len() && forall|i: int|
            0 <= i < items.len() ==> anthropic_block_of(#[trigger] bs@[i], items[i]),
        _ => false,
    }
}

/// Reads an Anthropic reply (see `anthropic_reply_matches`).
pub fn anthropic_reply_of(v: &serde_json::Value) -> (r: AnthropicReply)
    ensures
        anthropic_reply_matches(r, *v),
{
    let content = match items_of(&key_of(&Some(v.clone()), "content")) {
        Some(items) => {
            let mut bs: Vec<AnthropicBlock> = Vec::new();
            let mut i: usize = 0;
            while i < items.len()
                invariant
                    i <= items.len(),
                    bs@.len() == i,
                    forall|j: int| 0 <= j < i ==> anthropic_block_of(#[trigger] bs@[j], items@[j]),
                decreases items.len() - i,
            {
                let o = Some(items[i].clone());
                bs.push(
                    AnthropicBlock {
                        block_type: text_of(&key_of(&o, "type")),
                        thinking: text_of(&key_of(&o, "thinking")),
                        text: text_of(&key_of(&o, "text")),
                    },
                );
                i += 1;
            }
            Some(bs)
        },
        None => None,
    };
    AnthropicReply { content }
}

} // verus!
