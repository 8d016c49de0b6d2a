//! Streamed replies. The caller reads the lines of a server-sent-event stream, parses the JSON
//! of each `data:` line into the plain structures of this module and hands them, in order, to
//! the accumulator of the API's wire format; the accumulator decides what each event adds to
//! the reply, returns the pieces to show at once, and builds the final reply at the end.
use vstd::prelude::*;
use std::collections::HashSet;
use crate::error::AppError;
use crate::llm::client::LLMResponse;
use crate::llm::replies::{non_empty, opt_view};
use crate::llm::think_tag_buffer::{views, ThinkTagBuffer};
use crate::llm::think_tags::{part, scan_from};
use crate::llm::tool_buffers::{
    append_input, apply_deltas, call_of_slot, put_slot, AnthropicToolCallBuffer,
    OpenAIToolCallBuffer, SlotView, ToolCallDelta,
};
use crate::json::{
    array_items, as_bool, as_text, as_u64, empty_json_object, field_value, json_bool, json_field,
    json_items, json_parsed, json_str, json_u64, parse_json, parse_json_text,
};
use crate::models::plugin::ToolCall;
use crate::text::{
    chars_of, decimal, decimal_text, is_prefix, same_text, starts_with_text, string_of_range,
    trim_whitespace, trimmed,
};

verus! {

broadcast use {vstd::seq_lib::group_seq_properties, vstd::std_specs::hash::group_hash_axioms};

/// A piece of the reply to show as soon as it arrives.
#[derive(Debug, Clone)]
pub enum StreamEmit {
    /// Reply text.
    Text(String),
    /// The model's thinking.
    Thinking(String),
}

/// The plain value of a piece: whether it is thinking, and its text.
pub open spec fn emit_view(e: StreamEmit) -> (bool, Seq<char>) {
    match e {
        StreamEmit::Text(s) => (false, s@),
        StreamEmit::Thinking(s) => (true, s@),
    }
}

/// The plain values of pieces.
pub open spec fn emit_views(v: Seq<StreamEmit>) -> Seq<(bool, Seq<char>)> {
    v.map_values(|e: StreamEmit| emit_view(e))
}

/// Texts marked as thinking or as reply text.
pub open spec fn tagged(parts: Seq<Seq<char>>, thinking: bool) -> Seq<(bool, Seq<char>)> {
    parts.map_values(|p: Seq<char>| (thinking, p))
}

/// A single piece, or none for `None`.
pub open spec fn one_piece(s: Option<Seq<char>>, thinking: bool) -> Seq<(bool, Seq<char>)> {
    match s {
        Some(t) => seq![(thinking, t)],
        None => Seq::empty(),
    }
}

/// The text of `s`, empty for `None`.
pub open spec fn or_empty(s: Option<Seq<char>>) -> Seq<char> {
    match s {
        Some(t) => t,
        None => Seq::empty(),
    }
}

/// The payload of a server-sent-event line: what follows `data: ` once the line is trimmed;
/// `None` for any other line.
pub open spec fn sse_payload_spec(line: Seq<char>) -> Option<Seq<char>> {
    let t = trim_whitespace(line);
    if is_prefix("data: "@, t) {
        Some(t.subrange(6, t.len() as int))
    } else {
        None
    }
}

/// The payload of a server-sent-event line.
pub fn sse_payload(line: &str) -> (r: Option<String>)
    ensures
        opt_view(r) == sse_payload_spec(line@),
{
    proof {
        reveal_strlit("data: ");
    }
    let t = trimmed(line);
    if starts_with_text(t.as_str(), "data: ") {
        let cs = chars_of(t.as_str());
        Some(string_of_range(&cs, 6, cs.len()))
    } else {
        None
    }
}

fn push_piece(emits: &mut Vec<StreamEmit>, acc: &mut String, s: String, thinking: bool)
    ensures
        emit_views(final(emits)@) == emit_views(old(emits)@).push((thinking, s@)),
        final(acc)@ == old(acc)@ + s@,
{
    acc.append(s.as_str());
    let ghost sv = s@;
    if thinking {
        emits.push(StreamEmit::Thinking(s));
    } else {
        emits.push(StreamEmit::Text(s));
    }
    assert(emit_views(emits@) =~= emit_views(old(emits)@).push((thinking, sv)));
}

/// Appends every part, in order, to `acc` and to the pieces.
fn push_parts(emits: &mut Vec<StreamEmit>, acc: &mut String, parts: Vec<String>, thinking: bool)
    ensures
        emit_views(final(emits)@) == emit_views(old(emits)@) + tagged(views(parts@), thinking),
        final(acc)@ == old(acc)@ + views(parts@).flatten(),
{
    let mut i: usize = 0;
    while i < parts.len()
        invariant
            i <= parts.len(),
            emit_views(emits@) == emit_views(old(emits)@) + tagged(
                views(parts@.subrange(0, i as int)),
                thinking,
            ),
            acc@ == old(acc)@ + views(parts@.subrange(0, i as int)).flatten(),
        decreases parts.len() - i,
    {
        let ghost before = views(parts@.subrange(0, i as int));
        assert(views(parts@.subrange(0, i + 1)) =~= before.push(parts@[i as int]@));
        proof {
            before.lemma_flatten_push(parts@[i as int]@);
        }
        push_piece(emits, acc, parts[i].clone(), thinking);
        assert(tagged(views(parts@.subrange(0, i + 1)), thinking) =~= tagged(before, thinking).push(
            (thinking, parts@[i as int]@),
        ));
        i += 1;
    }
    assert(parts@.subrange(0, parts.len() as int) =~= parts@);
}

/// What a streamed OpenAI chunk's `choices[0].delta` holds.
#[derive(Debug, Clone)]
pub struct OpenAIStreamDelta {
    /// `tool_calls`, when it is an array.
    pub tool_calls: Option<Vec<ToolCallDelta>>,
    /// `reasoning_content`, when it is a string.
    pub reasoning_content: Option<String>,
    /// `reasoning`, when it is a string.
    pub reasoning: Option<String>,
    /// `content`, when it is a string.
    pub content: Option<String>,
}

/// The reasoning of a delta: `reasoning_content` when it is non-empty, else `reasoning` when
/// it is non-empty.
pub open spec fn delta_reasoning(d: OpenAIStreamDelta) -> Option<Seq<char>> {
    let first = match d.reasoning_content {
        Some(r) => non_empty(r@),
        None => None,
    };
    if first is Some {
        first
    } else {
        match d.reasoning {
            Some(r) => non_empty(r@),
            None => None,
        }
    }
}

/// Reply text so far, thinking so far, tool-call slots, and the state of the think-tag buffer.
pub type OpenAIStreamView = (Seq<char>, Seq<char>, Seq<SlotView>, (bool, Seq<char>));

/// What one delta does: tool-call fragments go to their slots and nothing else happens; else
/// reasoning is shown and kept as thinking, and, unless the delta has reasoning and no
/// non-empty content, its content goes through the think-tag buffer, whose thinking parts are
/// shown and kept as thinking and whose text parts are shown and kept as reply text.
pub open spec fn openai_step(v: OpenAIStreamView, d: OpenAIStreamDelta) -> (
    OpenAIStreamView,
    Seq<(bool, Seq<char>)>,
) {
    match d.tool_calls {
        Some(ds) => ((v.0, v.1, apply_deltas(v.2, ds@), v.3), Seq::empty()),
        None => {
            let r = delta_reasoning(d);
            let thinking = v.1 + or_empty(r);
            let has_content = match d.content {
                Some(c) => c@.len() > 0,
                None => false,
            };
            if r is Some && !has_content {
                ((v.0, thinking, v.2, v.3), one_piece(r, true))
            } else {
                match d.content {
                    Some(c) => {
                        let input = v.3.1 + c@;
                        let s = scan_from(v.3.0, input, 0);
                        (
                            (
                                v.0 + s.text.flatten(),
                                thinking + s.thinking.flatten(),
                                v.2,
                                (s.inside, input.subrange(s.pending_at, input.len() as int)),
                            ),
                            one_piece(r, true) + tagged(s.thinking, true) + tagged(s.text, false),
                        )
                    },
                    None => ((v.0, thinking, v.2, v.3), one_piece(r, true)),
                }
            }
        },
    }
}

/// The error of a stream that brought thinking and no reply text.
pub open spec fn thinking_only_message() -> Seq<char> {
    "LLMの応答に本文が含まれていません（思考のみ）。モデルの最大トークン数（max_tokens）を増やすか、コンテキスト長の設定を見直してください。"@
}

/// The optional thinking of a reply: none when empty.
pub open spec fn thinking_of(t: Seq<char>) -> Option<Seq<char>> {
    non_empty(t)
}

/// The reply made at the end of a stream from its text, its thinking and its tool calls: the
/// calls, if any (`calls_ok` says they are the assembled ones); else the text.
pub open spec fn stream_reply(
    r: LLMResponse,
    text: Seq<char>,
    thinking: Seq<char>,
    has_calls: bool,
    calls_ok: spec_fn(Seq<ToolCall>) -> bool,
) -> bool {
    match r {
        LLMResponse::ToolCalls { calls, thinking: t } => has_calls && calls_ok(calls@) && opt_view(t)
            == thinking_of(thinking),
        LLMResponse::Text { content, thinking: t } => !has_calls && content@ == text && opt_view(t)
            == thinking_of(thinking),
    }
}

/// The calls assembled from tool-call slots, in order.
pub open spec fn calls_of(slots: Seq<SlotView>, calls: Seq<ToolCall>) -> bool {
    calls.len() == slots.len() && forall|i: int| 0 <= i < slots.len() ==> call_of_slot(slots[i], #[trigger] calls[i])
}

/// Accumulates a streamed reply in the OpenAI format.
pub struct OpenAIStream {
    text: String,
    thinking: String,
    tools: OpenAIToolCallBuffer,
    think: ThinkTagBuffer,
}

impl View for OpenAIStream {
    type V = OpenAIStreamView;

    closed spec fn view(&self) -> OpenAIStreamView {
        (self.text@, self.thinking@, self.tools@, self.think@)
    }
}

fn optional_text(s: String) -> (r: Option<String>)
    ensures
        opt_view(r) == thinking_of(s@),
{
    if s.as_str().is_empty() {
        None
    } else {
        Some(s)
    }
}

impl OpenAIStream {
    /// The accumulator's tool-call slots are well formed.
    pub closed spec fn wf(&self) -> bool {
        self.tools.wf()
    }

    /// A stream with nothing received.
    pub fn new() -> (s: Self)
        ensures
            s.wf(),
            s@ == (Seq::<char>::empty(), Seq::<char>::empty(), Seq::<SlotView>::empty(), (
                false,
                Seq::<char>::empty(),
            )),
    {
        OpenAIStream {
            text: String::new(),
            thinking: String::new(),
            tools: OpenAIToolCallBuffer::new(),
            think: ThinkTagBuffer::new(),
        }
    }

    /// Takes one delta; returns the pieces to show, in order.
    pub fn on_delta(&mut self, d: &OpenAIStreamDelta) -> (emits: Vec<StreamEmit>)
        requires
            old(self).wf(),
        ensures
            final(self).wf(),
            (final(self)@, emit_views(emits@)) == openai_step(old(self)@, *d),
    {
        let mut emits: Vec<StreamEmit> = Vec::new();
        match &d.tool_calls {
            Some(ds) => {
                self.tools.process_delta(ds.as_slice());
                return emits;
            },
            None => {},
        }
        let reasoning: Option<&String> = match &d.reasoning_content {
            Some(r) if !r.as_str().is_empty() => Some(r),
            _ => match &d.reasoning {
                Some(r) if !r.as_str().is_empty() => Some(r),
                _ => None,
            },
        };
        let has_content = match &d.content {
            Some(c) => !c.as_str().is_empty(),
            None => false,
        };
        match reasoning {
            Some(r) => {
                push_piece(&mut emits, &mut self.thinking, r.clone(), true);
                if !has_content {
                    return emits;
                }
            },
            None => {},
        }
        match &d.content {
            Some(c) => {
                let (text_parts, thinking_parts) = self.think.process_chunk(c.as_str());
                push_parts(&mut emits, &mut self.thinking, thinking_parts, true);
                push_parts(&mut emits, &mut self.text, text_parts, false);
            },
            None => {},
        }
        emits
    }

    /// Ends the stream: the think-tag buffer's waiting tail is shown and kept in its channel;
    /// then a stream with no tool calls whose text is blank and that brought thinking is an
    /// error; else the reply is the tool calls, if any, or the text, with the thinking.
    pub fn finish(self) -> (r: (Vec<StreamEmit>, Result<LLMResponse, AppError>))
        requires
            self.wf(),
        ensures
            ({
                let v = self@;
                let tail = if v.3.0 { (Seq::<char>::empty(), v.3.1) } else { (v.3.1, Seq::<char>::empty()) };
                let text = v.0 + tail.0;
                let thinking = v.1 + tail.1;
                &&& emit_views(r.0@) == tagged(part(tail.1), true) + tagged(part(tail.0), false)
                &&& match r.1 {
                    Err(e) => v.2.len() == 0 && trim_whitespace(text).len() == 0 && thinking.len()
                        > 0 && (e matches AppError::LlmApi(m) && m@ == thinking_only_message()),
                    Ok(reply) => !(v.2.len() == 0 && trim_whitespace(text).len() == 0
                        && thinking.len() > 0) && stream_reply(
                        reply,
                        text,
                        thinking,
                        v.2.len() > 0,
                        |calls: Seq<ToolCall>| calls_of(v.2, calls),
                    ),
                }
            }),
    {
        let ghost v = self@;
        let mut this = self;
        let mut emits: Vec<StreamEmit> = Vec::new();
        let (text_parts, thinking_parts) = this.think.flush();
        proof {
            let p = v.3.1;
            assert(part(p).flatten() =~= p) by {
                if p.len() > 0 {
                    Seq::<Seq<char>>::empty().lemma_flatten_push(p);
                    assert(seq![p] =~= Seq::<Seq<char>>::empty().push(p));
                }
            }
            assert(Seq::<Seq<char>>::empty().flatten() =~= Seq::<char>::empty());
        }
        push_parts(&mut emits, &mut this.thinking, thinking_parts, true);
        push_parts(&mut emits, &mut this.text, text_parts, false);
        let has_calls = this.tools.has_tool_calls();
        let blank = trimmed(this.text.as_str()).as_str().is_empty();
        let has_thinking = !this.thinking.as_str().is_empty();
        if !has_calls && blank && has_thinking {
            return (
                emits,
                Err(
                    AppError::LlmApi(
                        String::from_str(
                            "LLMの応答に本文が含まれていません（思考のみ）。モデルの最大トークン数（max_tokens）を増やすか、コンテキスト長の設定を見直してください。",
                        ),
                    ),
                ),
            );
        }
        let thinking = optional_text(this.thinking);
        if has_calls {
            let calls = this.tools.into_tool_calls();
            (emits, Ok(LLMResponse::ToolCalls { calls, thinking }))
        } else {
            (emits, Ok(LLMResponse::Text { content: this.text, thinking }))
        }
    }
}

/// What is read of one event of an Anthropic stream.
#[derive(Debug, Clone)]
pub struct AnthropicStreamEvent {
    /// `type`, or empty when it is not a string.
    pub event_type: String,
    /// `index`, or 0 when it is not a number.
    pub index: usize,
    /// `content_block.type`, or empty.
    pub block_type: String,
    /// `content_block.id`, or empty.
    pub block_id: String,
    /// `content_block.name`, or empty.
    pub block_name: String,
    /// `delta.type`, or empty.
    pub delta_type: String,
    /// `delta.partial_json`, or empty.
    pub partial_json: String,
    /// `delta.thinking`, when it is a string.
    pub thinking: Option<String>,
    /// `delta.text`, when it is a string.
    pub text: Option<String>,
}

/// The text kept as thinking when a redacted thinking block starts.
pub open spec fn redacted_marker() -> Seq<char> {
    "[REDACTED_THINKING]"@
}

/// Reply text so far, thinking so far, tool-call slots, and the indices of thinking blocks.
pub type AnthropicStreamView = (Seq<char>, Seq<char>, Seq<SlotView>, Set<usize>);

/// What one event does. A `content_block_start` of a `tool_use` block opens a tool call at
/// its index; of a `thinking` block marks the index as thinking; of a `redacted_thinking` block
/// does that too and shows and keeps a marker as thinking. A `content_block_delta` of type
/// `input_json_delta` extends the input of the call at its index; `thinking_delta` shows and
/// keeps non-empty thinking; `signature_delta` and a `text_delta` of a thinking block are
/// ignored; any other delta shows and keeps its text, if it has one, as reply text. Other
/// events are ignored.
pub open spec fn anthropic_step(v: AnthropicStreamView, e: AnthropicStreamEvent) -> (
    AnthropicStreamView,
    Seq<(bool, Seq<char>)>,
) {
    if e.event_type@ == "content_block_start"@ {
        if e.block_type@ == "tool_use"@ {
            ((v.0, v.1, put_slot(v.2, (e.index, e.block_id@, e.block_name@, Seq::empty())), v.3), Seq::empty())
        } else if e.block_type@ == "thinking"@ {
            ((v.0, v.1, v.2, v.3.insert(e.index)), Seq::empty())
        } else if e.block_type@ == "redacted_thinking"@ {
            (
                (v.0, v.1 + redacted_marker(), v.2, v.3.insert(e.index)),
                seq![(true, redacted_marker())],
            )
        } else {
            (v, Seq::empty())
        }
    } else if e.event_type@ == "content_block_delta"@ {
        if e.delta_type@ == "input_json_delta"@ {
            ((v.0, v.1, append_input(v.2, e.index, e.partial_json@), v.3), Seq::empty())
        } else if e.delta_type@ == "thinking_delta"@ {
            let t = match e.thinking {
                Some(t) => non_empty(t@),
                None => None,
            };
            ((v.0, v.1 + or_empty(t), v.2, v.3), one_piece(t, true))
        } else if e.delta_type@ == "signature_delta"@ || (e.delta_type@ == "text_delta"@
            && v.3.contains(e.index)) {
            (v, Seq::empty())
        } else {
            let t = opt_view(e.text);
            ((v.0 + or_empty(t), v.1, v.2, v.3), one_piece(t, false))
        }
    } else {
        (v, Seq::empty())
    }
}

/// Accumulates a streamed reply in Anthropic's format.
pub struct AnthropicStream {
    text: String,
    thinking: String,
    tools: AnthropicToolCallBuffer,
    thinking_blocks: HashSet<usize>,
}

impl View for AnthropicStream {
    type V = AnthropicStreamView;

    closed spec fn view(&self) -> AnthropicStreamView {
        (self.text@, self.thinking@, self.tools@, self.thinking_blocks@)
    }
}

impl AnthropicStream {
    /// The accumulator's tool-call slots are well formed.
    pub closed spec fn wf(&self) -> bool {
        self.tools.wf()
    }

    /// A stream with nothing received.
    pub fn new() -> (s: Self)
        ensures
            s.wf(),
            s@ == (Seq::<char>::empty(), Seq::<char>::empty(), Seq::<SlotView>::empty(), Set::<
                usize,
            >::empty()),
    {
        let s = AnthropicStream {
            text: String::new(),
            thinking: String::new(),
            tools: AnthropicToolCallBuffer::new(),
            thinking_blocks: HashSet::new(),
        };
        s
    }

    /// Takes one event; returns the pieces to show, in order.
    pub fn on_event(&mut self, e: &AnthropicStreamEvent) -> (emits: Vec<StreamEmit>)
        requires
            old(self).wf(),
        ensures
            final(self).wf(),
            (final(self)@, emit_views(emits@)) == anthropic_step(old(self)@, *e),
    {
        proof {
            reveal_strlit("content_block_start");
            reveal_strlit("content_block_delta");
            reveal_strlit("tool_use");
            reveal_strlit("thinking");
            reveal_strlit("redacted_thinking");
            reveal_strlit("input_json_delta");
            reveal_strlit("thinking_delta");
            reveal_strlit("signature_delta");
            reveal_strlit("text_delta");
        }
        let mut emits: Vec<StreamEmit> = Vec::new();
        let ev = e.event_type.as_str();
        if same_text(ev, "content_block_start") {
            let bt = e.block_type.as_str();
            if same_text(bt, "tool_use") {
                self.tools.process_block_start(e.index, e.block_id.as_str(), e.block_name.as_str());
            } else if same_text(bt, "thinking") {
                self.thinking_blocks.insert(e.index);
            } else if same_text(bt, "redacted_thinking") {
                self.thinking_blocks.insert(e.index);
                push_piece(&mut emits, &mut self.thinking, String::from_str("[REDACTED_THINKING]"), true);
                assert(emit_views(emits@) =~= seq![(true, redacted_marker())]);
            }
        } else if same_text(ev, "content_block_delta") {
            let dt = e.delta_type.as_str();
            if same_text(dt, "input_json_delta") {
                self.tools.process_input_delta(e.index, e.partial_json.as_str());
            } else if same_text(dt, "thinking_delta") {
                match &e.thinking {
                    Some(t) => if !t.as_str().is_empty() {
                        push_piece(&mut emits, &mut self.thinking, t.clone(), true);
                        assert(emit_views(emits@) =~= seq![(true, t@)]);
                    },
                    None => {},
                }
            } else if same_text(dt, "signature_delta") || (same_text(dt, "text_delta")
                && self.thinking_blocks.contains(&e.index)) {
            } else {
                match &e.text {
                    Some(t) => {
                        push_piece(&mut emits, &mut self.text, t.clone(), false);
                        assert(emit_views(emits@) =~= seq![(false, t@)]);
                    },
                    None => {},
                }
            }
        }
        assert(emits@.len() == 0 ==> emit_views(emits@) =~= Seq::<(bool, Seq<char>)>::empty());
        emits
    }

    /// Ends the stream: the reply is the tool calls, if any were started, or the text, with
    /// the thinking (none when empty).
    pub fn finish(self) -> (r: LLMResponse)
        requires
            self.wf(),
        ensures
            stream_reply(
                r,
                self@.0,
                self@.1,
                self@.2.len() > 0,
                |calls: Seq<ToolCall>| calls_of(self@.2, calls),
            ),
    {
        let thinking = optional_text(self.thinking);
        if self.tools.has_tool_calls() {
            let calls = self.tools.into_tool_calls();
            LLMResponse::ToolCalls { calls, thinking }
        } else {
            LLMResponse::Text { content: self.text, thinking }
        }
    }
}

/// A `functionCall` part of a Gemini stream.
#[derive(Debug, Clone)]
pub struct GeminiFunctionCall {
    /// `functionCall.name`, or empty.
    pub name: String,
    /// `functionCall.args`, or an empty object.
    pub args: serde_json::Value,
}

/// What is read of one part of `candidates[0].content.parts` in a Gemini stream.
#[derive(Debug, Clone)]
pub struct GeminiStreamPart {
    /// The part's `functionCall`, when it has one.
    pub function_call: Option<GeminiFunctionCall>,
    /// The part's `thought` is `true`.
    pub thought: bool,
    /// The part's `text`, when it is a string.
    pub text: Option<String>,
}

/// The plain value of a tool call: id, function name and arguments.
pub type CallView = (Seq<char>, Seq<char>, serde_json::Value);

/// The plain values of tool calls.
pub open spec fn call_views(calls: Seq<ToolCall>) -> Seq<CallView> {
    calls.map_values(|c: ToolCall| (c.id@, c.name@, c.arguments))
}

/// Reply text so far, thinking so far, and the tool calls so far.
pub type GeminiStreamView = (Seq<char>, Seq<char>, Seq<CallView>);

/// What one part does: a function call becomes the tool call `gemini_call_{n}`, `n` the number
/// of calls before it; a thought's non-empty text is shown and kept as thinking; any other
/// non-empty text is shown and kept as reply text.
pub open spec fn gemini_part_step(v: GeminiStreamView, p: GeminiStreamPart) -> (
    GeminiStreamView,
    Seq<(bool, Seq<char>)>,
) {
    match p.function_call {
        Some(f) => (
            (v.0, v.1, v.2.push(("gemini_call_"@ + decimal(v.2.len()), f.name@, f.args))),
            Seq::empty(),
        ),
        None => {
            let t = match p.text {
                Some(t) => non_empty(t@),
                None => None,
            };
            if p.thought {
                ((v.0, v.1 + or_empty(t), v.2), one_piece(t, true))
            } else {
                ((v.0 + or_empty(t), v.1, v.2), one_piece(t, false))
            }
        },
    }
}

/// The parts of one chunk, in order.
pub open spec fn gemini_parts_step(v: GeminiStreamView, ps: Seq<GeminiStreamPart>) -> (
    GeminiStreamView,
    Seq<(bool, Seq<char>)>,
)
    decreases ps.len(),
{
    if ps.len() == 0 {
        (v, Seq::empty())
    } else {
        let (v1, e1) = gemini_parts_step(v, ps.drop_last());
        let (v2, e2) = gemini_part_step(v1, ps.last());
        (v2, e1 + e2)
    }
}

/// Accumulates a streamed reply in Gemini's format.
pub struct GeminiStream {
    text: String,
    thinking: String,
    calls: Vec<ToolCall>,
}

impl View for GeminiStream {
    type V = GeminiStreamView;

    closed spec fn view(&self) -> GeminiStreamView {
        (self.text@, self.thinking@, call_views(self.calls@))
    }
}

impl GeminiStream {
    /// The calls carry no execution context.
    pub closed spec fn wf(&self) -> bool {
        forall|i: int| 0 <= i < self.calls@.len() ==> (#[trigger] self.calls@[i]).context is None
    }

    /// A stream with nothing received.
    pub fn new() -> (s: Self)
        ensures
            s.wf(),
            s@ == (Seq::<char>::empty(), Seq::<char>::empty(), Seq::<CallView>::empty()),
    {
        let s = GeminiStream { text: String::new(), thinking: String::new(), calls: Vec::new() };
        assert(call_views(s.calls@) =~= Seq::<CallView>::empty());
        s
    }

    /// Takes the parts of one chunk (an array `candidates[0].content.parts`); returns the pieces
    /// to show, in order.
    pub fn on_parts(&mut self, parts: &[GeminiStreamPart]) -> (emits: Vec<StreamEmit>)
        requires
            old(self).wf(),
        ensures
            final(self).wf(),
            (final(self)@, emit_views(emits@)) == gemini_parts_step(old(self)@, parts@),
    {
        let mut emits: Vec<StreamEmit> = Vec::new();
        let mut i: usize = 0;
        while i < parts.len()
            invariant
                i <= parts.len(),
                self.wf(),
                (self@, emit_views(emits@)) == gemini_parts_step(old(self)@, parts@.subrange(0, i as int)),
            decreases parts.len() - i,
        {
            let p = &parts[i];
            let ghost v1 = self@;
            let ghost e1 = emit_views(emits@);
            assert(parts@.subrange(0, i + 1).drop_last() =~= parts@.subrange(0, i as int));
            match &p.function_call {
                Some(f) => {
                    let n = self.calls.len();
                    let mut id = String::from_str("gemini_call_");
                    let digits = decimal_text(n);
                    id.append(digits.as_str());
                    proof {
                        reveal_strlit("gemini_call_");
                    }
                    self.calls.push(
                        ToolCall { id, name: f.name.clone(), arguments: f.args.clone(), context: None },
                    );
                    assert(call_views(self.calls@) =~= v1.2.push(
                        ("gemini_call_"@ + decimal(v1.2.len()), f.name@, f.args),
                    ));
                },
                None => {
                    match &p.text {
                        Some(t) => if !t.as_str().is_empty() {
                            if p.thought {
                                push_piece(&mut emits, &mut self.thinking, t.clone(), true);
                            } else {
                                push_piece(&mut emits, &mut self.text, t.clone(), false);
                            }
                        },
                        None => {},
                    }
                },
            }
            assert(emit_views(emits@) =~= e1 + gemini_part_step(v1, parts@[i as int]).1);
            i += 1;
        }
        assert(parts@.subrange(0, parts.len() as int) =~= parts@);
        emits
    }

    /// Ends the stream: the reply is the tool calls, if any, or the text, with the thinking
    /// (none when empty).
    pub fn finish(self) -> (r: LLMResponse)
        requires
            self.wf(),
        ensures
            stream_reply(
                r,
                self@.0,
                self@.1,
                self@.2.len() > 0,
                |calls: Seq<ToolCall>| call_views(calls) == self@.2 && forall|i: int|
                    0 <= i < calls.len() ==> (#[trigger] calls[i]).context is None,
            ),
    {
        let thinking = optional_text(self.thinking);
        if self.calls.len() > 0 {
            LLMResponse::ToolCalls { calls: self.calls, thinking }
        } else {
            LLMResponse::Text { content: self.text, thinking }
        }
    }
}

/// The texts of the pieces of one kind (thinking or reply text), concatenated in order.
pub open spec fn shown(pieces: Seq<(bool, Seq<char>)>, thinking: bool) -> Seq<char>
    decreases pieces.len(),
{
    if pieces.len() == 0 {
        Seq::empty()
    } else {
        let prev = shown(pieces.drop_last(), thinking);
        if pieces.last().0 == thinking {
            prev + pieces.last().1
        } else {
            prev
        }
    }
}

proof fn lemma_shown_concat(a: Seq<(bool, Seq<char>)>, b: Seq<(bool, Seq<char>)>, thinking: bool)
    ensures
        shown(a + b, thinking) == shown(a, thinking) + shown(b, thinking),
    decreases b.len(),
{
    if b.len() == 0 {
        assert(a + b =~= a);
    } else {
        assert((a + b).drop_last() =~= a + b.drop_last());
        lemma_shown_concat(a, b.drop_last(), thinking);
    }
}

proof fn lemma_shown_tagged(parts: Seq<Seq<char>>, kind: bool, thinking: bool)
    ensures
        shown(tagged(parts, kind), thinking) == (if kind == thinking {
            parts.flatten()
        } else {
            Seq::empty()
        }),
    decreases parts.len(),
{
    if parts.len() > 0 {
        assert(tagged(parts, kind).drop_last() =~= tagged(parts.drop_last(), kind));
        lemma_shown_tagged(parts.drop_last(), kind, thinking);
        parts.drop_last().lemma_flatten_push(parts.last());
        assert(parts.drop_last().push(parts.last()) =~= parts);
    }
}

proof fn lemma_shown_one(s: Option<Seq<char>>, kind: bool, thinking: bool)
    ensures
        shown(one_piece(s, kind), thinking) == (if kind == thinking {
            or_empty(s)
        } else {
            Seq::empty()
        }),
{
    if s is Some {
        let p = one_piece(s, kind);
        assert(p.drop_last() =~= Seq::<(bool, Seq<char>)>::empty());
        assert(shown(p.drop_last(), thinking) == Seq::<char>::empty());
        assert(p.last() == (kind, s->0));
        assert(Seq::<char>::empty() + s->0 =~= s->0);
    }
}

/// What the OpenAI accumulator keeps is what it shows: after any delta, the reply text has
/// grown by exactly the text pieces shown and the thinking by exactly the thinking pieces.
pub proof fn lemma_openai_shown_is_kept(v: OpenAIStreamView, d: OpenAIStreamDelta)
    ensures
        openai_step(v, d).0.0 == v.0 + shown(openai_step(v, d).1, false),
        openai_step(v, d).0.1 == v.1 + shown(openai_step(v, d).1, true),
{
    let r = delta_reasoning(d);
    lemma_shown_one(r, true, false);
    lemma_shown_one(r, true, true);
    match d.tool_calls {
        Some(_) => {},
        None => {
            match d.content {
                Some(c) => {
                    let input = v.3.1 + c@;
                    let sc = scan_from(v.3.0, input, 0);
                    let a = one_piece(r, true);
                    let b = tagged(sc.thinking, true);
                    let t = tagged(sc.text, false);
                    lemma_shown_concat(a + b, t, false);
                    lemma_shown_concat(a + b, t, true);
                    lemma_shown_concat(a, b, false);
                    lemma_shown_concat(a, b, true);
                    lemma_shown_tagged(sc.thinking, true, false);
                    lemma_shown_tagged(sc.thinking, true, true);
                    lemma_shown_tagged(sc.text, false, false);
                    lemma_shown_tagged(sc.text, false, true);
                },
                None => {},
            }
        },
    }
}

/// What the Anthropic accumulator keeps is what it shows: after any event, the reply text has
/// grown by exactly the text pieces shown and the thinking by exactly the thinking pieces.
pub proof fn lemma_anthropic_shown_is_kept(v: AnthropicStreamView, e: AnthropicStreamEvent)
    ensures
        anthropic_step(v, e).0.0 == v.0 + shown(anthropic_step(v, e).1, false),
        anthropic_step(v, e).0.1 == v.1 + shown(anthropic_step(v, e).1, true),
{
    let t = match e.thinking {
        Some(t) => non_empty(t@),
        None => None,
    };
    lemma_shown_one(t, true, false);
    lemma_shown_one(t, true, true);
    lemma_shown_one(opt_view(e.text), false, false);
    lemma_shown_one(opt_view(e.text), false, true);
    lemma_shown_one(Some(redacted_marker()), true, false);
    lemma_shown_one(Some(redacted_marker()), true, true);
    assert(one_piece(Some(redacted_marker()), true) =~= seq![(true, redacted_marker())]);
    assert(v.0 + Seq::<char>::empty() =~= v.0);
    assert(v.1 + Seq::<char>::empty() =~= v.1);
}

/// What the Gemini accumulator keeps is what it shows: after the parts of any chunk, the reply
/// text has grown by exactly the text pieces shown and the thinking by exactly the thinking
/// pieces.
pub proof fn lemma_gemini_shown_is_kept(v: GeminiStreamView, ps: Seq<GeminiStreamPart>)
    ensures
        gemini_parts_step(v, ps).0.0 == v.0 + shown(gemini_parts_step(v, ps).1, false),
        gemini_parts_step(v, ps).0.1 == v.1 + shown(gemini_parts_step(v, ps).1, true),
    decreases ps.len(),
{
    if ps.len() == 0 {
        assert(v.0 + Seq::<char>::empty() =~= v.0);
        assert(v.1 + Seq::<char>::empty() =~= v.1);
    } else {
        lemma_gemini_shown_is_kept(v, ps.drop_last());
        let (v1, e1) = gemini_parts_step(v, ps.drop_last());
        let p = ps.last();
        let (v2, e2) = gemini_part_step(v1, p);
        lemma_shown_concat(e1, e2, false);
        lemma_shown_concat(e1, e2, true);
        let t = match p.text {
            Some(t) => non_empty(t@),
            None => None,
        };
        lemma_shown_one(t, p.thought, false);
        lemma_shown_one(t, p.thought, true);
        assert(v1.0 + Seq::<char>::empty() =~= v1.0);
        assert(v1.1 + Seq::<char>::empty() =~= v1.1);
    }
}

/// An OpenAI stream after a run of deltas: the state reached and every piece shown, in order.
pub open spec fn openai_run(v: OpenAIStreamView, ds: Seq<OpenAIStreamDelta>) -> (
    OpenAIStreamView,
    Seq<(bool, Seq<char>)>,
)
    decreases ds.len(),
{
    if ds.len() == 0 {
        (v, Seq::empty())
    } else {
        let (w, e) = openai_run(v, ds.drop_last());
        let (x, f) = openai_step(w, ds.last());
        (x, e + f)
    }
}

/// Over a whole OpenAI stream, the reply text kept is exactly the concatenation of the text
/// pieces shown along the way, and the thinking kept that of the thinking pieces.
pub proof fn lemma_openai_run_shown_is_kept(v: OpenAIStreamView, ds: Seq<OpenAIStreamDelta>)
    ensures
        openai_run(v, ds).0.0 == v.0 + shown(openai_run(v, ds).1, false),
        openai_run(v, ds).0.1 == v.1 + shown(openai_run(v, ds).1, true),
    decreases ds.len(),
{
    if ds.len() == 0 {
        assert(v.0 + Seq::<char>::empty() =~= v.0);
        assert(v.1 + Seq::<char>::empty() =~= v.1);
    } else {
        lemma_openai_run_shown_is_kept(v, ds.drop_last());
        let (w, e) = openai_run(v, ds.drop_last());
        lemma_openai_shown_is_kept(w, ds.last());
        let f = openai_step(w, ds.last()).1;
        lemma_shown_concat(e, f, false);
        lemma_shown_concat(e, f, true);
        assert(v.0 + shown(e, false) + shown(f, false) =~= v.0 + (shown(e, false) + shown(f, false)));
        assert(v.1 + shown(e, true) + shown(f, true) =~= v.1 + (shown(e, true) + shown(f, true)));
    }
}

/// An Anthropic stream after a run of events: the state reached and every piece shown.
pub open spec fn anthropic_run(v: AnthropicStreamView, es: Seq<AnthropicStreamEvent>) -> (
    AnthropicStreamView,
    Seq<(bool, Seq<char>)>,
)
    decreases es.len(),
{
    if es.len() == 0 {
        (v, Seq::empty())
    } else {
        let (w, e) = anthropic_run(v, es.drop_last());
        let (x, f) = anthropic_step(w, es.last());
        (x, e + f)
    }
}

/// Over a whole Anthropic stream, the reply text and thinking kept are exactly the
/// concatenations of the pieces shown.
pub proof fn lemma_anthropic_run_shown_is_kept(v: AnthropicStreamView, es: Seq<AnthropicStreamEvent>)
    ensures
        anthropic_run(v, es).0.0 == v.0 + shown(anthropic_run(v, es).1, false),
        anthropic_run(v, es).0.1 == v.1 + shown(anthropic_run(v, es).1, true),
    decreases es.len(),
{
    if es.len() == 0 {
        assert(v.0 + Seq::<char>::empty() =~= v.0);
        assert(v.1 + Seq::<char>::empty() =~= v.1);
    } else {
        lemma_anthropic_run_shown_is_kept(v, es.drop_last());
        let (w, e) = anthropic_run(v, es.drop_last());
        lemma_anthropic_shown_is_kept(w, es.last());
        let f = anthropic_step(w, es.last()).1;
        lemma_shown_concat(e, f, false);
        lemma_shown_concat(e, f, true);
        assert(v.0 + shown(e, false) + shown(f, false) =~= v.0 + (shown(e, false) + shown(f, false)));
        assert(v.1 + shown(e, true) + shown(f, true) =~= v.1 + (shown(e, true) + shown(f, true)));
    }
}

/// A Gemini stream after a run of chunks: the state reached and every piece shown.
pub open spec fn gemini_run(v: GeminiStreamView, chunks: Seq<Seq<GeminiStreamPart>>) -> (
    GeminiStreamView,
    Seq<(bool, Seq<char>)>,
)
    decreases chunks.len(),
{
    if chunks.len() == 0 {
        (v, Seq::empty())
    } else {
        let (w, e) = gemini_run(v, chunks.drop_last());
        let (x, f) = gemini_parts_step(w, chunks.last());
        (x, e + f)
    }
}

/// Over a whole Gemini stream, the reply text and thinking kept are exactly the
/// concatenations of the pieces shown.
pub proof fn lemma_gemini_run_shown_is_kept(v: GeminiStreamView, chunks: Seq<Seq<GeminiStreamPart>>)
    ensures
        gemini_run(v, chunks).0.0 == v.0 + shown(gemini_run(v, chunks).1, false),
        gemini_run(v, chunks).0.1 == v.1 + shown(gemini_run(v, chunks).1, true),
    decreases chunks.len(),
{
    if chunks.len() == 0 {
        assert(v.0 + Seq::<char>::empty() =~= v.0);
        assert(v.1 + Seq::<char>::empty() =~= v.1);
    } else {
        lemma_gemini_run_shown_is_kept(v, chunks.drop_last());
        let (w, e) = gemini_run(v, chunks.drop_last());
        lemma_gemini_shown_is_kept(w, chunks.last());
        let f = gemini_parts_step(w, chunks.last()).1;
        lemma_shown_concat(e, f, false);
        lemma_shown_concat(e, f, true);
        assert(v.0 + shown(e, false) + shown(f, false) =~= v.0 + (shown(e, false) + shown(f, false)));
        assert(v.1 + shown(e, true) + shown(f, true) =~= v.1 + (shown(e, true) + shown(f, true)));
    }
}

// ---------------------------------------------------------------------------------------
// Reading the JSON payload of a stream line
// ---------------------------------------------------------------------------------------

/// Looking up `key` in a value that may be missing: missing when the value is missing, is not
/// an object or has no such key (what indexing a `serde_json::Value` by a key reads).
pub open spec fn at_key(o: Option<serde_json::Value>, key: Seq<char>) -> Option<serde_json::Value> {
    match o {
        Some(v) => json_field(v, key),
        None => None,
    }
}

/// The first item of a value that may be missing: missing unless it is a non-empty array.
pub open spec fn at_first(o: Option<serde_json::Value>) -> Option<serde_json::Value> {
    match o {
        Some(v) => match json_items(v) {
            Some(items) => if items.len() > 0 {
                Some(items[0])
            } else {
                None
            },
            None => None,
        },
        None => None,
    }
}

/// The text of a value that may be missing, when it is a string.
pub open spec fn text_at(o: Option<serde_json::Value>) -> Option<Seq<char>> {
    match o {
        Some(v) => json_str(v),
        None => None,
    }
}

/// The text of a value that may be missing, or the empty text.
pub open spec fn text_or_empty_at(o: Option<serde_json::Value>) -> Seq<char> {
    match text_at(o) {
        Some(t) => t,
        None => Seq::empty(),
    }
}

/// The index a value that may be missing holds: its unsigned number, or 0.
pub open spec fn index_at(o: Option<serde_json::Value>) -> usize {
    match o {
        Some(v) => match json_u64(v) {
            Some(n) => n as usize,
            None => 0,
        },
        None => 0,
    }
}

/// The items of a value that may be missing, when it is an array.
pub open spec fn items_at(o: Option<serde_json::Value>) -> Option<Seq<serde_json::Value>> {
    match o {
        Some(v) => json_items(v),
        None => None,
    }
}

pub(crate) fn key_of(o: &Option<serde_json::Value>, key: &str) -> (r: Option<serde_json::Value>)
    ensures
        r == at_key(*o, key@),
{
    match o {
        Some(v) => field_value(v, key),
        None => None,
    }
}

pub(crate) fn first_of(o: &Option<serde_json::Value>) -> (r: Option<serde_json::Value>)
    ensures
        r == at_first(*o),
{
    match o {
        Some(v) => match array_items(v) {
            Some(items) => if items.len() > 0 {
                Some(items[0].clone())
            } else {
                None
            },
            None => None,
        },
        None => None,
    }
}

pub(crate) fn text_of(o: &Option<serde_json::Value>) -> (r: Option<String>)
    ensures
        opt_view(r) == text_at(*o),
{
    match o {
        Some(v) => as_text(v),
        None => None,
    }
}

fn text_or_empty_of(o: &Option<serde_json::Value>) -> (r: String)
    ensures
        r@ == text_or_empty_at(*o),
{
    match text_of(o) {
        Some(t) => t,
        None => String::new(),
    }
}

fn index_of(o: &Option<serde_json::Value>) -> (r: usize)
    ensures
        r == index_at(*o),
{
    match o {
        Some(v) => match as_u64(v) {
            Some(n) => n as usize,
            None => 0,
        },
        None => 0,
    }
}

pub(crate) fn items_of(o: &Option<serde_json::Value>) -> (r: Option<Vec<serde_json::Value>>)
    ensures
        match r {
            Some(items) => items_at(*o) == Some(items@),
            None => items_at(*o) is None,
        },
{
    match o {
        Some(v) => array_items(v),
        None => None,
    }
}

/// The plain value of a tool-call fragment: index, id, function name, arguments.
pub open spec fn tool_delta_view(t: ToolCallDelta) -> (
    usize,
    Option<Seq<char>>,
    Option<Seq<char>>,
    Option<Seq<char>>,
) {
    (t.index, opt_view(t.id), opt_view(t.name), opt_view(t.arguments))
}

/// What an item of `delta.tool_calls` says: `index` (0 when not a number), `id`,
/// `function.name` and `function.arguments` (each when a string).
pub open spec fn tool_delta_of(tc: serde_json::Value) -> (
    usize,
    Option<Seq<char>>,
    Option<Seq<char>>,
    Option<Seq<char>>,
) {
    let o = Some(tc);
    (
        index_at(at_key(o, "index"@)),
        text_at(at_key(o, "id"@)),
        text_at(at_key(at_key(o, "function"@), "name"@)),
        text_at(at_key(at_key(o, "function"@), "arguments"@)),
    )
}

/// The `choices[0].delta` of a streamed OpenAI chunk.
pub open spec fn openai_delta_value(v: serde_json::Value) -> Option<serde_json::Value> {
    at_key(at_first(at_key(Some(v), "choices"@)), "delta"@)
}

/// A delta read from a streamed OpenAI chunk: `tool_calls` when it is an array (each item as
/// `tool_delta_of`), and `reasoning_content`, `reasoning` and `content` when strings.
pub open spec fn openai_delta_matches(d: OpenAIStreamDelta, v: serde_json::Value) -> bool {
    let dv = openai_delta_value(v);
    &&& match (d.tool_calls, items_at(at_key(dv, "tool_calls"@))) {
        (None, None) => true,
        (Some(ts), Some(items)) => ts@.map_values(|t: ToolCallDelta| tool_delta_view(t))
            == items.map_values(|x: serde_json::Value| tool_delta_of(x)),
        _ => false,
    }
    &&& opt_view(d.reasoning_content) == text_at(at_key(dv, "reasoning_content"@))
    &&& opt_view(d.reasoning) == text_at(at_key(dv, "reasoning"@))
    &&& opt_view(d.content) == text_at(at_key(dv, "content"@))
}

fn tool_delta_from(tc: &serde_json::Value) -> (t: ToolCallDelta)
    ensures
        tool_delta_view(t) == tool_delta_of(*tc),
{
    let o = Some(tc.clone());
    let f = key_of(&o, "function");
    ToolCallDelta {
        index: index_of(&key_of(&o, "index")),
        id: text_of(&key_of(&o, "id")),
        name: text_of(&key_of(&f, "name")),
        arguments: text_of(&key_of(&f, "arguments")),
    }
}

/// Reads the payload of a streamed OpenAI line: none when it is not JSON (such as `[DONE]`),
/// else its delta (see `openai_delta_matches`).
pub fn openai_stream_delta(payload: &str) -> (r: Option<OpenAIStreamDelta>)
    ensures
        match json_parsed(payload@) {
            None => r is None,
            Some(v) => r matches Some(d) && openai_delta_matches(d, v),
        },
{
    let v = match parse_json(payload) {
        Some(v) => v,
        None => {
            return None;
        },
    };
    let choices = key_of(&Some(v), "choices");
    let dv = key_of(&first_of(&choices), "delta");
    let tool_calls = match items_of(&key_of(&dv, "tool_calls")) {
        Some(items) => {
            let mut ts: Vec<ToolCallDelta> = Vec::new();
            let mut i: usize = 0;
            while i < items.len()
                invariant
                    i <= items.len(),
                    ts@.map_values(|t: ToolCallDelta| tool_delta_view(t)) == items@.subrange(
                        0,
                        i as int,
                    ).map_values(|x: serde_json::Value| tool_delta_of(x)),
                decreases items.len() - i,
            {
                let ghost old_ts = ts@;
                let t = tool_delta_from(&items[i]);
                ts.push(t);
                assert(ts@.map_values(|t: ToolCallDelta| tool_delta_view(t)) =~= old_ts.map_values(
                    |t: ToolCallDelta| tool_delta_view(t),
                ).push(tool_delta_view(t)));
                assert(items@.subrange(0, i + 1) =~= items@.subrange(0, i as int).push(items@[i as int]));
                assert(ts@.map_values(|t: ToolCallDelta| tool_delta_view(t)) =~= items@.subrange(
                    0,
                    i + 1,
                ).map_values(|x: serde_json::Value| tool_delta_of(x)));
                i += 1;
            }
            assert(items@.subrange(0, items.len() as int) =~= items@);
            Some(ts)
        },
        None => None,
    };
    Some(
        OpenAIStreamDelta {
            tool_calls,
            reasoning_content: text_of(&key_of(&dv, "reasoning_content")),
            reasoning: text_of(&key_of(&dv, "reasoning")),
            content: text_of(&key_of(&dv, "content")),
        },
    )
}

/// An event read from a streamed Anthropic line: `type`, `index` (0 when not a number),
/// `content_block.type`, `.id`, `.name`, `delta.type`, `delta.partial_json` (each empty when
/// not a string), and `delta.thinking`, `delta.text` when strings.
pub open spec fn anthropic_event_matches(e: AnthropicStreamEvent, v: serde_json::Value) -> bool {
    let o = Some(v);
    let block = at_key(o, "content_block"@);
    let delta = at_key(o, "delta"@);
    &&& e.event_type@ == text_or_empty_at(at_key(o, "type"@))
    &&& e.index == index_at(at_key(o, "index"@))
    &&& e.block_type@ == text_or_empty_at(at_key(block, "type"@))
    &&& e.block_id@ == text_or_empty_at(at_key(block, "id"@))
    &&& e.block_name@ == text_or_empty_at(at_key(block, "name"@))
    &&& e.delta_type@ == text_or_empty_at(at_key(delta, "type"@))
    &&& e.partial_json@ == text_or_empty_at(at_key(delta, "partial_json"@))
    &&& opt_view(e.thinking) == text_at(at_key(delta, "thinking"@))
    &&& opt_view(e.text) == text_at(at_key(delta, "text"@))
}

/// Reads the payload of a streamed Anthropic line: none when it is not JSON, else its event
/// (see `anthropic_event_matches`).
pub fn anthropic_stream_event(payload: &str) -> (r: Option<AnthropicStreamEvent>)
    ensures
        match json_parsed(payload@) {
            None => r is None,
            Some(v) => r matches Some(e) && anthropic_event_matches(e, v),
        },
{
    let v = match parse_json(payload) {
        Some(v) => v,
        None => {
            return None;
        },
    };
    let o = Some(v);
    let block = key_of(&o, "content_block");
    let delta = key_of(&o, "delta");
    Some(
        AnthropicStreamEvent {
            event_type: text_or_empty_of(&key_of(&o, "type")),
            index: index_of(&key_of(&o, "index")),
            block_type: text_or_empty_of(&key_of(&block, "type")),
            block_id: text_or_empty_of(&key_of(&block, "id")),
            block_name: text_or_empty_of(&key_of(&block, "name")),
            delta_type: text_or_empty_of(&key_of(&delta, "type")),
            partial_json: text_or_empty_of(&key_of(&delta, "partial_json")),
            thinking: text_of(&key_of(&delta, "thinking")),
            text: text_of(&key_of(&delta, "text")),
        },
    )
}

/// The `candidates[0].content.parts` array of a streamed Gemini chunk, when it is one.
pub open spec fn gemini_parts_value(v: serde_json::Value) -> Option<Seq<serde_json::Value>> {
    items_at(at_key(at_key(at_first(at_key(Some(v), "candidates"@)), "content"@), "parts"@))
}

/// A part read from a streamed Gemini chunk: its `functionCall` when it has one (`name`, empty
/// when not a string; `args`, the empty object when missing), whether `thought` is `true`,
/// and `text` when a string.
pub open spec fn gemini_part_matches(p: GeminiStreamPart, x: serde_json::Value) -> bool {
    let o = Some(x);
    &&& match (p.function_call, at_key(o, "functionCall"@)) {
        (None, None) => true,
        (Some(fc), Some(f)) => fc.name@ == text_or_empty_at(at_key(Some(f), "name"@)) && fc.args
            == match json_field(f, "args"@) {
            Some(a) => a,
            None => empty_json_object(),
        },
        _ => false,
    }
    &&& p.thought == (match at_key(o, "thought"@) {
        Some(t) => json_bool(t) == Some(true),
        None => false,
    })
    &&& opt_view(p.text) == text_at(at_key(o, "text"@))
}

fn gemini_part_from(x: &serde_json::Value) -> (p: GeminiStreamPart)
    ensures
        gemini_part_matches(p, *x),
{
    let o = Some(x.clone());
    let function_call = match key_of(&o, "functionCall") {
        Some(f) => {
            let args = match field_value(&f, "args") {
                Some(a) => a,
                None => parse_json_text("{}"),
            };
            let name = text_or_empty_of(&key_of(&Some(f), "name"));
            Some(GeminiFunctionCall { name, args })
        },
        None => None,
    };
    let thought = match key_of(&o, "thought") {
        Some(t) => match as_bool(&t) {
            Some(b) => b,
            None => false,
        },
        None => false,
    };
    GeminiStreamPart { function_call, thought, text: text_of(&key_of(&o, "text")) }
}

/// Reads the payload of a streamed Gemini line: none when it is not JSON; else its parts when
/// `candidates[0].content.parts` is an array (each part as `gemini_part_matches`), or none.
pub fn gemini_stream_parts_of(payload: &str) -> (r: Option<Option<Vec<GeminiStreamPart>>>)
    ensures
        match json_parsed(payload@) {
            None => r is None,
            Some(v) => r matches Some(ps) && match (ps, gemini_parts_value(v)) {
                (None, None) => true,
                (Some(ps), Some(items)) => ps@.len() == items.len() && forall|i: int|
                    0 <= i < items.len() ==> gemini_part_matches(#[trigger] ps@[i], items[i]),
                _ => false,
            },
        },
{
    let v = match parse_json(payload) {
        Some(v) => v,
        None => {
            return None;
        },
    };
    let candidates = key_of(&Some(v), "candidates");
    let content = key_of(&first_of(&candidates), "content");
    match items_of(&key_of(&content, "parts")) {
        None => Some(None),
        Some(items) => {
            let mut ps: Vec<GeminiStreamPart> = Vec::new();
            let mut i: usize = 0;
            while i < items.len()
                invariant
                    i <= items.len(),
                    ps@.len() == i,
                    forall|j: int| 0 <= j < i ==> gemini_part_matches(#[trigger] ps@[j], items@[j]),
                decreases items.len() - i,
            {
                ps.push(gemini_part_from(&items[i]));
                i += 1;
            }
            Some(Some(ps))
        },
    }
}

} // verus!
