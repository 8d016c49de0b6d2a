//! The request bodies of the three model APIs, as plain structures that the caller serialises
//! (adding the sampling temperature, which the library does not hold).
use vstd::prelude::*;
use crate::llm::client::{ChatMessage, MessageRole, ModelEndpoint};
use crate::llm::replies::opt_view;
use crate::models::plugin::ToolDefinition;

verus! {

broadcast use vstd::seq_lib::group_seq_properties;

/// One element of a multi-part message content.
#[derive(Debug, Clone)]
pub enum WirePart {
    /// `{"type": "text", "text": ..}`.
    Text(String),
    /// `{"type": "image_url", "image_url": {"url": ..}}`.
    ImageUrl(String),
}

/// The content of a message: a string, or a list of parts (vision input).
#[derive(Debug, Clone)]
pub enum WireContent {
    Text(String),
    Parts(Vec<WirePart>),
}

/// A message of an OpenAI chat-completions request.
#[derive(Debug, Clone)]
pub struct WireMessage {
    pub role: MessageRole,
    pub content: WireContent,
    /// Sent only when present.
    pub tool_call_id: Option<String>,
}

/// The body of an OpenAI chat-completions request, without its temperature.
#[derive(Debug, Clone)]
pub struct OpenAIRequest {
    pub model: String,
    pub messages: Vec<WireMessage>,
    pub stream: bool,
    /// Sent (each as `{"type": "function", "function": ..}`) only when there are tools.
    pub tools: Option<Vec<ToolDefinition>>,
}

/// A part's plain value: whether it is an image, and its text or URL.
pub open spec fn part_view(p: WirePart) -> (bool, Seq<char>) {
    match p {
        WirePart::Text(t) => (false, t@),
        WirePart::ImageUrl(u) => (true, u@),
    }
}

/// Content's plain value: whether it is a list of parts, its text, and its parts.
pub type ContentView = (bool, Seq<char>, Seq<(bool, Seq<char>)>);

/// The plain value of a content.
pub open spec fn content_view(c: WireContent) -> ContentView {
    match c {
        WireContent::Text(t) => (false, t@, Seq::empty()),
        WireContent::Parts(ps) => (true, Seq::empty(), ps@.map_values(|p: WirePart| part_view(p))),
    }
}

/// A wire message's plain value: role, content, tool call id.
pub type WireView = (MessageRole, ContentView, Option<Seq<char>>);

/// The plain value of a wire message.
pub open spec fn wire_view(m: WireMessage) -> WireView {
    (m.role, content_view(m.content), opt_view(m.tool_call_id))
}

/// The plain values of wire messages.
pub open spec fn wire_views(v: Seq<WireMessage>) -> Seq<WireView> {
    v.map_values(|m: WireMessage| wire_view(m))
}

/// The data URL of a base64-encoded PNG image.
pub open spec fn image_url(img: Seq<char>) -> Seq<char> {
    "data:image/png;base64,"@ + img
}

/// The image parts of a message's images.
pub open spec fn image_parts(imgs: Seq<String>) -> Seq<(bool, Seq<char>)> {
    imgs.map_values(|i: String| (true, image_url(i@)))
}

/// The message carries at least one image.
pub open spec fn has_images(m: ChatMessage) -> bool {
    m.images is Some && m.images->0@.len() > 0
}

/// The wire messages of one message. A tool message carries its text (tool messages may only
/// hold a string) and is followed, when it has images, by a user message of image parts. Any
/// other message with images has a list of parts: its text, when not empty, then its images;
/// without images its content is its text.
pub open spec fn wire_of(m: ChatMessage) -> Seq<WireView> {
    if m.role == MessageRole::Tool {
        let t = (MessageRole::Tool, (false, m.content@, Seq::empty()), opt_view(m.tool_call_id));
        if has_images(m) {
            seq![t, (MessageRole::User, (true, Seq::empty(), image_parts(m.images->0@)), None)]
        } else {
            seq![t]
        }
    } else {
        let c = if has_images(m) {
            (
                true,
                Seq::empty(),
                (if m.content@.len() > 0 {
                    seq![(false, m.content@)]
                } else {
                    Seq::empty()
                }) + image_parts(m.images->0@),
            )
        } else {
            (false, m.content@, Seq::empty())
        };
        seq![(m.role, c, opt_view(m.tool_call_id))]
    }
}

/// The wire messages of a conversation, in order.
pub open spec fn openai_wire(ms: Seq<ChatMessage>) -> Seq<WireView> {
    ms.map_values(|m: ChatMessage| wire_of(m)).flatten()
}

/// Two tool definitions with the same name, description and parameters.
pub open spec fn same_tool(a: ToolDefinition, b: ToolDefinition) -> bool {
    a.name@ == b.name@ && a.description@ == b.description@ && a.parameters == b.parameters
}

/// The tools sent with a request: none when there are none.
pub open spec fn sent_tools(tools: Option<Seq<ToolDefinition>>, r: Option<Vec<ToolDefinition>>) -> bool {
    match tools {
        Some(ts) if ts.len() > 0 => r is Some && r->0@.len() == ts.len() && forall|i: int|
            0 <= i < ts.len() ==> same_tool(#[trigger] r->0@[i], ts[i]),
        _ => r is None,
    }
}

fn copy_tool(t: &ToolDefinition) -> (r: ToolDefinition)
    ensures
        same_tool(r, *t),
{
    ToolDefinition {
        name: t.name.clone(),
        description: t.description.clone(),
        parameters: t.parameters.clone(),
    }
}

/// The tools to send: a copy of them when there are any, else none.
pub fn tools_to_send(tools: Option<&[ToolDefinition]>) -> (r: Option<Vec<ToolDefinition>>)
    ensures
        sent_tools(
            match tools {
                Some(ts) => Some(ts@),
                None => None,
            },
            r,
        ),
{
    match tools {
        Some(ts) => {
            if ts.len() == 0 {
                return None;
            }
            let mut out: Vec<ToolDefinition> = Vec::new();
            let mut i: usize = 0;
            while i < ts.len()
                invariant
                    i <= ts.len(),
                    out@.len() == i,
                    forall|j: int| 0 <= j < i ==> same_tool(#[trigger] out@[j], ts@[j]),
                decreases ts.len() - i,
            {
                out.push(copy_tool(&ts[i]));
                i += 1;
            }
            Some(out)
        },
        None => None,
    }
}

fn copy_opt(s: &Option<String>) -> (r: Option<String>)
    ensures
        opt_view(r) == opt_view(*s),
{
    match s {
        Some(t) => Some(t.clone()),
        None => None,
    }
}

fn image_url_of(img: &String) -> (u: String)
    ensures
        u@ == image_url(img@),
{
    let mut u = String::from_str("data:image/png;base64,");
    u.append(img.as_str());
    u
}

fn push_images(parts: &mut Vec<WirePart>, imgs: &Vec<String>)
    ensures
        final(parts)@.map_values(|p: WirePart| part_view(p)) == old(parts)@.map_values(
            |p: WirePart| part_view(p),
        ) + image_parts(imgs@),
{
    let mut i: usize = 0;
    while i < imgs.len()
        invariant
            i <= imgs.len(),
            parts@.map_values(|p: WirePart| part_view(p)) == old(parts)@.map_values(
                |p: WirePart| part_view(p),
            ) + image_parts(imgs@.subrange(0, i as int)),
        decreases imgs.len() - i,
    {
        let ghost before = parts@;
        parts.push(WirePart::ImageUrl(image_url_of(&imgs[i])));
        assert(parts@.map_values(|p: WirePart| part_view(p)) =~= before.map_values(
            |p: WirePart| part_view(p),
        ).push((true, image_url(imgs@[i as int]@))));
        assert(image_parts(imgs@.subrange(0, i + 1)) =~= image_parts(
            imgs@.subrange(0, i as int),
        ).push((true, image_url(imgs@[i as int]@))));
        i += 1;
    }
    assert(imgs@.subrange(0, imgs.len() as int) =~= imgs@);
}

fn wire_messages_of(m: &ChatMessage, out: &mut Vec<WireMessage>)
    ensures
        wire_views(final(out)@) == wire_views(old(out)@) + wire_of(*m),
{
    let ghost before = out@;
    let imgs: Option<&Vec<String>> = match &m.images {
        Some(v) => if v.len() > 0 {
            Some(v)
        } else {
            None
        },
        None => None,
    };
    match m.role {
        MessageRole::Tool => {
            out.push(
                WireMessage {
                    role: MessageRole::Tool,
                    content: WireContent::Text(m.content.clone()),
                    tool_call_id: copy_opt(&m.tool_call_id),
                },
            );
            match imgs {
                Some(v) => {
                    let mut parts: Vec<WirePart> = Vec::new();
                    push_images(&mut parts, v);
                    assert(parts@.map_values(|p: WirePart| part_view(p)) =~= image_parts(v@));
                    out.push(
                        WireMessage {
                            role: MessageRole::User,
                            content: WireContent::Parts(parts),
                            tool_call_id: None,
                        },
                    );
                },
                None => {},
            }
        },
        _ => {
            let content = match imgs {
                Some(v) => {
                    let mut parts: Vec<WirePart> = Vec::new();
                    if !m.content.as_str().is_empty() {
                        parts.push(WirePart::Text(m.content.clone()));
                    }
                    let ghost first = parts@.map_values(|p: WirePart| part_view(p));
                    assert(first =~= (if m.content@.len() > 0 {
                        seq![(false, m.content@)]
                    } else {
                        Seq::empty()
                    }));
                    push_images(&mut parts, v);
                    WireContent::Parts(parts)
                },
                None => WireContent::Text(m.content.clone()),
            };
            out.push(WireMessage { role: m.role, content, tool_call_id: copy_opt(&m.tool_call_id) });
        },
    }
    assert(wire_views(out@) =~= wire_views(before) + wire_of(*m));
}

/// Messages without images are sent one for one, in order: each keeps its role, its text as
/// plain content, and the tool call it answers.
pub proof fn lemma_plain_messages_sent_one_for_one(ms: Seq<ChatMessage>)
    requires
        forall|i: int| 0 <= i < ms.len() ==> !has_images(#[trigger] ms[i]),
    ensures
        openai_wire(ms).len() == ms.len(),
        forall|i: int|
            0 <= i < ms.len() ==> #[trigger] openai_wire(ms)[i] == (
                ms[i].role,
                (false, ms[i].content@, Seq::<(bool, Seq<char>)>::empty()),
                opt_view(ms[i].tool_call_id),
            ),
    decreases ms.len(),
{
    if ms.len() > 0 {
        let init = ms.drop_last();
        assert forall|i: int| 0 <= i < init.len() implies !has_images(#[trigger] init[i]) by {
            assert(init[i] == ms[i]);
        }
        lemma_plain_messages_sent_one_for_one(init);
        let m = ms.last();
        assert(!has_images(ms[ms.len() - 1]));
        assert(ms.map_values(|x: ChatMessage| wire_of(x)) =~= init.map_values(
            |x: ChatMessage| wire_of(x),
        ).push(wire_of(m)));
        init.map_values(|x: ChatMessage| wire_of(x)).lemma_flatten_push(wire_of(m));
        assert forall|i: int| 0 <= i < ms.len() implies #[trigger] openai_wire(ms)[i] == (
            ms[i].role,
            (false, ms[i].content@, Seq::<(bool, Seq<char>)>::empty()),
            opt_view(ms[i].tool_call_id),
        ) by {
            if i < init.len() {
                assert(openai_wire(ms)[i] == openai_wire(init)[i]);
                assert(init[i] == ms[i]);
            }
        }
    } else {
        assert(ms.map_values(|x: ChatMessage| wire_of(x)) =~= Seq::<Seq<WireView>>::empty());
    }
}

/// The wire messages of a conversation.
pub fn openai_messages(messages: &[ChatMessage]) -> (out: Vec<WireMessage>)
    ensures
        wire_views(out@) == openai_wire(messages@),
{
    let mut out: Vec<WireMessage> = Vec::new();
    let mut i: usize = 0;
    while i < messages.len()
        invariant
            i <= messages.len(),
            wire_views(out@) == openai_wire(messages@.subrange(0, i as int)),
        decreases messages.len() - i,
    {
        let ghost prev = messages@.subrange(0, i as int).map_values(|m: ChatMessage| wire_of(m));
        assert(messages@.subrange(0, i + 1).map_values(|m: ChatMessage| wire_of(m)) =~= prev.push(
            wire_of(messages@[i as int]),
        ));
        proof {
            prev.lemma_flatten_push(wire_of(messages@[i as int]));
        }
        wire_messages_of(&messages[i], &mut out);
        i += 1;
    }
    assert(messages@.subrange(0, messages.len() as int) =~= messages@);
    out
}

/// The body of an OpenAI chat-completions request: the model, the wire messages of the
/// conversation, whether to stream, and the tools when there are any.
pub fn build_request_body(
    messages: &[ChatMessage],
    config: &ModelEndpoint,
    tools: Option<&[ToolDefinition]>,
    stream: bool,
) -> (body: OpenAIRequest)
    ensures
        body.model@ == config.model@,
        wire_views(body.messages@) == openai_wire(messages@),
        body.stream == stream,
        sent_tools(
            match tools {
                Some(ts) => Some(ts@),
                None => None,
            },
            body.tools,
        ),
{
    OpenAIRequest {
        model: config.model.clone(),
        messages: openai_messages(messages),
        stream,
        tools: tools_to_send(tools),
    }
}

/// A message of a Gemini `generateContent` request: a role and one text part.
#[derive(Debug, Clone)]
pub struct GeminiContent {
    /// `user` or `model`.
    pub role: String,
    pub text: String,
}

/// The body of a Gemini `generateContent` request, without its temperature.
#[derive(Debug, Clone)]
pub struct GeminiRequest {
    pub contents: Vec<GeminiContent>,
    /// The text of `systemInstruction`, when there is one.
    pub system_instruction: Option<String>,
    /// Sent as `[{"function_declarations": ..}]` only when there are tools.
    pub tools: Option<Vec<ToolDefinition>>,
}

/// Gemini's role for a message: `model` for the assistant, `user` for anything else.
pub open spec fn gemini_role(r: MessageRole) -> Seq<char> {
    if r == MessageRole::Assistant {
        "model"@
    } else {
        "user"@
    }
}

/// The non-system messages of a conversation as Gemini contents: role and text.
pub open spec fn gemini_contents(ms: Seq<ChatMessage>) -> Seq<(Seq<char>, Seq<char>)>
    decreases ms.len(),
{
    if ms.len() == 0 {
        Seq::empty()
    } else {
        let prev = gemini_contents(ms.drop_last());
        let m = ms.last();
        if m.role == MessageRole::System {
            prev
        } else {
            prev.push((gemini_role(m.role), m.content@))
        }
    }
}

/// The content of the first system message, if any.
pub open spec fn first_system(ms: Seq<ChatMessage>) -> Option<Seq<char>>
    decreases ms.len(),
{
    if ms.len() == 0 {
        None
    } else if ms[0].role == MessageRole::System {
        Some(ms[0].content@)
    } else {
        first_system(ms.drop_first())
    }
}

proof fn lemma_first_system_step(ms: Seq<ChatMessage>, i: int)
    requires
        0 <= i < ms.len(),
        first_system(ms.subrange(0, i)) is None,
    ensures
        first_system(ms.subrange(0, i + 1)) == (if ms[i].role == MessageRole::System {
            Some(ms[i].content@)
        } else {
            None::<Seq<char>>
        }),
    decreases i,
{
    if i > 0 {
        assert(ms.subrange(0, i)[0] == ms[0]);
        assert(ms.subrange(0, i + 1)[0] == ms[0]);
        assert(ms.subrange(0, i).drop_first() =~= ms.drop_first().subrange(0, i - 1));
        assert(ms.subrange(0, i + 1).drop_first() =~= ms.drop_first().subrange(0, i));
        lemma_first_system_step(ms.drop_first(), i - 1);
        assert(ms.drop_first()[i - 1] == ms[i]);
    } else {
        assert(ms.subrange(0, 1)[0] == ms[0]);
        assert(ms.subrange(0, 1).drop_first() =~= Seq::<ChatMessage>::empty());
    }
}

proof fn lemma_first_system_found(ms: Seq<ChatMessage>, i: int)
    requires
        0 <= i <= ms.len(),
        first_system(ms.subrange(0, i)) is Some,
    ensures
        first_system(ms) == first_system(ms.subrange(0, i)),
    decreases i,
{
    if i > 0 && ms[0].role != MessageRole::System {
        assert(ms.subrange(0, i).drop_first() =~= ms.drop_first().subrange(0, i - 1));
        lemma_first_system_found(ms.drop_first(), i - 1);
    }
}

/// A conversation without system messages is sent whole to Gemini, in order: the assistant's
/// messages as `model`, all others as `user`, each with its text.
pub proof fn lemma_gemini_contents_in_order(ms: Seq<ChatMessage>)
    requires
        forall|i: int| 0 <= i < ms.len() ==> (#[trigger] ms[i]).role != MessageRole::System,
    ensures
        gemini_contents(ms).len() == ms.len(),
        forall|i: int|
            0 <= i < ms.len() ==> #[trigger] gemini_contents(ms)[i] == (
                if ms[i].role == MessageRole::Assistant {
                    "model"@
                } else {
                    "user"@
                },
                ms[i].content@,
            ),
    decreases ms.len(),
{
    if ms.len() > 0 {
        let init = ms.drop_last();
        assert forall|i: int| 0 <= i < init.len() implies (#[trigger] init[i]).role != MessageRole::System by {
            assert(init[i] == ms[i]);
        }
        lemma_gemini_contents_in_order(init);
        assert(ms[ms.len() - 1].role != MessageRole::System);
        assert forall|i: int| 0 <= i < ms.len() implies #[trigger] gemini_contents(ms)[i] == (
            if ms[i].role == MessageRole::Assistant {
                "model"@
            } else {
                "user"@
            },
            ms[i].content@,
        ) by {
            if i < init.len() {
                assert(init[i] == ms[i]);
            }
        }
    }
}

/// System messages never become Gemini contents: inserting one anywhere leaves the contents
/// as they were.
pub proof fn lemma_gemini_skips_system(ms: Seq<ChatMessage>, k: int, sys: ChatMessage)
    requires
        0 <= k <= ms.len(),
        sys.role == MessageRole::System,
    ensures
        gemini_contents(ms.insert(k, sys)) == gemini_contents(ms),
    decreases ms.len(),
{
    let w = ms.insert(k, sys);
    if k == ms.len() {
        assert(w.drop_last() =~= ms);
    } else {
        assert(w.drop_last() =~= ms.drop_last().insert(k, sys));
        assert(w.last() == ms.last());
        lemma_gemini_skips_system(ms.drop_last(), k, sys);
    }
}

/// The system instruction sent to Gemini is the text of the earliest system message.
pub proof fn lemma_gemini_system_is_earliest(ms: Seq<ChatMessage>, i: int)
    requires
        0 <= i < ms.len(),
        ms[i].role == MessageRole::System,
        forall|j: int| 0 <= j < i ==> (#[trigger] ms[j]).role != MessageRole::System,
    ensures
        first_system(ms) == Some(ms[i].content@),
    decreases i,
{
    if i > 0 {
        let t = ms.drop_first();
        assert forall|j: int| 0 <= j < i - 1 implies (#[trigger] t[j]).role != MessageRole::System by {
            assert(t[j] == ms[j + 1]);
        }
        assert(ms[0].role != MessageRole::System);
        lemma_gemini_system_is_earliest(t, i - 1);
    }
}

/// The body of a Gemini request: the non-system messages as contents, the first system
/// message as system instruction, and the tools when there are any.
pub fn build_gemini_request(messages: &[ChatMessage], tools: Option<&[ToolDefinition]>) -> (body:
    GeminiRequest)
    ensures
        body.contents@.map_values(|c: GeminiContent| (c.role@, c.text@)) == gemini_contents(
            messages@,
        ),
        opt_view(body.system_instruction) == first_system(messages@),
        sent_tools(
            match tools {
                Some(ts) => Some(ts@),
                None => None,
            },
            body.tools,
        ),
{
    let mut contents: Vec<GeminiContent> = Vec::new();
    let mut system: Option<String> = None;
    let mut i: usize = 0;
    while i < messages.len()
        invariant
            i <= messages.len(),
            contents@.map_values(|c: GeminiContent| (c.role@, c.text@)) == gemini_contents(
                messages@.subrange(0, i as int),
            ),
            opt_view(system) == first_system(messages@.subrange(0, i as int)),
        decreases messages.len() - i,
    {
        let m = &messages[i];
        assert(messages@.subrange(0, i + 1).drop_last() =~= messages@.subrange(0, i as int));
        let ghost before = contents@;
        proof {
            if system is None {
                lemma_first_system_step(messages@, i as int);
            } else {
                lemma_first_system_found(messages@.subrange(0, i + 1), i as int);
                assert(messages@.subrange(0, i + 1).subrange(0, i as int) =~= messages@.subrange(
                    0,
                    i as int,
                ));
            }
        }
        match m.role {
            MessageRole::System => {
                if system.is_none() {
                    system = Some(m.content.clone());
                }
            },
            _ => {
                let role = match m.role {
                    MessageRole::Assistant => String::from_str("model"),
                    _ => String::from_str("user"),
                };
                proof {
                    reveal_strlit("model");
                    reveal_strlit("user");
                }
                contents.push(GeminiContent { role, text: m.content.clone() });
                assert(contents@.map_values(|c: GeminiContent| (c.role@, c.text@)) =~= before.map_values(
                    |c: GeminiContent| (c.role@, c.text@),
                ).push((gemini_role(m.role), m.content@)));
            },
        }
        i += 1;
    }
    assert(messages@.subrange(0, messages.len() as int) =~= messages@);
    GeminiRequest { contents, system_instruction: system, tools: tools_to_send(tools) }
}

/// A message of an Anthropic Messages request.
#[derive(Debug, Clone)]
pub struct AnthropicMessage {
    /// `user` or `assistant`.
    pub role: String,
    pub content: String,
}

/// The body of an Anthropic Messages request, without its temperature.
#[derive(Debug, Clone)]
pub struct AnthropicRequest {
    pub model: String,
    pub messages: Vec<AnthropicMessage>,
    pub max_tokens: u32,
    /// The system prompt, sent only when not empty.
    pub system: Option<String>,
    pub tools: Option<Vec<ToolDefinition>>,
}

/// Anthropic's role for a message: `assistant` for the assistant, `user` for anything else.
pub open spec fn anthropic_role(r: MessageRole) -> Seq<char> {
    if r == MessageRole::Assistant {
        "assistant"@
    } else {
        "user"@
    }
}

/// The non-system messages of a conversation as Anthropic messages: role and content.
pub open spec fn anthropic_messages(ms: Seq<ChatMessage>) -> Seq<(Seq<char>, Seq<char>)>
    decreases ms.len(),
{
    if ms.len() == 0 {
        Seq::empty()
    } else {
        let prev = anthropic_messages(ms.drop_last());
        let m = ms.last();
        if m.role == MessageRole::System {
            prev
        } else {
            prev.push((anthropic_role(m.role), m.content@))
        }
    }
}

/// The system messages' contents joined by newlines (`None` until one is found).
pub open spec fn system_join(ms: Seq<ChatMessage>) -> Option<Seq<char>>
    decreases ms.len(),
{
    if ms.len() == 0 {
        None
    } else {
        let prev = system_join(ms.drop_last());
        let m = ms.last();
        if m.role == MessageRole::System {
            match prev {
                Some(p) => Some(p + "\n"@ + m.content@),
                None => Some(m.content@),
            }
        } else {
            prev
        }
    }
}

/// A conversation without system messages is sent whole to Anthropic, in order: the
/// assistant's messages as `assistant`, all others as `user`, each with its text; and no system
/// prompt is sent.
pub proof fn lemma_anthropic_messages_in_order(ms: Seq<ChatMessage>)
    requires
        forall|i: int| 0 <= i < ms.len() ==> (#[trigger] ms[i]).role != MessageRole::System,
    ensures
        anthropic_messages(ms).len() == ms.len(),
        forall|i: int|
            0 <= i < ms.len() ==> #[trigger] anthropic_messages(ms)[i] == (
                if ms[i].role == MessageRole::Assistant {
                    "assistant"@
                } else {
                    "user"@
                },
                ms[i].content@,
            ),
        system_join(ms) is None,
    decreases ms.len(),
{
    if ms.len() > 0 {
        let init = ms.drop_last();
        assert forall|i: int| 0 <= i < init.len() implies (#[trigger] init[i]).role != MessageRole::System by {
            assert(init[i] == ms[i]);
        }
        lemma_anthropic_messages_in_order(init);
        assert(ms[ms.len() - 1].role != MessageRole::System);
        assert forall|i: int| 0 <= i < ms.len() implies #[trigger] anthropic_messages(ms)[i] == (
            if ms[i].role == MessageRole::Assistant {
                "assistant"@
            } else {
                "user"@
            },
            ms[i].content@,
        ) by {
            if i < init.len() {
                assert(init[i] == ms[i]);
            }
        }
    }
}

/// System messages never become Anthropic messages: inserting one anywhere leaves the
/// messages as they were.
pub proof fn lemma_anthropic_skips_system(ms: Seq<ChatMessage>, k: int, sys: ChatMessage)
    requires
        0 <= k <= ms.len(),
        sys.role == MessageRole::System,
    ensures
        anthropic_messages(ms.insert(k, sys)) == anthropic_messages(ms),
    decreases ms.len(),
{
    let w = ms.insert(k, sys);
    if k == ms.len() {
        assert(w.drop_last() =~= ms);
    } else {
        assert(w.drop_last() =~= ms.drop_last().insert(k, sys));
        assert(w.last() == ms.last());
        lemma_anthropic_skips_system(ms.drop_last(), k, sys);
    }
}

/// The system prompt sent to Anthropic gains each further system message on a new line: a
/// system message added at the end of a conversation that already has a system prompt `p` makes
/// it `p`, a newline, and the new text; added to one without, it becomes the prompt.
pub proof fn lemma_anthropic_system_appends(ms: Seq<ChatMessage>, sys: ChatMessage)
    requires
        sys.role == MessageRole::System,
    ensures
        system_join(ms.push(sys)) == Some(
            match system_join(ms) {
                Some(p) => p + "\n"@ + sys.content@,
                None => sys.content@,
            },
        ),
{
    assert(ms.push(sys).drop_last() =~= ms);
}

/// The body of an Anthropic Messages request: the model, the non-system messages, 4096 as the
/// largest number of tokens, the system messages joined by newlines when that is not empty,
/// and the tools when there are any.
pub fn build_anthropic_request(
    messages: &[ChatMessage],
    config: &ModelEndpoint,
    tools: Option<&[ToolDefinition]>,
) -> (body: AnthropicRequest)
    ensures
        body.model@ == config.model@,
        body.messages@.map_values(|m: AnthropicMessage| (m.role@, m.content@)) == anthropic_messages(
            messages@,
        ),
        body.max_tokens == 4096,
        opt_view(body.system) == (match system_join(messages@) {
            Some(s) => if s.len() > 0 {
                Some(s)
            } else {
                None
            },
            None => None,
        }),
        sent_tools(
            match tools {
                Some(ts) => Some(ts@),
                None => None,
            },
            body.tools,
        ),
{
    proof {
        reveal_strlit("\n");
        reveal_strlit("assistant");
        reveal_strlit("user");
    }
    let mut out: Vec<AnthropicMessage> = Vec::new();
    let mut system: Option<String> = None;
    let mut i: usize = 0;
    while i < messages.len()
        invariant
            i <= messages.len(),
            out@.map_values(|m: AnthropicMessage| (m.role@, m.content@)) == anthropic_messages(
                messages@.subrange(0, i as int),
            ),
            opt_view(system) == system_join(messages@.subrange(0, i as int)),
        decreases messages.len() - i,
    {
        let m = &messages[i];
        assert(messages@.subrange(0, i + 1).drop_last() =~= messages@.subrange(0, i as int));
        let ghost before = out@;
        match m.role {
            MessageRole::System => {
                system = match system {
                    Some(mut s) => {
                        s.append("\n");
                        s.append(m.content.as_str());
                        Some(s)
                    },
                    None => Some(m.content.clone()),
                };
            },
            _ => {
                let role = match m.role {
                    MessageRole::Assistant => String::from_str("assistant"),
                    _ => String::from_str("user"),
                };
                out.push(AnthropicMessage { role, content: m.content.clone() });
                assert(out@.map_values(|a: AnthropicMessage| (a.role@, a.content@)) =~= before.map_values(
                    |a: AnthropicMessage| (a.role@, a.content@),
                ).push((anthropic_role(m.role), m.content@)));
            },
        }
        i += 1;
    }
    assert(messages@.subrange(0, messages.len() as int) =~= messages@);
    let system = match system {
        Some(s) => if s.as_str().is_empty() {
            None
        } else {
            Some(s)
        },
        None => None,
    };
    AnthropicRequest {
        model: config.model.clone(),
        messages: out,
        max_tokens: 4096,
        system,
        tools: tools_to_send(tools),
    }
}

} // verus!
