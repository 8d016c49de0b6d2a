//! Decisions of the memory manager. The caller reads the session's messages, calls the model
//! and stores the memory; this module decides whether to compress, writes the request and
//! turns the reply into the memory record.
use vstd::prelude::*;
use crate::error::AppError;
use crate::llm::client::{ChatMessage, LLMResponse, MessageRole};
use crate::llm::replies::opt_view;
use crate::models::chat::{ChatMessageRecord, ChatRole};
use crate::models::memory::Memory;

verus! {

broadcast use vstd::seq_lib::group_seq_properties;

/// The label of a message's author in the text given to the summariser.
pub open spec fn role_label(r: ChatRole) -> Seq<char> {
    match r {
        ChatRole::User => "ユーザー"@,
        ChatRole::Assistant => "アシスタント"@,
        ChatRole::Spontaneous => "アシスタント（自発）"@,
        ChatRole::Tool => "ツール"@,
    }
}

/// One line of the conversation text: `{label}: {content}`.
pub open spec fn message_line(m: ChatMessageRecord) -> Seq<char> {
    role_label(m.role) + ": "@ + m.content@
}

/// The conversation text: one line per message, joined by newlines.
pub open spec fn conversation_text(ms: Seq<ChatMessageRecord>) -> Seq<char>
    decreases ms.len(),
{
    if ms.len() == 0 {
        Seq::empty()
    } else if ms.len() == 1 {
        message_line(ms[0])
    } else {
        conversation_text(ms.drop_last()) + "\n"@ + message_line(ms.last())
    }
}

/// The summariser sees one line per message, in order: a further message adds a newline and
/// the line `label: text`, where the label names the author (`ユーザー`, `アシスタント`,
/// `アシスタント（自発）` for what the character said on its own, `ツール`).
pub proof fn lemma_conversation_lines(ms: Seq<ChatMessageRecord>, m: ChatMessageRecord)
    ensures
        ({
            let label = match m.role {
                ChatRole::User => "ユーザー"@,
                ChatRole::Assistant => "アシスタント"@,
                ChatRole::Spontaneous => "アシスタント（自発）"@,
                ChatRole::Tool => "ツール"@,
            };
            &&& ms.len() == 0 ==> conversation_text(ms.push(m)) == label + ": "@ + m.content@
            &&& ms.len() > 0 ==> conversation_text(ms.push(m)) == conversation_text(ms) + "\n"@
                + label + ": "@ + m.content@
        }),
{
    assert(ms.push(m).drop_last() =~= ms);
    if ms.len() == 0 {
        assert(ms.push(m)[0] == m);
    }
}

fn role_label_text(r: ChatRole) -> (s: &'static str)
    ensures
        s@ == role_label(r),
{
    match r {
        ChatRole::User => "ユーザー",
        ChatRole::Assistant => "アシスタント",
        ChatRole::Spontaneous => "アシスタント（自発）",
        ChatRole::Tool => "ツール",
    }
}

/// The conversation as text for the summariser.
pub fn format_messages_for_compression(messages: &[ChatMessageRecord]) -> (s: String)
    ensures
        s@ == conversation_text(messages@),
{
    let mut s = String::new();
    let mut i: usize = 0;
    while i < messages.len()
        invariant
            i <= messages.len(),
            s@ == conversation_text(messages@.subrange(0, i as int)),
        decreases messages.len() - i,
    {
        let m = &messages[i];
        assert(messages@.subrange(0, i + 1).drop_last() =~= messages@.subrange(0, i as int));
        if i > 0 {
            s.append("\n");
        }
        s.append(role_label_text(m.role));
        s.append(": ");
        s.append(m.content.as_str());
        proof {
            if i == 0 {
                assert(s@ =~= message_line(messages@[0]));
            } else {
                assert(s@ =~= conversation_text(messages@.subrange(0, i as int)) + "\n"@ + message_line(
                    messages@[i as int],
                ));
            }
        }
        i += 1;
    }
    assert(messages@.subrange(0, messages.len() as int) =~= messages@);
    s
}

/// The system prompt of the summariser.
pub open spec fn compression_prompt() -> Seq<char> {
    "あなたは会話要約アシスタントです。以下の会話を分析し、重要な情報を簡潔に要約してください。\n\n以下の観点で要約してください：\n- ユーザーに関する重要な事実\n- 議論された主要なトピック\n- 表明された好みや意見\n- 行われた約束やコミットメント\n\n箇条書きで簡潔にまとめてください。"@
}

/// The system prompt of the summariser.
pub fn compression_system_prompt() -> (s: String)
    ensures
        s@ == compression_prompt(),
{
    String::from_str(
        "あなたは会話要約アシスタントです。以下の会話を分析し、重要な情報を簡潔に要約してください。\n\n以下の観点で要約してください：\n- ユーザーに関する重要な事実\n- 議論された主要なトピック\n- 表明された好みや意見\n- 行われた約束やコミットメント\n\n箇条書きで簡潔にまとめてください。",
    )
}

/// Whether a session with `count` messages is compressed: when the count, as a `u32`, reaches
/// the threshold.
pub fn should_compress(count: usize, threshold: u32) -> (b: bool)
    ensures
        b == !((count as u32) < threshold),
{
    #[verifier::truncate]
    let n = count as u32;
    !(n < threshold)
}

/// The request to the summariser: its system prompt, then the conversation text after
/// `以下の会話を要約してください：` and a blank line.
pub fn compression_request(messages: &[ChatMessageRecord]) -> (r: Vec<ChatMessage>)
    ensures
        r@.len() == 2,
        r@[0].role == MessageRole::System,
        r@[0].content@ == compression_prompt(),
        r@[0].tool_call_id is None && r@[0].images is None,
        r@[1].role == MessageRole::User,
        r@[1].content@ == "以下の会話を要約してください：\n\n"@ + conversation_text(messages@),
        r@[1].tool_call_id is None && r@[1].images is None,
{
    let text = format_messages_for_compression(messages);
    let mut user = String::from_str("以下の会話を要約してください：\n\n");
    user.append(text.as_str());
    let mut r: Vec<ChatMessage> = Vec::new();
    r.push(
        ChatMessage {
            role: MessageRole::System,
            content: compression_system_prompt(),
            tool_call_id: None,
            images: None,
        },
    );
    r.push(ChatMessage { role: MessageRole::User, content: user, tool_call_id: None, images: None });
    r
}

/// The summary in the summariser's reply: its text; a reply of tool calls is an error.
pub fn summary_of(response: LLMResponse) -> (r: Result<String, AppError>)
    ensures
        match response {
            LLMResponse::Text { content, .. } => r == Ok::<String, AppError>(content),
            LLMResponse::ToolCalls { .. } => r matches Err(AppError::LlmApi(m)) && m@
                == "Unexpected tool call response during compression"@,
        },
{
    match response {
        LLMResponse::Text { content, .. } => Ok(content),
        LLMResponse::ToolCalls { .. } => Err(
            AppError::LlmApi(String::from_str("Unexpected tool call response during compression")),
        ),
    }
}

/// The id of the first message, if any.
pub open spec fn first_id(ms: Seq<ChatMessageRecord>) -> Option<Seq<char>> {
    if ms.len() > 0 {
        Some(ms[0].id@)
    } else {
        None
    }
}

/// The id of the last message, if any.
pub open spec fn last_id(ms: Seq<ChatMessageRecord>) -> Option<Seq<char>> {
    if ms.len() > 0 {
        Some(ms.last().id@)
    } else {
        None
    }
}

/// The memory that a summary of a session's messages becomes: it belongs to the session's
/// character, names the session and the first and last message it covers, and is created and
/// updated at `now`.
pub fn memory_from_summary(
    id: String,
    character_id: String,
    summary: String,
    session_id: &str,
    messages: &[ChatMessageRecord],
    now: &str,
) -> (m: Memory)
    ensures
        m.id == id,
        m.character_id == character_id,
        m.content == summary,
        opt_view(m.source_session_id) == Some(session_id@),
        opt_view(m.source_message_from) == first_id(messages@),
        opt_view(m.source_message_to) == last_id(messages@),
        m.created_at@ == now@,
        m.updated_at@ == now@,
{
    let n = messages.len();
    let (from, to) = if n > 0 {
        (Some(messages[0].id.clone()), Some(messages[n - 1].id.clone()))
    } else {
        (None, None)
    };
    Memory {
        id,
        character_id,
        content: summary,
        source_session_id: Some(String::from_str(session_id)),
        source_message_from: from,
        source_message_to: to,
        created_at: String::from_str(now),
        updated_at: String::from_str(now),
    }
}

} // verus!
