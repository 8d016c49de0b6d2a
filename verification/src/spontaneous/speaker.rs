//! Decisions of the spontaneous speaker. The caller runs the timer loop, reads the database,
//! calls the model and stores and announces the message; this module holds the speaker's state
//! and decides, at each tick, whether to stop, wait or speak.
use vstd::prelude::*;
use crate::llm::client::{ChatMessage, LLMResponse, MessageRole};
use crate::models::chat::{ChatMessageRecord, ChatRole};
use crate::text::{same_text, trim_whitespace, trimmed};

verus! {

/// Whether the character may speak on its own, and the least time between two such messages.
#[derive(Debug, Clone, Copy)]
pub struct SpontaneousSpeakerConfig {
    pub enabled: bool,
    pub min_interval_seconds: u64,
}

/// What the speaker's loop does at a tick.
#[derive(Debug, Clone, Copy, PartialEq, Eq, Structural)]
pub enum TickDecision {
    /// The speaker was stopped: end the loop.
    Stop,
    /// Not now: wait for the next tick.
    Wait,
    /// Ask the model for a message.
    Speak,
}

/// The speaker's state: its configuration, its session, whether its loop should run, and when
/// (in seconds of a monotonic clock of the caller's) it last spoke.
#[derive(Debug, Clone)]
pub struct SpeakerState {
    pub config: SpontaneousSpeakerConfig,
    pub session_id: Option<String>,
    pub running: bool,
    pub last_spoke_at: Option<u64>,
}

/// Seconds from `last` to `now`, zero if the clock reads earlier.
pub open spec fn elapsed(last: u64, now: u64) -> int {
    if now >= last {
        now - last
    } else {
        0
    }
}

/// The decision at a tick at time `now`: stop when not running; wait when disabled or when
/// less than the least interval has passed since the character last spoke; else speak.
pub open spec fn tick_spec(s: SpeakerState, now: u64) -> TickDecision {
    if !s.running {
        TickDecision::Stop
    } else if !s.config.enabled {
        TickDecision::Wait
    } else if s.last_spoke_at is Some && elapsed(s.last_spoke_at->0, now) < s.config.min_interval_seconds {
        TickDecision::Wait
    } else {
        TickDecision::Speak
    }
}

impl SpeakerState {
    /// A stopped speaker, disabled, with a least interval of 60 seconds.
    pub fn new() -> (s: Self)
        ensures
            !s.config.enabled,
            s.config.min_interval_seconds == 60,
            s.session_id is None,
            !s.running,
            s.last_spoke_at is None,
    {
        SpeakerState {
            config: SpontaneousSpeakerConfig { enabled: false, min_interval_seconds: 60 },
            session_id: None,
            running: false,
            last_spoke_at: None,
        }
    }

    /// Starts the speaker for a session (stopping any earlier run): the configuration and
    /// session are taken, the last message is forgotten, and the loop is to run. Returns
    /// whether the caller should start the timer loop: only when the configuration enables
    /// speaking.
    pub fn start(&mut self, session_id: &str, config: SpontaneousSpeakerConfig) -> (spawn: bool)
        ensures
            final(self).config == config,
            final(self).session_id matches Some(s) && s@ == session_id@,
            final(self).running,
            final(self).last_spoke_at is None,
            spawn == config.enabled,
    {
        self.stop();
        self.running = true;
        self.config = config;
        self.session_id = Some(String::from_str(session_id));
        self.last_spoke_at = None;
        config.enabled
    }

    /// Stops the speaker: the loop ends at its next tick and the session is let go.
    pub fn stop(&mut self)
        ensures
            !final(self).running,
            final(self).session_id is None,
            final(self).config == old(self).config,
            final(self).last_spoke_at == old(self).last_spoke_at,
    {
        self.running = false;
        self.session_id = None;
    }

    /// Replaces the configuration; a running loop reads it at its next tick.
    pub fn update_config(&mut self, config: SpontaneousSpeakerConfig)
        ensures
            final(self).config == config,
            final(self).session_id == old(self).session_id,
            final(self).running == old(self).running,
            final(self).last_spoke_at == old(self).last_spoke_at,
    {
        self.config = config;
    }

    /// Notes that the character spoke at time `now`.
    pub fn record_spoken(&mut self, now: u64)
        ensures
            final(self).last_spoke_at == Some(now),
            final(self).config == old(self).config,
            final(self).session_id == old(self).session_id,
            final(self).running == old(self).running,
    {
        self.last_spoke_at = Some(now);
    }

    /// The decision at a tick at time `now`.
    pub fn tick(&self, now: u64) -> (d: TickDecision)
        ensures
            d == tick_spec(*self, now),
            self.running && !self.config.enabled ==> d == TickDecision::Wait,
    {
        if !self.running {
            return TickDecision::Stop;
        }
        if !self.config.enabled {
            return TickDecision::Wait;
        }
        match self.last_spoke_at {
            Some(last) => {
                let e = if now >= last {
                    now - last
                } else {
                    0
                };
                if e < self.config.min_interval_seconds {
                    return TickDecision::Wait;
                }
            },
            None => {},
        }
        TickDecision::Speak
    }
}

/// The period of the speaker's timer: the least interval, at least one second.
pub fn tick_interval_seconds(config: &SpontaneousSpeakerConfig) -> (s: u64)
    ensures
        s == if config.min_interval_seconds >= 1 {
            config.min_interval_seconds
        } else {
            1
        },
{
    if config.min_interval_seconds >= 1 {
        config.min_interval_seconds
    } else {
        1
    }
}

/// The character never speaks twice within the least interval: once it has spoken at `t`, no
/// tick earlier than `t + min_interval_seconds` decides to speak, whatever the commands that
/// only change the session or the running flag.
pub proof fn lemma_min_interval(s: SpeakerState, t: u64, later: u64)
    requires
        s.last_spoke_at == Some(t),
        t <= later,
        later < t + s.config.min_interval_seconds,
    ensures
        tick_spec(s, later) != TickDecision::Speak,
{
}

/// A stopped speaker never speaks: after `stop`, every tick decides to stop.
pub proof fn lemma_stopped_is_silent(s: SpeakerState, now: u64)
    requires
        !s.running,
    ensures
        tick_spec(s, now) == TickDecision::Stop,
{
}

/// A disabled speaker never speaks: while it runs with speaking turned off, every tick waits,
/// however long ago the character last spoke.
pub proof fn lemma_disabled_is_silent(s: SpeakerState, now: u64)
    requires
        s.running,
        !s.config.enabled,
    ensures
        tick_spec(s, now) == TickDecision::Wait,
{
}

/// A running, enabled speaker speaks as soon as it may: at a tick where it has never spoken,
/// or where at least the least interval has passed since it last spoke, it speaks; otherwise
/// it waits.
pub proof fn lemma_enabled_speaks_when_due(s: SpeakerState, now: u64)
    requires
        s.running,
        s.config.enabled,
    ensures
        s.last_spoke_at is None ==> tick_spec(s, now) == TickDecision::Speak,
        s.last_spoke_at matches Some(t) && now >= t && now - t >= s.config.min_interval_seconds
            ==> tick_spec(s, now) == TickDecision::Speak,
        s.last_spoke_at matches Some(t) && now >= t && now - t < s.config.min_interval_seconds
            ==> tick_spec(s, now) == TickDecision::Wait,
{
}

/// The last 20 messages (all of them when there are fewer).
pub fn recent_messages(messages: Vec<ChatMessageRecord>) -> (r: Vec<ChatMessageRecord>)
    ensures
        r@ == (if messages@.len() > 20 {
            messages@.subrange(messages@.len() - 20, messages@.len() as int)
        } else {
            messages@
        }),
{
    let n = messages.len();
    if n <= 20 {
        return messages;
    }
    let mut all = messages;
    all.split_off(n - 20)
}

/// The prompt role of a stored message: the character's own messages, spontaneous or not,
/// are the assistant's.
pub open spec fn prompt_role(r: ChatRole) -> MessageRole {
    match r {
        ChatRole::User => MessageRole::User,
        ChatRole::Assistant | ChatRole::Spontaneous => MessageRole::Assistant,
        ChatRole::Tool => MessageRole::Tool,
    }
}

/// The instruction that asks the model for a spontaneous message or `[SKIP]`.
pub open spec fn spontaneous_instruction() -> Seq<char> {
    "Based on the conversation context, generate a short spontaneous message that the character might say. If it's not appropriate to speak now, respond with exactly '[SKIP]'."@
}

/// A message of the prompt with a role and a text and nothing else.
pub open spec fn plain_message(m: ChatMessage, role: MessageRole, content: Seq<char>) -> bool {
    m.role == role && m.content@ == content && m.tool_call_id is None && m.images is None
}

/// The prompt for a spontaneous message: the character's system prompt, the recent messages
/// with their prompt roles, and the instruction to speak or answer `[SKIP]`.
pub fn build_spontaneous_prompt(system_prompt: &str, recent_messages: &[ChatMessageRecord]) -> (r:
    Vec<ChatMessage>)
    ensures
        r@.len() == recent_messages@.len() + 2,
        plain_message(r@[0], MessageRole::System, system_prompt@),
        forall|i: int|
            0 <= i < recent_messages@.len() ==> plain_message(
                #[trigger] r@[i + 1],
                prompt_role(recent_messages@[i].role),
                recent_messages@[i].content@,
            ),
        plain_message(r@[r@.len() - 1], MessageRole::User, spontaneous_instruction()),
{
    let mut r: Vec<ChatMessage> = Vec::new();
    r.push(
        ChatMessage {
            role: MessageRole::System,
            content: String::from_str(system_prompt),
            tool_call_id: None,
            images: None,
        },
    );
    let mut i: usize = 0;
    while i < recent_messages.len()
        invariant
            i <= recent_messages.len(),
            r@.len() == i + 1,
            plain_message(r@[0], MessageRole::System, system_prompt@),
            forall|j: int|
                0 <= j < i ==> plain_message(
                    #[trigger] r@[j + 1],
                    prompt_role(recent_messages@[j].role),
                    recent_messages@[j].content@,
                ),
        decreases recent_messages.len() - i,
    {
        let m = &recent_messages[i];
        let role = match m.role {
            ChatRole::User => MessageRole::User,
            ChatRole::Assistant | ChatRole::Spontaneous => MessageRole::Assistant,
            ChatRole::Tool => MessageRole::Tool,
        };
        r.push(ChatMessage { role, content: m.content.clone(), tool_call_id: None, images: None });
        i += 1;
    }
    r.push(
        ChatMessage {
            role: MessageRole::User,
            content: String::from_str(
                "Based on the conversation context, generate a short spontaneous message that the character might say. If it's not appropriate to speak now, respond with exactly '[SKIP]'.",
            ),
            tool_call_id: None,
            images: None,
        },
    );
    r
}

/// What the character says, given the model's reply: the reply text trimmed, unless the reply
/// is tool calls, or the trimmed text is empty or exactly `[SKIP]`.
pub open spec fn spoken_text_spec(response: LLMResponse) -> Option<Seq<char>> {
    match response {
        LLMResponse::Text { content, .. } => {
            let t = trim_whitespace(content@);
            if t == "[SKIP]"@ || t.len() == 0 {
                None
            } else {
                Some(t)
            }
        },
        LLMResponse::ToolCalls { .. } => None,
    }
}

/// The character says the reply's text without surrounding white space; it stays silent when
/// the model answers with tool calls, with nothing but white space, or with `[SKIP]`.
pub proof fn lemma_spoken_text(response: LLMResponse)
    ensures
        response is ToolCalls ==> spoken_text_spec(response) is None,
        response matches LLMResponse::Text { content, .. } ==> {
            let t = trim_whitespace(content@);
            &&& (t.len() == 0 || t == "[SKIP]"@) ==> spoken_text_spec(response) is None
            &&& (t.len() > 0 && t != "[SKIP]"@) ==> spoken_text_spec(response) == Some(t)
        },
{
}

/// In the prompt, the character's own messages, spontaneous ones included, are the
/// assistant's; the user's are the user's, and tool messages stay tool messages.
pub proof fn lemma_prompt_roles()
    ensures
        prompt_role(ChatRole::User) == MessageRole::User,
        prompt_role(ChatRole::Assistant) == MessageRole::Assistant,
        prompt_role(ChatRole::Spontaneous) == MessageRole::Assistant,
        prompt_role(ChatRole::Tool) == MessageRole::Tool,
{
}

/// What the character says, given the model's reply.
pub fn spoken_text(response: &LLMResponse) -> (r: Option<String>)
    ensures
        match r {
            Some(s) => spoken_text_spec(*response) == Some(s@),
            None => spoken_text_spec(*response) is None,
        },
{
    match response {
        LLMResponse::Text { content, .. } => {
            let t = trimmed(content.as_str());
            if same_text(t.as_str(), "[SKIP]") || t.as_str().is_empty() {
                None
            } else {
                Some(t)
            }
        },
        LLMResponse::ToolCalls { .. } => None,
    }
}

/// The stored record of a spontaneous message.
pub fn spontaneous_record(id: String, session_id: &str, content: String, created_at: String) -> (m:
    ChatMessageRecord)
    ensures
        m.id == id,
        m.session_id@ == session_id@,
        m.role == ChatRole::Spontaneous,
        m.content == content,
        m.attachments is None,
        m.tool_calls is None,
        m.tool_call_id is None,
        m.created_at == created_at,
{
    ChatMessageRecord {
        id,
        session_id: String::from_str(session_id),
        role: ChatRole::Spontaneous,
        content,
        attachments: None,
        tool_calls: None,
        tool_call_id: None,
        created_at,
    }
}

} // verus!
