//! The spontaneous speaker: configuration, tick decisions and the prompt.
use std::time::Instant;

use kokoro_chat::llm::client::{LLMResponse, MessageRole};
use kokoro_chat::models::chat::{ChatMessageRecord, ChatRole};
use kokoro_chat::spontaneous::speaker::{
    build_spontaneous_prompt, recent_messages, spoken_text, spontaneous_record,
    tick_interval_seconds, SpeakerState, SpontaneousSpeakerConfig, TickDecision,
};

fn record(id: &str, role: ChatRole, content: &str) -> ChatMessageRecord {
    ChatMessageRecord {
        id: id.to_string(),
        session_id: "sess-001".to_string(),
        role,
        content: content.to_string(),
        attachments: None,
        tool_calls: None,
        tool_call_id: None,
        created_at: "2024-01-01T10:00:00Z".to_string(),
    }
}

#[test]
fn test_spontaneous_speaker_config_disabled() {
    let config = SpontaneousSpeakerConfig { enabled: false, min_interval_seconds: 60 };
    assert!(!config.enabled);
    assert_eq!(config.min_interval_seconds, 60);
}

#[test]
fn test_min_interval_enforcement_logic() {
    let config = SpontaneousSpeakerConfig { enabled: true, min_interval_seconds: 60 };
    let last_spoke_at = Some(Instant::now());
    if let Some(last) = last_spoke_at {
        let elapsed = last.elapsed().as_secs();
        assert!(elapsed < config.min_interval_seconds);
        let mut state = SpeakerState::new();
        state.start("sess", config);
        state.record_spoken(1000);
        assert_eq!(state.tick(1000 + elapsed), TickDecision::Wait);
    }
}

#[test]
fn test_min_interval_zero_allowed() {
    let config = SpontaneousSpeakerConfig { enabled: true, min_interval_seconds: 0 };
    let last_spoke_at = Some(Instant::now());
    if let Some(last) = last_spoke_at {
        let elapsed = last.elapsed().as_secs();
        assert!(elapsed >= config.min_interval_seconds);
        let mut state = SpeakerState::new();
        state.start("sess", config);
        state.record_spoken(1000);
        assert_eq!(state.tick(1000 + elapsed), TickDecision::Speak);
    }
}

#[test]
fn speaker_lifecycle() {
    let mut state = SpeakerState::new();
    assert_eq!(state.tick(0), TickDecision::Stop);
    assert!(!state.start("s1", SpontaneousSpeakerConfig { enabled: false, min_interval_seconds: 5 }));
    assert_eq!(state.tick(0), TickDecision::Wait);
    state.update_config(SpontaneousSpeakerConfig { enabled: true, min_interval_seconds: 5 });
    assert_eq!(state.tick(0), TickDecision::Speak);
    state.record_spoken(100);
    assert_eq!(state.tick(104), TickDecision::Wait);
    assert_eq!(state.tick(105), TickDecision::Speak);
    assert_eq!(state.tick(50), TickDecision::Wait);
    state.stop();
    assert_eq!(state.session_id, None);
    assert_eq!(state.tick(1000), TickDecision::Stop);
    assert!(state.start("s2", SpontaneousSpeakerConfig { enabled: true, min_interval_seconds: 5 }));
    assert_eq!(state.last_spoke_at, None);
    assert_eq!(state.session_id, Some("s2".to_string()));
}

#[test]
fn timer_period_is_at_least_a_second() {
    assert_eq!(tick_interval_seconds(&SpontaneousSpeakerConfig { enabled: true, min_interval_seconds: 0 }), 1);
    assert_eq!(tick_interval_seconds(&SpontaneousSpeakerConfig { enabled: true, min_interval_seconds: 30 }), 30);
}

#[test]
fn test_build_spontaneous_prompt_empty_messages() {
    let messages: Vec<ChatMessageRecord> = vec![];
    let prompt = build_spontaneous_prompt("You are a cat.", &messages);
    assert_eq!(prompt.len(), 2);
    assert_eq!(prompt[0].role, MessageRole::System);
    assert_eq!(prompt[0].content, "You are a cat.");
    assert_eq!(prompt[1].role, MessageRole::User);
    assert!(prompt[1].content.contains("[SKIP]"));
}

#[test]
fn test_build_spontaneous_prompt_with_messages() {
    let messages = vec![
        record("msg-001", ChatRole::User, "こんにちは"),
        record("msg-002", ChatRole::Assistant, "にゃー"),
    ];
    let prompt = build_spontaneous_prompt("You are a cat.", &messages);
    assert_eq!(prompt.len(), 4);
    assert_eq!(prompt[0].role, MessageRole::System);
    assert_eq!(prompt[1].role, MessageRole::User);
    assert_eq!(prompt[1].content, "こんにちは");
    assert_eq!(prompt[2].role, MessageRole::Assistant);
    assert_eq!(prompt[2].content, "にゃー");
    assert_eq!(prompt[3].role, MessageRole::User);
    assert!(prompt[3].content.contains("[SKIP]"));
}

#[test]
fn test_build_spontaneous_prompt_spontaneous_role_mapped_to_assistant() {
    let messages = vec![record("msg-001", ChatRole::Spontaneous, "自発的発話")];
    let prompt = build_spontaneous_prompt("System prompt", &messages);
    assert_eq!(prompt[1].role, MessageRole::Assistant);
}

#[test]
fn only_the_last_twenty_messages_are_kept() {
    let many: Vec<ChatMessageRecord> =
        (0..25).map(|i| record(&format!("m{}", i), ChatRole::User, "x")).collect();
    let recent = recent_messages(many);
    assert_eq!(recent.len(), 20);
    assert_eq!(recent[0].id, "m5");
    assert_eq!(recent[19].id, "m24");
    let few = recent_messages(vec![record("a", ChatRole::User, "x")]);
    assert_eq!(few.len(), 1);
}

#[test]
fn skip_and_blank_replies_say_nothing() {
    let text = |s: &str| LLMResponse::Text { content: s.to_string(), thinking: None };
    assert_eq!(spoken_text(&text("  [SKIP] ")), None);
    assert_eq!(spoken_text(&text("   ")), None);
    assert_eq!(spoken_text(&text("  にゃ  ")), Some("にゃ".to_string()));
    assert_eq!(spoken_text(&LLMResponse::ToolCalls { calls: vec![], thinking: None }), None);
}

#[test]
fn spontaneous_record_has_the_spontaneous_role() {
    let m = spontaneous_record("id".to_string(), "sess", "hi".to_string(), "now".to_string());
    assert_eq!(m.role, ChatRole::Spontaneous);
    assert_eq!(m.session_id, "sess");
    assert!(m.attachments.is_none() && m.tool_calls.is_none() && m.tool_call_id.is_none());
}
