//! The data model: stored kinds and defaults.
use kokoro_chat::models::config::{default_max_chunk_size, default_thought_auto_delete_threshold, default_tts_timeout};
use kokoro_chat::models::plugin::{default_http_method, CustomToolType};

#[test]
fn tool_kinds_round_trip() {
    assert_eq!(CustomToolType::Http.as_str(), "http");
    assert_eq!(CustomToolType::Cli.as_str(), "cli");
    assert_eq!(CustomToolType::from_str("http"), Some(CustomToolType::Http));
    assert_eq!(CustomToolType::from_str("cli"), Some(CustomToolType::Cli));
    assert_eq!(CustomToolType::from_str("HTTP"), None);
}

#[test]
fn defaults() {
    assert_eq!(default_http_method(), "POST");
    assert_eq!(default_thought_auto_delete_threshold(), 1440);
    assert_eq!(default_tts_timeout(), 60);
    assert_eq!(default_max_chunk_size(), 140);
}
