//! The application error: display text and conversions.
use kokoro_chat::error::AppError;

#[test]
fn test_app_error_display() {
    let err = AppError::Database("connection failed".to_string());
    assert_eq!(err.to_string(), "Database error: connection failed");

    let err = AppError::NotFound("character xyz".to_string());
    assert_eq!(err.to_string(), "Not found: character xyz");
}

#[test]
fn test_from_io_error() {
    let io_err = std::io::Error::new(std::io::ErrorKind::NotFound, "file not found");
    let app_err: AppError = io_err.into();
    match app_err {
        AppError::Io(msg) => assert!(msg.contains("file not found")),
        _ => panic!("Expected AppError::Io"),
    }
}

#[test]
fn test_from_serde_json_error() {
    let result: Result<serde_json::Value, _> = serde_json::from_str("invalid json");
    let serde_err = result.unwrap_err();
    let app_err: AppError = serde_err.into();
    match app_err {
        AppError::Serialization(msg) => assert!(!msg.is_empty()),
        _ => panic!("Expected AppError::Serialization"),
    }
}

#[test]
fn every_kind_displays_its_label() {
    let cases = vec![
        (AppError::Database("a".to_string()), "Database error: a"),
        (AppError::Network("b".to_string()), "Network error: b"),
        (AppError::Serialization("c".to_string()), "Serialization error: c"),
        (AppError::Io("d".to_string()), "IO error: d"),
        (AppError::LlmApi("e".to_string()), "LLM API error: e"),
        (AppError::Tts("f".to_string()), "TTS error: f"),
        (AppError::Validation("g".to_string()), "Validation error: g"),
        (AppError::Plugin("h".to_string()), "Plugin error: h"),
        (AppError::Attachment("i".to_string()), "Attachment error: i"),
        (AppError::NotFound("j".to_string()), "Not found: j"),
    ];
    for (err, text) in cases {
        assert_eq!(err.to_string(), text);
    }
}

#[test]
fn http_errors_keep_their_display_text() {
    let err = reqwest::Client::builder().build().unwrap().get("not a url").build().unwrap_err();
    let text = err.to_string();
    let app_err: AppError = err.into();
    assert_eq!(app_err, AppError::Network(text.clone()));
    assert!(text.starts_with("builder error"));
}
