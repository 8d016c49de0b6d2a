//! Streamed replies: server-sent-event payloads and the three accumulators.
use kokoro_chat::error::AppError;
use kokoro_chat::llm::client::LLMResponse;
use kokoro_chat::llm::stream::{
    anthropic_stream_event, gemini_stream_parts_of, openai_stream_delta, sse_payload, AnthropicStream, AnthropicStreamEvent, GeminiFunctionCall, GeminiStream,
    GeminiStreamPart, OpenAIStream, OpenAIStreamDelta, StreamEmit,
};
use kokoro_chat::llm::tool_buffers::ToolCallDelta;

fn text_delta(content: &str) -> OpenAIStreamDelta {
    OpenAIStreamDelta { tool_calls: None, reasoning_content: None, reasoning: None, content: Some(content.to_string()) }
}

fn texts(emits: &[StreamEmit]) -> Vec<String> {
    emits
        .iter()
        .filter_map(|e| match e {
            StreamEmit::Text(t) => Some(t.clone()),
            _ => None,
        })
        .collect()
}

fn thoughts(emits: &[StreamEmit]) -> Vec<String> {
    emits
        .iter()
        .filter_map(|e| match e {
            StreamEmit::Thinking(t) => Some(t.clone()),
            _ => None,
        })
        .collect()
}

#[test]
fn test_parse_sse_line_content() {
    let line = r#"data: {"choices":[{"delta":{"content":"Hello"}}]}"#;
    let payload = sse_payload(line).unwrap();
    assert_eq!(payload, r#"{"choices":[{"delta":{"content":"Hello"}}]}"#);
    let json: serde_json::Value = serde_json::from_str(&payload).unwrap();
    let content = json["choices"][0]["delta"]["content"].as_str().map(|s| s.to_string());
    let mut stream = OpenAIStream::new();
    let emits = stream.on_delta(&OpenAIStreamDelta { tool_calls: None, reasoning_content: None, reasoning: None, content });
    assert_eq!(texts(&emits), vec!["Hello".to_string()]);
}

#[test]
fn test_parse_sse_line_done() {
    let payload = sse_payload("data: [DONE]").unwrap();
    assert_eq!(payload, "[DONE]");
    assert!(serde_json::from_str::<serde_json::Value>(&payload).is_err());
}

#[test]
fn test_parse_sse_line_no_content() {
    let mut stream = OpenAIStream::new();
    let emits = stream.on_delta(&OpenAIStreamDelta { tool_calls: None, reasoning_content: None, reasoning: None, content: None });
    assert!(emits.is_empty());
}

#[test]
fn test_parse_sse_line_not_data() {
    assert_eq!(sse_payload("event: message"), None);
    assert_eq!(sse_payload("  data: x  "), Some("x".to_string()));
    assert_eq!(sse_payload(""), None);
}

#[test]
fn test_parse_gemini_sse_line_content() {
    let line = r#"data: {"candidates":[{"content":{"parts":[{"text":"Hello"}],"role":"model"}}]}"#;
    assert!(sse_payload(line).is_some());
    let mut stream = GeminiStream::new();
    let emits = stream.on_parts(&[GeminiStreamPart { function_call: None, thought: false, text: Some("Hello".to_string()) }]);
    assert_eq!(texts(&emits), vec!["Hello".to_string()]);
}

#[test]
fn test_parse_gemini_sse_line_no_data_prefix() {
    assert_eq!(sse_payload("event: message"), None);
}

#[test]
fn test_parse_gemini_sse_line_empty_text() {
    let mut stream = GeminiStream::new();
    let emits = stream.on_parts(&[GeminiStreamPart { function_call: None, thought: false, text: Some(String::new()) }]);
    assert!(emits.is_empty());
    match stream.finish() {
        LLMResponse::Text { content, thinking } => {
            assert_eq!(content, "");
            assert_eq!(thinking, None);
        }
        _ => panic!("text expected"),
    }
}

fn anthropic_event(event_type: &str, delta_type: &str, text: Option<&str>) -> AnthropicStreamEvent {
    AnthropicStreamEvent {
        event_type: event_type.to_string(),
        index: 0,
        block_type: String::new(),
        block_id: String::new(),
        block_name: String::new(),
        delta_type: delta_type.to_string(),
        partial_json: String::new(),
        thinking: None,
        text: text.map(|s| s.to_string()),
    }
}

#[test]
fn test_parse_anthropic_sse_line_content_block_delta() {
    let mut stream = AnthropicStream::new();
    let emits = stream.on_event(&anthropic_event("content_block_delta", "text_delta", Some("Hello")));
    assert_eq!(texts(&emits), vec!["Hello".to_string()]);
}

#[test]
fn test_parse_anthropic_sse_line_message_start() {
    let mut stream = AnthropicStream::new();
    assert!(stream.on_event(&anthropic_event("message_start", "", None)).is_empty());
}

#[test]
fn test_parse_anthropic_sse_line_message_stop() {
    let mut stream = AnthropicStream::new();
    assert!(stream.on_event(&anthropic_event("message_stop", "", None)).is_empty());
}

#[test]
fn test_parse_anthropic_sse_line_no_data_prefix() {
    assert_eq!(sse_payload("event: content_block_delta"), None);
}

#[test]
fn openai_stream_splits_think_tags_across_chunks() {
    let mut s = OpenAIStream::new();
    let mut shown = Vec::new();
    for c in ["Hi <thi", "nk>hmm</th", "ink> there"] {
        shown.extend(s.on_delta(&text_delta(c)));
    }
    let (tail, reply) = s.finish();
    shown.extend(tail);
    assert_eq!(texts(&shown).concat(), "Hi  there");
    assert_eq!(thoughts(&shown).concat(), "hmm");
    match reply.unwrap() {
        LLMResponse::Text { content, thinking } => {
            assert_eq!(content, "Hi  there");
            assert_eq!(thinking, Some("hmm".to_string()));
        }
        _ => panic!("text expected"),
    }
}

#[test]
fn openai_reasoning_is_thinking_and_content_continues() {
    let mut s = OpenAIStream::new();
    let e = s.on_delta(&OpenAIStreamDelta {
        tool_calls: None,
        reasoning_content: Some("why".to_string()),
        reasoning: Some("ignored".to_string()),
        content: Some("ok".to_string()),
    });
    assert_eq!(thoughts(&e), vec!["why".to_string()]);
    assert_eq!(texts(&e), vec!["ok".to_string()]);
    let e = s.on_delta(&OpenAIStreamDelta {
        tool_calls: None,
        reasoning_content: Some(String::new()),
        reasoning: Some("second".to_string()),
        content: Some(String::new()),
    });
    assert_eq!(thoughts(&e), vec!["second".to_string()]);
    assert!(texts(&e).is_empty());
}

#[test]
fn openai_thinking_only_stream_is_an_error() {
    let mut s = OpenAIStream::new();
    s.on_delta(&OpenAIStreamDelta { tool_calls: None, reasoning_content: Some("t".to_string()), reasoning: None, content: None });
    s.on_delta(&text_delta("  "));
    let (_, reply) = s.finish();
    match reply {
        Err(AppError::LlmApi(m)) => assert!(m.contains("思考のみ")),
        _ => panic!("thinking-only reply is an error"),
    }
}

#[test]
fn openai_tool_call_fragments_are_assembled() {
    let mut s = OpenAIStream::new();
    let frag = |index: usize, id: Option<&str>, name: Option<&str>, args: Option<&str>| ToolCallDelta {
        index,
        id: id.map(|x| x.to_string()),
        name: name.map(|x| x.to_string()),
        arguments: args.map(|x| x.to_string()),
    };
    s.on_delta(&OpenAIStreamDelta {
        tool_calls: Some(vec![frag(1, Some("b"), Some("second"), Some("{}")), frag(0, Some("a"), Some("first"), Some("{\"x\":"))]),
        reasoning_content: None,
        reasoning: None,
        content: Some("ignored".to_string()),
    });
    s.on_delta(&OpenAIStreamDelta {
        tool_calls: Some(vec![frag(0, None, None, Some("1}"))]),
        reasoning_content: None,
        reasoning: None,
        content: None,
    });
    let (_, reply) = s.finish();
    match reply.unwrap() {
        LLMResponse::ToolCalls { calls, thinking } => {
            assert_eq!(calls.len(), 2);
            assert_eq!(calls[0].id, "a");
            assert_eq!(calls[0].name, "first");
            assert_eq!(calls[0].arguments["x"], 1);
            assert_eq!(calls[1].name, "second");
            assert_eq!(thinking, None);
        }
        _ => panic!("tool calls expected"),
    }
}

#[test]
fn anthropic_stream_separates_thinking_and_tools() {
    let mut s = AnthropicStream::new();
    let mut start = anthropic_event("content_block_start", "", None);
    start.block_type = "thinking".to_string();
    start.index = 0;
    s.on_event(&start);
    let mut think = anthropic_event("content_block_delta", "thinking_delta", None);
    think.thinking = Some("ponder".to_string());
    assert_eq!(thoughts(&s.on_event(&think)), vec!["ponder".to_string()]);
    let hidden = anthropic_event("content_block_delta", "text_delta", Some("hidden"));
    assert!(s.on_event(&hidden).is_empty());
    let mut redacted = anthropic_event("content_block_start", "", None);
    redacted.block_type = "redacted_thinking".to_string();
    redacted.index = 2;
    assert_eq!(thoughts(&s.on_event(&redacted)), vec!["[REDACTED_THINKING]".to_string()]);
    let mut text = anthropic_event("content_block_delta", "text_delta", Some("answer"));
    text.index = 1;
    assert_eq!(texts(&s.on_event(&text)), vec!["answer".to_string()]);
    let mut tool = anthropic_event("content_block_start", "", None);
    tool.block_type = "tool_use".to_string();
    tool.index = 3;
    tool.block_id = "toolu_1".to_string();
    tool.block_name = "search".to_string();
    s.on_event(&tool);
    let mut input = anthropic_event("content_block_delta", "input_json_delta", None);
    input.index = 3;
    input.partial_json = "{\"q\":\"x\"}".to_string();
    s.on_event(&input);
    let sig = anthropic_event("content_block_delta", "signature_delta", Some("sig"));
    assert!(s.on_event(&sig).is_empty());
    match s.finish() {
        LLMResponse::ToolCalls { calls, thinking } => {
            assert_eq!(calls.len(), 1);
            assert_eq!(calls[0].id, "toolu_1");
            assert_eq!(calls[0].arguments["q"], "x");
            assert_eq!(thinking, Some("ponder[REDACTED_THINKING]".to_string()));
        }
        _ => panic!("tool calls expected"),
    }
}

#[test]
fn gemini_function_calls_are_numbered() {
    let mut s = GeminiStream::new();
    let call = |name: &str| GeminiStreamPart {
        function_call: Some(GeminiFunctionCall { name: name.to_string(), args: serde_json::from_str("{\"a\":1}").unwrap() }),
        thought: false,
        text: None,
    };
    let e = s.on_parts(&[
        GeminiStreamPart { function_call: None, thought: true, text: Some("think".to_string()) },
        call("one"),
        call("two"),
        GeminiStreamPart { function_call: None, thought: false, text: Some("text".to_string()) },
    ]);
    assert_eq!(thoughts(&e), vec!["think".to_string()]);
    assert_eq!(texts(&e), vec!["text".to_string()]);
    match s.finish() {
        LLMResponse::ToolCalls { calls, thinking } => {
            assert_eq!(calls[0].id, "gemini_call_0");
            assert_eq!(calls[1].id, "gemini_call_1");
            assert_eq!(calls[1].name, "two");
            assert_eq!(calls[0].arguments["a"], 1);
            assert_eq!(thinking, Some("think".to_string()));
        }
        _ => panic!("tool calls expected"),
    }
}

#[test]
fn stream_lines_are_read_into_deltas_and_events() {
    assert!(openai_stream_delta("[DONE]").is_none());
    let d = openai_stream_delta(
        r#"{"choices":[{"delta":{"tool_calls":[{"index":1,"id":"b","function":{"name":"g"}},{"function":{"arguments":"[1,"}}]}}]}"#,
    )
    .unwrap();
    let calls = d.tool_calls.unwrap();
    assert_eq!(calls.len(), 2);
    assert_eq!((calls[0].index, calls[0].id.as_deref(), calls[0].name.as_deref()), (1, Some("b"), Some("g")));
    assert_eq!((calls[1].index, calls[1].arguments.as_deref(), calls[1].id.as_deref()), (0, Some("[1,"), None));
    let d = openai_stream_delta(r#"{"choices":[{"delta":{"reasoning_content":"r","content":"c"}}]}"#).unwrap();
    assert!(d.tool_calls.is_none());
    assert_eq!((d.reasoning_content.as_deref(), d.reasoning, d.content.as_deref()), (Some("r"), None, Some("c")));
    let d = openai_stream_delta(r#"{"choices":[]}"#).unwrap();
    assert!(d.tool_calls.is_none() && d.content.is_none());

    let e = anthropic_stream_event(
        r#"{"type":"content_block_start","index":2,"content_block":{"type":"tool_use","id":"t1","name":"calc"}}"#,
    )
    .unwrap();
    assert_eq!((e.event_type.as_str(), e.index, e.block_type.as_str()), ("content_block_start", 2, "tool_use"));
    assert_eq!((e.block_id.as_str(), e.block_name.as_str(), e.delta_type.as_str()), ("t1", "calc", ""));
    let e = anthropic_stream_event(r#"{"type":"content_block_delta","delta":{"type":"text_delta","text":"hi"}}"#).unwrap();
    assert_eq!((e.index, e.text.as_deref(), e.thinking), (0, Some("hi"), None));
    assert!(anthropic_stream_event("not json").is_none());

    let parts = gemini_stream_parts_of(
        r#"{"candidates":[{"content":{"parts":[{"text":"t","thought":true},{"functionCall":{"name":"f"}},{"text":"u"}]}}]}"#,
    )
    .unwrap()
    .unwrap();
    assert_eq!(parts.len(), 3);
    assert!(parts[0].thought && parts[0].text.as_deref() == Some("t"));
    let fc = parts[1].function_call.as_ref().unwrap();
    assert_eq!(fc.name, "f");
    assert_eq!(fc.args, serde_json::Value::Object(serde_json::Map::new()));
    assert!(!parts[2].thought);
    assert!(gemini_stream_parts_of(r#"{"candidates":[]}"#).unwrap().is_none());
    assert!(gemini_stream_parts_of("{").is_none());
}
