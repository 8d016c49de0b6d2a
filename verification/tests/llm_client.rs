//! Model API requests and replies: URLs, request bodies, reply parsing, think-tag stripping.
use kokoro_chat::llm::client::{
    build_anthropic_url, build_gemini_stream_url, build_gemini_url, build_openai_url,
    is_default_endpoint, resolve_api_strategy, strip_think_tags, ApiStrategy, ChatMessage,
    LLMResponse, MessageRole, ModelEndpoint,
};
use kokoro_chat::llm::replies::{
    parse_anthropic_response, parse_gemini_response, parse_openai_response, AnthropicBlock,
    AnthropicReply, GeminiPart, GeminiReply, OpenAIReply, OpenAIToolCallData,
};
use kokoro_chat::llm::request::{
    build_anthropic_request, build_gemini_request, build_request_body, WireContent, WirePart,
};
use kokoro_chat::models::config::LLMProvider;
use kokoro_chat::models::plugin::ToolDefinition;

fn msg(role: MessageRole, content: &str) -> ChatMessage {
    ChatMessage { role, content: content.to_string(), tool_call_id: None, images: None }
}

fn endpoint(base_url: &str, model: &str, provider: Option<LLMProvider>) -> ModelEndpoint {
    ModelEndpoint { base_url: base_url.to_string(), model: model.to_string(), api_key: None, provider }
}

fn text_of(content: &WireContent) -> &str {
    match content {
        WireContent::Text(t) => t.as_str(),
        WireContent::Parts(_) => panic!("expected text content"),
    }
}

#[test]
fn test_build_request_body_basic() {
    let messages = vec![
        msg(MessageRole::System, "You are a helpful assistant."),
        msg(MessageRole::User, "Hello"),
    ];
    let config = endpoint("http://localhost:8080/v1", "gpt-4", None);
    let body = build_request_body(&messages, &config, None, false);
    assert_eq!(body.model, "gpt-4");
    assert!(!body.stream);
    assert_eq!(body.messages.len(), 2);
    assert_eq!(body.messages[0].role, MessageRole::System);
    assert_eq!(text_of(&body.messages[0].content), "You are a helpful assistant.");
    assert_eq!(body.messages[1].role, MessageRole::User);
    assert_eq!(text_of(&body.messages[1].content), "Hello");
    assert!(body.tools.is_none());
}

#[test]
fn test_build_request_body_with_tools() {
    let messages = vec![msg(MessageRole::User, "What is 2+2?")];
    let mut config = endpoint("http://localhost:8080/v1", "gpt-4", None);
    config.api_key = Some("sk-test".to_string());
    let tools = vec![ToolDefinition {
        name: "calculator".to_string(),
        description: "Perform calculations".to_string(),
        parameters: serde_json::from_str(
            r#"{"type":"object","properties":{"expression":{"type":"string"}},"required":["expression"]}"#,
        )
        .unwrap(),
    }];
    let body = build_request_body(&messages, &config, Some(&tools), false);
    assert_eq!(body.model, "gpt-4");
    let tools_arr = body.tools.unwrap();
    assert_eq!(tools_arr.len(), 1);
    assert_eq!(tools_arr[0].name, "calculator");
    assert_eq!(tools_arr[0].description, "Perform calculations");
    assert_eq!(tools_arr[0].parameters["required"][0], "expression");
}

#[test]
fn test_build_request_body_with_tool_call_id() {
    let messages = vec![ChatMessage {
        role: MessageRole::Tool,
        content: "4".to_string(),
        tool_call_id: Some("call_123".to_string()),
        images: None,
    }];
    let body = build_request_body(&messages, &endpoint("http://localhost:8080/v1", "gpt-4", None), None, false);
    assert_eq!(body.messages[0].role, MessageRole::Tool);
    assert_eq!(text_of(&body.messages[0].content), "4");
    assert_eq!(body.messages[0].tool_call_id, Some("call_123".to_string()));
}

#[test]
fn test_build_request_body_stream() {
    let messages = vec![msg(MessageRole::User, "Hello")];
    let body = build_request_body(&messages, &endpoint("http://localhost:8080/v1", "gpt-4", None), None, true);
    assert!(body.stream);
}

#[test]
fn test_build_request_body_empty_tools() {
    let messages = vec![msg(MessageRole::User, "Hello")];
    let tools: Vec<ToolDefinition> = vec![];
    let body = build_request_body(&messages, &endpoint("http://localhost:8080/v1", "gpt-4", None), Some(&tools), false);
    assert!(body.tools.is_none());
}

#[test]
fn images_become_vision_parts() {
    let messages = vec![
        ChatMessage {
            role: MessageRole::User,
            content: "look".to_string(),
            tool_call_id: None,
            images: Some(vec!["AAA".to_string(), "BBB".to_string()]),
        },
        ChatMessage {
            role: MessageRole::User,
            content: String::new(),
            tool_call_id: None,
            images: Some(vec!["CCC".to_string()]),
        },
        ChatMessage {
            role: MessageRole::Tool,
            content: "done".to_string(),
            tool_call_id: Some("c1".to_string()),
            images: Some(vec!["DDD".to_string()]),
        },
        ChatMessage {
            role: MessageRole::User,
            content: "plain".to_string(),
            tool_call_id: None,
            images: Some(vec![]),
        },
    ];
    let body = build_request_body(&messages, &endpoint("", "m", None), None, false);
    assert_eq!(body.messages.len(), 5);
    match &body.messages[0].content {
        WireContent::Parts(ps) => {
            assert_eq!(ps.len(), 3);
            assert!(matches!(&ps[0], WirePart::Text(t) if t == "look"));
            assert!(matches!(&ps[1], WirePart::ImageUrl(u) if u == "data:image/png;base64,AAA"));
            assert!(matches!(&ps[2], WirePart::ImageUrl(u) if u == "data:image/png;base64,BBB"));
        }
        _ => panic!("expected parts"),
    }
    match &body.messages[1].content {
        WireContent::Parts(ps) => {
            assert_eq!(ps.len(), 1);
            assert!(matches!(&ps[0], WirePart::ImageUrl(u) if u == "data:image/png;base64,CCC"));
        }
        _ => panic!("expected parts"),
    }
    assert_eq!(body.messages[2].role, MessageRole::Tool);
    assert_eq!(text_of(&body.messages[2].content), "done");
    assert_eq!(body.messages[3].role, MessageRole::User);
    assert_eq!(body.messages[3].tool_call_id, None);
    match &body.messages[3].content {
        WireContent::Parts(ps) => {
            assert!(matches!(&ps[0], WirePart::ImageUrl(u) if u == "data:image/png;base64,DDD"))
        }
        _ => panic!("expected parts"),
    }
    assert_eq!(text_of(&body.messages[4].content), "plain");
}

#[test]
fn test_build_url() {
    assert_eq!(
        build_openai_url(&endpoint("http://localhost:8080/v1", "gpt-4", None)),
        "http://localhost:8080/v1/chat/completions"
    );
    assert_eq!(
        build_openai_url(&endpoint("http://localhost:8080/v1/", "gpt-4", None)),
        "http://localhost:8080/v1/chat/completions"
    );
}

#[test]
fn test_build_url_empty_base_url_google() {
    assert_eq!(
        build_openai_url(&endpoint("", "gemini-2.0-flash", Some(LLMProvider::Google))),
        "https://generativelanguage.googleapis.com/v1beta/openai/chat/completions"
    );
}

#[test]
fn test_build_url_empty_base_url_openai() {
    assert_eq!(
        build_openai_url(&endpoint("", "gpt-4", Some(LLMProvider::Openai))),
        "https://api.openai.com/v1/chat/completions"
    );
}

#[test]
fn empty_base_url_of_other_providers_is_relative() {
    assert_eq!(build_openai_url(&endpoint("", "m", None)), "/chat/completions");
}

#[test]
fn strategy_follows_the_provider() {
    assert_eq!(resolve_api_strategy(&endpoint("", "m", Some(LLMProvider::Anthropic))), ApiStrategy::Anthropic);
    assert_eq!(resolve_api_strategy(&endpoint("", "m", Some(LLMProvider::Google))), ApiStrategy::OpenAI);
    assert_eq!(resolve_api_strategy(&endpoint("", "m", None)), ApiStrategy::OpenAI);
}

#[test]
fn default_endpoints_are_recognised() {
    assert!(is_default_endpoint("", LLMProvider::Google));
    assert!(is_default_endpoint("https://generativelanguage.googleapis.com/v1beta/", LLMProvider::Google));
    assert!(!is_default_endpoint("https://proxy.example.com", LLMProvider::Google));
    assert!(is_default_endpoint("https://api.anthropic.com/v1", LLMProvider::Anthropic));
    assert!(!is_default_endpoint("http://localhost", LLMProvider::Anthropic));
    assert!(is_default_endpoint("http://localhost", LLMProvider::Openai));
}

fn openai_text(content: &str) -> OpenAIReply {
    OpenAIReply { choice_count: Some(1), tool_calls: None, content: Some(content.to_string()) }
}

#[test]
fn test_parse_response_text() {
    match parse_openai_response(&openai_text("Hello! How can I help you?")).unwrap() {
        LLMResponse::Text { content: text, .. } => assert_eq!(text, "Hello! How can I help you?"),
        _ => panic!("Expected LLMResponse::Text"),
    }
}

#[test]
fn test_parse_response_tool_calls() {
    let reply = OpenAIReply {
        choice_count: Some(1),
        tool_calls: Some(vec![OpenAIToolCallData {
            id: Some("call_abc123".to_string()),
            name: Some("calculator".to_string()),
            arguments: Some("{\"expression\": \"2+2\"}".to_string()),
        }]),
        content: None,
    };
    match parse_openai_response(&reply).unwrap() {
        LLMResponse::ToolCalls { calls, .. } => {
            assert_eq!(calls.len(), 1);
            assert_eq!(calls[0].id, "call_abc123");
            assert_eq!(calls[0].name, "calculator");
            assert_eq!(calls[0].arguments["expression"], "2+2");
        }
        _ => panic!("Expected LLMResponse::ToolCalls"),
    }
}

#[test]
fn test_parse_response_empty_choices() {
    let reply = OpenAIReply { choice_count: Some(0), tool_calls: None, content: None };
    assert!(parse_openai_response(&reply).is_err());
}

#[test]
fn test_parse_response_missing_choices() {
    let reply = OpenAIReply { choice_count: None, tool_calls: None, content: None };
    assert!(parse_openai_response(&reply).is_err());
}

#[test]
fn test_parse_response_multiple_tool_calls() {
    let reply = OpenAIReply {
        choice_count: Some(1),
        tool_calls: Some(vec![
            OpenAIToolCallData {
                id: Some("call_1".to_string()),
                name: Some("search".to_string()),
                arguments: Some("{\"query\": \"rust\"}".to_string()),
            },
            OpenAIToolCallData {
                id: Some("call_2".to_string()),
                name: Some("calculator".to_string()),
                arguments: Some("{\"expression\": \"1+1\"}".to_string()),
            },
        ]),
        content: None,
    };
    match parse_openai_response(&reply).unwrap() {
        LLMResponse::ToolCalls { calls, .. } => {
            assert_eq!(calls.len(), 2);
            assert_eq!(calls[0].name, "search");
            assert_eq!(calls[1].name, "calculator");
        }
        _ => panic!("Expected LLMResponse::ToolCalls"),
    }
}

#[test]
fn bad_arguments_become_an_empty_object() {
    let reply = OpenAIReply {
        choice_count: Some(1),
        tool_calls: Some(vec![OpenAIToolCallData { id: None, name: None, arguments: Some("not json".to_string()) }]),
        content: None,
    };
    match parse_openai_response(&reply).unwrap() {
        LLMResponse::ToolCalls { calls, .. } => {
            assert_eq!(calls[0].id, "");
            assert_eq!(calls[0].arguments, serde_json::Value::Object(serde_json::Map::new()));
        }
        _ => panic!("Expected LLMResponse::ToolCalls"),
    }
}

#[test]
fn test_parse_response_with_reasoning_content() {
    match parse_openai_response(&openai_text("The answer is 42.")).unwrap() {
        LLMResponse::Text { content: text, .. } => assert_eq!(text, "The answer is 42."),
        _ => panic!("Expected LLMResponse::Text"),
    }
}

#[test]
fn test_parse_response_content_with_think_tags_and_reasoning() {
    match parse_openai_response(&openai_text("<think>internal monologue</think>Final answer.")).unwrap() {
        LLMResponse::Text { content: text, .. } => assert_eq!(text, "Final answer."),
        _ => panic!("Expected LLMResponse::Text"),
    }
}

#[test]
fn test_build_gemini_request_basic() {
    let messages = vec![
        msg(MessageRole::System, "You are a helpful assistant."),
        msg(MessageRole::User, "Hello"),
        msg(MessageRole::Assistant, "Hi there!"),
    ];
    let body = build_gemini_request(&messages, None);
    assert_eq!(body.contents.len(), 2);
    assert_eq!(body.contents[0].role, "user");
    assert_eq!(body.contents[0].text, "Hello");
    assert_eq!(body.contents[1].role, "model");
    assert_eq!(body.contents[1].text, "Hi there!");
    assert_eq!(body.system_instruction, Some("You are a helpful assistant.".to_string()));
}

#[test]
fn test_build_gemini_request_no_system_message() {
    let body = build_gemini_request(&[msg(MessageRole::User, "Hello")], None);
    assert_eq!(body.contents.len(), 1);
    assert_eq!(body.contents[0].role, "user");
    assert!(body.system_instruction.is_none());
}

#[test]
fn gemini_takes_the_first_system_message_and_tools_as_users() {
    let body = build_gemini_request(
        &[msg(MessageRole::System, "one"), msg(MessageRole::Tool, "t"), msg(MessageRole::System, "two")],
        None,
    );
    assert_eq!(body.system_instruction, Some("one".to_string()));
    assert_eq!(body.contents.len(), 1);
    assert_eq!(body.contents[0].role, "user");
}

#[test]
fn test_build_gemini_url_default_endpoint() {
    assert_eq!(
        build_gemini_url(&endpoint("", "gemini-1.5-pro", Some(LLMProvider::Google))),
        "https://generativelanguage.googleapis.com/v1beta/models/gemini-1.5-pro:generateContent"
    );
}

#[test]
fn test_build_gemini_url_custom_endpoint() {
    assert_eq!(
        build_gemini_url(&endpoint("https://custom-proxy.example.com/v1", "gemini-pro", Some(LLMProvider::Google))),
        "https://custom-proxy.example.com/v1/models/gemini-pro:generateContent"
    );
}

#[test]
fn test_build_gemini_url_trailing_slash() {
    assert_eq!(
        build_gemini_url(&endpoint("https://custom-proxy.example.com/v1/", "gemini-pro", Some(LLMProvider::Google))),
        "https://custom-proxy.example.com/v1/models/gemini-pro:generateContent"
    );
}

#[test]
fn test_build_gemini_stream_url_default_endpoint() {
    assert_eq!(
        build_gemini_stream_url(&endpoint("", "gemini-1.5-pro", Some(LLMProvider::Google))),
        "https://generativelanguage.googleapis.com/v1beta/models/gemini-1.5-pro:streamGenerateContent?alt=sse"
    );
}

#[test]
fn test_build_gemini_stream_url_custom_endpoint() {
    assert_eq!(
        build_gemini_stream_url(&endpoint("https://custom-proxy.example.com/v1", "gemini-pro", Some(LLMProvider::Google))),
        "https://custom-proxy.example.com/v1/models/gemini-pro:streamGenerateContent?alt=sse"
    );
}

#[test]
fn test_build_anthropic_request_basic() {
    let messages = vec![
        msg(MessageRole::System, "You are a helpful assistant."),
        msg(MessageRole::User, "Hello"),
        msg(MessageRole::Assistant, "Hi there!"),
    ];
    let config = endpoint("", "sonnet-3-5-20241022", Some(LLMProvider::Anthropic));
    let body = build_anthropic_request(&messages, &config, None);
    assert_eq!(body.model, "sonnet-3-5-20241022");
    assert_eq!(body.messages.len(), 2);
    assert_eq!(body.messages[0].role, "user");
    assert_eq!(body.messages[0].content, "Hello");
    assert_eq!(body.messages[1].role, "assistant");
    assert_eq!(body.messages[1].content, "Hi there!");
    assert_eq!(body.system, Some("You are a helpful assistant.".to_string()));
    assert_eq!(body.max_tokens, 4096);
}

#[test]
fn test_build_anthropic_request_no_system_message() {
    let config = endpoint("", "haiku-3-20240307", Some(LLMProvider::Anthropic));
    let body = build_anthropic_request(&[msg(MessageRole::User, "Hello")], &config, None);
    assert_eq!(body.messages.len(), 1);
    assert_eq!(body.messages[0].role, "user");
    assert!(body.system.is_none());
}

#[test]
fn test_build_anthropic_request_multiple_system_messages() {
    let messages = vec![
        msg(MessageRole::System, "First instruction."),
        msg(MessageRole::System, "Second instruction."),
        msg(MessageRole::User, "Hello"),
    ];
    let config = endpoint("", "sonnet-3-5-20241022", Some(LLMProvider::Anthropic));
    let body = build_anthropic_request(&messages, &config, None);
    assert_eq!(body.system, Some("First instruction.\nSecond instruction.".to_string()));
    assert_eq!(body.messages.len(), 1);
    assert_eq!(body.messages[0].role, "user");
}

#[test]
fn empty_system_text_is_not_sent() {
    let config = endpoint("", "c", Some(LLMProvider::Anthropic));
    let body = build_anthropic_request(&[msg(MessageRole::System, ""), msg(MessageRole::User, "x")], &config, None);
    assert!(body.system.is_none());
}

#[test]
fn test_build_anthropic_url_default_endpoint() {
    assert_eq!(
        build_anthropic_url(&endpoint("", "sonnet-3-5-20241022", Some(LLMProvider::Anthropic))),
        "https://api.anthropic.com/v1/messages"
    );
}

#[test]
fn test_build_anthropic_url_custom_endpoint() {
    assert_eq!(
        build_anthropic_url(&endpoint("https://custom-proxy.example.com/v1", "c", Some(LLMProvider::Anthropic))),
        "https://custom-proxy.example.com/v1/messages"
    );
}

#[test]
fn test_build_anthropic_url_trailing_slash() {
    assert_eq!(
        build_anthropic_url(&endpoint("https://custom-proxy.example.com/v1/", "c", Some(LLMProvider::Anthropic))),
        "https://custom-proxy.example.com/v1/messages"
    );
}

fn gemini_parts(parts: Vec<(&str, Option<bool>)>) -> GeminiReply {
    GeminiReply {
        has_candidates: true,
        parts: Some(
            parts
                .into_iter()
                .map(|(t, thought)| GeminiPart { text: Some(t.to_string()), thought })
                .collect(),
        ),
    }
}

#[test]
fn test_parse_gemini_response_basic() {
    match parse_gemini_response(&gemini_parts(vec![("Hello from Gemini!", None)])).unwrap() {
        LLMResponse::Text { content: text, .. } => assert_eq!(text, "Hello from Gemini!"),
        _ => panic!("Expected LLMResponse::Text"),
    }
}

#[test]
fn test_parse_gemini_response_empty_candidates() {
    let result = parse_gemini_response(&GeminiReply { has_candidates: false, parts: None });
    assert!(result.is_err());
    let err_msg = result.unwrap_err().to_string();
    assert!(err_msg.contains("no candidates"));
}

#[test]
fn test_parse_gemini_response_missing_candidates() {
    assert!(parse_gemini_response(&GeminiReply { has_candidates: false, parts: None }).is_err());
}

#[test]
fn test_parse_gemini_response_empty_text_with_candidate() {
    match parse_gemini_response(&gemini_parts(vec![("", None)])).unwrap() {
        LLMResponse::Text { content: text, .. } => assert_eq!(text, ""),
        _ => panic!("Expected LLMResponse::Text"),
    }
}

#[test]
fn test_parse_gemini_response_filters_thinking_parts() {
    let reply = gemini_parts(vec![("Let me think...", Some(true)), ("The answer is 42.", None)]);
    match parse_gemini_response(&reply).unwrap() {
        LLMResponse::Text { content: text, thinking } => {
            assert_eq!(text, "The answer is 42.");
            assert_eq!(thinking, Some("Let me think...".to_string()));
        }
        _ => panic!("Expected LLMResponse::Text"),
    }
}

fn block(t: &str, text: Option<&str>, thinking: Option<&str>) -> AnthropicBlock {
    AnthropicBlock {
        block_type: Some(t.to_string()),
        thinking: thinking.map(|s| s.to_string()),
        text: text.map(|s| s.to_string()),
    }
}

#[test]
fn test_parse_anthropic_response_basic() {
    let reply = AnthropicReply { content: Some(vec![block("text", Some("Hello from the assistant!"), None)]) };
    match parse_anthropic_response(&reply).unwrap() {
        LLMResponse::Text { content: text, .. } => assert_eq!(text, "Hello from the assistant!"),
        _ => panic!("Expected LLMResponse::Text"),
    }
}

#[test]
fn test_parse_anthropic_response_multiple_text_blocks() {
    let reply = AnthropicReply {
        content: Some(vec![block("text", Some("First part. "), None), block("text", Some("Second part."), None)]),
    };
    match parse_anthropic_response(&reply).unwrap() {
        LLMResponse::Text { content: text, .. } => assert_eq!(text, "First part. Second part."),
        _ => panic!("Expected LLMResponse::Text"),
    }
}

#[test]
fn test_parse_anthropic_response_missing_content() {
    let result = parse_anthropic_response(&AnthropicReply { content: None });
    assert!(result.is_err());
    let err_msg = result.unwrap_err().to_string();
    assert!(err_msg.contains("missing 'content' array"));
}

#[test]
fn test_parse_anthropic_response_empty_content() {
    match parse_anthropic_response(&AnthropicReply { content: Some(vec![]) }).unwrap() {
        LLMResponse::Text { content: text, .. } => assert_eq!(text, ""),
        _ => panic!("Expected LLMResponse::Text"),
    }
}

#[test]
fn test_parse_anthropic_response_mixed_content_types() {
    let reply = AnthropicReply {
        content: Some(vec![
            block("text", Some("Let me search for that. "), None),
            block("tool_use", None, None),
            block("text", Some("Here are the results."), None),
        ]),
    };
    match parse_anthropic_response(&reply).unwrap() {
        LLMResponse::Text { content: text, .. } => assert_eq!(text, "Let me search for that. Here are the results."),
        _ => panic!("Expected LLMResponse::Text"),
    }
}

#[test]
fn test_parse_anthropic_response_filters_thinking_blocks() {
    let reply = AnthropicReply {
        content: Some(vec![
            block("thinking", None, Some("Let me reason about this...")),
            block("text", Some("Here is my answer."), None),
        ]),
    };
    match parse_anthropic_response(&reply).unwrap() {
        LLMResponse::Text { content: text, thinking } => {
            assert_eq!(text, "Here is my answer.");
            assert_eq!(thinking, Some("Let me reason about this...".to_string()));
        }
        _ => panic!("Expected LLMResponse::Text"),
    }
}

#[test]
fn test_parse_anthropic_response_filters_redacted_thinking() {
    let reply = AnthropicReply {
        content: Some(vec![block("redacted_thinking", None, None), block("text", Some("My response."), None)]),
    };
    match parse_anthropic_response(&reply).unwrap() {
        LLMResponse::Text { content: text, thinking } => {
            assert_eq!(text, "My response.");
            assert_eq!(thinking, Some("[REDACTED_THINKING]".to_string()));
        }
        _ => panic!("Expected LLMResponse::Text"),
    }
}

#[test]
fn test_strip_think_tags_basic() {
    assert_eq!(strip_think_tags("<think>I need to think about this</think>Hello!"), "Hello!");
}

#[test]
fn test_strip_think_tags_multiple() {
    assert_eq!(strip_think_tags("A<think>thought1</think>B<think>thought2</think>C"), "ABC");
}

#[test]
fn test_strip_think_tags_multiline() {
    assert_eq!(strip_think_tags("<think>\nline1\nline2\n</think>Result"), "Result");
}

#[test]
fn test_strip_think_tags_unclosed() {
    assert_eq!(strip_think_tags("Before<think>still thinking..."), "Before");
}

#[test]
fn test_strip_think_tags_close_only() {
    assert_eq!(strip_think_tags("thinking content</think>Actual response"), "Actual response");
}

#[test]
fn test_strip_think_tags_no_tags() {
    assert_eq!(strip_think_tags("Normal text without any tags"), "Normal text without any tags");
}

#[test]
fn test_strip_think_tags_empty() {
    assert_eq!(strip_think_tags(""), "");
}

#[test]
fn test_strip_think_tags_only_thinking() {
    assert_eq!(strip_think_tags("<think>All thinking no output</think>"), "");
}

#[test]
fn llm_response_accessors() {
    let t = LLMResponse::Text { content: "x".to_string(), thinking: None };
    assert_eq!(t.text(), "x");
    assert!(!t.is_tool_calls());
    assert_eq!(t.into_text(), "x");
    let c = LLMResponse::ToolCalls { calls: vec![], thinking: None };
    assert_eq!(c.text(), "");
    assert!(c.is_tool_calls());
}

#[test]
fn replies_are_read_from_their_json() {
    let v: serde_json::Value = serde_json::from_str(
        r#"{"choices":[{"message":{"content":"hello","tool_calls":[{"id":"c1","function":{"name":"f","arguments":"{}"}}]}}]}"#,
    )
    .unwrap();
    let r = kokoro_chat::llm::replies::openai_reply_of(&v);
    assert_eq!(r.choice_count, Some(1));
    assert_eq!(r.content.as_deref(), Some("hello"));
    let calls = r.tool_calls.unwrap();
    assert_eq!((calls[0].id.as_deref(), calls[0].name.as_deref()), (Some("c1"), Some("f")));
    let none: serde_json::Value = serde_json::from_str("{}").unwrap();
    assert_eq!(kokoro_chat::llm::replies::openai_reply_of(&none).choice_count, None);

    let g: serde_json::Value = serde_json::from_str(
        r#"{"candidates":[{"content":{"parts":[{"text":"a","thought":true},{"text":"b"}]}}]}"#,
    )
    .unwrap();
    let r = kokoro_chat::llm::replies::gemini_reply_of(&g);
    assert!(r.has_candidates);
    let parts = r.parts.unwrap();
    assert_eq!((parts[0].thought, parts[1].thought, parts[1].text.as_deref()), (Some(true), None, Some("b")));

    let a: serde_json::Value =
        serde_json::from_str(r#"{"content":[{"type":"thinking","thinking":"x"},{"type":"text","text":"y"}]}"#).unwrap();
    let blocks = kokoro_chat::llm::replies::anthropic_reply_of(&a).content.unwrap();
    assert_eq!(blocks[0].block_type.as_deref(), Some("thinking"));
    assert_eq!(blocks[1].text.as_deref(), Some("y"));
}
