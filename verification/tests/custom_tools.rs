//! User-defined tools: handlers, HTTP method, argument templates and results.
use kokoro_chat::error::AppError;
use kokoro_chat::models::plugin::{CliToolConfig, CustomToolRecord, CustomToolType, HttpToolConfig};
use kokoro_chat::plugin::executor::{
    argument_fields, cli_error, cli_result, http_method, http_result, CliFailure, CliToolHandler, CustomHandler,
    CustomToolExecutor, HttpFailure, HttpMethod, HttpToolHandler, ToolConfig,
};

fn schema(field: &str) -> serde_json::Value {
    serde_json::from_str(&format!(
        r#"{{"type":"object","properties":{{"{}":{{"type":"string"}}}},"required":["{}"]}}"#,
        field, field
    ))
    .unwrap()
}

fn make_http_record() -> CustomToolRecord {
    CustomToolRecord {
        id: "test-http-001".to_string(),
        name: "test_http_tool".to_string(),
        tool_type: CustomToolType::Http,
        description: "Test HTTP tool".to_string(),
        parameters_schema: schema("query"),
        config_json: serde_json::from_str(r#"{"url":"https://httpbin.org/post","method":"POST","headers":{}}"#).unwrap(),
        enabled: true,
        created_at: "2024-01-01T00:00:00Z".to_string(),
    }
}

fn make_cli_record() -> CustomToolRecord {
    CustomToolRecord {
        id: "test-cli-001".to_string(),
        name: "test_cli_tool".to_string(),
        tool_type: CustomToolType::Cli,
        description: "Test CLI tool".to_string(),
        parameters_schema: schema("message"),
        config_json: serde_json::from_str(r#"{"command":"echo","args":["{{message}}"]}"#).unwrap(),
        enabled: true,
        created_at: "2024-01-01T00:00:00Z".to_string(),
    }
}

fn http_config() -> HttpToolConfig {
    HttpToolConfig {
        url: "https://httpbin.org/post".to_string(),
        method: "POST".to_string(),
        headers: std::collections::HashMap::new(),
    }
}

fn cli_config() -> CliToolConfig {
    CliToolConfig { command: "echo".to_string(), args: vec!["{{message}}".to_string()] }
}

#[test]
fn test_http_handler_creation() {
    let handler = HttpToolHandler::new(make_http_record(), http_config());
    assert_eq!(handler.name(), "test_http_tool");
    assert_eq!(handler.tools().len(), 1);
    assert_eq!(handler.tools()[0].name, "test_http_tool");
    assert_eq!(handler.tools()[0].parameters, schema("query"));
}

#[test]
fn test_http_handler_invalid_config() {
    let result = CustomToolExecutor::create_handler(make_http_record(), Err("invalid type".to_string()));
    match result {
        Err(AppError::Plugin(m)) => assert_eq!(m, "HTTP tool config parse error: invalid type"),
        _ => panic!("invalid settings are an error"),
    }
}

#[test]
fn test_cli_handler_creation() {
    let handler = CliToolHandler::new(make_cli_record(), cli_config());
    assert_eq!(handler.name(), "test_cli_tool");
    assert_eq!(handler.tools().len(), 1);
    assert_eq!(handler.description(), "Test CLI tool");
}

#[test]
fn test_cli_handler_invalid_config() {
    match CustomToolExecutor::create_handler(make_cli_record(), Err("123".to_string())) {
        Err(AppError::Plugin(m)) => assert_eq!(m, "CLI tool config parse error: 123"),
        _ => panic!("invalid settings are an error"),
    }
}

#[test]
fn test_cli_expand_args() {
    let handler = CliToolHandler::new(make_cli_record(), cli_config());
    let args = vec!["--name".to_string(), "{{name}}".to_string(), "--count".to_string(), "{{count}}".to_string()];
    let arguments: serde_json::Value = serde_json::from_str(r#"{"name": "hello", "count": 42}"#).unwrap();
    let expanded = handler.expand_args(&args, &arguments);
    assert_eq!(expanded, vec!["--name", "hello", "--count", "42"]);
}

#[test]
fn test_cli_expand_args_no_placeholders() {
    let handler = CliToolHandler::new(make_cli_record(), cli_config());
    let args = vec!["--verbose".to_string(), "fixed_arg".to_string()];
    let arguments: serde_json::Value = serde_json::from_str(r#"{"key": "value"}"#).unwrap();
    assert_eq!(handler.expand_args(&args, &arguments), vec!["--verbose", "fixed_arg"]);
}

#[test]
fn placeholders_are_replaced_everywhere_in_order() {
    let handler = CliToolHandler::new(make_cli_record(), cli_config());
    let args = vec!["{{a}}-{{a}}-{{b}}".to_string()];
    let arguments: serde_json::Value = serde_json::from_str(r#"{"a": "{{b}}", "b": "x"}"#).unwrap();
    assert_eq!(handler.expand_args(&args, &arguments), vec!["x-x-x"]);
}

#[test]
fn test_custom_tool_executor_create_http_handler() {
    match CustomToolExecutor::create_handler(make_http_record(), Ok(ToolConfig::Http(http_config()))) {
        Ok(CustomHandler::Http(h)) => assert_eq!(h.name(), "test_http_tool"),
        _ => panic!("an HTTP handler"),
    }
}

#[test]
fn test_custom_tool_executor_create_cli_handler() {
    match CustomToolExecutor::create_handler(make_cli_record(), Ok(ToolConfig::Cli(cli_config()))) {
        Ok(CustomHandler::Cli(h)) => assert_eq!(h.name(), "test_cli_tool"),
        _ => panic!("a CLI handler"),
    }
}

#[test]
fn test_custom_tool_executor_create_handlers_batch() {
    let handlers = vec![
        CustomToolExecutor::create_handler(make_http_record(), Ok(ToolConfig::Http(http_config()))),
        CustomToolExecutor::create_handler(make_cli_record(), Ok(ToolConfig::Cli(cli_config()))),
    ];
    assert_eq!(handlers.len(), 2);
    assert!(handlers[0].is_ok());
    assert!(handlers[1].is_ok());
}

#[test]
fn http_method_is_case_insensitive_and_defaults_to_post() {
    assert_eq!(http_method("put"), HttpMethod::Put);
    assert_eq!(http_method("Get"), HttpMethod::Get);
    assert_eq!(http_method("POST"), HttpMethod::Post);
    assert_eq!(http_method("DELETE"), HttpMethod::Post);
    let h = HttpToolHandler::new(make_http_record(), http_config());
    assert_eq!(h.method(), HttpMethod::Post);
}

#[test]
fn http_results_and_errors() {
    let ok = http_result("c1", true, 200, "body".to_string());
    assert_eq!(ok.content, "body");
    assert!(!ok.is_error);
    let bad = http_result("c1", false, 404, "missing".to_string());
    assert_eq!(bad.content, "HTTP 404 error: missing");
    assert!(bad.is_error);
    let h = HttpToolHandler::new(make_http_record(), http_config());
    match h.send_error(HttpFailure::Timeout, "") {
        AppError::Plugin(m) => assert_eq!(m, "HTTP tool 'test_http_tool' timed out after 30s"),
        _ => panic!("plugin error"),
    }
    match h.send_error(HttpFailure::Connect, "refused") {
        AppError::Plugin(m) => assert_eq!(m, "HTTP tool 'test_http_tool' connection failed: refused"),
        _ => panic!("plugin error"),
    }
}

#[test]
fn cli_results_and_errors() {
    let ok = cli_result("c", true, Some(0), "out\n".to_string(), String::new());
    assert_eq!(ok.content, "out\n");
    let err = cli_result("c", false, Some(2), "o".to_string(), String::new());
    assert_eq!(err.content, "Process exited with code 2. stdout: o");
    let err = cli_result("c", false, Some(-3), "o".to_string(), "e".to_string());
    assert_eq!(err.content, "Process exited with code -3. stderr: e");
    let err = cli_result("c", false, None, String::new(), "boom".to_string());
    assert_eq!(err.content, "Process exited with code -1. stderr: boom");
    match cli_error("t", CliFailure::Timeout, "") {
        AppError::Plugin(m) => assert_eq!(m, "CLI tool 't' timed out after 60s"),
        _ => panic!("plugin error"),
    }
    match cli_error("t", CliFailure::Spawn, "no such file") {
        AppError::Plugin(m) => assert_eq!(m, "CLI tool 't' spawn failed: no such file"),
        _ => panic!("plugin error"),
    }
}

#[test]
fn argument_texts_keep_strings_and_write_other_values_as_json() {
    let arguments: serde_json::Value =
        serde_json::from_str(r#"{"flag": true, "list": [1, "a"], "n": null, "s": "plain"}"#).unwrap();
    let fields = argument_fields(&arguments);
    let names: Vec<&str> = fields.iter().map(|f| f.0.as_str()).collect();
    let texts: Vec<&str> = fields.iter().map(|f| f.1.as_str()).collect();
    assert_eq!(names, vec!["flag", "list", "n", "s"]);
    assert_eq!(texts, vec!["true", "[1,\"a\"]", "null", "plain"]);
    let not_an_object: serde_json::Value = serde_json::from_str("[1]").unwrap();
    assert!(argument_fields(&not_an_object).is_empty());
}
