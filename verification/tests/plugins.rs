//! The plugin registry and the dispatch of tool calls.
use kokoro_chat::error::AppError;
use kokoro_chat::models::plugin::{ToolCall, ToolDefinition, ToolResult};
use kokoro_chat::plugin::registry::DefaultPluginRegistry;
use kokoro_chat::plugin::system::tool_result_or_unavailable;

fn tool(name: &str) -> ToolDefinition {
    ToolDefinition {
        name: format!("{}_tool", name),
        description: format!("Tool provided by {}", name),
        parameters: serde_json::from_str(
            r#"{"type":"object","properties":{"input":{"type":"string"}},"required":["input"]}"#,
        )
        .unwrap(),
    }
}

/// Registers a mock plugin whose handler is its name.
fn register(registry: &mut DefaultPluginRegistry<String>, name: &str, description: &str) -> Result<(), AppError> {
    registry.register(name.to_string(), name.to_string(), description.to_string(), vec![tool(name)])
}

fn call(id: &str, name: &str, input: &str) -> ToolCall {
    ToolCall {
        id: id.to_string(),
        name: name.to_string(),
        arguments: serde_json::from_str(&format!("{{\"input\":\"{}\"}}", input)).unwrap(),
        context: None,
    }
}

/// Runs a call the way the application does: route it, let the mock handler answer, and turn
/// a failure into an error result.
fn run(registry: &DefaultPluginRegistry<String>, c: &ToolCall) -> ToolResult {
    let outcome = registry.route_tool_call(&c.name).map(|i| {
        let handler = registry.handler(i);
        ToolResult {
            tool_call_id: c.id.clone(),
            content: format!("[{}] processed: {}", handler, c.arguments["input"].as_str().unwrap_or("no input")),
            is_error: false,
        }
    });
    tool_result_or_unavailable(c, outcome)
}

#[test]
fn test_register_plugin() {
    let mut registry = DefaultPluginRegistry::new();
    assert!(register(&mut registry, "test_plugin", "A test plugin").is_ok());
    let plugins = registry.list_plugins();
    assert_eq!(plugins.len(), 1);
    assert_eq!(plugins[0].name, "test_plugin");
    assert_eq!(plugins[0].description, "A test plugin");
    assert!(plugins[0].enabled);
    assert_eq!(plugins[0].version, "1.0.0");
}

#[test]
fn test_register_duplicate_plugin_fails() {
    let mut registry = DefaultPluginRegistry::new();
    assert!(register(&mut registry, "dup_plugin", "First").is_ok());
    let result = register(&mut registry, "dup_plugin", "Second");
    assert!(result.is_err());
    match result.unwrap_err() {
        AppError::Plugin(msg) => assert!(msg.contains("already registered")),
        _ => panic!("Expected AppError::Plugin"),
    }
    assert_eq!(registry.list_plugins()[0].description, "First");
}

#[test]
fn test_unregister_plugin() {
    let mut registry = DefaultPluginRegistry::new();
    register(&mut registry, "removable", "To be removed").unwrap();
    assert_eq!(registry.list_plugins().len(), 1);
    assert!(registry.unregister("removable").is_ok());
    assert_eq!(registry.list_plugins().len(), 0);
}

#[test]
fn test_unregister_nonexistent_plugin_fails() {
    let mut registry: DefaultPluginRegistry<String> = DefaultPluginRegistry::new();
    let result = registry.unregister("nonexistent");
    assert!(result.is_err());
    match result.unwrap_err() {
        AppError::NotFound(msg) => assert!(msg.contains("nonexistent")),
        _ => panic!("Expected AppError::NotFound"),
    }
}

#[test]
fn test_enable_disable_plugin() {
    let mut registry = DefaultPluginRegistry::new();
    register(&mut registry, "toggle_plugin", "Toggleable").unwrap();
    assert!(registry.list_plugins()[0].enabled);
    registry.disable_plugin("toggle_plugin").unwrap();
    assert!(!registry.list_plugins()[0].enabled);
    registry.enable_plugin("toggle_plugin").unwrap();
    assert!(registry.list_plugins()[0].enabled);
}

#[test]
fn test_enable_nonexistent_plugin_fails() {
    let mut registry: DefaultPluginRegistry<String> = DefaultPluginRegistry::new();
    assert!(registry.enable_plugin("ghost").is_err());
}

#[test]
fn test_disable_nonexistent_plugin_fails() {
    let mut registry: DefaultPluginRegistry<String> = DefaultPluginRegistry::new();
    assert!(registry.disable_plugin("ghost").is_err());
}

#[test]
fn test_plugin_config_management() {
    let mut registry = DefaultPluginRegistry::new();
    register(&mut registry, "configurable", "Has config").unwrap();
    assert!(registry.get_plugin_config("configurable").is_none());
    let config: serde_json::Value = serde_json::from_str(r#"{"api_key":"secret","timeout":30}"#).unwrap();
    registry.set_plugin_config("configurable", config.clone()).unwrap();
    assert_eq!(registry.get_plugin_config("configurable"), Some(config));
}

#[test]
fn test_set_config_nonexistent_plugin_fails() {
    let mut registry: DefaultPluginRegistry<String> = DefaultPluginRegistry::new();
    let empty: serde_json::Value = serde_json::from_str("{}").unwrap();
    assert!(registry.set_plugin_config("ghost", empty).is_err());
}

#[test]
fn test_get_enabled_tools() {
    let mut registry = DefaultPluginRegistry::new();
    register(&mut registry, "plugin_a", "Plugin A").unwrap();
    register(&mut registry, "plugin_b", "Plugin B").unwrap();
    assert_eq!(registry.get_enabled_tools().len(), 2);
    registry.disable_plugin("plugin_a").unwrap();
    let tools = registry.get_enabled_tools();
    assert_eq!(tools.len(), 1);
    assert_eq!(tools[0].name, "plugin_b_tool");
}

#[test]
fn test_list_plugins_shows_all() {
    let mut registry = DefaultPluginRegistry::new();
    register(&mut registry, "p1", "Plugin 1").unwrap();
    register(&mut registry, "p2", "Plugin 2").unwrap();
    register(&mut registry, "p3", "Plugin 3").unwrap();
    registry.disable_plugin("p2").unwrap();
    assert_eq!(registry.list_plugins().len(), 3);
}

#[test]
fn config_survives_disable_and_enable() {
    let mut registry = DefaultPluginRegistry::new();
    register(&mut registry, "p", "P").unwrap();
    let config: serde_json::Value = serde_json::from_str(r#"{"k":1}"#).unwrap();
    registry.set_plugin_config("p", config.clone()).unwrap();
    registry.disable_plugin("p").unwrap();
    registry.enable_plugin("p").unwrap();
    assert_eq!(registry.get_plugin_config("p"), Some(config));
}

#[test]
fn disabling_one_plugin_leaves_the_others() {
    let mut registry = DefaultPluginRegistry::new();
    register(&mut registry, "a", "A").unwrap();
    register(&mut registry, "b", "B").unwrap();
    register(&mut registry, "c", "C").unwrap();
    let config: serde_json::Value = serde_json::from_str(r#"{"k":2}"#).unwrap();
    registry.set_plugin_config("c", config.clone()).unwrap();
    registry.disable_plugin("b").unwrap();
    let plugins = registry.list_plugins();
    assert!(plugins[0].enabled);
    assert!(!plugins[1].enabled);
    assert!(plugins[2].enabled);
    assert_eq!(registry.get_plugin_config("c"), Some(config));
    assert_eq!(registry.get_plugin_config("a"), None);
    let names: Vec<String> = registry.get_enabled_tools().into_iter().map(|t| t.name).collect();
    assert_eq!(names, vec!["a_tool".to_string(), "c_tool".to_string()]);
}

#[test]
fn name_is_free_again_after_unregister() {
    let mut registry = DefaultPluginRegistry::new();
    register(&mut registry, "p", "first").unwrap();
    registry.unregister("p").unwrap();
    assert!(register(&mut registry, "p", "second").is_ok());
    assert_eq!(registry.list_plugins()[0].description, "second");
}

#[test]
fn test_handle_tool_calls_success() {
    let mut registry = DefaultPluginRegistry::new();
    register(&mut registry, "calc", "Calculator").unwrap();
    let result = run(&registry, &call("call_1", "calc_tool", "2+2"));
    assert_eq!(result.tool_call_id, "call_1");
    assert!(!result.is_error);
    assert!(result.content.contains("processed: 2+2"));
}

#[test]
fn test_handle_tool_calls_not_found() {
    let registry: DefaultPluginRegistry<String> = DefaultPluginRegistry::new();
    let result = run(&registry, &call("call_x", "nonexistent_tool", ""));
    assert!(result.is_error);
    assert!(result.content.contains("not found"));
    assert_eq!(result.content, "Tool 'nonexistent_tool' not found or not available");
    match registry.route_tool_call("nonexistent_tool") {
        Err(AppError::NotFound(m)) => assert_eq!(m, "No enabled plugin provides tool 'nonexistent_tool'"),
        _ => panic!("no provider"),
    }
}

#[test]
fn test_handle_multiple_tool_calls() {
    let mut registry = DefaultPluginRegistry::new();
    register(&mut registry, "alpha", "Alpha plugin").unwrap();
    register(&mut registry, "beta", "Beta plugin").unwrap();
    let r1 = run(&registry, &call("c1", "alpha_tool", "hello"));
    let r2 = run(&registry, &call("c2", "beta_tool", "world"));
    assert!(!r1.is_error && !r2.is_error);
    assert!(r1.content.contains("[alpha]"));
    assert!(r2.content.contains("[beta]"));
}

#[test]
fn test_handle_tool_calls_disabled_plugin() {
    let mut registry = DefaultPluginRegistry::new();
    register(&mut registry, "disabled_one", "Will be disabled").unwrap();
    registry.disable_plugin("disabled_one").unwrap();
    let result = run(&registry, &call("c_dis", "disabled_one_tool", "test"));
    assert!(result.is_error);
    assert!(result.content.contains("not found"));
}

#[test]
fn test_execute_tool_with_error_plugin() {
    let c = call("err_call", "error_tool", "");
    let failed = ToolResult { tool_call_id: "err_call".to_string(), content: "execution failed".to_string(), is_error: true };
    let result = tool_result_or_unavailable(&c, Ok(failed));
    assert!(result.is_error);
    assert_eq!(result.content, "execution failed");
}

#[test]
fn test_get_enabled_tools_via_system() {
    let mut registry = DefaultPluginRegistry::new();
    register(&mut registry, "sys_plugin", "System plugin").unwrap();
    let tools = registry.get_enabled_tools();
    assert_eq!(tools.len(), 1);
    assert_eq!(tools[0].name, "sys_plugin_tool");
}

#[test]
fn first_enabled_provider_serves_the_call() {
    let mut registry = DefaultPluginRegistry::new();
    register(&mut registry, "a", "A").unwrap();
    registry.register("b".to_string(), "b".to_string(), "B".to_string(), vec![tool("a")]).unwrap();
    assert_eq!(registry.find_tool_provider("a_tool"), Some(0));
    registry.disable_plugin("a").unwrap();
    assert_eq!(registry.find_tool_provider("a_tool"), Some(1));
    assert_eq!(registry.handler(1), "b");
}

#[test]
fn handlers_follow_their_plugins() {
    let mut registry: DefaultPluginRegistry<String> = DefaultPluginRegistry::new();
    registry.register("first".to_string(), "p".to_string(), "P".to_string(), vec![tool("p")]).unwrap();
    assert!(registry.register("second".to_string(), "p".to_string(), "P2".to_string(), vec![tool("p")]).is_err());
    assert_eq!(registry.handler(0), "first");
    registry.register("other".to_string(), "q".to_string(), "Q".to_string(), vec![tool("q")]).unwrap();
    registry.unregister("p").unwrap();
    assert_eq!(registry.handler(0), "other");
    assert_eq!(registry.handler(registry.route_tool_call("q_tool").unwrap()), "other");
}
