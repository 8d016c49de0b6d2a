//! The web search plugin: settings, domain allow-list, HTML text and the search decisions.
use kokoro_chat::error::AppError;
use kokoro_chat::models::plugin::ToolCall;
use kokoro_chat::plugin::web_search::{
    fetch_page_gate, plan_search, search_failure, search_results_text, truncate_text,
    web_search_tool, FetchGate, SearchFailure, SearchPlan,
    SearchProvider, WebSearchConfig, WebSearchPlugin, WebSearchTool,
};

fn web_call(name: &str, arguments: &str) -> ToolCall {
    ToolCall {
        id: "call-4".to_string(),
        name: name.to_string(),
        arguments: serde_json::from_str(arguments).unwrap(),
        context: None,
    }
}

#[test]
fn test_config_default() {
    let config = WebSearchConfig::default();
    assert_eq!(config.provider, SearchProvider::Tavily);
    assert_eq!(config.tavily_api_key, None);
    assert_eq!(config.brave_api_key, None);
    assert!(config.allowed_domains.is_empty());
}

#[test]
fn test_config_from_none_returns_default() {
    let config = WebSearchConfig::default();
    assert_eq!(config.provider, SearchProvider::Tavily);
    assert_eq!(config.tavily_api_key, None);
    assert_eq!(config.brave_api_key, None);
}

#[test]
fn test_config_migration_from_old_api_key() {
    let old_format = WebSearchConfig {
        provider: SearchProvider::Tavily,
        tavily_api_key: None,
        brave_api_key: None,
        api_key: Some("tvly-old-key".to_string()),
        allowed_domains: vec![],
    };
    let config = old_format.migrate_legacy_key();
    assert_eq!(config.tavily_api_key, Some("tvly-old-key".to_string()));
    assert_eq!(config.brave_api_key, None);

    let old_format_brave = WebSearchConfig {
        provider: SearchProvider::Brave,
        tavily_api_key: None,
        brave_api_key: None,
        api_key: Some("BSA-old-key".to_string()),
        allowed_domains: vec![],
    };
    let config = old_format_brave.migrate_legacy_key();
    assert_eq!(config.brave_api_key, Some("BSA-old-key".to_string()));
    assert_eq!(config.tavily_api_key, None);
}

#[test]
fn legacy_key_does_not_replace_a_set_key() {
    let config = WebSearchConfig {
        provider: SearchProvider::Tavily,
        tavily_api_key: Some("new".to_string()),
        brave_api_key: None,
        api_key: Some("old".to_string()),
        allowed_domains: vec!["a.com".to_string()],
    }
    .migrate_legacy_key();
    assert_eq!(config.tavily_api_key, Some("new".to_string()));
    assert_eq!(config.api_key, None);
    assert_eq!(config.allowed_domains, vec!["a.com".to_string()]);
}

#[test]
fn empty_legacy_key_is_dropped() {
    let config = WebSearchConfig {
        provider: SearchProvider::Brave,
        tavily_api_key: None,
        brave_api_key: None,
        api_key: Some(String::new()),
        allowed_domains: vec![],
    }
    .migrate_legacy_key();
    assert_eq!(config.brave_api_key, None);
    assert_eq!(config.api_key, None);
}

#[test]
fn web_search_test_plugin_metadata() {
    let plugin = WebSearchPlugin::new();
    assert_eq!(plugin.name(), "web_search");
    assert_eq!(plugin.description(), "Web検索を行う");
    assert_eq!(plugin.tools().len(), 2);
    assert_eq!(plugin.tools()[0].name, "search");
    assert_eq!(plugin.tools()[1].name, "fetch_page");
}

#[test]
fn tool_schemas_parse_to_json_objects() {
    let tools = WebSearchPlugin::new().tools();
    assert_eq!(tools[0].parameters["properties"]["query"]["type"], "string");
    assert_eq!(tools[0].parameters["required"][0], "query");
    assert_eq!(tools[1].parameters["properties"]["url"]["description"], "取得するWebページのURL");
    assert_eq!(tools[1].description, "指定URLのWebページ本文を取得する");
}

#[test]
fn test_domain_matching_exact() {
    let domains = vec!["example.com".to_string()];
    assert!(WebSearchPlugin::is_domain_allowed("example.com", &domains));
    assert!(!WebSearchPlugin::is_domain_allowed("other.com", &domains));
}

#[test]
fn test_domain_matching_subdomain() {
    let domains = vec!["example.com".to_string()];
    assert!(WebSearchPlugin::is_domain_allowed("sub.example.com", &domains));
    assert!(WebSearchPlugin::is_domain_allowed("deep.sub.example.com", &domains));
    assert!(!WebSearchPlugin::is_domain_allowed("notexample.com", &domains));
}

#[test]
fn test_domain_matching_empty_list() {
    let domains: Vec<String> = vec![];
    assert!(!WebSearchPlugin::is_domain_allowed("example.com", &domains));
}

#[test]
fn test_extract_text_from_html_basic() {
    let html = "<html><head><title>Test</title></head><body><p>Hello World</p></body></html>";
    let text = WebSearchPlugin::extract_text_from_html(html);
    assert!(text.contains("Hello World"));
    assert!(!text.contains("<p>"));
}

#[test]
fn test_extract_text_removes_script_and_style() {
    let html = r#"<html><head><style>body{color:red}</style></head>
            <body><script>alert('x')</script><p>Content</p></body></html>"#;
    let text = WebSearchPlugin::extract_text_from_html(html);
    assert!(text.contains("Content"));
    assert!(!text.contains("alert"));
    assert!(!text.contains("color:red"));
}

#[test]
fn test_extract_text_collapses_whitespace() {
    let html = "<p>Hello</p>   \n\n   <p>World</p>";
    let text = WebSearchPlugin::extract_text_from_html(html);
    assert!(!text.contains("  "));
    assert!(text.contains("Hello"));
    assert!(text.contains("World"));
}

#[test]
fn extract_text_decodes_entities_exactly() {
    let text = WebSearchPlugin::extract_text_from_html("<b>a &amp; b</b> &lt;c&gt; &quot;d&quot; &#39;e&#39;&nbsp;f");
    assert_eq!(text, "a & b <c> \"d\" 'e' f");
}

#[test]
fn test_fetch_page_invalid_url() {
    let domains = vec!["example.com".to_string()];
    match fetch_page_gate("not-a-valid-url", &domains) {
        Err(AppError::Plugin(m)) => assert!(m.starts_with("無効なURL: ")),
        _ => panic!("an unparsable URL is an error"),
    }
}

#[test]
fn url_without_host_is_an_error() {
    match fetch_page_gate("data:text/plain,hello", &[]) {
        Err(AppError::Plugin(m)) => assert_eq!(m, "URLにホスト名がない"),
        _ => panic!("a URL without host is an error"),
    }
}

#[test]
fn test_fetch_page_empty_allowed_domains_blocks() {
    match fetch_page_gate("https://example.com/page", &[]) {
        Ok(FetchGate::Blocked { host }) => assert_eq!(host, "example.com"),
        _ => panic!("an empty allow-list blocks"),
    }
}

#[test]
fn test_fetch_page_domain_not_in_whitelist_blocks() {
    let domains = vec!["allowed.com".to_string()];
    match fetch_page_gate("https://blocked.com/page", &domains) {
        Ok(FetchGate::Blocked { host }) => assert_eq!(host, "blocked.com"),
        _ => panic!("a host off the list is blocked"),
    }
}

#[test]
fn test_fetch_page_allowed_domain_attempts_fetch() {
    let domains = vec!["example.com".to_string()];
    match fetch_page_gate("https://example.com", &domains) {
        Ok(FetchGate::Allowed { host }) => assert_eq!(host, "example.com"),
        _ => panic!("a listed host may be fetched"),
    }
}

#[test]
fn test_execute_unknown_tool_name() {
    match web_search_tool("unknown_tool") {
        Err(AppError::Plugin(m)) => assert_eq!(m, "不明なツール名: unknown_tool"),
        _ => panic!("unknown tool"),
    }
    assert_eq!(web_search_tool("search").unwrap(), WebSearchTool::Search);
    assert_eq!(web_search_tool("fetch_page").unwrap(), WebSearchTool::FetchPage);
}

#[test]
fn test_execute_missing_query() {
    match WebSearchPlugin::new().query_arg(&web_call("search", "{}")) {
        Err(AppError::Plugin(m)) => assert_eq!(m, "'query' パラメータが必要"),
        _ => panic!("missing query"),
    }
    assert_eq!(WebSearchPlugin::new().query_arg(&web_call("search", r#"{"query":"q"}"#)).unwrap(), "q");
}

#[test]
fn test_execute_with_japanese_query_no_key() {
    let plugin = WebSearchPlugin::new();
    let call = web_call("search", r#"{"query":"人工知能"}"#);
    assert_eq!(plugin.query_arg(&call).unwrap(), "人工知能");
    assert!(matches!(plan_search(&WebSearchConfig::default()), SearchPlan::NeedsKey));
    let result = plugin.guidance_result(&call.id);
    assert!(!result.is_error);
    assert!(result.content.contains("APIキーを設定してください"));
}

#[test]
fn test_fetch_page_missing_url_param() {
    let call = web_call("fetch_page", "{}");
    assert_eq!(web_search_tool(&call.name).unwrap(), WebSearchTool::FetchPage);
    match WebSearchPlugin::new().url_arg(&call) {
        Err(AppError::Plugin(m)) => assert_eq!(m, "'url' パラメータが必要"),
        _ => panic!("missing url"),
    }
    let call = web_call("fetch_page", r#"{"url":"https://example.com"}"#);
    assert_eq!(WebSearchPlugin::new().url_arg(&call).unwrap(), "https://example.com");
}

#[test]
fn test_execute_no_api_key_returns_guidance() {
    let plan = plan_search(&WebSearchConfig::default());
    assert!(matches!(plan, SearchPlan::NeedsKey));
    let result = WebSearchPlugin::new().guidance_result("call-1");
    assert!(!result.is_error);
    assert_eq!(result.tool_call_id, "call-1");
    assert!(result.content.contains("APIキーを設定してください"));
    assert!(result.content.contains("Tavily"));
    let parsed: serde_json::Value = serde_json::from_str(&result.content).unwrap();
    assert!(parsed["note"].as_str().unwrap().starts_with("Web検索を利用するには"));
}

#[test]
fn test_execute_with_empty_api_key_returns_guidance() {
    let mut config = WebSearchConfig::default();
    config.tavily_api_key = Some(String::new());
    assert!(matches!(plan_search(&config), SearchPlan::NeedsKey));
}

#[test]
fn search_with_key_queries_the_configured_provider() {
    let mut config = WebSearchConfig::default();
    config.provider = SearchProvider::Brave;
    config.tavily_api_key = Some("t".to_string());
    config.brave_api_key = Some("b".to_string());
    match plan_search(&config) {
        SearchPlan::Query { provider, api_key } => {
            assert_eq!(provider, SearchProvider::Brave);
            assert_eq!(api_key, "b");
        }
        SearchPlan::NeedsKey => panic!("a key is set"),
    }
    assert_eq!(config.active_api_key(), Some("b"));
}

#[test]
fn test_execute_with_tavily_key_calls_api() {
    let failed = WebSearchPlugin::new()
        .search_result("call-2", Err(AppError::Network("Tavily API returned status 401: x".to_string())));
    assert_eq!(failed.tool_call_id, "call-2");
    assert!(failed.is_error);
    assert_eq!(failed.content, "検索エラー: Network error: Tavily API returned status 401: x");
    let ok = WebSearchPlugin::new().search_result("call-3", Ok("results".to_string()));
    assert!(!ok.is_error);
    assert_eq!(ok.content, "results");
}

#[test]
fn truncation_keeps_whole_characters() {
    let (t, cut) = truncate_text("abcdef", 4);
    assert_eq!(t, "abcd");
    assert!(cut);
    let (t, cut) = truncate_text("あいう", 4);
    assert_eq!(t, "あ");
    assert!(cut);
    let (t, cut) = truncate_text("short", 8000);
    assert_eq!(t, "short");
    assert!(!cut);
}

#[test]
fn fetch_answers_are_json_for_the_model() {
    let blocked = kokoro_chat::plugin::web_search::fetch_page_blocked_result("f1", "evil.example");
    assert!(!blocked.is_error);
    assert_eq!(blocked.tool_call_id, "f1");
    let v: serde_json::Value = serde_json::from_str(&blocked.content).unwrap();
    assert_eq!(v["blocked_domain"], "evil.example");
    assert!(v["error"].as_str().unwrap().contains("ホワイトリスト"));
    assert!(blocked.content.contains('\n'));

    let page = kokoro_chat::plugin::web_search::fetch_page_result("f2", "https://example.com", "hello");
    let v: serde_json::Value = serde_json::from_str(&page.content).unwrap();
    assert_eq!(v["url"], "https://example.com");
    assert_eq!(v["content"], "hello");
    assert_eq!(v["truncated"], false);

    let long = "あ".repeat(3000);
    let page = kokoro_chat::plugin::web_search::fetch_page_result("f3", "https://example.com", &long);
    let v: serde_json::Value = serde_json::from_str(&page.content).unwrap();
    assert_eq!(v["truncated"], true);
    assert_eq!(v["content"].as_str().unwrap().len(), 7998);

    let page = kokoro_chat::plugin::web_search::page_result_from_html(
        "f5",
        "https://example.com",
        "<html><style>p{}</style><p>Tom &amp; Jerry</p>\n<script>x()</script><b>ok</b></html>",
    );
    assert!(!page.is_error);
    assert_eq!(page.tool_call_id, "f5");
    let v: serde_json::Value = serde_json::from_str(&page.content).unwrap();
    assert_eq!(v["content"], "Tom & Jerry ok");
    assert_eq!(v["truncated"], false);

    let failed = kokoro_chat::plugin::web_search::fetch_failure_result(
        "f4",
        kokoro_chat::plugin::web_search::FetchFailure::Status,
        "404 Not Found",
    );
    assert!(failed.is_error);
    assert_eq!(failed.content, "ページ取得エラー: HTTP 404 Not Found");
}

#[test]
fn search_results_are_reduced_to_title_url_and_summary() {
    let tavily: serde_json::Value = serde_json::from_str(
        r#"{"results":[{"title":"T","url":"https://a","content":"C","score":1},{"url":"https://b"}]}"#,
    )
    .unwrap();
    let text = search_results_text(SearchProvider::Tavily, "q", &tavily).unwrap();
    let v: serde_json::Value = serde_json::from_str(&text).unwrap();
    assert_eq!(v["query"], "q");
    assert_eq!(v["results"][0]["title"], "T");
    assert_eq!(v["results"][0]["content"], "C");
    assert!(v["results"][0].get("score").is_none());
    assert_eq!(v["results"][1]["title"], "");
    let brave: serde_json::Value =
        serde_json::from_str(r#"{"web":{"results":[{"title":"B","url":"u","description":"D"}]}}"#).unwrap();
    let v: serde_json::Value =
        serde_json::from_str(&search_results_text(SearchProvider::Brave, "q", &brave).unwrap()).unwrap();
    assert_eq!(v["results"][0]["content"], "D");
    let none: serde_json::Value = serde_json::from_str("{}").unwrap();
    let v: serde_json::Value =
        serde_json::from_str(&search_results_text(SearchProvider::Brave, "q", &none).unwrap()).unwrap();
    assert_eq!(v["results"], serde_json::Value::Array(vec![]));
    assert_eq!(
        search_failure(SearchProvider::Brave, SearchFailure::Parse, "x"),
        AppError::Serialization("Failed to parse Brave response: x".to_string())
    );
}
