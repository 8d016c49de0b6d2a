//! The web search plugin: its settings, the domain allow-list of page fetching, and the
//! extraction of readable text from HTML.
use vstd::prelude::*;
use vstd::string::StringSliceAdditionalSpecFns;
use crate::error::AppError;
use crate::error::json_error_text;
use crate::json::{
    array_items, array_value, bool_value, display_json, field_value, json_array, json_bool_value,
    json_display_text, json_field, json_items, json_object, json_string_at, json_string_value,
    json_u64_value, object_value, pretty_json, pretty_json_text, string_field, string_value,
    u64_value,
};
use crate::models::plugin::{is_tool, make_tool, ToolCall, ToolDefinition, ToolResult};
use crate::text::{
    concat2, ends_with_text, is_prefix, is_suffix, opt_text, replace_all, replace_str, same_text, trim_whitespace,
    trimmed,
};

verus! {

/// Web search provider.
#[derive(Debug, Clone, Copy, PartialEq, Eq, Structural)]
pub enum SearchProvider {
    Tavily,
    Brave,
}

impl Default for SearchProvider {
    /// Tavily.
    fn default() -> (p: Self)
        ensures
            p == SearchProvider::Tavily,
    {
        SearchProvider::Tavily
    }
}

/// Settings of the web search plugin.
#[derive(Debug, Clone)]
pub struct WebSearchConfig {
    pub provider: SearchProvider,
    /// API key of Tavily.
    pub tavily_api_key: Option<String>,
    /// API key of Brave Search.
    pub brave_api_key: Option<String>,
    /// Key of the older single-key format: read when loading settings, never kept.
    pub api_key: Option<String>,
    /// Domains whose pages the fetch tool may read (sub-domains included).
    pub allowed_domains: Vec<String>,
}

impl Default for WebSearchConfig {
    /// Tavily, no keys, no allowed domains.
    fn default() -> (c: Self)
        ensures
            c.provider == SearchProvider::Tavily,
            c.tavily_api_key is None,
            c.brave_api_key is None,
            c.api_key is None,
            c.allowed_domains@.len() == 0,
    {
        WebSearchConfig {
            provider: SearchProvider::Tavily,
            tavily_api_key: None,
            brave_api_key: None,
            api_key: None,
            allowed_domains: Vec::new(),
        }
    }
}

/// A legacy key moves to the key of the configured provider when that key is unset; the
/// legacy field is always cleared.
pub open spec fn migrated_key(own: Option<String>, legacy: Option<String>) -> Option<Seq<char>> {
    match legacy {
        Some(k) => if k@.len() > 0 && own is None {
            Some(k@)
        } else {
            opt_text(own)
        },
        None => opt_text(own),
    }
}

impl WebSearchConfig {
    /// Moves a key of the older single-key format to the key of the configured provider, when
    /// that key is unset and the old key is not empty. The old key is dropped in any case.
    pub fn migrate_legacy_key(self) -> (c: Self)
        ensures
            c.provider == self.provider,
            c.api_key is None,
            c.allowed_domains@ == self.allowed_domains@,
            opt_text(c.tavily_api_key) == (if self.provider == SearchProvider::Tavily {
                migrated_key(self.tavily_api_key, self.api_key)
            } else {
                opt_text(self.tavily_api_key)
            }),
            opt_text(c.brave_api_key) == (if self.provider == SearchProvider::Brave {
                migrated_key(self.brave_api_key, self.api_key)
            } else {
                opt_text(self.brave_api_key)
            }),
    {
        let WebSearchConfig { provider, tavily_api_key, brave_api_key, api_key, allowed_domains } =
            self;
        let mut tavily = tavily_api_key;
        let mut brave = brave_api_key;
        match api_key {
            Some(old_key) => {
                if !old_key.as_str().is_empty() {
                    match provider {
                        SearchProvider::Tavily => {
                            if tavily.is_none() {
                                tavily = Some(old_key);
                            }
                        },
                        SearchProvider::Brave => {
                            if brave.is_none() {
                                brave = Some(old_key);
                            }
                        },
                    }
                }
            },
            None => {},
        }
        WebSearchConfig {
            provider,
            tavily_api_key: tavily,
            brave_api_key: brave,
            api_key: None,
            allowed_domains,
        }
    }

    /// The API key of the configured provider.
    pub fn active_api_key(&self) -> (k: Option<&str>)
        ensures
            match k {
                Some(s) => opt_text(
                    if self.provider == SearchProvider::Tavily {
                        self.tavily_api_key
                    } else {
                        self.brave_api_key
                    },
                ) == Some(s@),
                None => (if self.provider == SearchProvider::Tavily {
                    self.tavily_api_key
                } else {
                    self.brave_api_key
                }) is None,
            },
    {
        match self.provider {
            SearchProvider::Tavily => match &self.tavily_api_key {
                Some(k) => Some(k.as_str()),
                None => None,
            },
            SearchProvider::Brave => match &self.brave_api_key {
                Some(k) => Some(k.as_str()),
                None => None,
            },
        }
    }
}

/// `host` is `domain` or one of its sub-domains.
pub open spec fn host_matches(host: Seq<char>, domain: Seq<char>) -> bool {
    host == domain || is_suffix("."@ + domain, host)
}

/// `host` may be fetched: some allowed domain matches it. An empty list allows nothing.
pub open spec fn domain_allowed(host: Seq<char>, allowed: Seq<String>) -> bool {
    exists|i: int| 0 <= i < allowed.len() && host_matches(host, #[trigger] allowed[i]@)
}

impl WebSearchPlugin {
    /// Whether `host` may be fetched: it equals an allowed domain or ends with `.` followed by one
    /// (so `sub.example.com` matches `example.com`, `notexample.com` does not).
    pub fn is_domain_allowed(host: &str, allowed_domains: &[String]) -> (b: bool)
        ensures
            b == domain_allowed(host@, allowed_domains@),
    {
        if allowed_domains.len() == 0 {
            return false;
        }
        let mut i: usize = 0;
        while i < allowed_domains.len()
            invariant
                i <= allowed_domains.len(),
                forall|j: int| 0 <= j < i ==> !host_matches(host@, #[trigger] allowed_domains@[j]@),
            decreases allowed_domains.len() - i,
        {
            let domain = allowed_domains[i].as_str();
            let dotted = concat2(".", domain);
            if same_text(host, domain) || ends_with_text(host, dotted.as_str()) {
                return true;
            }
            i += 1;
        }
        false
    }
}

/// An empty allow-list blocks every host.
pub proof fn lemma_empty_allow_list_blocks(host: Seq<char>, allowed: Seq<String>)
    requires
        allowed.len() == 0,
    ensures
        !domain_allowed(host, allowed),
{
}

/// A sub-domain of an allowed domain is allowed: `label.domain` passes whenever `domain` is on
/// the list.
pub proof fn lemma_subdomain_allowed(label: Seq<char>, allowed: Seq<String>, i: int)
    requires
        0 <= i < allowed.len(),
    ensures
        domain_allowed(label + "."@ + allowed[i]@, allowed),
{
    let d = allowed[i]@;
    let host = label + "."@ + d;
    assert(host.subrange(host.len() - ("."@ + d).len(), host.len() as int) =~= "."@ + d);
    assert(host_matches(host, allowed[i]@));
}

/// A domain on the list is allowed itself.
pub proof fn lemma_listed_domain_allowed(allowed: Seq<String>, i: int)
    requires
        0 <= i < allowed.len(),
    ensures
        domain_allowed(allowed[i]@, allowed),
{
    assert(host_matches(allowed[i]@, allowed[i]@));
}

/// An allowed host is a listed domain, or ends with one that a `.` precedes: a host that merely
/// ends with the letters of a listed domain (`notexample.com` for `example.com`) is not allowed
/// by it.
pub proof fn lemma_allowed_host_is_domain_or_subdomain(host: Seq<char>, allowed: Seq<String>)
    requires
        domain_allowed(host, allowed),
    ensures
        exists|i: int|
            0 <= i < allowed.len() && ({
                let d = (#[trigger] allowed[i])@;
                ||| host == d
                ||| (host.len() > d.len() && host[host.len() - d.len() - 1] == '.'
                    && host.subrange(host.len() - d.len(), host.len() as int) == d)
            }),
{
    let i = choose|i: int| 0 <= i < allowed.len() && host_matches(host, #[trigger] allowed[i]@);
    let d = allowed[i]@;
    if host != d {
        reveal_strlit(".");
        let p = "."@ + d;
        assert(p.len() == d.len() + 1 && p[0] == '.');
        let k = host.len() - p.len();
        assert(host.subrange(k, host.len() as int) == p);
        assert(host[k] == host.subrange(k, host.len() as int)[0]);
        assert(host.subrange(host.len() - d.len(), host.len() as int) =~= p.subrange(1, p.len() as int));
        assert(p.subrange(1, p.len() as int) =~= d);
    }
}

/// Truncation cuts at the longest character boundary that fits: the cut is within the limit,
/// on a character boundary, and no character boundary lies between the cut and the limit.
pub proof fn lemma_cut_is_longest_fitting_boundary(bytes: Seq<u8>, n: int)
    requires
        vstd::utf8::valid_utf8(bytes),
        n >= 0,
    ensures
        0 <= boundary_at_most(bytes, n) <= n,
        vstd::utf8::is_char_boundary(bytes, boundary_at_most(bytes, n)),
        forall|k: int|
            boundary_at_most(bytes, n) < k <= n ==> !vstd::utf8::is_char_boundary(bytes, k),
    decreases n,
{
    if n > 0 && !vstd::utf8::is_char_boundary(bytes, n) {
        lemma_cut_is_longest_fitting_boundary(bytes, n - 1);
    }
}

/// The text left when the regular expression `pattern` has every match in `text` replaced by
/// `rep`, as `regex::Regex::replace_all` computes it; none when the pattern does not compile.
pub uninterp spec fn regex_replaced(pattern: Seq<char>, text: Seq<char>, rep: Seq<char>) -> Option<
    Seq<char>,
>;

/// Replaces every match of `pattern` in `text` by `rep` (`regex::Regex::new` and
/// `Regex::replace_all`); `None` when the pattern does not compile.
///
/// Trusted: the result is a function of the three texts alone, named `regex_replaced`.
#[verifier::external_body]
fn regex_replace_all(pattern: &str, text: &str, rep: &str) -> (r: Option<String>)
    ensures
        match r {
            Some(t) => regex_replaced(pattern@, text@, rep@) == Some(t@),
            None => regex_replaced(pattern@, text@, rep@) is None,
        },
{
    match regex::Regex::new(pattern) {
        Ok(re) => Some(re.replace_all(text, rep).into_owned()),
        Err(_) => None,
    }
}

/// One regular-expression replacement step; a pattern that does not compile leaves the text.
pub open spec fn regex_step(pattern: Seq<char>, text: Seq<char>, rep: Seq<char>) -> Seq<char> {
    match regex_replaced(pattern, text, rep) {
        Some(t) => t,
        None => text,
    }
}

fn regex_step_exec(pattern: &str, text: &str, rep: &str) -> (r: String)
    ensures
        r@ == regex_step(pattern@, text@, rep@),
{
    match regex_replace_all(pattern, text, rep) {
        Some(t) => t,
        None => String::from_str(text),
    }
}

/// Pattern of script blocks.
pub open spec fn script_pattern() -> Seq<char> {
    "(?is)<script[^>]*>.*?</script>"@
}

/// Pattern of style blocks.
pub open spec fn style_pattern() -> Seq<char> {
    "(?is)<style[^>]*>.*?</style>"@
}

/// Pattern of any tag.
pub open spec fn tag_pattern() -> Seq<char> {
    "<[^>]+>"@
}

/// Pattern of a run of white space.
pub open spec fn space_pattern() -> Seq<char> {
    "\\s+"@
}

/// The basic HTML entities decoded, in this order: `&amp;`, `&lt;`, `&gt;`, `&quot;`, `&#39;`,
/// `&nbsp;`.
pub open spec fn decode_entities(t: Seq<char>) -> Seq<char> {
    let t1 = replace_all(t, "&amp;"@, "&"@);
    let t2 = replace_all(t1, "&lt;"@, "<"@);
    let t3 = replace_all(t2, "&gt;"@, ">"@);
    let t4 = replace_all(t3, "&quot;"@, "\""@);
    let t5 = replace_all(t4, "&#39;"@, "'"@);
    replace_all(t5, "&nbsp;"@, " "@)
}

/// The readable text of an HTML page: script and style blocks removed, every tag replaced by a
/// space, the basic entities decoded, runs of white space made one space, ends trimmed.
pub open spec fn html_text(html: Seq<char>) -> Seq<char> {
    let t1 = regex_step(script_pattern(), html, ""@);
    let t2 = regex_step(style_pattern(), t1, ""@);
    let t3 = regex_step(tag_pattern(), t2, " "@);
    let t4 = decode_entities(t3);
    let t5 = regex_step(space_pattern(), t4, " "@);
    trim_whitespace(t5)
}

impl WebSearchPlugin {
    /// Extracts the readable text of an HTML page.
    pub fn extract_text_from_html(html: &str) -> (t: String)
        ensures
            t@ == html_text(html@),
    {
        let t1 = regex_step_exec("(?is)<script[^>]*>.*?</script>", html, "");
        let t2 = regex_step_exec("(?is)<style[^>]*>.*?</style>", t1.as_str(), "");
        let t3 = regex_step_exec("<[^>]+>", t2.as_str(), " ");
        proof {
            reveal_strlit("&amp;");
            reveal_strlit("&lt;");
            reveal_strlit("&gt;");
            reveal_strlit("&quot;");
            reveal_strlit("&#39;");
            reveal_strlit("&nbsp;");
        }
        let e1 = replace_str(t3.as_str(), "&amp;", "&");
        let e2 = replace_str(e1.as_str(), "&lt;", "<");
        let e3 = replace_str(e2.as_str(), "&gt;", ">");
        let e4 = replace_str(e3.as_str(), "&quot;", "\"");
        let e5 = replace_str(e4.as_str(), "&#39;", "'");
        let e6 = replace_str(e5.as_str(), "&nbsp;", " ");
        let t5 = regex_step_exec("\\s+", e6.as_str(), " ");
        trimmed(t5.as_str())
    }
}

/// Largest number of bytes of page text returned by the fetch tool.
pub const FETCH_PAGE_MAX_CHARS: usize = 8000;

/// The largest character boundary of `bytes` that is at most `n`.
pub open spec fn boundary_at_most(bytes: Seq<u8>, n: int) -> int
    decreases n,
{
    if n <= 0 {
        0
    } else if vstd::utf8::is_char_boundary(bytes, n) {
        n
    } else {
        boundary_at_most(bytes, n - 1)
    }
}

/// Cuts `text` to at most `max_bytes` bytes, at a character boundary; says whether it was cut.
pub fn truncate_text(text: &str, max_bytes: usize) -> (r: (&str, bool))
    ensures
        r.1 == (text.len() > max_bytes),
        r.1 ==> r.0.spec_bytes() == text.spec_bytes().subrange(
            0,
            boundary_at_most(text.spec_bytes(), max_bytes as int),
        ),
        !r.1 ==> r.0 == text,
{
    let truncated = text.len() > max_bytes;
    if !truncated {
        return (text, false);
    }
    let mut end = max_bytes;
    proof {
        broadcast use vstd::utf8::encode_utf8_valid_utf8;
        assert(vstd::utf8::valid_utf8(text.spec_bytes()));
    }
    while !text.is_char_boundary(end) && end > 0
        invariant
            end <= max_bytes,
            boundary_at_most(text.spec_bytes(), max_bytes as int) == boundary_at_most(
                text.spec_bytes(),
                end as int,
            ),
        decreases end,
    {
        end -= 1;
    }
    proof {
        broadcast use vstd::utf8::encode_utf8_valid_utf8;
        assert(vstd::utf8::valid_utf8(text.spec_bytes()));
    }
    let (head, _) = text.split_at(end);
    (head, true)
}

/// The host of a URL as the `url` crate parses it: the host name (none when the URL has no
/// host), or the text of the parse error.
pub uninterp spec fn url_host(url: Seq<char>) -> Result<Option<Seq<char>>, Seq<char>>;

/// Parses a URL (`url::Url::parse`) and gives its host (`Url::host_str`), or the text of the
/// parse error.
///
/// Trusted: the result is a function of the URL text alone, named `url_host`.
#[verifier::external_body]
fn parse_url_host(url: &str) -> (r: Result<Option<String>, String>)
    ensures
        match r {
            Ok(Some(h)) => url_host(url@) == Ok::<Option<Seq<char>>, Seq<char>>(Some(h@)),
            Ok(None) => url_host(url@) == Ok::<Option<Seq<char>>, Seq<char>>(None),
            Err(e) => url_host(url@) == Err::<Option<Seq<char>>, Seq<char>>(e@),
        },
{
    match url::Url::parse(url) {
        Ok(u) => Ok(u.host_str().map(|h| h.to_string())),
        Err(e) => Err(e.to_string()),
    }
}

/// What the fetch tool answers for a host outside the allow-list.
pub const BLOCKED_DOMAIN_MESSAGE: &'static str = "このドメインへのアクセスはホワイトリストで許可されていません。設定画面の「ツール管理」タブで許可ドメインを追加してください。";

/// The answer for a blocked host: `{"error": ..., "blocked_domain": host}`.
pub open spec fn blocked_answer(host: Seq<char>) -> serde_json::Value {
    json_object(
        seq![
            ("error"@, json_string_value(BLOCKED_DOMAIN_MESSAGE@)),
            ("blocked_domain"@, json_string_value(host)),
        ],
    )
}

/// The result of a fetch refused by the allow-list: the blocked answer, shown as JSON, not
/// as an error.
pub fn fetch_page_blocked_result(call_id: &str, host: &str) -> (r: ToolResult)
    ensures
        r.tool_call_id@ == call_id@,
        r.content@ == json_display_text(blocked_answer(host@)),
        !r.is_error,
{
    let mut entries: Vec<(String, serde_json::Value)> = Vec::new();
    entries.push((String::from_str("error"), string_value(BLOCKED_DOMAIN_MESSAGE)));
    entries.push((String::from_str("blocked_domain"), string_value(host)));
    let v = object_value(entries);
    proof {
        assert(entries@.map_values(|e: (String, serde_json::Value)| (e.0@, e.1)) =~= seq![
            ("error"@, json_string_value(BLOCKED_DOMAIN_MESSAGE@)),
            ("blocked_domain"@, json_string_value(host@)),
        ]);
    }
    ToolResult { tool_call_id: String::from_str(call_id), content: display_json(&v), is_error: false }
}

/// The text kept of a page: all of it, or, when its UTF-8 form is longer than the limit, the
/// longest start of it that fits.
pub open spec fn page_content(text: &str) -> Seq<char> {
    if text.len() > FETCH_PAGE_MAX_CHARS {
        vstd::utf8::decode_utf8(
            text.spec_bytes().subrange(
                0,
                boundary_at_most(text.spec_bytes(), FETCH_PAGE_MAX_CHARS as int),
            ),
        )
    } else {
        text@
    }
}

/// The answer for a fetched page: `{"url": url, "content": kept text, "truncated": cut}`.
pub open spec fn page_answer(url: Seq<char>, text: &str) -> serde_json::Value {
    json_object(
        seq![
            ("url"@, json_string_value(url)),
            ("content"@, json_string_value(page_content(text))),
            ("truncated"@, json_bool_value(text.len() > FETCH_PAGE_MAX_CHARS)),
        ],
    )
}

/// The result of a fetched page, from its extracted text: the page answer, shown as JSON.
pub fn fetch_page_result(call_id: &str, url: &str, text: &str) -> (r: ToolResult)
    ensures
        r.tool_call_id@ == call_id@,
        r.content@ == json_display_text(page_answer(url@, text)),
        !r.is_error,
{
    let (content, truncated) = truncate_text(text, FETCH_PAGE_MAX_CHARS);
    proof {
        broadcast use vstd::utf8::encode_utf8_decode_utf8;
        assert(content@ == page_content(text)) by {
            if truncated {
                assert(vstd::utf8::decode_utf8(vstd::utf8::encode_utf8(content@)) == content@);
            }
        }
    }
    let mut entries: Vec<(String, serde_json::Value)> = Vec::new();
    entries.push((String::from_str("url"), string_value(url)));
    entries.push((String::from_str("content"), string_value(content)));
    entries.push((String::from_str("truncated"), bool_value(truncated)));
    let v = object_value(entries);
    proof {
        assert(entries@.map_values(|e: (String, serde_json::Value)| (e.0@, e.1)) =~= seq![
            ("url"@, json_string_value(url@)),
            ("content"@, json_string_value(page_content(text))),
            ("truncated"@, json_bool_value(text.len() > FETCH_PAGE_MAX_CHARS)),
        ]);
    }
    ToolResult { tool_call_id: String::from_str(call_id), content: display_json(&v), is_error: false }
}

/// The result of a fetched page, from its HTML: the text extracted from the HTML, truncated,
/// with the URL, shown as JSON.
pub fn page_result_from_html(call_id: &str, url: &str, html: &str) -> (r: ToolResult)
    ensures
        r.tool_call_id@ == call_id@,
        forall|t: &str|
            t@ == html_text(html@) ==> r.content@ == json_display_text(
                #[trigger] page_answer(url@, t),
            ),
        !r.is_error,
{
    let text = WebSearchPlugin::extract_text_from_html(html);
    fetch_page_result(call_id, url, text.as_str())
}

/// How fetching a page failed.
#[derive(Debug, Clone, Copy, PartialEq, Eq)]
pub enum FetchFailure {
    /// The request could not be sent or answered.
    Request,
    /// The server answered with a status that is not a success.
    Status,
    /// The body could not be read.
    Read,
}

/// The error text of a failed fetch, before what went wrong.
pub open spec fn fetch_failure_prefix(f: FetchFailure) -> Seq<char> {
    match f {
        FetchFailure::Request => "ページ取得エラー: "@,
        FetchFailure::Status => "ページ取得エラー: HTTP "@,
        FetchFailure::Read => "レスポンス読み取りエラー: "@,
    }
}

/// The error result of a failed fetch: the failure's prefix, then `detail` (the error's text,
/// or the status).
pub fn fetch_failure_result(call_id: &str, failure: FetchFailure, detail: &str) -> (r: ToolResult)
    ensures
        r.tool_call_id@ == call_id@,
        r.content@ == fetch_failure_prefix(failure) + detail@,
        r.is_error,
{
    let mut m = match failure {
        FetchFailure::Request => String::from_str("ページ取得エラー: "),
        FetchFailure::Status => String::from_str("ページ取得エラー: HTTP "),
        FetchFailure::Read => String::from_str("レスポンス読み取りエラー: "),
    };
    m.append(detail);
    ToolResult { tool_call_id: String::from_str(call_id), content: m, is_error: true }
}

/// What the fetch tool may do with a URL.
#[derive(Debug, Clone)]
pub enum FetchGate {
    /// The host is not on the allow-list; nothing is fetched.
    Blocked { host: String },
    /// The host is on the allow-list.
    Allowed { host: String },
}

/// Checks a URL before fetching it: an unparsable URL or one without a host is a plugin error;
/// else the host decides, by the allow-list, whether the page may be fetched.
pub fn fetch_page_gate(url: &str, allowed_domains: &[String]) -> (r: Result<FetchGate, AppError>)
    ensures
        match url_host(url@) {
            Err(e) => r matches Err(AppError::Plugin(m)) && m@ == "無効なURL: "@ + e,
            Ok(None) => r matches Err(AppError::Plugin(m)) && m@ == "URLにホスト名がない"@,
            Ok(Some(h)) => match r {
                Ok(FetchGate::Allowed { host }) => host@ == h && domain_allowed(h, allowed_domains@),
                Ok(FetchGate::Blocked { host }) => host@ == h && !domain_allowed(
                    h,
                    allowed_domains@,
                ),
                Err(_) => false,
            },
        },
{
    match parse_url_host(url) {
        Err(e) => Err(AppError::Plugin(concat2("無効なURL: ", e.as_str()))),
        Ok(None) => Err(AppError::Plugin(String::from_str("URLにホスト名がない"))),
        Ok(Some(host)) => {
            if WebSearchPlugin::is_domain_allowed(host.as_str(), allowed_domains) {
                Ok(FetchGate::Allowed { host })
            } else {
                Ok(FetchGate::Blocked { host })
            }
        },
    }
}

/// The tools of the web search plugin.
#[derive(Debug, Clone, Copy, PartialEq, Eq, Structural)]
pub enum WebSearchTool {
    Search,
    FetchPage,
}

/// Which tool a call names: `search` or `fetch_page`; any other name is a plugin error.
pub fn web_search_tool(name: &str) -> (r: Result<WebSearchTool, AppError>)
    ensures
        name@ == "fetch_page"@ ==> r == Ok::<WebSearchTool, AppError>(WebSearchTool::FetchPage),
        name@ == "search"@ ==> r == Ok::<WebSearchTool, AppError>(WebSearchTool::Search),
        name@ != "fetch_page"@ && name@ != "search"@ ==> (r matches Err(AppError::Plugin(m))
            && m@ == "不明なツール名: "@ + name@),
{
    proof {
        reveal_strlit("fetch_page");
        reveal_strlit("search");
        assert("fetch_page"@.len() != "search"@.len());
    }
    if same_text(name, "fetch_page") {
        Ok(WebSearchTool::FetchPage)
    } else if same_text(name, "search") {
        Ok(WebSearchTool::Search)
    } else {
        Err(AppError::Plugin(concat2("不明なツール名: ", name)))
    }
}

/// How a search is carried out.
#[derive(Debug, Clone)]
pub enum SearchPlan {
    /// No key for the configured provider: the user is told how to set one.
    NeedsKey,
    /// Query the provider with its key.
    Query { provider: SearchProvider, api_key: String },
}

/// Plans a search: without a non-empty key for the configured provider the user gets the
/// guidance to set one; else the provider is queried with it.
pub fn plan_search(config: &WebSearchConfig) -> (p: SearchPlan)
    ensures
        ({
            let key = if config.provider == SearchProvider::Tavily {
                config.tavily_api_key
            } else {
                config.brave_api_key
            };
            match p {
                SearchPlan::NeedsKey => key is None || key->0@.len() == 0,
                SearchPlan::Query { provider, api_key } => provider == config.provider && key
                    is Some && key->0@ == api_key@ && api_key@.len() > 0,
            }
        }),
{
    match config.active_api_key() {
        Some(k) => {
            if k.is_empty() {
                SearchPlan::NeedsKey
            } else {
                SearchPlan::Query { provider: config.provider, api_key: String::from_str(k) }
            }
        },
        None => SearchPlan::NeedsKey,
    }
}

/// The description of the `search` tool.
pub const SEARCH_DESCRIPTION: &'static str = "キーワードでWeb検索する";

/// The JSON schema of the `search` tool's parameters.
pub const SEARCH_SCHEMA: &'static str = "{\"type\":\"object\",\"properties\":{\"query\":{\"type\":\"string\",\"description\":\"検索キーワード\"}},\"required\":[\"query\"]}";

/// The description of the `fetch_page` tool.
pub const FETCH_PAGE_DESCRIPTION: &'static str = "指定URLのWebページ本文を取得する";

/// The JSON schema of the `fetch_page` tool's parameters.
pub const FETCH_PAGE_SCHEMA: &'static str = "{\"type\":\"object\",\"properties\":{\"url\":{\"type\":\"string\",\"description\":\"取得するWebページのURL\"}},\"required\":[\"url\"]}";

/// The web search plugin; the caller reads its settings and makes the HTTP requests.
#[derive(Debug, Clone, Copy)]
pub struct WebSearchPlugin;

/// What a search without a key answers: guidance, as pretty-printed JSON, on where to set one.
pub open spec fn search_guidance() -> Seq<char> {
    "{\n  \"note\": \"Web検索を利用するには、設定画面の「ツール管理」タブからAPIキーを設定してください。Tavily (https://tavily.com) またはBrave Search API (https://brave.com/search/api/) のキーが必要です。\"\n}"@
}

impl WebSearchPlugin {
    /// The plugin.
    pub fn new() -> (p: Self) {
        WebSearchPlugin
    }

    /// The plugin's name.
    pub fn name(&self) -> (s: &'static str)
        ensures
            s@ == "web_search"@,
    {
        "web_search"
    }

    /// The plugin's description.
    pub fn description(&self) -> (s: &'static str)
        ensures
            s@ == "Web検索を行う"@,
    {
        "Web検索を行う"
    }

    /// The plugin's tools, `search` and `fetch_page`.
    pub fn tools(&self) -> (tools: Vec<ToolDefinition>)
        ensures
            tools@.len() == 2,
            is_tool(tools@[0], "search"@, SEARCH_DESCRIPTION@, SEARCH_SCHEMA@),
            is_tool(tools@[1], "fetch_page"@, FETCH_PAGE_DESCRIPTION@, FETCH_PAGE_SCHEMA@),
    {
        let mut tools: Vec<ToolDefinition> = Vec::new();
        tools.push(make_tool("search", SEARCH_DESCRIPTION, SEARCH_SCHEMA));
        tools.push(make_tool("fetch_page", FETCH_PAGE_DESCRIPTION, FETCH_PAGE_SCHEMA));
        tools
    }

    /// The `query` argument of a `search` call; a missing one is an error.
    pub fn query_arg(&self, call: &ToolCall) -> (r: Result<String, AppError>)
        ensures
            match json_string_at(call.arguments, "query"@) {
                Some(q) => r matches Ok(s) && s@ == q,
                None => r matches Err(AppError::Plugin(m)) && m@ == "'query' パラメータが必要"@,
            },
    {
        match string_field(&call.arguments, "query") {
            Some(q) => Ok(q),
            None => Err(AppError::Plugin(String::from_str("'query' パラメータが必要"))),
        }
    }

    /// The `url` argument of a `fetch_page` call; a missing one is an error.
    pub fn url_arg(&self, call: &ToolCall) -> (r: Result<String, AppError>)
        ensures
            match json_string_at(call.arguments, "url"@) {
                Some(u) => r matches Ok(s) && s@ == u,
                None => r matches Err(AppError::Plugin(m)) && m@ == "'url' パラメータが必要"@,
            },
    {
        match string_field(&call.arguments, "url") {
            Some(u) => Ok(u),
            None => Err(AppError::Plugin(String::from_str("'url' パラメータが必要"))),
        }
    }

    /// The answer to a search without a key: the guidance, not as an error.
    pub fn guidance_result(&self, call_id: &str) -> (r: ToolResult)
        ensures
            r.tool_call_id@ == call_id@,
            r.content@ == search_guidance(),
            !r.is_error,
    {
        ToolResult {
            tool_call_id: String::from_str(call_id),
            content: String::from_str(
                "{\n  \"note\": \"Web検索を利用するには、設定画面の「ツール管理」タブからAPIキーを設定してください。Tavily (https://tavily.com) またはBrave Search API (https://brave.com/search/api/) のキーが必要です。\"\n}",
            ),
            is_error: false,
        }
    }

    /// The answer to a search that was sent: the provider's results, or the error's text after
    /// `検索エラー: ` as an error result.
    pub fn search_result(&self, call_id: &str, outcome: Result<String, AppError>) -> (r: ToolResult)
        ensures
            r.tool_call_id@ == call_id@,
            match outcome {
                Ok(c) => r.content@ == c@ && !r.is_error,
                Err(e) => r.content@ == "検索エラー: "@ + e.label() + e.message() && r.is_error,
            },
    {
        match outcome {
            Ok(c) => ToolResult { tool_call_id: String::from_str(call_id), content: c, is_error: false },
            Err(e) => {
                let mut m = String::from_str("検索エラー: ");
                let t = e.to_string();
                m.append(t.as_str());
                ToolResult { tool_call_id: String::from_str(call_id), content: m, is_error: true }
            },
        }
    }
}

/// The request body of a Tavily search: key, query, basic depth, no answer, five results.
pub open spec fn tavily_request(api_key: Seq<char>, query: Seq<char>) -> serde_json::Value {
    json_object(
        seq![
            ("api_key"@, json_string_value(api_key)),
            ("query"@, json_string_value(query)),
            ("search_depth"@, json_string_value("basic"@)),
            ("include_answer"@, json_bool_value(false)),
            ("max_results"@, json_u64_value(5)),
        ],
    )
}

/// The request body of a Tavily search.
pub fn tavily_request_body(api_key: &str, query: &str) -> (v: serde_json::Value)
    ensures
        v == tavily_request(api_key@, query@),
{
    let mut entries: Vec<(String, serde_json::Value)> = Vec::new();
    entries.push((String::from_str("api_key"), string_value(api_key)));
    entries.push((String::from_str("query"), string_value(query)));
    entries.push((String::from_str("search_depth"), string_value("basic")));
    entries.push((String::from_str("include_answer"), bool_value(false)));
    entries.push((String::from_str("max_results"), u64_value(5)));
    proof {
        assert(entries@.map_values(|e: (String, serde_json::Value)| (e.0@, e.1)) =~= seq![
            ("api_key"@, json_string_value(api_key@)),
            ("query"@, json_string_value(query@)),
            ("search_depth"@, json_string_value("basic"@)),
            ("include_answer"@, json_bool_value(false)),
            ("max_results"@, json_u64_value(5)),
        ]);
    }
    object_value(entries)
}

/// The text under `key` of a result item, or the empty text.
pub open spec fn item_text(item: serde_json::Value, key: Seq<char>) -> Seq<char> {
    match json_string_at(item, key) {
        Some(t) => t,
        None => Seq::empty(),
    }
}

/// The key under which a provider gives a result's summary.
pub open spec fn summary_key(provider: SearchProvider) -> Seq<char> {
    match provider {
        SearchProvider::Tavily => "content"@,
        SearchProvider::Brave => "description"@,
    }
}

/// Where a provider's response lists its results: `results` for Tavily, `web.results` for
/// Brave.
pub open spec fn result_list(provider: SearchProvider, response: serde_json::Value) -> Option<
    serde_json::Value,
> {
    match provider {
        SearchProvider::Tavily => json_field(response, "results"@),
        SearchProvider::Brave => match json_field(response, "web"@) {
            Some(w) => json_field(w, "results"@),
            None => None,
        },
    }
}

/// The result items of a response; none when it holds no such array.
pub open spec fn result_items(provider: SearchProvider, response: serde_json::Value) -> Seq<
    serde_json::Value,
> {
    match result_list(provider, response) {
        Some(l) => match json_items(l) {
            Some(items) => items,
            None => Seq::empty(),
        },
        None => Seq::empty(),
    }
}

/// One result as the tool shows it: `{"title", "url", "content"}`, missing texts empty.
pub open spec fn result_entry(provider: SearchProvider, item: serde_json::Value) -> serde_json::Value {
    json_object(
        seq![
            ("title"@, json_string_value(item_text(item, "title"@))),
            ("url"@, json_string_value(item_text(item, "url"@))),
            ("content"@, json_string_value(item_text(item, summary_key(provider)))),
        ],
    )
}

/// What a search shows: `{"query": query, "results": [entries]}`.
pub open spec fn search_output(provider: SearchProvider, query: Seq<char>, response: serde_json::Value) -> serde_json::Value {
    json_object(
        seq![
            ("query"@, json_string_value(query)),
            (
                "results"@,
                json_array(
                    result_items(provider, response).map_values(
                        |it: serde_json::Value| result_entry(provider, it),
                    ),
                ),
            ),
        ],
    )
}

/// The text a provider item gives under `key`, as the tool shows it: the string there, or
/// the empty text when there is none.
pub open spec fn shown_text(item: serde_json::Value, key: Seq<char>, shown: Seq<char>) -> bool {
    match json_string_at(item, key) {
        Some(t) => shown == t,
        None => shown == Seq::<char>::empty(),
    }
}

/// Each result is shown with the item's own title, URL and summary: its `title` and `url`
/// strings, and its `content` (Tavily) or `description` (Brave) string, each empty when the
/// item has none.
pub proof fn lemma_result_entry_fields(
    provider: SearchProvider,
    item: serde_json::Value,
    title: Seq<char>,
    url: Seq<char>,
    summary: Seq<char>,
)
    requires
        shown_text(item, "title"@, title),
        shown_text(item, "url"@, url),
        shown_text(
            item,
            match provider {
                SearchProvider::Tavily => "content"@,
                SearchProvider::Brave => "description"@,
            },
            summary,
        ),
    ensures
        result_entry(provider, item) == json_object(
            seq![
                ("title"@, json_string_value(title)),
                ("url"@, json_string_value(url)),
                ("content"@, json_string_value(summary)),
            ],
        ),
{
}

/// A search shows, in the provider's order, one entry for each result item of the response,
/// under the query.
pub proof fn lemma_search_output_entries(
    provider: SearchProvider,
    query: Seq<char>,
    response: serde_json::Value,
)
    ensures
        search_output(provider, query, response) == json_object(
            seq![
                ("query"@, json_string_value(query)),
                (
                    "results"@,
                    json_array(
                        Seq::new(
                            result_items(provider, response).len(),
                            |i: int| result_entry(provider, result_items(provider, response)[i]),
                        ),
                    ),
                ),
            ],
        ),
{
    assert(result_items(provider, response).map_values(
        |it: serde_json::Value| result_entry(provider, it),
    ) =~= Seq::new(
        result_items(provider, response).len(),
        |i: int| result_entry(provider, result_items(provider, response)[i]),
    ));
}

fn text_or_empty(item: &serde_json::Value, key: &str) -> (t: String)
    ensures
        t@ == item_text(*item, key@),
{
    match string_field(item, key) {
        Some(t) => t,
        None => String::new(),
    }
}

fn result_entry_value(provider: SearchProvider, item: &serde_json::Value) -> (v: serde_json::Value)
    ensures
        v == result_entry(provider, *item),
{
    let key = match provider {
        SearchProvider::Tavily => "content",
        SearchProvider::Brave => "description",
    };
    proof {
        assert(key@ == summary_key(provider));
    }
    let title = text_or_empty(item, "title");
    let url = text_or_empty(item, "url");
    let content = text_or_empty(item, key);
    let mut entries: Vec<(String, serde_json::Value)> = Vec::new();
    entries.push((String::from_str("title"), string_value(title.as_str())));
    entries.push((String::from_str("url"), string_value(url.as_str())));
    entries.push((String::from_str("content"), string_value(content.as_str())));
    proof {
        assert(entries@.map_values(|e: (String, serde_json::Value)| (e.0@, e.1)) =~= seq![
            ("title"@, json_string_value(item_text(*item, "title"@))),
            ("url"@, json_string_value(item_text(*item, "url"@))),
            ("content"@, json_string_value(item_text(*item, summary_key(provider)))),
        ]);
    }
    object_value(entries)
}

fn result_items_of(provider: SearchProvider, response: &serde_json::Value) -> (items: Vec<serde_json::Value>)
    ensures
        items@ == result_items(provider, *response),
{
    let list = match provider {
        SearchProvider::Tavily => field_value(response, "results"),
        SearchProvider::Brave => match field_value(response, "web") {
            Some(w) => field_value(&w, "results"),
            None => None,
        },
    };
    match list {
        Some(l) => match array_items(&l) {
            Some(items) => items,
            None => Vec::new(),
        },
        None => Vec::new(),
    }
}

/// What a search shows, as pretty-printed JSON (see `search_output`); a value that cannot
/// be printed is a serialisation error.
pub fn search_results_text(provider: SearchProvider, query: &str, response: &serde_json::Value) -> (r: Result<String, AppError>)
    ensures
        match pretty_json_text(search_output(provider, query@, *response)) {
            Some(t) => r matches Ok(s) && s@ == t,
            None => r matches Err(AppError::Serialization(m)) && is_prefix(
                "Failed to serialize results: "@,
                m@,
            ),
        },
{
    let items = result_items_of(provider, response);
    let mut entries: Vec<serde_json::Value> = Vec::new();
    let mut i: usize = 0;
    while i < items.len()
        invariant
            i <= items.len(),
            entries@ == items@.subrange(0, i as int).map_values(
                |it: serde_json::Value| result_entry(provider, it),
            ),
        decreases items.len() - i,
    {
        entries.push(result_entry_value(provider, &items[i]));
        assert(entries@ =~= items@.subrange(0, i + 1).map_values(
            |it: serde_json::Value| result_entry(provider, it),
        ));
        i += 1;
    }
    assert(items@.subrange(0, items.len() as int) =~= items@);
    let results = array_value(entries);
    let mut top: Vec<(String, serde_json::Value)> = Vec::new();
    top.push((String::from_str("query"), string_value(query)));
    top.push((String::from_str("results"), results));
    proof {
        assert(top@.map_values(|e: (String, serde_json::Value)| (e.0@, e.1)) =~= seq![
            ("query"@, json_string_value(query@)),
            (
                "results"@,
                json_array(
                    result_items(provider, *response).map_values(
                        |it: serde_json::Value| result_entry(provider, it),
                    ),
                ),
            ),
        ]);
    }
    let output = object_value(top);
    match pretty_json(&output) {
        Ok(t) => Ok(t),
        Err(e) => {
            let mut m = String::from_str("Failed to serialize results: ");
            let d = json_error_text(&e);
            m.append(d.as_str());
            proof {
                reveal_strlit("Failed to serialize results: ");
                assert(m@.subrange(0, "Failed to serialize results: "@.len() as int) =~= "Failed to serialize results: "@);
            }
            Err(AppError::Serialization(m))
        },
    }
}

/// How a call to a search provider failed before its results could be read.
#[derive(Debug, Clone, Copy, PartialEq, Eq)]
pub enum SearchFailure {
    /// The request could not be sent or answered.
    Request,
    /// The answer could not be parsed as JSON.
    Parse,
}

/// The name a provider goes by in request errors.
pub open spec fn provider_api_name(provider: SearchProvider) -> Seq<char> {
    match provider {
        SearchProvider::Tavily => "Tavily"@,
        SearchProvider::Brave => "Brave Search"@,
    }
}

/// The name a provider goes by in parse errors.
pub open spec fn provider_short_name(provider: SearchProvider) -> Seq<char> {
    match provider {
        SearchProvider::Tavily => "Tavily"@,
        SearchProvider::Brave => "Brave"@,
    }
}

/// The error of a failed call to a provider: `{API name} API request failed: {detail}` as a
/// network error, or `Failed to parse {name} response: {detail}` as a serialisation error.
pub fn search_failure(provider: SearchProvider, failure: SearchFailure, detail: &str) -> (e: AppError)
    ensures
        match failure {
            SearchFailure::Request => e matches AppError::Network(m) && m@ == provider_api_name(
                provider,
            ) + " API request failed: "@ + detail@,
            SearchFailure::Parse => e matches AppError::Serialization(m) && m@
                == "Failed to parse "@ + provider_short_name(provider) + " response: "@ + detail@,
        },
{
    match failure {
        SearchFailure::Request => {
            let mut m = match provider {
                SearchProvider::Tavily => String::from_str("Tavily"),
                SearchProvider::Brave => String::from_str("Brave Search"),
            };
            m.append(" API request failed: ");
            m.append(detail);
            AppError::Network(m)
        },
        SearchFailure::Parse => {
            let mut m = String::from_str("Failed to parse ");
            match provider {
                SearchProvider::Tavily => m.append("Tavily"),
                SearchProvider::Brave => m.append("Brave"),
            }
            m.append(" response: ");
            m.append(detail);
            AppError::Serialization(m)
        },
    }
}

/// The error of a provider's answer with a status that is not a success:
/// `{API name} API returned status {status}: {body}`.
pub fn search_status_error(provider: SearchProvider, status: &str, body: &str) -> (e: AppError)
    ensures
        e matches AppError::Network(m) && m@ == provider_api_name(provider) + " API returned status "@
            + status@ + ": "@ + body@,
{
    let mut m = match provider {
        SearchProvider::Tavily => String::from_str("Tavily"),
        SearchProvider::Brave => String::from_str("Brave Search"),
    };
    m.append(" API returned status ");
    m.append(status);
    m.append(": ");
    m.append(body);
    AppError::Network(m)
}

} // verus!
