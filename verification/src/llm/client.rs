//! Model API client logic: which wire format to speak, endpoint URLs, messages and replies.
use vstd::prelude::*;
use crate::models::config::LLMProvider;
use crate::models::plugin::ToolCall;
use crate::text::{
    chars_of, contains_seq, contains_text, copy_range, find_from, find_in, lemma_find_from,
    lemma_find_from_none, occurs_at, push_chars, string_of, trim_end_char, trimmed_end,
};
use crate::llm::think_tags::{close_tag, open_tag};

verus! {

/// The connection settings of a model, without its sampling temperature.
#[derive(Debug, Clone)]
pub struct ModelEndpoint {
    /// Base URL of the API; empty for the provider's default.
    pub base_url: String,
    pub model: String,
    pub api_key: Option<String>,
    /// Provider; `None` for settings saved before providers were distinguished.
    pub provider: Option<LLMProvider>,
}

/// The wire format used to talk to a model API.
#[derive(Debug, Clone, Copy, PartialEq, Eq, Structural)]
pub enum ApiStrategy {
    OpenAI,
    Gemini,
    Anthropic,
}

/// The wire format of a provider: Anthropic's own Messages API for Anthropic, the OpenAI
/// format for every other provider (Google through its OpenAI-compatible endpoint).
pub open spec fn strategy_for(provider: Option<LLMProvider>) -> ApiStrategy {
    match provider {
        Some(LLMProvider::Anthropic) => ApiStrategy::Anthropic,
        _ => ApiStrategy::OpenAI,
    }
}

/// Chooses the wire format for the endpoint's provider.
pub fn resolve_api_strategy(config: &ModelEndpoint) -> (s: ApiStrategy)
    ensures
        s == strategy_for(config.provider),
        (s == ApiStrategy::Anthropic) <==> config.provider == Some(LLMProvider::Anthropic),
{
    match config.provider {
        Some(LLMProvider::Anthropic) => ApiStrategy::Anthropic,
        Some(LLMProvider::Google) | Some(LLMProvider::Openai) | Some(
            LLMProvider::OpenaiCompatible,
        ) | None => ApiStrategy::OpenAI,
    }
}

/// Only the Anthropic provider speaks Anthropic's Messages API; every other provider, and an
/// endpoint with no provider, is sent requests in the OpenAI format.
pub proof fn lemma_only_anthropic_uses_messages_api(provider: Option<LLMProvider>)
    ensures
        provider == Some(LLMProvider::Anthropic) ==> strategy_for(provider) == ApiStrategy::Anthropic,
        provider != Some(LLMProvider::Anthropic) ==> strategy_for(provider) == ApiStrategy::OpenAI,
{
}

/// Whether `base_url` (trailing slashes ignored) is the default endpoint of `provider`: empty or
/// naming the provider's API host for Google and Anthropic; always for the other providers.
pub open spec fn is_default_endpoint_spec(base_url: Seq<char>, provider: LLMProvider) -> bool {
    let url = trim_end_char(base_url, '/');
    match provider {
        LLMProvider::Google => url.len() == 0 || contains_seq(url, "generativelanguage.googleapis.com"@),
        LLMProvider::Anthropic => url.len() == 0 || contains_seq(url, "api.anthropic.com"@),
        _ => true,
    }
}

/// Whether `base_url` is the default endpoint of `provider`.
pub fn is_default_endpoint(base_url: &str, provider: LLMProvider) -> (b: bool)
    ensures
        b == is_default_endpoint_spec(base_url@, provider),
{
    let url = trimmed_end(base_url, '/');
    match provider {
        LLMProvider::Google => {
            proof {
                reveal_strlit("generativelanguage.googleapis.com");
            }
            url.as_str().is_empty() || contains_text(url.as_str(), "generativelanguage.googleapis.com")
        },
        LLMProvider::Anthropic => {
            proof {
                reveal_strlit("api.anthropic.com");
            }
            url.as_str().is_empty() || contains_text(url.as_str(), "api.anthropic.com")
        },
        _ => true,
    }
}

/// The base of an API's URLs: `default` when `base_url` is empty, else `base_url` without its
/// trailing slashes.
pub open spec fn api_base(base_url: Seq<char>, default: Seq<char>) -> Seq<char> {
    if base_url.len() == 0 {
        default
    } else {
        trim_end_char(base_url, '/')
    }
}

/// How a configured base URL is used: an empty one stands for the provider's default; one that
/// does not end with `/` is used as given; slashes at its end make no difference.
pub proof fn lemma_api_base(base: Seq<char>, default: Seq<char>)
    ensures
        base.len() == 0 ==> api_base(base, default) == default,
        base.len() > 0 && base.last() != '/' ==> api_base(base, default) == base,
        base.len() > 0 ==> api_base(base.push('/'), default) == api_base(base, default),
{
    let b = base.push('/');
    assert(b.drop_last() =~= base);
}

fn base_of(base_url: &String, default: &str) -> (r: String)
    ensures
        r@ == api_base(base_url@, default@),
{
    if base_url.as_str().is_empty() {
        String::from_str(default)
    } else {
        trimmed_end(base_url.as_str(), '/')
    }
}

/// Default base URL of Gemini's native API.
pub open spec fn gemini_default_base() -> Seq<char> {
    "https://generativelanguage.googleapis.com/v1beta"@
}

/// Default base URL of Anthropic's API.
pub open spec fn anthropic_default_base() -> Seq<char> {
    "https://api.anthropic.com/v1"@
}

/// `{base}/models/{model}:generateContent` for Gemini.
pub fn build_gemini_url(config: &ModelEndpoint) -> (url: String)
    ensures
        url@ == api_base(config.base_url@, gemini_default_base()) + "/models/"@ + config.model@
            + ":generateContent"@,
{
    let base = base_of(&config.base_url, "https://generativelanguage.googleapis.com/v1beta");
    let mut url = base;
    url.append("/models/");
    url.append(config.model.as_str());
    url.append(":generateContent");
    url
}

/// `{base}/models/{model}:streamGenerateContent?alt=sse` for Gemini's streaming API.
pub fn build_gemini_stream_url(config: &ModelEndpoint) -> (url: String)
    ensures
        url@ == api_base(config.base_url@, gemini_default_base()) + "/models/"@ + config.model@
            + ":streamGenerateContent?alt=sse"@,
{
    let base = base_of(&config.base_url, "https://generativelanguage.googleapis.com/v1beta");
    let mut url = base;
    url.append("/models/");
    url.append(config.model.as_str());
    url.append(":streamGenerateContent?alt=sse");
    url
}

/// `{base}/messages` for Anthropic.
pub fn build_anthropic_url(config: &ModelEndpoint) -> (url: String)
    ensures
        url@ == api_base(config.base_url@, anthropic_default_base()) + "/messages"@,
{
    let mut url = base_of(&config.base_url, "https://api.anthropic.com/v1");
    url.append("/messages");
    url
}

/// Default base URL of the OpenAI format for a provider: Google's OpenAI-compatible endpoint,
/// OpenAI's API, or none.
pub open spec fn openai_default_base(provider: Option<LLMProvider>) -> Seq<char> {
    match provider {
        Some(LLMProvider::Google) => "https://generativelanguage.googleapis.com/v1beta/openai"@,
        Some(LLMProvider::Openai) => "https://api.openai.com/v1"@,
        _ => ""@,
    }
}

/// `{base}/chat/completions` for the OpenAI format.
pub fn build_openai_url(config: &ModelEndpoint) -> (url: String)
    ensures
        url@ == api_base(config.base_url@, openai_default_base(config.provider))
            + "/chat/completions"@,
{
    let default = match config.provider {
        Some(LLMProvider::Google) => "https://generativelanguage.googleapis.com/v1beta/openai",
        Some(LLMProvider::Openai) => "https://api.openai.com/v1",
        _ => "",
    };
    let mut url = base_of(&config.base_url, default);
    url.append("/chat/completions");
    url
}

/// Role of a message sent to a model.
#[derive(Debug, Clone, Copy, PartialEq, Eq, Structural)]
pub enum MessageRole {
    System,
    User,
    Assistant,
    Tool,
}

/// A message sent to a model.
#[derive(Debug, Clone)]
pub struct ChatMessage {
    pub role: MessageRole,
    pub content: String,
    /// The tool call a tool message answers.
    pub tool_call_id: Option<String>,
    /// Base64-encoded images sent along (vision input).
    pub images: Option<Vec<String>>,
}

/// A model's reply: text or tool calls, each with the model's thinking, if it showed any.
#[derive(Debug, Clone)]
pub enum LLMResponse {
    Text { content: String, thinking: Option<String> },
    ToolCalls { calls: Vec<ToolCall>, thinking: Option<String> },
}

impl LLMResponse {
    /// The text of a text reply; empty for tool calls.
    pub fn text(&self) -> (t: &str)
        ensures
            t@ == (match self {
                LLMResponse::Text { content, .. } => content@,
                LLMResponse::ToolCalls { .. } => Seq::<char>::empty(),
            }),
    {
        match self {
            LLMResponse::Text { content, .. } => content.as_str(),
            LLMResponse::ToolCalls { .. } => {
                proof {
                    reveal_strlit("");
                }
                ""
            },
        }
    }

    /// The text of a text reply, taken out of it; empty for tool calls.
    pub fn into_text(self) -> (t: String)
        ensures
            t@ == (match self {
                LLMResponse::Text { content, .. } => content@,
                LLMResponse::ToolCalls { .. } => Seq::<char>::empty(),
            }),
    {
        match self {
            LLMResponse::Text { content, .. } => content,
            LLMResponse::ToolCalls { .. } => String::new(),
        }
    }

    /// Whether the reply asks for tool calls.
    pub fn is_tool_calls(&self) -> (b: bool)
        ensures
            b == (self is ToolCalls),
    {
        match self {
            LLMResponse::ToolCalls { .. } => true,
            _ => false,
        }
    }
}


/// What remains of `s[pos..]` once every complete think block is removed; an opening tag with
/// no closing tag after it removes everything from it to the end.
pub open spec fn strip_from(s: Seq<char>, pos: int) -> Seq<char>
    decreases s.len() - pos,
{
    if pos < 0 || pos > s.len() {
        Seq::empty()
    } else {
        let p = find_from(s, open_tag(), pos);
        if p < 0 {
            s.subrange(pos, s.len() as int)
        } else {
            let e = find_from(s, close_tag(), p + open_tag().len());
            if e < 0 {
                proof {
                    lemma_find_from(s, open_tag(), pos);
                }
                s.subrange(pos, p)
            } else {
                proof {
                    lemma_find_from(s, open_tag(), pos);
                    lemma_find_from(s, close_tag(), p + open_tag().len());
                }
                s.subrange(pos, p) + strip_from(s, e + close_tag().len())
            }
        }
    }
}

/// Where stripping starts: after a leading `</think>` that no `<think>` precedes (the end of a
/// block that began in an earlier reply), else at the start.
pub open spec fn strip_start(s: Seq<char>) -> int {
    let e = find_from(s, close_tag(), 0);
    if e >= 0 && find_from(s.subrange(0, e), open_tag(), 0) < 0 {
        e + close_tag().len()
    } else {
        0
    }
}

/// `s` with its think blocks removed (non-streaming replies).
pub open spec fn strip_think_spec(s: Seq<char>) -> Seq<char> {
    strip_from(s, strip_start(s))
}

/// A reply that holds neither tag is left as it is.
pub proof fn lemma_strip_without_tags(s: Seq<char>)
    requires
        !contains_seq(s, open_tag()),
        !contains_seq(s, close_tag()),
    ensures
        strip_think_spec(s) == s,
{
    lemma_find_from_none(s, close_tag(), 0);
    lemma_find_from_none(s, open_tag(), 0);
    assert(s.subrange(0, s.len() as int) =~= s);
}

fn open_tag_chars() -> (t: Vec<char>)
    ensures
        t@ == open_tag(),
{
    let t = vec!['<', 't', 'h', 'i', 'n', 'k', '>'];
    assert(t@ =~= open_tag());
    t
}

fn close_tag_chars() -> (t: Vec<char>)
    ensures
        t@ == close_tag(),
{
    let t = vec!['<', '/', 't', 'h', 'i', 'n', 'k', '>'];
    assert(t@ =~= close_tag());
    t
}

/// Removes `<think>...</think>` blocks and their content from a complete reply: a leading
/// closing tag with no opening tag before it drops everything up to it, and an opening tag
/// that is never closed drops everything after it.
pub fn strip_think_tags(s: &str) -> (r: String)
    ensures
        r@ == strip_think_spec(s@),
{
    let v = chars_of(s);
    let open = open_tag_chars();
    let close = close_tag_chars();
    let n = v.len();
    assert(v@.subrange(0, n as int) =~= v@);
    let mut pos: usize = 0;
    match find_in(&v, &close, 0, n) {
        Some(e) => {
            proof {
                lemma_find_from(v@, close_tag(), 0);
            }
            if find_in(&v, &open, 0, e).is_none() {
                pos = e + 8;
            }
        },
        None => {},
    }
    let ghost start = pos as int;
    assert(start == strip_start(v@));
    let mut out: Vec<char> = Vec::new();
    let mut done = false;
    while !done
        invariant
            v@ == s@,
            n == v.len(),
            v@.subrange(0, n as int) == v@,
            open@ == open_tag(),
            close@ == close_tag(),
            pos <= n,
            !done ==> out@ + strip_from(v@, pos as int) == strip_from(v@, start),
            done ==> out@ == strip_from(v@, start),
        decreases n - pos + (if done { 0int } else { 1int }),
    {
        proof {
            lemma_find_from(v@, open_tag(), pos as int);
        }
        match find_in(&v, &open, pos, n) {
            None => {
                let tail = copy_range(&v, pos, n);
                push_chars(&mut out, &tail);
                done = true;
            },
            Some(p) => {
                let ghost out0 = out@;
                let seg = copy_range(&v, pos, p);
                push_chars(&mut out, &seg);
                proof {
                    lemma_find_from(v@, close_tag(), p + 7);
                }
                match find_in(&v, &close, p + 7, n) {
                    None => {
                        done = true;
                    },
                    Some(e) => {
                        assert(out@ + strip_from(v@, e + 8) =~= out0 + (seg@ + strip_from(
                            v@,
                            e + 8,
                        )));
                        pos = e + 8;
                    },
                }
            },
        }
    }
    string_of(out.as_slice())
}

} // verus!
