//! User-defined tools run as an HTTP request or a command line. The caller sends the request or
//! runs the process; this module offers the tool, chooses the HTTP method, fills the command's
//! argument templates and turns what came back into the tool's result.
use vstd::prelude::*;
use crate::error::AppError;
use crate::json::{as_text, json_entries, json_str, json_text, json_value_text, object_entries};
use crate::models::plugin::{
    CliToolConfig, CustomToolRecord, CustomToolType, HttpToolConfig, ToolDefinition, ToolResult,
};
use crate::text::{
    decimal, decimal_text, replace_all, replace_str, same_text, uppercase, uppercased,
};

verus! {

broadcast use vstd::seq_lib::group_seq_properties;

/// The one tool a user-defined tool offers: its name, description and parameter schema.
pub open spec fn offers_record_tool(tools: Seq<ToolDefinition>, record: CustomToolRecord) -> bool {
    &&& tools.len() == 1
    &&& tools[0].name@ == record.name@
    &&& tools[0].description@ == record.description@
    &&& tools[0].parameters == record.parameters_schema
}

fn record_tools(record: &CustomToolRecord) -> (tools: Vec<ToolDefinition>)
    ensures
        offers_record_tool(tools@, *record),
{
    let mut tools: Vec<ToolDefinition> = Vec::new();
    tools.push(
        ToolDefinition {
            name: record.name.clone(),
            description: record.description.clone(),
            parameters: record.parameters_schema.clone(),
        },
    );
    tools
}

/// The HTTP method of a request.
#[derive(Debug, Clone, Copy, PartialEq, Eq, Structural)]
pub enum HttpMethod {
    Post,
    Put,
    Get,
}

/// The method a tool's configured method text stands for, compared in upper case; anything
/// unknown is POST.
pub open spec fn http_method_spec(method: Seq<char>) -> HttpMethod {
    let m = uppercase(method);
    if m == "PUT"@ {
        HttpMethod::Put
    } else if m == "GET"@ {
        HttpMethod::Get
    } else {
        HttpMethod::Post
    }
}

/// The method a tool's configured method text stands for.
pub fn http_method(method: &str) -> (m: HttpMethod)
    ensures
        m == http_method_spec(method@),
{
    proof {
        reveal_strlit("POST");
        reveal_strlit("PUT");
        reveal_strlit("GET");
        assert("POST"@.len() == 4 && "PUT"@.len() == 3 && "GET"@.len() == 3);
        assert("POST"@ != "PUT"@ && "POST"@ != "GET"@);
        assert("PUT"@[0] != "GET"@[0]);
    }
    let up = uppercased(method);
    if same_text(up.as_str(), "POST") {
        HttpMethod::Post
    } else if same_text(up.as_str(), "PUT") {
        HttpMethod::Put
    } else if same_text(up.as_str(), "GET") {
        HttpMethod::Get
    } else {
        HttpMethod::Post
    }
}

/// A user-defined tool run as an HTTP request with the call as JSON body.
#[derive(Debug, Clone)]
pub struct HttpToolHandler {
    pub record: CustomToolRecord,
    pub config: HttpToolConfig,
}

/// The seconds an HTTP tool may take.
pub const HTTP_TIMEOUT_SECS: u64 = 30;

/// The seconds a command-line tool may take.
pub const CLI_TIMEOUT_SECS: u64 = 60;

/// How sending an HTTP tool's request failed.
#[derive(Debug, Clone, Copy, PartialEq, Eq, Structural)]
pub enum HttpFailure {
    Timeout,
    Connect,
    Other,
    /// The response's body could not be read.
    Read,
}

impl HttpToolHandler {
    /// A handler for a record and its parsed settings.
    pub fn new(record: CustomToolRecord, config: HttpToolConfig) -> (h: Self)
        ensures
            h.record == record,
            h.config == config,
    {
        HttpToolHandler { record, config }
    }

    /// The tool's name.
    pub fn name(&self) -> (s: &str)
        ensures
            s@ == self.record.name@,
    {
        self.record.name.as_str()
    }

    /// The tool's description.
    pub fn description(&self) -> (s: &str)
        ensures
            s@ == self.record.description@,
    {
        self.record.description.as_str()
    }

    /// The one tool this handler offers.
    pub fn tools(&self) -> (tools: Vec<ToolDefinition>)
        ensures
            offers_record_tool(tools@, self.record),
    {
        record_tools(&self.record)
    }

    /// The method of the tool's request.
    pub fn method(&self) -> (m: HttpMethod)
        ensures
            m == http_method_spec(self.config.method@),
    {
        http_method(self.config.method.as_str())
    }

    /// The error of a request that could not be sent or read; `detail` is the HTTP client's
    /// description of the failure.
    pub fn send_error(&self, failure: HttpFailure, detail: &str) -> (e: AppError)
        ensures
            e matches AppError::Plugin(m) && m@ == match failure {
                HttpFailure::Timeout => "HTTP tool '"@ + self.record.name@ + "' timed out after 30s"@,
                HttpFailure::Connect => "HTTP tool '"@ + self.record.name@ + "' connection failed: "@
                    + detail@,
                HttpFailure::Other => "HTTP tool '"@ + self.record.name@ + "' request failed: "@
                    + detail@,
                HttpFailure::Read => "HTTP tool '"@ + self.record.name@ + "' response read error: "@
                    + detail@,
            },
    {
        let mut m = String::from_str("HTTP tool '");
        m.append(self.record.name.as_str());
        match failure {
            HttpFailure::Timeout => m.append("' timed out after 30s"),
            HttpFailure::Connect => {
                m.append("' connection failed: ");
                m.append(detail);
            },
            HttpFailure::Other => {
                m.append("' request failed: ");
                m.append(detail);
            },
            HttpFailure::Read => {
                m.append("' response read error: ");
                m.append(detail);
            },
        }
        AppError::Plugin(m)
    }
}

/// The result of an HTTP tool's response: its body when the status is a success, else
/// `HTTP {status} error: {body}` as an error.
pub fn http_result(call_id: &str, success: bool, status: u16, body: String) -> (r: ToolResult)
    ensures
        r.tool_call_id@ == call_id@,
        success ==> r.content@ == body@ && !r.is_error,
        !success ==> r.content@ == "HTTP "@ + decimal(status as nat) + " error: "@ + body@ && r.is_error,
{
    if success {
        ToolResult { tool_call_id: String::from_str(call_id), content: body, is_error: false }
    } else {
        let mut m = String::from_str("HTTP ");
        let code = decimal_text(status as usize);
        m.append(code.as_str());
        m.append(" error: ");
        m.append(body.as_str());
        ToolResult { tool_call_id: String::from_str(call_id), content: m, is_error: true }
    }
}

/// The placeholder of an argument in a command template: `{{key}}`.
pub open spec fn placeholder(key: Seq<char>) -> Seq<char> {
    "{{"@ + key + "}}"@
}

/// A template with the placeholder of each argument replaced by the argument's text, argument
/// after argument.
pub open spec fn expand_template(arg: Seq<char>, fields: Seq<(Seq<char>, Seq<char>)>) -> Seq<char>
    decreases fields.len(),
{
    if fields.len() == 0 {
        arg
    } else {
        replace_all(
            expand_template(arg, fields.drop_last()),
            placeholder(fields.last().0),
            fields.last().1,
        )
    }
}

/// The plain values of argument fields.
pub open spec fn field_views(fields: Seq<(String, String)>) -> Seq<(Seq<char>, Seq<char>)> {
    fields.map_values(|f: (String, String)| (f.0@, f.1@))
}

fn expand_one(arg: &String, fields: &[(String, String)]) -> (r: String)
    ensures
        r@ == expand_template(arg@, field_views(fields@)),
{
    let mut result = arg.clone();
    let mut i: usize = 0;
    while i < fields.len()
        invariant
            i <= fields.len(),
            result@ == expand_template(arg@, field_views(fields@.subrange(0, i as int))),
        decreases fields.len() - i,
    {
        assert(field_views(fields@.subrange(0, i + 1)).drop_last() =~= field_views(
            fields@.subrange(0, i as int),
        ));
        let mut p = String::from_str("{{");
        p.append(fields[i].0.as_str());
        p.append("}}");
        proof {
            reveal_strlit("{{");
        }
        result = replace_str(result.as_str(), p.as_str(), fields[i].1.as_str());
        i += 1;
    }
    assert(fields@.subrange(0, fields.len() as int) =~= fields@);
    result
}

/// A user-defined tool run as a command line, with the call's arguments as JSON on stdin.
#[derive(Debug, Clone)]
pub struct CliToolHandler {
    pub record: CustomToolRecord,
    pub config: CliToolConfig,
}

impl CliToolHandler {
    /// A handler for a record and its parsed settings.
    pub fn new(record: CustomToolRecord, config: CliToolConfig) -> (h: Self)
        ensures
            h.record == record,
            h.config == config,
    {
        CliToolHandler { record, config }
    }

    /// The tool's name.
    pub fn name(&self) -> (s: &str)
        ensures
            s@ == self.record.name@,
    {
        self.record.name.as_str()
    }

    /// The tool's description.
    pub fn description(&self) -> (s: &str)
        ensures
            s@ == self.record.description@,
    {
        self.record.description.as_str()
    }

    /// The one tool this handler offers.
    pub fn tools(&self) -> (tools: Vec<ToolDefinition>)
        ensures
            offers_record_tool(tools@, self.record),
    {
        record_tools(&self.record)
    }

    /// What the command reads on its standard input: the call's arguments as compact JSON.
    pub fn stdin_text(&self, arguments: &serde_json::Value) -> (s: String)
        ensures
            s@ == json_value_text(*arguments),
    {
        json_text(arguments)
    }

    /// The command's arguments: each template with `{{key}}` replaced by the text of argument
    /// `key` (a string as itself, any other value as its JSON text), for the call's arguments
    /// in the object's order; arguments that are not an object replace nothing.
    pub fn expand_args(&self, args: &[String], arguments: &serde_json::Value) -> (r: Vec<String>)
        ensures
            r@.len() == args@.len(),
            forall|i: int|
                0 <= i < args@.len() ==> (#[trigger] r@[i])@ == expand_template(
                    args@[i]@,
                    json_field_texts(*arguments),
                ),
    {
        let fields = argument_fields(arguments);
        let mut r: Vec<String> = Vec::new();
        let mut i: usize = 0;
        while i < args.len()
            invariant
                i <= args.len(),
                r@.len() == i,
                field_views(fields@) == json_field_texts(*arguments),
                forall|j: int|
                    0 <= j < i ==> (#[trigger] r@[j])@ == expand_template(
                        args@[j]@,
                        json_field_texts(*arguments),
                    ),
            decreases args.len() - i,
        {
            r.push(expand_one(&args[i], fields.as_slice()));
            i += 1;
        }
        r
    }
}

/// The text of an argument in a command: a string as itself, any other value as its JSON text.
pub open spec fn json_field_text(v: serde_json::Value) -> Seq<char> {
    match json_str(v) {
        Some(s) => s,
        None => json_value_text(v),
    }
}

/// The name and text of each argument of a call, in the object's order; nothing when the
/// arguments are not an object.
pub open spec fn json_field_texts(arguments: serde_json::Value) -> Seq<(Seq<char>, Seq<char>)> {
    match json_entries(arguments) {
        Some(es) => es.map_values(
            |e: (Seq<char>, serde_json::Value)| (e.0, json_field_text(e.1)),
        ),
        None => Seq::empty(),
    }
}

/// The name and text of each argument of a call (see `json_field_texts`).
pub fn argument_fields(arguments: &serde_json::Value) -> (r: Vec<(String, String)>)
    ensures
        field_views(r@) == json_field_texts(*arguments),
{
    let mut r: Vec<(String, String)> = Vec::new();
    match object_entries(arguments) {
        None => {
            assert(field_views(r@) =~= json_field_texts(*arguments));
            r
        },
        Some(es) => {
            let ghost ev = es@.map_values(|e: (String, serde_json::Value)| (e.0@, e.1));
            let mut i: usize = 0;
            while i < es.len()
                invariant
                    i <= es.len(),
                    ev == es@.map_values(|e: (String, serde_json::Value)| (e.0@, e.1)),
                    json_entries(*arguments) == Some(ev),
                    field_views(r@) == ev.subrange(0, i as int).map_values(
                        |e: (Seq<char>, serde_json::Value)| (e.0, json_field_text(e.1)),
                    ),
                decreases es.len() - i,
            {
                let text = match as_text(&es[i].1) {
                    Some(t) => t,
                    None => json_text(&es[i].1),
                };
                let ghost old_r = r@;
                let key = es[i].0.clone();
                assert(ev[i as int] == (es@[i as int].0@, es@[i as int].1));
                assert(text@ == json_field_text(es@[i as int].1));
                r.push((key, text));
                assert(field_views(r@) =~= field_views(old_r).push((key@, text@)));
                assert(ev.subrange(0, i + 1) =~= ev.subrange(0, i as int).push(ev[i as int]));
                assert(field_views(r@) =~= ev.subrange(0, i + 1).map_values(
                    |e: (Seq<char>, serde_json::Value)| (e.0, json_field_text(e.1)),
                ));
                i += 1;
            }
            assert(ev.subrange(0, es.len() as int) =~= ev);
            r
        },
    }
}

/// The decimal numeral of a signed number: a minus sign before the numeral of its magnitude
/// when negative.
pub open spec fn signed_decimal(n: int) -> Seq<char> {
    if n < 0 {
        "-"@ + decimal((-n) as nat)
    } else {
        decimal(n as nat)
    }
}

fn signed_decimal_text(n: i32) -> (s: String)
    ensures
        s@ == signed_decimal(n as int),
{
    if n < 0 {
        let magnitude: i64 = -(n as i64);
        let mut s = String::from_str("-");
        let digits = decimal_text(magnitude as usize);
        s.append(digits.as_str());
        proof {
            reveal_strlit("-");
        }
        s
    } else {
        decimal_text(n as usize)
    }
}

/// The result of a finished command: its standard output when it succeeded; else an error
/// naming its exit code (-1 when it has none) and its standard error, or its standard output
/// when the standard error is empty.
pub fn cli_result(call_id: &str, success: bool, code: Option<i32>, stdout: String, stderr: String) -> (r:
    ToolResult)
    ensures
        r.tool_call_id@ == call_id@,
        success ==> r.content@ == stdout@ && !r.is_error,
        !success ==> r.is_error && r.content@ == "Process exited with code "@ + signed_decimal(
            match code {
                Some(c) => c as int,
                None => -1,
            },
        ) + (if stderr@.len() == 0 {
            ". stdout: "@ + stdout@
        } else {
            ". stderr: "@ + stderr@
        }),
{
    if success {
        return ToolResult { tool_call_id: String::from_str(call_id), content: stdout, is_error: false };
    }
    let c: i32 = match code {
        Some(c) => c,
        None => -1,
    };
    let mut m = String::from_str("Process exited with code ");
    let digits = signed_decimal_text(c);
    m.append(digits.as_str());
    if stderr.as_str().is_empty() {
        m.append(". stdout: ");
        m.append(stdout.as_str());
    } else {
        m.append(". stderr: ");
        m.append(stderr.as_str());
    }
    ToolResult { tool_call_id: String::from_str(call_id), content: m, is_error: true }
}

/// How running a command failed.
#[derive(Debug, Clone, Copy, PartialEq, Eq, Structural)]
pub enum CliFailure {
    /// The process could not be started.
    Spawn,
    /// It did not finish within the time allowed.
    Timeout,
    /// Waiting for it failed.
    Execution,
}

/// The error of a command that could not be started, timed out or failed while running;
/// `detail` is the system's description of the failure.
pub fn cli_error(name: &str, failure: CliFailure, detail: &str) -> (e: AppError)
    ensures
        e matches AppError::Plugin(m) && m@ == match failure {
            CliFailure::Spawn => "CLI tool '"@ + name@ + "' spawn failed: "@ + detail@,
            CliFailure::Timeout => "CLI tool '"@ + name@ + "' timed out after 60s"@,
            CliFailure::Execution => "CLI tool '"@ + name@ + "' execution error: "@ + detail@,
        },
{
    let mut m = String::from_str("CLI tool '");
    m.append(name);
    match failure {
        CliFailure::Spawn => {
            m.append("' spawn failed: ");
            m.append(detail);
        },
        CliFailure::Timeout => m.append("' timed out after 60s"),
        CliFailure::Execution => {
            m.append("' execution error: ");
            m.append(detail);
        },
    }
    AppError::Plugin(m)
}

/// The settings of a user-defined tool, as parsed from its record for its kind.
#[derive(Debug, Clone)]
pub enum ToolConfig {
    Http(HttpToolConfig),
    Cli(CliToolConfig),
}

/// The handler of a user-defined tool.
#[derive(Debug, Clone)]
pub enum CustomHandler {
    Http(HttpToolHandler),
    Cli(CliToolHandler),
}

/// Makes handlers for user-defined tools from their stored records.
#[derive(Debug, Clone, Copy)]
pub struct CustomToolExecutor;

impl CustomToolExecutor {
    /// The handler of a record of the kind of its record, given its settings as parsed from
    /// its stored settings for that kind; settings that did not parse (`detail` is the
    /// parser's error) are a plugin error.
    pub fn create_handler(record: CustomToolRecord, config: Result<ToolConfig, String>) -> (r: Result<
        CustomHandler,
        AppError,
    >)
        requires
            config matches Ok(c) ==> (record.tool_type == CustomToolType::Http) == (c is Http),
        ensures
            match config {
                Ok(ToolConfig::Http(c)) => r matches Ok(CustomHandler::Http(h)) && h.record == record
                    && h.config == c,
                Ok(ToolConfig::Cli(c)) => r matches Ok(CustomHandler::Cli(h)) && h.record == record
                    && h.config == c,
                Err(d) => r matches Err(AppError::Plugin(m)) && m@ == (if record.tool_type
                    == CustomToolType::Http {
                    "HTTP tool config parse error: "@
                } else {
                    "CLI tool config parse error: "@
                }) + d@,
            },
    {
        match config {
            Ok(ToolConfig::Http(c)) => Ok(CustomHandler::Http(HttpToolHandler::new(record, c))),
            Ok(ToolConfig::Cli(c)) => Ok(CustomHandler::Cli(CliToolHandler::new(record, c))),
            Err(d) => {
                let mut m = match record.tool_type {
                    CustomToolType::Http => String::from_str("HTTP tool config parse error: "),
                    CustomToolType::Cli => String::from_str("CLI tool config parse error: "),
                };
                m.append(d.as_str());
                Err(AppError::Plugin(m))
            },
        }
    }
}

} // verus!
