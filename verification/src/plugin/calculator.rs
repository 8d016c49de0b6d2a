//! The calculator plugin: its tool, input checking and tokenization of arithmetic
//! expressions. Numbers are kept as their text.
use vstd::prelude::*;
use crate::error::AppError;
use crate::json::{json_string_at, string_field};
use crate::models::plugin::{is_tool, make_tool, ToolCall, ToolDefinition, ToolResult};
use crate::text::{chars_of, concat2, string_of, string_of_range, trim_whitespace, trimmed};

verus! {

/// A token of an arithmetic expression; a number is kept as its text.
#[derive(Debug, Clone, PartialEq, Eq)]
pub enum Token {
    Number(String),
    Plus,
    Minus,
    Mul,
    Div,
    LParen,
    RParen,
}

/// The plain value of a token.
pub enum Lexeme {
    Number(Seq<char>),
    Plus,
    Minus,
    Mul,
    Div,
    LParen,
    RParen,
}

/// The plain value of a token.
pub open spec fn lexeme(t: Token) -> Lexeme {
    match t {
        Token::Number(s) => Lexeme::Number(s@),
        Token::Plus => Lexeme::Plus,
        Token::Minus => Lexeme::Minus,
        Token::Mul => Lexeme::Mul,
        Token::Div => Lexeme::Div,
        Token::LParen => Lexeme::LParen,
        Token::RParen => Lexeme::RParen,
    }
}

/// A character that belongs to a number: an ASCII digit or a dot.
pub open spec fn number_char(c: char) -> bool {
    ('0' <= c && c <= '9') || c == '.'
}

/// A character an expression may hold: a digit or one of `+-*/.() `.
pub open spec fn allowed_char(c: char) -> bool {
    ('0' <= c && c <= '9') || c == '+' || c == '-' || c == '*' || c == '/' || c == '.' || c == '('
        || c == ')' || c == ' '
}

/// End of the run of number characters that starts at `i`.
pub open spec fn run_end(s: Seq<char>, i: int) -> int
    decreases s.len() - i,
{
    if 0 <= i < s.len() && number_char(s[i]) {
        run_end(s, i + 1)
    } else {
        i
    }
}

/// The tokens of `s[i..]`: spaces separate tokens, a maximal run of digits and dots is one
/// number, each of `+-*/()` is one token; the first other character is an error.
pub open spec fn lex_from(s: Seq<char>, i: int) -> Result<Seq<Lexeme>, char>
    decreases s.len() - i,
{
    if i < 0 || i >= s.len() {
        Ok(Seq::empty())
    } else {
        let c = s[i];
        if c == ' ' {
            lex_from(s, i + 1)
        } else if number_char(c) {
            let e = run_end(s, i);
            proof {
                lemma_run_end(s, i);
            }
            match lex_from(s, e) {
                Ok(rest) => Ok(seq![Lexeme::Number(s.subrange(i, e))] + rest),
                Err(x) => Err(x),
            }
        } else {
            let op = if c == '+' {
                Some(Lexeme::Plus)
            } else if c == '-' {
                Some(Lexeme::Minus)
            } else if c == '*' {
                Some(Lexeme::Mul)
            } else if c == '/' {
                Some(Lexeme::Div)
            } else if c == '(' {
                Some(Lexeme::LParen)
            } else if c == ')' {
                Some(Lexeme::RParen)
            } else {
                None
            };
            match op {
                Some(t) => match lex_from(s, i + 1) {
                    Ok(rest) => Ok(seq![t] + rest),
                    Err(x) => Err(x),
                },
                None => Err(c),
            }
        }
    }
}

/// A run of number characters starting at a number character ends after it.
pub proof fn lemma_run_end(s: Seq<char>, i: int)
    requires
        0 <= i < s.len(),
        number_char(s[i]),
    ensures
        i < run_end(s, i) <= s.len(),
        forall|k: int| i <= k < run_end(s, i) ==> number_char(s[k]),
        run_end(s, i) < s.len() ==> !number_char(s[run_end(s, i)]),
    decreases s.len() - i,
{
    assert(run_end(s, i) == run_end(s, i + 1));
    if i + 1 < s.len() && number_char(s[i + 1]) {
        lemma_run_end(s, i + 1);
    } else {
        assert(run_end(s, i + 1) == i + 1);
    }
}

/// An expression made of allowed characters always splits into tokens.
pub proof fn lemma_allowed_lexes(s: Seq<char>, i: int)
    requires
        0 <= i,
        forall|k: int| 0 <= k < s.len() ==> allowed_char(#[trigger] s[k]),
    ensures
        lex_from(s, i) is Ok,
    decreases s.len() - i,
{
    if i < s.len() {
        if number_char(s[i]) {
            lemma_run_end(s, i);
            lemma_allowed_lexes(s, run_end(s, i));
        } else {
            lemma_allowed_lexes(s, i + 1);
        }
    }
}

/// Each operator and parenthesis character is one token of its own kind.
pub proof fn lemma_operator_tokens()
    ensures
        lex_from(seq!['+'], 0) == Ok::<Seq<Lexeme>, char>(seq![Lexeme::Plus]),
        lex_from(seq!['-'], 0) == Ok::<Seq<Lexeme>, char>(seq![Lexeme::Minus]),
        lex_from(seq!['*'], 0) == Ok::<Seq<Lexeme>, char>(seq![Lexeme::Mul]),
        lex_from(seq!['/'], 0) == Ok::<Seq<Lexeme>, char>(seq![Lexeme::Div]),
        lex_from(seq!['('], 0) == Ok::<Seq<Lexeme>, char>(seq![Lexeme::LParen]),
        lex_from(seq![')'], 0) == Ok::<Seq<Lexeme>, char>(seq![Lexeme::RParen]),
{
    assert(lex_from(seq!['+'], 1) == Ok::<Seq<Lexeme>, char>(Seq::empty()));
    assert(lex_from(seq!['-'], 1) == Ok::<Seq<Lexeme>, char>(Seq::empty()));
    assert(lex_from(seq!['*'], 1) == Ok::<Seq<Lexeme>, char>(Seq::empty()));
    assert(lex_from(seq!['/'], 1) == Ok::<Seq<Lexeme>, char>(Seq::empty()));
    assert(lex_from(seq!['('], 1) == Ok::<Seq<Lexeme>, char>(Seq::empty()));
    assert(lex_from(seq![')'], 1) == Ok::<Seq<Lexeme>, char>(Seq::empty()));
    assert(seq![Lexeme::Plus] + Seq::<Lexeme>::empty() =~= seq![Lexeme::Plus]);
    assert(seq![Lexeme::Minus] + Seq::<Lexeme>::empty() =~= seq![Lexeme::Minus]);
    assert(seq![Lexeme::Mul] + Seq::<Lexeme>::empty() =~= seq![Lexeme::Mul]);
    assert(seq![Lexeme::Div] + Seq::<Lexeme>::empty() =~= seq![Lexeme::Div]);
    assert(seq![Lexeme::LParen] + Seq::<Lexeme>::empty() =~= seq![Lexeme::LParen]);
    assert(seq![Lexeme::RParen] + Seq::<Lexeme>::empty() =~= seq![Lexeme::RParen]);
}

/// A text of digits and dots is one number token holding the whole text.
pub proof fn lemma_number_is_one_token(s: Seq<char>)
    requires
        s.len() > 0,
        forall|k: int| 0 <= k < s.len() ==> number_char(#[trigger] s[k]),
    ensures
        lex_from(s, 0) == Ok::<Seq<Lexeme>, char>(seq![Lexeme::Number(s)]),
{
    lemma_run_end(s, 0);
    let e = run_end(s, 0);
    if e < s.len() {
        assert(number_char(s[e]));
    }
    assert(e == s.len());
    assert(lex_from(s, e) == Ok::<Seq<Lexeme>, char>(Seq::empty()));
    assert(s.subrange(0, s.len() as int) =~= s);
    assert(seq![Lexeme::Number(s)] + Seq::<Lexeme>::empty() =~= seq![Lexeme::Number(s)]);
}

/// The tokens of two lexings one after the other (the first error, if any).
pub open spec fn lexed_then(a: Result<Seq<Lexeme>, char>, b: Result<Seq<Lexeme>, char>) -> Result<
    Seq<Lexeme>,
    char,
> {
    match a {
        Ok(x) => match b {
            Ok(y) => Ok(x + y),
            Err(c) => Err(c),
        },
        Err(c) => Err(c),
    }
}

proof fn lemma_run_end_shift(x: Seq<char>, y: Seq<char>, j: int)
    requires
        0 <= j <= y.len(),
    ensures
        run_end(x + y, x.len() + j) == x.len() + run_end(y, j),
    decreases y.len() - j,
{
    if j < y.len() {
        assert((x + y)[x.len() + j] == y[j]);
        if number_char(y[j]) {
            lemma_run_end_shift(x, y, j + 1);
        }
    }
}

proof fn lemma_lex_shift(x: Seq<char>, y: Seq<char>, j: int)
    requires
        0 <= j <= y.len(),
    ensures
        lex_from(x + y, x.len() + j) == lex_from(y, j),
    decreases y.len() - j,
{
    let s = x + y;
    if j < y.len() {
        assert(s[x.len() + j] == y[j]);
        if y[j] == ' ' {
            lemma_lex_shift(x, y, j + 1);
        } else if number_char(y[j]) {
            lemma_run_end(y, j);
            lemma_run_end_shift(x, y, j);
            let e = run_end(y, j);
            assert(s.subrange(x.len() + j, x.len() + e) =~= y.subrange(j, e));
            lemma_lex_shift(x, y, e);
        } else {
            lemma_lex_shift(x, y, j + 1);
        }
    }
}

proof fn lemma_run_end_prefix(a: Seq<char>, rest: Seq<char>, i: int)
    requires
        0 <= i <= a.len(),
        rest.len() > 0,
        !number_char(rest[0]),
    ensures
        run_end(a + rest, i) == run_end(a, i),
    decreases a.len() - i,
{
    let s = a + rest;
    if i < a.len() {
        assert(s[i] == a[i]);
        if number_char(a[i]) {
            lemma_run_end_prefix(a, rest, i + 1);
        }
    } else {
        assert(s[i] == rest[0]);
    }
}

proof fn lemma_lex_space_concat(a: Seq<char>, b: Seq<char>, i: int)
    requires
        0 <= i <= a.len(),
    ensures
        lex_from(a + " "@ + b, i) == lexed_then(lex_from(a, i), lex_from(b, 0)),
    decreases a.len() - i,
{
    reveal_strlit(" ");
    let rest = " "@ + b;
    let s = a + " "@ + b;
    assert(s =~= a + rest);
    assert(rest[0] == ' ');
    if i == a.len() {
        assert(s[i] == ' ');
        lemma_lex_shift(a + " "@, b, 0);
        assert((a + " "@).len() == a.len() + 1);
        assert(lex_from(a, i) == Ok::<Seq<Lexeme>, char>(Seq::empty()));
        match lex_from(b, 0) {
            Ok(y) => {
                assert(Seq::<Lexeme>::empty() + y =~= y);
            },
            Err(_) => {},
        }
    } else {
        assert(s[i] == a[i]);
        if a[i] == ' ' {
            lemma_lex_space_concat(a, b, i + 1);
        } else if number_char(a[i]) {
            lemma_run_end(a, i);
            lemma_run_end_prefix(a, rest, i);
            let e = run_end(a, i);
            assert(s.subrange(i, e) =~= a.subrange(i, e));
            lemma_lex_space_concat(a, b, e);
            match lex_from(a, e) {
                Ok(x) => match lex_from(b, 0) {
                    Ok(y) => {
                        assert(seq![Lexeme::Number(a.subrange(i, e))] + (x + y) =~= (seq![
                            Lexeme::Number(a.subrange(i, e)),
                        ] + x) + y);
                    },
                    Err(_) => {},
                },
                Err(_) => {},
            }
        } else {
            lemma_lex_space_concat(a, b, i + 1);
            match lex_from(a, i + 1) {
                Ok(x) => match lex_from(b, 0) {
                    Ok(y) => {
                        let c = a[i];
                        let op = if c == '+' {
                            Some(Lexeme::Plus)
                        } else if c == '-' {
                            Some(Lexeme::Minus)
                        } else if c == '*' {
                            Some(Lexeme::Mul)
                        } else if c == '/' {
                            Some(Lexeme::Div)
                        } else if c == '(' {
                            Some(Lexeme::LParen)
                        } else if c == ')' {
                            Some(Lexeme::RParen)
                        } else {
                            None
                        };
                        match op {
                            Some(t) => {
                                assert(seq![t] + (x + y) =~= (seq![t] + x) + y);
                            },
                            None => {},
                        }
                    },
                    Err(_) => {},
                },
                Err(_) => {},
            }
        }
    }
}

/// A space separates tokens: the tokens of `a b` (with a space between) are those of `a`
/// followed by those of `b`; the first bad character, if any, is reported.
pub proof fn lemma_space_separates(a: Seq<char>, b: Seq<char>)
    ensures
        lex_from(a + " "@ + b, 0) == lexed_then(lex_from(a, 0), lex_from(b, 0)),
{
    lemma_lex_space_concat(a, b, 0);
}

/// All characters of `s` are allowed.
pub open spec fn all_allowed(s: Seq<char>) -> bool {
    forall|k: int| 0 <= k < s.len() ==> allowed_char(#[trigger] s[k])
}

/// The text of a tokenizer error for the character `c`.
pub open spec fn bad_char_message(c: char) -> Seq<char> {
    "不正な文字: "@ + seq![c]
}

/// The description of the `calculate` tool.
pub const CALCULATE_DESCRIPTION: &'static str = "数式を評価して結果を返す";

/// The JSON schema of the `calculate` tool's parameters.
pub const CALCULATE_SCHEMA: &'static str = "{\"type\":\"object\",\"properties\":{\"expression\":{\"type\":\"string\",\"description\":\"評価する数式（四則演算対応）\"}},\"required\":[\"expression\"]}";

/// The calculator plugin: evaluates arithmetic expressions with `+ - * /`, parentheses and
/// unary minus.
#[derive(Debug, Clone, Copy)]
pub struct CalculatorPlugin;

impl Default for CalculatorPlugin {
    fn default() -> (p: Self) {
        CalculatorPlugin
    }
}

impl CalculatorPlugin {
    /// The plugin.
    pub fn new() -> (p: Self) {
        CalculatorPlugin
    }

    /// The plugin's name.
    pub fn name(&self) -> (s: &'static str)
        ensures
            s@ == "calculator"@,
    {
        "calculator"
    }

    /// The plugin's description.
    pub fn description(&self) -> (s: &'static str)
        ensures
            s@ == "数式を計算する"@,
    {
        "数式を計算する"
    }

    /// The plugin's one tool, `calculate`.
    pub fn tools(&self) -> (tools: Vec<ToolDefinition>)
        ensures
            tools@.len() == 1,
            is_tool(tools@[0], "calculate"@, CALCULATE_DESCRIPTION@, CALCULATE_SCHEMA@),
    {
        let mut tools: Vec<ToolDefinition> = Vec::new();
        tools.push(make_tool("calculate", CALCULATE_DESCRIPTION, CALCULATE_SCHEMA));
        tools
    }

    /// The `expression` argument of a `calculate` call; a missing one is an error.
    pub fn expression_arg(&self, call: &ToolCall) -> (r: Result<String, AppError>)
        ensures
            match json_string_at(call.arguments, "expression"@) {
                Some(e) => r matches Ok(s) && s@ == e,
                None => r matches Err(AppError::Plugin(m)) && m@ == "'expression' パラメータが必要"@,
            },
    {
        match string_field(&call.arguments, "expression") {
            Some(e) => Ok(e),
            None => Err(AppError::Plugin(String::from_str("'expression' パラメータが必要"))),
        }
    }

    /// The result of a `calculate` call: the value's text, or the evaluation error after
    /// `計算エラー: ` as an error result.
    pub fn calc_result(&self, call_id: &str, outcome: Result<String, String>) -> (r: ToolResult)
        ensures
            r.tool_call_id@ == call_id@,
            match outcome {
                Ok(v) => r.content@ == v@ && !r.is_error,
                Err(e) => r.content@ == "計算エラー: "@ + e@ && r.is_error,
            },
    {
        match outcome {
            Ok(v) => ToolResult { tool_call_id: String::from_str(call_id), content: v, is_error: false },
            Err(e) => {
                let mut m = String::from_str("計算エラー: ");
                m.append(e.as_str());
                ToolResult { tool_call_id: String::from_str(call_id), content: m, is_error: true }
            },
        }
    }

    /// Checks an expression before it is evaluated and splits it into tokens: once trimmed it
    /// must not be empty and may hold only digits and `+-*/.() `.
    pub fn check_expression(&self, expression: &str) -> (r: Result<Vec<Token>, String>)
        ensures
            ({
                let e = trim_whitespace(expression@);
                &&& e.len() == 0 ==> (r matches Err(m) && m@ == "空の数式"@)
                &&& e.len() > 0 && !all_allowed(e) ==> (r matches Err(m) && m@
                    == "不正な文字が含まれている: "@ + e)
                &&& e.len() > 0 && all_allowed(e) ==> (r matches Ok(ts) && lex_from(e, 0) == Ok::<
                    Seq<Lexeme>,
                    char,
                >(ts@.map_values(|t: Token| lexeme(t))))
            }),
    {
        let expr = trimmed(expression);
        if expr.as_str().is_empty() {
            return Err(String::from_str("空の数式"));
        }
        let cs = chars_of(expr.as_str());
        let mut i: usize = 0;
        while i < cs.len()
            invariant
                i <= cs.len(),
                cs@ == expr@,
                expr@ == trim_whitespace(expression@),
                expr@.len() > 0,
                forall|k: int| 0 <= k < i ==> allowed_char(#[trigger] cs@[k]),
            decreases cs.len() - i,
        {
            let c = cs[i];
            if !(('0' <= c && c <= '9') || c == '+' || c == '-' || c == '*' || c == '/' || c == '.'
                || c == '(' || c == ')' || c == ' ') {
                assert(!allowed_char(expr@[i as int]));
                assert(!all_allowed(expr@));
                return Err(concat2("不正な文字が含まれている: ", expr.as_str()));
            }
            i += 1;
        }
        proof {
            lemma_allowed_lexes(expr@, 0);
        }
        self.tokenize(expr.as_str())
    }

    /// Splits an expression into tokens; an unexpected character is an error naming it.
    pub fn tokenize(&self, expr: &str) -> (r: Result<Vec<Token>, String>)
        ensures
            match lex_from(expr@, 0) {
                Ok(ls) => r matches Ok(ts) && ts@.map_values(|t: Token| lexeme(t)) == ls,
                Err(c) => r matches Err(m) && m@ == bad_char_message(c),
            },
    {
        let s = chars_of(expr);
        let mut tokens: Vec<Token> = Vec::new();
        let mut i: usize = 0;
        while i < s.len()
            invariant
                s@ == expr@,
                i <= s.len(),
                match lex_from(s@, 0) {
                    Ok(ls) => lex_from(s@, i as int) matches Ok(rest) && ls
                        == tokens@.map_values(|t: Token| lexeme(t)) + rest,
                    Err(c) => lex_from(s@, i as int) == Err::<Seq<Lexeme>, char>(c),
                },
            decreases s.len() - i,
        {
            let c = s[i];
            let ghost before = tokens@;
            if c == ' ' {
                i += 1;
            } else if ('0' <= c && c <= '9') || c == '.' {
                let start = i;
                proof {
                    lemma_run_end(s@, i as int);
                }
                while i < s.len() && (('0' <= s[i] && s[i] <= '9') || s[i] == '.')
                    invariant
                        start < i || i == start,
                        start <= i <= s.len(),
                        run_end(s@, start as int) == run_end(s@, i as int),
                        forall|k: int| start <= k < i ==> number_char(s@[k]),
                    decreases s.len() - i,
                {
                    i += 1;
                }
                let num = string_of_range(&s, start, i);
                tokens.push(Token::Number(num));
                assert(tokens@.map_values(|t: Token| lexeme(t)) =~= before.map_values(
                    |t: Token| lexeme(t),
                ) + seq![Lexeme::Number(s@.subrange(start as int, i as int))]);
                proof {
                    if let Ok(ls) = lex_from(s@, 0) {
                        let rest = lex_from(s@, i as int)->Ok_0;
                        assert(ls =~= tokens@.map_values(|t: Token| lexeme(t)) + rest);
                    }
                }
            } else {
                let t = if c == '+' {
                    Token::Plus
                } else if c == '-' {
                    Token::Minus
                } else if c == '*' {
                    Token::Mul
                } else if c == '/' {
                    Token::Div
                } else if c == '(' {
                    Token::LParen
                } else if c == ')' {
                    Token::RParen
                } else {
                    let cs = vec![c];
                    let m = concat2("不正な文字: ", string_of(cs.as_slice()).as_str());
                    assert(cs@ =~= seq![c]);
                    return Err(m);
                };
                let ghost lt = lexeme(t);
                tokens.push(t);
                assert(tokens@.map_values(|t: Token| lexeme(t)) =~= before.map_values(
                    |t: Token| lexeme(t),
                ) + seq![lt]);
                i += 1;
                proof {
                    if let Ok(ls) = lex_from(s@, 0) {
                        let rest = lex_from(s@, i as int)->Ok_0;
                        assert(ls =~= tokens@.map_values(|t: Token| lexeme(t)) + rest);
                    }
                }
            }
        }
        Ok(tokens)
    }
}

} // verus!
