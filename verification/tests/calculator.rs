//! The calculator plugin's tool, input checks and tokens.
use kokoro_chat::error::AppError;
use kokoro_chat::models::plugin::ToolCall;
use kokoro_chat::plugin::calc_parse::{parse_tokens, CalcOp, CalcSyntaxError};
use kokoro_chat::plugin::calculator::{CalculatorPlugin, Token};

fn calculate_call(arguments: &str) -> ToolCall {
    ToolCall {
        id: "test-call-1".to_string(),
        name: "calculate".to_string(),
        arguments: serde_json::from_str(arguments).unwrap(),
        context: None,
    }
}

#[test]
fn calculator_test_plugin_metadata() {
    let plugin = CalculatorPlugin::new();
    assert_eq!(plugin.name(), "calculator");
    assert_eq!(plugin.description(), "数式を計算する");
    assert_eq!(plugin.tools().len(), 1);
    assert_eq!(plugin.tools()[0].name, "calculate");
    assert_eq!(plugin.tools()[0].parameters["required"][0], "expression");
}

#[test]
fn test_invalid_expression() {
    let plugin = CalculatorPlugin::new();
    assert_eq!(plugin.check_expression("").unwrap_err(), "空の数式");
    assert_eq!(plugin.check_expression("abc").unwrap_err(), "不正な文字が含まれている: abc");
}

#[test]
fn tokens_keep_numbers_as_text() {
    let plugin = CalculatorPlugin::new();
    let tokens = plugin.check_expression(" (2.5 + 3) * -4 / 1 ").unwrap();
    assert_eq!(
        tokens,
        vec![
            Token::LParen,
            Token::Number("2.5".to_string()),
            Token::Plus,
            Token::Number("3".to_string()),
            Token::RParen,
            Token::Mul,
            Token::Minus,
            Token::Number("4".to_string()),
            Token::Div,
            Token::Number("1".to_string()),
        ]
    );
}

#[test]
fn test_execute_missing_param() {
    match CalculatorPlugin::new().expression_arg(&calculate_call("{}")) {
        Err(AppError::Plugin(m)) => assert_eq!(m, "'expression' パラメータが必要"),
        _ => panic!("missing expression"),
    }
    match CalculatorPlugin::new().expression_arg(&calculate_call(r#"{"expression":12}"#)) {
        Err(AppError::Plugin(m)) => assert_eq!(m, "'expression' パラメータが必要"),
        _ => panic!("a number is not an expression"),
    }
    assert_eq!(CalculatorPlugin::new().expression_arg(&calculate_call(r#"{"expression":"1 + 2"}"#)).unwrap(), "1 + 2");
}

#[test]
fn test_execute_error() {
    let r = CalculatorPlugin::new().calc_result("test-call-1", Err("ゼロ除算".to_string()));
    assert!(r.is_error);
    assert!(r.content.contains("計算エラー"));
    assert_eq!(r.content, "計算エラー: ゼロ除算");
}

#[test]
fn test_execute_success() {
    let r = CalculatorPlugin::new().calc_result("test-call-1", Ok("5".to_string()));
    assert_eq!(r.content, "5");
    assert!(!r.is_error);
}

#[test]
fn the_grammar_orders_operations_by_precedence() {
    let plugin = CalculatorPlugin::new();
    let tokens = plugin.check_expression("2 + 3 * -4").unwrap();
    let (ops, error) = parse_tokens(&tokens);
    assert_eq!(error, None);
    assert_eq!(
        ops,
        vec![CalcOp::Num(0), CalcOp::Num(2), CalcOp::Num(5), CalcOp::Neg, CalcOp::Mul, CalcOp::Add]
    );
    let tokens = plugin.check_expression("(1 - 2").unwrap();
    let (ops, error) = parse_tokens(&tokens);
    assert_eq!(ops, vec![CalcOp::Num(1), CalcOp::Num(3), CalcOp::Sub]);
    assert_eq!(error, Some(CalcSyntaxError::MissingParen));
    let tokens = plugin.check_expression("1 / 0 2").unwrap();
    let (ops, error) = parse_tokens(&tokens);
    assert_eq!(ops, vec![CalcOp::Num(0), CalcOp::Num(2), CalcOp::Div]);
    assert_eq!(error, Some(CalcSyntaxError::Unexpected(3)));
    let tokens = plugin.check_expression("3 *").unwrap();
    assert_eq!(parse_tokens(&tokens).1, Some(CalcSyntaxError::End));
}
