use boolexpr::eval;
use boolexpr::parser::Parser;

fn parse_and_eval(input: &str) -> Option<bool> {
    let mut parser = Parser::new(input);
    match parser.parse() {
        Ok(Some(node)) => Some(eval(node)),
        _ => None,
    }
}

#[test]
fn creating_parser() {
    let input = "true";
    let _parser = Parser::new(input);
}

#[test]
fn test_bool() {
    assert_eq!(parse_and_eval("1"), Some(true));
    assert_eq!(parse_and_eval("true"), Some(true));

    assert_eq!(parse_and_eval("0"), Some(false));
    assert_eq!(parse_and_eval("false"), Some(false));
}

#[test]
fn test_and() {
    assert_eq!(parse_and_eval("0 * 0"), Some(false));
    assert_eq!(parse_and_eval("0 * 1"), Some(false));
    assert_eq!(parse_and_eval("1 * 0"), Some(false));
    assert_eq!(parse_and_eval("1 * 1"), Some(true));

    assert_eq!(parse_and_eval("0 ∧ 0"), Some(false));
    assert_eq!(parse_and_eval("0 ∧ 1"), Some(false));
    assert_eq!(parse_and_eval("1 ∧ 0"), Some(false));
    assert_eq!(parse_and_eval("1 ∧ 1"), Some(true));

    assert_eq!(parse_and_eval("0 & 0"), Some(false));
    assert_eq!(parse_and_eval("0 & 1"), Some(false));
    assert_eq!(parse_and_eval("1 & 0"), Some(false));
    assert_eq!(parse_and_eval("1 & 1"), Some(true));

    assert_eq!(parse_and_eval("0 && 0"), Some(false));
    assert_eq!(parse_and_eval("0 && 1"), Some(false));
    assert_eq!(parse_and_eval("1 && 0"), Some(false));
    assert_eq!(parse_and_eval("1 && 1"), Some(true));
}

#[test]
fn test_or() {
    assert_eq!(parse_and_eval("0 + 0"), Some(false));
    assert_eq!(parse_and_eval("0 + 1"), Some(true));
    assert_eq!(parse_and_eval("1 + 0"), Some(true));
    assert_eq!(parse_and_eval("1 + 1"), Some(true));

    assert_eq!(parse_and_eval("0 ∨ 0"), Some(false));
    assert_eq!(parse_and_eval("0 ∨ 1"), Some(true));
    assert_eq!(parse_and_eval("1 ∨ 0"), Some(true));
    assert_eq!(parse_and_eval("1 ∨ 1"), Some(true));

    assert_eq!(parse_and_eval("0 | 0"), Some(false));
    assert_eq!(parse_and_eval("0 | 1"), Some(true));
    assert_eq!(parse_and_eval("1 | 0"), Some(true));
    assert_eq!(parse_and_eval("1 | 1"), Some(true));

    assert_eq!(parse_and_eval("0 || 0"), Some(false));
    assert_eq!(parse_and_eval("0 || 1"), Some(true));
    assert_eq!(parse_and_eval("1 || 0"), Some(true));
    assert_eq!(parse_and_eval("1 || 1"), Some(true));
}

#[test]
fn test_not() {
    assert_eq!(parse_and_eval("!true"), Some(false));
    assert_eq!(parse_and_eval("!false"), Some(true));

    assert_eq!(parse_and_eval("¬true"), Some(false));
    assert_eq!(parse_and_eval("¬false"), Some(true));
}

#[test]
fn test_precedence() {
    assert_eq!(parse_and_eval("1 + 0 * 1"), Some(true));
    assert_eq!(parse_and_eval("0 * 1 + 1"), Some(true));

    assert_eq!(parse_and_eval("!1 + 0 * 1"), Some(false));
    assert_eq!(parse_and_eval("0 * 1 + !1"), Some(false));
}

#[test]
fn test_parenthese() {
    assert_eq!(parse_and_eval("(1)"), Some(true));
    assert_eq!(parse_and_eval("(0)"), Some(false));

    assert_eq!(parse_and_eval("0 * (1 + 1)"), Some(false));
    assert_eq!(parse_and_eval("(1 + 1) * 0"), Some(false));
}
