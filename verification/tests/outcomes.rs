use boolexpr::eval;
use boolexpr::parser::{ParseError, Parser};
use boolexpr::tokenizer::{Token, Tokenizer};

fn parse_and_eval(expr: &str) -> Option<bool> {
    let mut parser = Parser::new(expr);
    match parser.parse() {
        Ok(Some(node)) => Some(eval(node)),
        _ => None,
    }
}

#[test]
fn word_spellings() {
    assert_eq!(parse_and_eval("0 and 0"), Some(false));
    assert_eq!(parse_and_eval("0 and 1"), Some(false));
    assert_eq!(parse_and_eval("1 and 0"), Some(false));
    assert_eq!(parse_and_eval("1 and 1"), Some(true));

    assert_eq!(parse_and_eval("0 or 0"), Some(false));
    assert_eq!(parse_and_eval("0 or 1"), Some(true));
    assert_eq!(parse_and_eval("1 or 0"), Some(true));
    assert_eq!(parse_and_eval("1 or 1"), Some(true));

    assert_eq!(parse_and_eval("not true"), Some(false));
    assert_eq!(parse_and_eval("not false"), Some(true));
    assert_eq!(parse_and_eval("not 1"), Some(false));
    assert_eq!(parse_and_eval("not 0"), Some(true));
}

#[test]
fn end_to_end_scenarios() {
    assert_eq!(parse_and_eval("true"), Some(true));
    assert_eq!(parse_and_eval("!false"), Some(true));
    assert_eq!(parse_and_eval("1 && 0 || 1"), Some(true));
    assert_eq!(parse_and_eval("(1 || 0) && 0"), Some(false));
}

#[test]
fn empty_input_is_no_expression() {
    let mut parser = Parser::new("");
    assert!(matches!(parser.parse(), Ok(None)));

    let mut parser = Parser::new("   ");
    assert!(matches!(parser.parse(), Ok(None)));

    let mut parser = Parser::new("\t");
    assert!(matches!(parser.parse(), Ok(None)));
}

#[test]
fn malformed_input_is_an_error() {
    let mut parser = Parser::new("* 1");
    assert!(matches!(parser.parse(), Err(ParseError::UnexpectedToken)));

    let mut parser = Parser::new("(1");
    assert!(matches!(parser.parse(), Err(ParseError::ExpectedClosingParen)));

    let mut parser = Parser::new("(1 x");
    assert!(matches!(parser.parse(), Err(ParseError::ExpectedClosingParen)));

    let mut parser = Parser::new("x");
    assert!(matches!(parser.parse(), Err(ParseError::UnexpectedToken)));

    let mut parser = Parser::new("!");
    assert!(matches!(parser.parse(), Err(ParseError::UnexpectedEndOfInput)));

    let mut parser = Parser::new("1 +");
    assert!(matches!(parser.parse(), Err(ParseError::UnexpectedEndOfInput)));
}

#[test]
fn reparsing_gives_the_same_result() {
    for _ in 0..3 {
        assert_eq!(parse_and_eval("1 + 0 * 1"), Some(true));
        assert_eq!(parse_and_eval("x"), None);
        assert_eq!(parse_and_eval(""), None);
    }
}

#[test]
fn trailing_tokens_are_ignored() {
    // The parser stops at the first token that cannot continue the
    // expression; what follows a complete expression does not change
    // its value.
    assert_eq!(parse_and_eval("1 x"), Some(true));
    assert_eq!(parse_and_eval("0 )"), Some(false));
}

#[test]
fn tokenizer_longest_match() {
    // `&&` is one AND token, not two; `and` is a keyword, not a
    // variable; what follows a keyword prefix stays a variable.
    let mut tokens = Tokenizer::new("&& and android");
    assert!(matches!(tokens.next(), Some(Token::And)));
    assert!(matches!(tokens.next(), Some(Token::Whitespace)));
    assert!(matches!(tokens.next(), Some(Token::And)));
    assert!(matches!(tokens.next(), Some(Token::Whitespace)));
    assert!(matches!(tokens.next(), Some(Token::And)));
    match tokens.next() {
        Some(Token::Variable(text)) => assert_eq!(text, "roid"),
        other => panic!("expected a variable token, got {:?}", other),
    }
    assert!(matches!(tokens.next(), None));
    assert!(matches!(tokens.next(), None));
}

#[test]
fn tokenizer_variable_owns_matched_text() {
    let mut tokens = Tokenizer::new("foo bar");
    match tokens.next() {
        Some(Token::Variable(text)) => assert_eq!(text, "foo"),
        _ => panic!("expected a variable token"),
    }
    assert!(matches!(tokens.next(), Some(Token::Whitespace)));
    match tokens.next() {
        Some(Token::Variable(text)) => assert_eq!(text, "bar"),
        _ => panic!("expected a variable token"),
    }
    assert!(matches!(tokens.next(), None));
}

#[test]
fn tokenizer_peek_does_not_consume() {
    let tokens = Tokenizer::new("1");
    assert!(matches!(tokens.peek(), Some(Token::True)));
    assert!(matches!(tokens.peek(), Some(Token::True)));
}
