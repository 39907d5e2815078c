use rlox::compiler::Compiler;
use rlox::scanner::{keyword_or_identifier, Token, TokenType};

fn tokens(src: &str) -> Vec<Token> {
    let mut c = Compiler::new(src.to_string());
    let mut out = Vec::new();
    loop {
        let t = c.next_token();
        let end = t.tp == TokenType::EOF;
        out.push(t);
        if end {
            break;
        }
    }
    out
}

#[test]
fn lexes_arithmetic_expression() {
    let ts = tokens("1 + 2.5 * foo");
    let kinds: Vec<TokenType> = ts.iter().map(|t| t.tp).collect();
    assert_eq!(
        kinds,
        vec![TokenType::Number, TokenType::Plus, TokenType::Number, TokenType::Star, TokenType::Identifier, TokenType::EOF]
    );
    assert_eq!(ts[0].content, "1");
    assert_eq!(ts[2].content, "2.5");
    assert_eq!(ts[4].content, "foo");
    for t in &ts {
        assert_eq!(t.line, 1);
    }
}

#[test]
fn eof_repeats() {
    let mut c = Compiler::new("x".to_string());
    assert_eq!(c.next_token().tp, TokenType::Identifier);
    assert_eq!(c.next_token().tp, TokenType::EOF);
    assert_eq!(c.next_token().tp, TokenType::EOF);
}

#[test]
fn two_character_operators() {
    let kinds: Vec<TokenType> = tokens("!= == >= <= ! = > <").iter().map(|t| t.tp).collect();
    assert_eq!(
        kinds,
        vec![
            TokenType::BangEqual, TokenType::EqualEqual, TokenType::GreaterEqual, TokenType::LessEqual,
            TokenType::Bang, TokenType::Equal, TokenType::Greater, TokenType::Less, TokenType::EOF
        ]
    );
}

#[test]
fn comments_and_lines() {
    let ts = tokens("// note\nvar a;\n\n  print a;");
    assert_eq!(ts[0].tp, TokenType::Var);
    assert_eq!(ts[0].line, 2);
    assert_eq!(ts[3].tp, TokenType::Print);
    assert_eq!(ts[3].line, 4);
}

#[test]
fn string_with_newline_counts_lines() {
    let ts = tokens("\"a\nb\" x");
    assert_eq!(ts[0].tp, TokenType::String);
    assert_eq!(ts[0].content, "\"a\nb\"");
    assert_eq!(ts[0].line, 2);
    assert_eq!(ts[1].line, 2);
}

#[test]
fn unterminated_string_is_error() {
    let ts = tokens("\"abc");
    assert_eq!(ts[0].tp, TokenType::Error);
    assert_eq!(ts[0].content, "Non-terminated string literal");
    assert_eq!(ts[1].tp, TokenType::EOF);
}

#[test]
fn unknown_character_is_error() {
    let ts = tokens("#1");
    assert_eq!(ts[0].tp, TokenType::Error);
    assert_eq!(ts[0].content, "Fail to tokenize at character '#'");
    assert_eq!(ts[1].tp, TokenType::Number);
}

#[test]
fn keywords() {
    assert_eq!(keyword_or_identifier(&"while".to_string()), TokenType::While);
    assert_eq!(keyword_or_identifier(&"nil".to_string()), TokenType::Nil);
    assert_eq!(keyword_or_identifier(&"whale".to_string()), TokenType::Identifier);
    let kinds: Vec<TokenType> = tokens("and class else false for fun if or return super this true").iter().map(|t| t.tp).collect();
    assert_eq!(kinds[0], TokenType::And);
    assert_eq!(kinds[11], TokenType::True);
}

#[test]
fn number_with_trailing_point() {
    let ts = tokens("12.");
    assert_eq!(ts[0].tp, TokenType::Number);
    assert_eq!(ts[0].content, "12.");
}

#[test]
fn identifiers_stop_at_digits() {
    let ts = tokens("x1");
    assert_eq!(ts[0].tp, TokenType::Identifier);
    assert_eq!(ts[0].content, "x");
    assert_eq!(ts[1].tp, TokenType::Number);
}

#[test]
fn token_show() {
    let ts = tokens("foo 3 \"s");
    assert_eq!(ts[0].show(), "@foo");
    assert_eq!(ts[1].show(), "3");
    assert_eq!(ts[2].show(), "<error: Non-terminated string literal>");
    assert_eq!(ts[3].show(), "<eof>");
}
