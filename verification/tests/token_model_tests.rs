use lox_scanner::error::Error;
use lox_scanner::tokens::{Literal, Token, TokenType};

#[test]
fn token_new_keeps_its_fields() {
    let t = Token::new(TokenType::Number, "42".to_string(), Literal::Number(42), 7);
    assert_eq!(t.token_type, TokenType::Number);
    assert_eq!(t.lexeme, "42");
    assert_eq!(t.literal, Literal::Number(42));
    assert_eq!(t.line, 7);
}

#[test]
fn keyword_table_maps_reserved_words() {
    assert_eq!(TokenType::get_keyword_type("and"), TokenType::And);
    assert_eq!(TokenType::get_keyword_type("while"), TokenType::While);
    assert_eq!(TokenType::get_keyword_type("nil"), TokenType::Nil);
    assert_eq!(TokenType::get_keyword_type("banana"), TokenType::NonExistent);
    assert_eq!(TokenType::get_keyword_type(""), TokenType::NonExistent);
    assert_eq!(TokenType::get_keyword_type("And"), TokenType::NonExistent);
}

#[test]
fn complain_accumulates_reports_in_order() {
    let mut errors = Error::new();
    assert!(errors.reports.is_empty());
    errors.complain(3, "Unexpected character".to_string());
    errors.complain(9, "Unterminated string".to_string());
    assert_eq!(errors.reports.len(), 2);
    assert_eq!(errors.reports[0].line, 3);
    assert_eq!(errors.reports[0].message, "Unexpected character");
    assert_eq!(errors.reports[1].line, 9);
    assert_eq!(errors.reports[1].message, "Unterminated string");
    let taken = errors.take_reports();
    assert_eq!(taken.len(), 2);
    assert!(errors.reports.is_empty());
}
