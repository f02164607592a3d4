use lox_scanner::error::Report;
use lox_scanner::lox::Lox;
use lox_scanner::scanner::Scanner;
use lox_scanner::tokens::{Literal, Token, TokenType};

fn scan(source: &str) -> (Vec<Token>, Vec<Report>) {
    Lox::new().run(source.to_string())
}

fn kinds(tokens: &[Token]) -> Vec<TokenType> {
    tokens.iter().map(|t| t.token_type).collect()
}

#[test]
fn empty_source_yields_only_eof_on_line_one() {
    let (tokens, reports) = scan("");
    assert_eq!(tokens.len(), 1);
    assert_eq!(tokens[0].token_type, TokenType::Eof);
    assert_eq!(tokens[0].lexeme, "");
    assert_eq!(tokens[0].literal, Literal::NoValue);
    assert_eq!(tokens[0].line, 1);
    assert!(reports.is_empty());
}

#[test]
fn punctuation_tokens_in_order() {
    let (tokens, reports) = scan("(){},.-+;*/");
    let expected = vec![
        TokenType::LeftParen,
        TokenType::RightParen,
        TokenType::LeftBrace,
        TokenType::RightBrace,
        TokenType::Comma,
        TokenType::Dot,
        TokenType::Minus,
        TokenType::Plus,
        TokenType::Semicolon,
        TokenType::Star,
        TokenType::Slash,
        TokenType::Eof,
    ];
    assert_eq!(kinds(&tokens), expected);
    assert_eq!(tokens.len(), 12);
    for (i, t) in tokens.iter().take(11).enumerate() {
        assert_eq!(t.lexeme.chars().count(), 1);
        assert_eq!(t.lexeme, "(){},.-+;*/"[i..i + 1]);
        assert_eq!(t.literal, Literal::NoValue);
        assert_eq!(t.line, 1);
    }
    assert!(reports.is_empty());
}

#[test]
fn operators_munch_maximally() {
    let (tokens, reports) = scan("!= == <= >= ! = < >");
    let expected = vec![
        TokenType::BangEqual,
        TokenType::EqualEqual,
        TokenType::LessEqual,
        TokenType::GreaterEqual,
        TokenType::Bang,
        TokenType::Equal,
        TokenType::Less,
        TokenType::Greater,
        TokenType::Eof,
    ];
    assert_eq!(kinds(&tokens), expected);
    assert_eq!(tokens[0].lexeme, "!=");
    assert_eq!(tokens[4].lexeme, "!");
    assert!(reports.is_empty());
}

#[test]
fn paired_operator_followed_by_more() {
    let (tokens, _) = scan("<=>");
    assert_eq!(kinds(&tokens), vec![TokenType::LessEqual, TokenType::Greater, TokenType::Eof]);
}

#[test]
fn lone_operator_at_end_of_source() {
    let (tokens, reports) = scan("!");
    assert_eq!(kinds(&tokens), vec![TokenType::Bang, TokenType::Eof]);
    assert!(reports.is_empty());
}

#[test]
fn line_comment_is_discarded_to_end_of_line() {
    let (tokens, reports) = scan("// nothing to see here\nfoo");
    assert_eq!(tokens.len(), 2);
    assert_eq!(tokens[0].token_type, TokenType::Identifier);
    assert_eq!(tokens[0].lexeme, "foo");
    assert_eq!(tokens[0].line, 2);
    assert_eq!(tokens[1].token_type, TokenType::Eof);
    assert!(reports.is_empty());
}

#[test]
fn comment_at_end_of_source_yields_only_eof() {
    let (tokens, reports) = scan("// the whole program");
    assert_eq!(kinds(&tokens), vec![TokenType::Eof]);
    assert!(reports.is_empty());
}

#[test]
fn string_literal_keeps_quotes_in_lexeme_only() {
    let (tokens, reports) = scan("\"abc\"");
    assert_eq!(tokens.len(), 2);
    assert_eq!(tokens[0].token_type, TokenType::String);
    assert_eq!(tokens[0].lexeme, "\"abc\"");
    assert_eq!(tokens[0].literal, Literal::String("abc".to_string()));
    assert_eq!(tokens[0].line, 1);
    assert_eq!(tokens[1].token_type, TokenType::Eof);
    assert!(reports.is_empty());
}

#[test]
fn unterminated_string_reports_and_emits_no_token() {
    let (tokens, reports) = scan("\"unterminated");
    assert_eq!(kinds(&tokens), vec![TokenType::Eof]);
    assert_eq!(reports.len(), 1);
    assert_eq!(reports[0].message, "Unterminated string");
    assert_eq!(reports[0].line, 1);
}

#[test]
fn string_over_two_lines_counts_the_newline() {
    let (tokens, reports) = scan("\"a\nb\" c");
    assert_eq!(tokens.len(), 3);
    assert_eq!(tokens[0].token_type, TokenType::String);
    assert_eq!(tokens[0].lexeme, "\"a\nb\"");
    assert_eq!(tokens[0].literal, Literal::String("a\nb".to_string()));
    assert_eq!(tokens[0].line, 1);
    assert_eq!(tokens[1].token_type, TokenType::Identifier);
    assert_eq!(tokens[1].lexeme, "c");
    assert_eq!(tokens[1].line, 2);
    assert_eq!(tokens[2].token_type, TokenType::Eof);
    assert_eq!(tokens[2].line, 2);
    assert!(reports.is_empty());
}

#[test]
fn unterminated_string_reports_on_last_line_reached() {
    let (_, reports) = scan("\"a\nbc");
    assert_eq!(reports.len(), 1);
    assert_eq!(reports[0].message, "Unterminated string");
    assert_eq!(reports[0].line, 2);
}

#[test]
fn integer_number_literal() {
    let (tokens, reports) = scan("123");
    assert_eq!(tokens.len(), 2);
    assert_eq!(tokens[0].token_type, TokenType::Number);
    assert_eq!(tokens[0].lexeme, "123");
    assert_eq!(tokens[0].literal, Literal::Number(123));
    assert_eq!(tokens[1].token_type, TokenType::Eof);
    assert!(reports.is_empty());
}

#[test]
fn fractional_digits_lengthen_lexeme_but_carry_no_value() {
    // The stored value comes from the integer digits alone; the digits after
    // the point are consumed into the lexeme without contributing.
    let (tokens, reports) = scan("12.5");
    assert_eq!(tokens.len(), 2);
    assert_eq!(tokens[0].token_type, TokenType::Number);
    assert_eq!(tokens[0].lexeme, "12.5");
    assert_eq!(tokens[0].literal, Literal::Number(12));
    assert!(reports.is_empty());
}

#[test]
fn point_without_digit_stays_a_dot() {
    let (tokens, _) = scan("1.x");
    assert_eq!(
        kinds(&tokens),
        vec![TokenType::Number, TokenType::Dot, TokenType::Identifier, TokenType::Eof]
    );
    assert_eq!(tokens[0].lexeme, "1");
    assert_eq!(tokens[0].literal, Literal::Number(1));
}

#[test]
fn identifier_token() {
    let (tokens, reports) = scan("foo");
    assert_eq!(tokens.len(), 2);
    assert_eq!(tokens[0].token_type, TokenType::Identifier);
    assert_eq!(tokens[0].lexeme, "foo");
    assert_eq!(tokens[0].literal, Literal::NoValue);
    assert!(reports.is_empty());
}

#[test]
fn reserved_word_shadows_identifier() {
    let (tokens, _) = scan("for");
    assert_eq!(kinds(&tokens), vec![TokenType::For, TokenType::Eof]);
    assert_eq!(tokens[0].lexeme, "for");
    assert_eq!(tokens[0].literal, Literal::NoValue);
}

#[test]
fn all_reserved_words() {
    let source = "and class else false fun for if nil or print return super this true var while";
    let (tokens, reports) = scan(source);
    let expected = vec![
        TokenType::And,
        TokenType::Class,
        TokenType::Else,
        TokenType::False,
        TokenType::Fun,
        TokenType::For,
        TokenType::If,
        TokenType::Nil,
        TokenType::Or,
        TokenType::Print,
        TokenType::Return,
        TokenType::Super,
        TokenType::This,
        TokenType::True,
        TokenType::Var,
        TokenType::While,
        TokenType::Eof,
    ];
    assert_eq!(kinds(&tokens), expected);
    assert!(reports.is_empty());
}

#[test]
fn word_with_keyword_prefix_is_an_identifier() {
    let (tokens, _) = scan("format");
    assert_eq!(kinds(&tokens), vec![TokenType::Identifier, TokenType::Eof]);
    assert_eq!(tokens[0].lexeme, "format");
}

#[test]
fn letters_beyond_ascii_form_identifiers() {
    let (tokens, reports) = scan("caf\u{e9}");
    assert_eq!(kinds(&tokens), vec![TokenType::Identifier, TokenType::Eof]);
    assert_eq!(tokens[0].lexeme, "caf\u{e9}");
    assert!(reports.is_empty());
}

#[test]
fn unexpected_character_is_reported_and_skipped() {
    let (tokens, reports) = scan("@+");
    assert_eq!(kinds(&tokens), vec![TokenType::Plus, TokenType::Eof]);
    assert_eq!(reports.len(), 1);
    assert_eq!(reports[0].message, "Unexpected character");
    assert_eq!(reports[0].line, 1);
}

#[test]
fn whitespace_is_discarded_and_newlines_count_lines() {
    let (tokens, reports) = scan(" \t\r\n\n+");
    assert_eq!(kinds(&tokens), vec![TokenType::Plus, TokenType::Eof]);
    assert_eq!(tokens[0].line, 3);
    assert_eq!(tokens[1].line, 3);
    assert!(reports.is_empty());
}

#[test]
fn scan_never_stops_on_errors() {
    let (tokens, reports) = scan("@ # 1");
    assert_eq!(kinds(&tokens), vec![TokenType::Number, TokenType::Eof]);
    assert_eq!(reports.len(), 2);
    assert_eq!(reports[0].message, "Unexpected character");
    assert_eq!(reports[1].message, "Unexpected character");
}

#[test]
fn scanner_type_drives_the_same_scan() {
    let mut scanner = Scanner::new("var x;".to_string());
    let tokens = scanner.scan_tokens();
    assert_eq!(
        kinds(&tokens),
        vec![TokenType::Var, TokenType::Identifier, TokenType::Semicolon, TokenType::Eof]
    );
    assert!(scanner.errors.reports.is_empty());
}

#[test]
fn mixed_program_line_and_order() {
    let source = "var language = \"lox\";\nprint 2024; // year";
    let (tokens, reports) = scan(source);
    let expected = vec![
        TokenType::Var,
        TokenType::Identifier,
        TokenType::Equal,
        TokenType::String,
        TokenType::Semicolon,
        TokenType::Print,
        TokenType::Number,
        TokenType::Semicolon,
        TokenType::Eof,
    ];
    assert_eq!(kinds(&tokens), expected);
    assert_eq!(tokens[3].literal, Literal::String("lox".to_string()));
    assert_eq!(tokens[6].literal, Literal::Number(2024));
    assert_eq!(tokens[0].line, 1);
    assert_eq!(tokens[5].line, 2);
    assert!(reports.is_empty());
}
