//! Character classification used by the scanner.
//!
//! Digits are the ASCII decimal digits.  Letters and the letter-or-digit
//! class follow the Unicode tables of the standard library, so their exact
//! extension is taken on trust and given a name here.

use vstd::prelude::*;

use crate::tokens::TokenType;

verus! {

/// An ASCII decimal digit, the only kind of digit a number literal may hold.
pub open spec fn is_digit_char(c: char) -> bool {
    ('0' as int) <= (c as int) && (c as int) <= ('9' as int)
}

/// Whether `char::is_alphabetic` holds of `c`: a Unicode letter.
pub uninterp spec fn alphabetic(c: char) -> bool;

/// Whether `char::is_alphanumeric` holds of `c`: a Unicode letter or digit.
pub uninterp spec fn alphanumeric(c: char) -> bool;

pub fn is_digit(c: char) -> (r: bool)
    ensures
        r == is_digit_char(c),
{
    (c as u32) >= 48 && (c as u32) <= 57
}

/// Relies on `char::is_alphabetic`: whether the character is a Unicode
/// letter, a function of the character alone.
#[verifier::external_body]
pub fn is_alphabetic_char(c: char) -> (r: bool)
    ensures
        r == alphabetic(c),
{
    c.is_alphabetic()
}

/// Relies on `char::is_alphanumeric`: whether the character is a Unicode
/// letter or digit, a function of the character alone.
#[verifier::external_body]
pub fn is_alphanumeric_char(c: char) -> (r: bool)
    ensures
        r == alphanumeric(c),
{
    c.is_alphanumeric()
}

/// The ten punctuation characters that always form a token by themselves.
pub open spec fn is_simple_punct(c: char) -> bool {
    c == '(' || c == ')' || c == '{' || c == '}' || c == ',' || c == '.' || c == '-' || c == '+'
        || c == ';' || c == '*'
}

/// The token kind of a simple punctuation character.
pub open spec fn simple_punct_kind(c: char) -> TokenType {
    if c == '(' {
        TokenType::LeftParen
    } else if c == ')' {
        TokenType::RightParen
    } else if c == '{' {
        TokenType::LeftBrace
    } else if c == '}' {
        TokenType::RightBrace
    } else if c == ',' {
        TokenType::Comma
    } else if c == '.' {
        TokenType::Dot
    } else if c == '-' {
        TokenType::Minus
    } else if c == '+' {
        TokenType::Plus
    } else if c == ';' {
        TokenType::Semicolon
    } else {
        TokenType::Star
    }
}

/// The full single-character punctuation set, the slash included.
pub open spec fn is_punctuation(c: char) -> bool {
    is_simple_punct(c) || c == '/'
}

/// The token kind of any single punctuation character, the slash included.
pub open spec fn punctuation_kind(c: char) -> TokenType {
    if c == '/' {
        TokenType::Slash
    } else {
        simple_punct_kind(c)
    }
}

/// The characters that may open a two-character operator.
pub open spec fn is_operator_start(c: char) -> bool {
    c == '!' || c == '=' || c == '<' || c == '>'
}

/// The kind emitted when an operator character stands alone.
pub open spec fn lone_operator_kind(c: char) -> TokenType {
    if c == '!' {
        TokenType::Bang
    } else if c == '=' {
        TokenType::Equal
    } else if c == '<' {
        TokenType::Less
    } else {
        TokenType::Greater
    }
}

/// The kind emitted when an operator character is followed by `=`.
pub open spec fn paired_operator_kind(c: char) -> TokenType {
    if c == '!' {
        TokenType::BangEqual
    } else if c == '=' {
        TokenType::EqualEqual
    } else if c == '<' {
        TokenType::LessEqual
    } else {
        TokenType::GreaterEqual
    }
}

} // verus!
