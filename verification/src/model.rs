//! The mathematical model of a scan: what tokens and error reports a given
//! source text yields, defined by recursion over the character sequence.

use vstd::prelude::*;

use crate::chars::{
    alphabetic, alphanumeric, is_digit_char, is_operator_start, is_simple_punct,
    lone_operator_kind, paired_operator_kind, simple_punct_kind,
};
use crate::error::ReportModel;
use crate::tokens::{keyword_kind, LiteralModel, TokenModel, TokenType};

verus! {

/// The position where a line comment ends: the next newline at or after `i`,
/// or the end of the source.  The newline itself is not part of the comment.
pub open spec fn comment_end(src: Seq<char>, i: int) -> int
    decreases src.len() - i,
{
    if i >= src.len() {
        i
    } else if src[i] != '\n' {
        comment_end(src, i + 1)
    } else {
        i
    }
}

/// The position of the closing quote of a string whose body starts at `i`,
/// or the end of the source if the quote never comes.
pub open spec fn string_body_end(src: Seq<char>, i: int) -> int
    decreases src.len() - i,
{
    if i >= src.len() {
        i
    } else if src[i] != '"' {
        string_body_end(src, i + 1)
    } else {
        i
    }
}

/// The end of the maximal run of ASCII digits starting at `i`.
pub open spec fn digits_end(src: Seq<char>, i: int) -> int
    decreases src.len() - i,
{
    if i >= src.len() {
        i
    } else if is_digit_char(src[i]) {
        digits_end(src, i + 1)
    } else {
        i
    }
}

/// The end of the maximal run of letter-or-digit characters starting at `i`.
pub open spec fn word_end(src: Seq<char>, i: int) -> int
    decreases src.len() - i,
{
    if i >= src.len() {
        i
    } else if alphanumeric(src[i]) {
        word_end(src, i + 1)
    } else {
        i
    }
}

pub proof fn lemma_comment_end(src: Seq<char>, i: int)
    requires
        0 <= i <= src.len(),
    ensures
        i <= comment_end(src, i) <= src.len(),
        forall|j: int| i <= j < comment_end(src, i) ==> src[j] != '\n',
        comment_end(src, i) < src.len() ==> src[comment_end(src, i)] == '\n',
    decreases src.len() - i,
{
    if i < src.len() && src[i] != '\n' {
        lemma_comment_end(src, i + 1);
    }
}

pub proof fn lemma_string_body_end(src: Seq<char>, i: int)
    requires
        0 <= i <= src.len(),
    ensures
        i <= string_body_end(src, i) <= src.len(),
        forall|j: int| i <= j < string_body_end(src, i) ==> src[j] != '"',
        string_body_end(src, i) < src.len() ==> src[string_body_end(src, i)] == '"',
    decreases src.len() - i,
{
    if i < src.len() && src[i] != '"' {
        lemma_string_body_end(src, i + 1);
    }
}

pub proof fn lemma_digits_end(src: Seq<char>, i: int)
    requires
        0 <= i <= src.len(),
    ensures
        i <= digits_end(src, i) <= src.len(),
        forall|j: int| i <= j < digits_end(src, i) ==> is_digit_char(src[j]),
        digits_end(src, i) < src.len() ==> !is_digit_char(src[digits_end(src, i)]),
    decreases src.len() - i,
{
    if i < src.len() && is_digit_char(src[i]) {
        lemma_digits_end(src, i + 1);
    }
}

pub proof fn lemma_word_end(src: Seq<char>, i: int)
    requires
        0 <= i <= src.len(),
    ensures
        i <= word_end(src, i) <= src.len(),
        forall|j: int| i <= j < word_end(src, i) ==> alphanumeric(src[j]),
        word_end(src, i) < src.len() ==> !alphanumeric(src[word_end(src, i)]),
    decreases src.len() - i,
{
    if i < src.len() && alphanumeric(src[i]) {
        lemma_word_end(src, i + 1);
    }
}

/// How many times `c` occurs in `src` at positions `i <= p < j`.
pub open spec fn count_char(src: Seq<char>, i: int, j: int, c: char) -> int
    decreases j - i,
{
    if j <= i {
        0
    } else {
        count_char(src, i, j - 1, c) + (if src[j - 1] == c {
            1int
        } else {
            0int
        })
    }
}

pub proof fn lemma_count_char_bounds(src: Seq<char>, i: int, j: int, c: char)
    requires
        i <= j,
    ensures
        0 <= count_char(src, i, j, c) <= j - i,
    decreases j - i,
{
    if i < j {
        lemma_count_char_bounds(src, i, j - 1, c);
    }
}

/// The numeric value of one ASCII digit character.
pub open spec fn digit_value(c: char) -> int {
    c as int - '0' as int
}

/// The base-ten value of a run of ASCII digit characters.
pub open spec fn decimal_value(s: Seq<char>) -> int
    decreases s.len(),
{
    if s.len() == 0 {
        0
    } else {
        decimal_value(s.drop_last()) * 10 + digit_value(s.last())
    }
}

/// The 64-bit value stored for a number literal.  Only the digits before any
/// fractional point contribute, and the value is reduced modulo 2^64; the
/// fractional digits are consumed into the lexeme but carry no value.
pub open spec fn number_value(s: Seq<char>) -> u64 {
    (decimal_value(s) % 0x1_0000_0000_0000_0000) as u64
}

/// The message reported for a character no token form recognizes.
pub open spec fn unexpected_character_message() -> Seq<char> {
    "Unexpected character"@
}

/// The message reported for a string whose closing quote never comes.
pub open spec fn unterminated_string_message() -> Seq<char> {
    "Unterminated string"@
}

/// What one dispatch of the scanner does at position `pos` on line `line`:
/// the token it emits (if any), the errors it reports, and the cursor and
/// line it leaves behind.
pub ghost struct Step {
    pub token: Option<TokenModel>,
    pub reports: Seq<ReportModel>,
    pub next: int,
    pub line: int,
}

/// A token without a literal value.
pub open spec fn plain_token(kind: TokenType, lexeme: Seq<char>, line: int) -> TokenModel {
    TokenModel { kind, lexeme, literal: LiteralModel::NoValue, line }
}

/// The end-of-input marker: empty lexeme, no literal value.
pub open spec fn eof_token(line: int) -> TokenModel {
    plain_token(TokenType::Eof, Seq::empty(), line)
}

/// A string literal, entered at its opening quote at `pos`.  An unterminated
/// string reports an error and emits no token; a terminated one is attributed
/// to the line of its opening quote, while embedded newlines advance the line
/// counter.
pub open spec fn string_step(src: Seq<char>, pos: int, line: int) -> Step {
    let close = string_body_end(src, pos + 1);
    let nl = count_char(src, pos + 1, close, '\n');
    if close >= src.len() {
        Step {
            token: None,
            reports: seq![
                ReportModel { line: line + nl, message: unterminated_string_message() },
            ],
            next: src.len() as int,
            line: line + nl,
        }
    } else {
        Step {
            token: Some(
                TokenModel {
                    kind: TokenType::String,
                    lexeme: src.subrange(pos, close + 1),
                    literal: LiteralModel::Text(src.subrange(pos + 1, close)),
                    line,
                },
            ),
            reports: Seq::empty(),
            next: close + 1,
            line: line + nl,
        }
    }
}

/// A number literal, entered at its first digit at `pos`: a maximal digit
/// run, then a fractional point and a second digit run when a digit follows
/// the point.
pub open spec fn number_step(src: Seq<char>, pos: int, line: int) -> Step {
    let int_end = digits_end(src, pos + 1);
    let end = if int_end + 1 < src.len() && src[int_end] == '.' && is_digit_char(
        src[int_end + 1],
    ) {
        digits_end(src, int_end + 1)
    } else {
        int_end
    };
    Step {
        token: Some(
            TokenModel {
                kind: TokenType::Number,
                lexeme: src.subrange(pos, end),
                literal: LiteralModel::Num(number_value(src.subrange(pos, int_end))),
                line,
            },
        ),
        reports: Seq::empty(),
        next: end,
        line,
    }
}

/// An identifier or reserved word, entered at its first letter at `pos`.
pub open spec fn identifier_step(src: Seq<char>, pos: int, line: int) -> Step {
    let end = word_end(src, pos + 1);
    let text = src.subrange(pos, end);
    let kw = keyword_kind(text);
    let kind = if kw == TokenType::NonExistent {
        TokenType::Identifier
    } else {
        kw
    };
    Step {
        token: Some(plain_token(kind, text, line)),
        reports: Seq::empty(),
        next: end,
        line,
    }
}

/// One dispatch of the scanner on the character at `pos`.
pub open spec fn step_at(src: Seq<char>, pos: int, line: int) -> Step {
    let c = src[pos];
    if is_simple_punct(c) {
        Step {
            token: Some(plain_token(simple_punct_kind(c), src.subrange(pos, pos + 1), line)),
            reports: Seq::empty(),
            next: pos + 1,
            line,
        }
    } else if is_operator_start(c) {
        if pos + 1 < src.len() && src[pos + 1] == '=' {
            Step {
                token: Some(plain_token(paired_operator_kind(c), src.subrange(pos, pos + 2), line)),
                reports: Seq::empty(),
                next: pos + 2,
                line,
            }
        } else {
            Step {
                token: Some(plain_token(lone_operator_kind(c), src.subrange(pos, pos + 1), line)),
                reports: Seq::empty(),
                next: pos + 1,
                line,
            }
        }
    } else if c == '/' {
        if pos + 1 < src.len() && src[pos + 1] == '/' {
            Step { token: None, reports: Seq::empty(), next: comment_end(src, pos + 2), line }
        } else {
            Step {
                token: Some(plain_token(TokenType::Slash, src.subrange(pos, pos + 1), line)),
                reports: Seq::empty(),
                next: pos + 1,
                line,
            }
        }
    } else if c == ' ' || c == '\r' || c == '\t' {
        Step { token: None, reports: Seq::empty(), next: pos + 1, line }
    } else if c == '\n' {
        Step { token: None, reports: Seq::empty(), next: pos + 1, line: line + 1 }
    } else if c == '"' {
        string_step(src, pos, line)
    } else if is_digit_char(c) {
        number_step(src, pos, line)
    } else if alphabetic(c) {
        identifier_step(src, pos, line)
    } else {
        Step {
            token: None,
            reports: seq![ReportModel { line, message: unexpected_character_message() }],
            next: pos + 1,
            line,
        }
    }
}

/// The sequence a step contributes to the token stream: none or one token.
pub open spec fn emitted(token: Option<TokenModel>) -> Seq<TokenModel> {
    match token {
        Option::None => Seq::empty(),
        Option::Some(t) => seq![t],
    }
}

/// The result of a whole scan: the token stream and the error reports, each
/// in source order.
pub ghost struct ScanOut {
    pub tokens: Seq<TokenModel>,
    pub reports: Seq<ReportModel>,
}

/// Scanning from position `pos` on line `line` to the end of the source.
/// The stream always closes with the end-of-input token, attributed to the
/// last line reached.
pub open spec fn scan_from(src: Seq<char>, pos: int, line: int) -> ScanOut
    decreases src.len() - pos,
{
    if pos >= src.len() {
        ScanOut { tokens: seq![eof_token(line)], reports: Seq::empty() }
    } else {
        let st = step_at(src, pos, line);
        let next = if pos < st.next && st.next <= src.len() {
            st.next
        } else {
            pos + 1
        };
        let rest = scan_from(src, next, st.line);
        ScanOut { tokens: emitted(st.token) + rest.tokens, reports: st.reports + rest.reports }
    }
}

/// The full scan of a source text, from its first character, on line 1.
pub open spec fn spec_scan(src: Seq<char>) -> ScanOut {
    scan_from(src, 0, 1)
}

/// Every step consumes at least one character, never passes the end of the
/// source, and never moves the line counter backwards.
pub proof fn lemma_step_at_bounds(src: Seq<char>, pos: int, line: int)
    requires
        0 <= pos < src.len(),
    ensures
        pos < step_at(src, pos, line).next <= src.len(),
        step_at(src, pos, line).line >= line,
{
    let c = src[pos];
    if is_simple_punct(c) || is_operator_start(c) {
    } else if c == '/' {
        if pos + 1 < src.len() && src[pos + 1] == '/' {
            lemma_comment_end(src, pos + 2);
        }
    } else if c == ' ' || c == '\r' || c == '\t' || c == '\n' {
    } else if c == '"' {
        lemma_string_body_end(src, pos + 1);
        let close = string_body_end(src, pos + 1);
        lemma_count_char_bounds(src, pos + 1, close, '\n');
    } else if is_digit_char(c) {
        lemma_digits_end(src, pos + 1);
        let int_end = digits_end(src, pos + 1);
        if int_end + 1 < src.len() && src[int_end] == '.' && is_digit_char(src[int_end + 1]) {
            lemma_digits_end(src, int_end + 1);
        }
    } else if alphabetic(c) {
        lemma_word_end(src, pos + 1);
    }
}

/// Unfolds one step of `scan_from` at a position inside the source.
pub proof fn lemma_scan_from_step(src: Seq<char>, pos: int, line: int)
    requires
        0 <= pos < src.len(),
    ensures
        ({
            let st = step_at(src, pos, line);
            let rest = scan_from(src, st.next, st.line);
            scan_from(src, pos, line) == (ScanOut {
                tokens: emitted(st.token) + rest.tokens,
                reports: st.reports + rest.reports,
            })
        }),
{
    lemma_step_at_bounds(src, pos, line);
}

} // verus!
