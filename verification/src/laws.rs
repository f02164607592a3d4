//! General laws of the scan model, each proved for every input its statement
//! admits.

use vstd::prelude::*;

use crate::chars::{
    is_operator_start, is_punctuation, lone_operator_kind, paired_operator_kind, punctuation_kind,
};
use crate::model::{
    count_char, eof_token, lemma_comment_end, lemma_scan_from_step, plain_token, scan_from,
    spec_scan, step_at, string_body_end,
};
use crate::tokens::{LiteralModel, TokenModel, TokenType};

verus! {

proof fn lemma_punctuation_only_from(src: Seq<char>, pos: int)
    requires
        0 <= pos <= src.len(),
        forall|i: int| pos <= i < src.len() ==> is_punctuation(#[trigger] src[i]),
        forall|i: int| pos <= i < src.len() - 1 ==> !(src[i] == '/' && #[trigger] src[i + 1]
            == '/'),
    ensures
        scan_from(src, pos, 1).tokens.len() == src.len() - pos + 1,
        forall|i: int|
            pos <= i < src.len() ==> scan_from(src, pos, 1).tokens[i - pos] == plain_token(
                punctuation_kind(#[trigger] src[i]),
                src.subrange(i, i + 1),
                1,
            ),
        scan_from(src, pos, 1).tokens.last() == eof_token(1),
        scan_from(src, pos, 1).reports.len() == 0,
    decreases src.len() - pos,
{
    if pos < src.len() {
        let st = step_at(src, pos, 1);
        assert(st.next == pos + 1 && st.line == 1);
        lemma_scan_from_step(src, pos, 1);
        lemma_punctuation_only_from(src, pos + 1);
        let rest = scan_from(src, pos + 1, 1);
        assert(scan_from(src, pos, 1).tokens =~= seq![
            plain_token(punctuation_kind(src[pos]), src.subrange(pos, pos + 1), 1),
        ] + rest.tokens);
        assert forall|i: int| pos <= i < src.len() implies scan_from(src, pos, 1).tokens[i - pos]
            == plain_token(punctuation_kind(#[trigger] src[i]), src.subrange(i, i + 1), 1) by {
            if i > pos {
                assert(rest.tokens[i - (pos + 1)] == plain_token(
                    punctuation_kind(src[i]),
                    src.subrange(i, i + 1),
                    1,
                ));
            }
        }
        assert(scan_from(src, pos, 1).tokens.last() == rest.tokens.last());
    }
}

/// An input made only of the recognized single-character punctuation, with
/// no two adjacent slashes, scans to exactly one token per input character,
/// in input order, each carrying that one-character lexeme and no literal
/// value, followed by the end-of-input token; no error is reported.
pub proof fn lemma_punctuation_only(src: Seq<char>)
    requires
        forall|i: int| 0 <= i < src.len() ==> is_punctuation(#[trigger] src[i]),
        forall|i: int| 0 <= i < src.len() - 1 ==> !(src[i] == '/' && #[trigger] src[i + 1]
            == '/'),
    ensures
        spec_scan(src).tokens.len() == src.len() + 1,
        forall|i: int|
            0 <= i < src.len() ==> spec_scan(src).tokens[i] == plain_token(
                punctuation_kind(#[trigger] src[i]),
                src.subrange(i, i + 1),
                1,
            ),
        spec_scan(src).tokens.last() == eof_token(1),
        spec_scan(src).reports.len() == 0,
{
    lemma_punctuation_only_from(src, 0);
}

/// The operator characters `!`, `=`, `<`, `>` munch maximally: the
/// two-character kind is emitted exactly when `=` immediately follows, and
/// the one-character kind otherwise.
pub proof fn lemma_maximal_munch(src: Seq<char>, pos: int, line: int)
    requires
        0 <= pos < src.len(),
        is_operator_start(src[pos]),
    ensures
        pos + 1 < src.len() && src[pos + 1] == '=' ==> step_at(src, pos, line).token == Some(
            plain_token(paired_operator_kind(src[pos]), src.subrange(pos, pos + 2), line),
        ) && step_at(src, pos, line).next == pos + 2,
        !(pos + 1 < src.len() && src[pos + 1] == '=') ==> step_at(src, pos, line).token == Some(
            plain_token(lone_operator_kind(src[pos]), src.subrange(pos, pos + 1), line),
        ) && step_at(src, pos, line).next == pos + 1,
{
}

/// A line comment yields no token and no error; scanning resumes at the
/// next newline (or at the end of the source), and that newline, when
/// present, advances the line counter for what follows it.
pub proof fn lemma_line_comment(src: Seq<char>, pos: int, line: int)
    requires
        0 <= pos,
        pos + 1 < src.len(),
        src[pos] == '/',
        src[pos + 1] == '/',
    ensures
        step_at(src, pos, line).token is None,
        step_at(src, pos, line).reports.len() == 0,
        step_at(src, pos, line).line == line,
        pos + 2 <= step_at(src, pos, line).next <= src.len(),
        forall|j: int| pos + 2 <= j < step_at(src, pos, line).next ==> src[j] != '\n',
        step_at(src, pos, line).next < src.len() ==> src[step_at(src, pos, line).next] == '\n'
            && step_at(src, step_at(src, pos, line).next, line).line == line + 1,
        scan_from(src, pos, line).tokens == scan_from(src, step_at(src, pos, line).next, line).tokens,
        scan_from(src, pos, line).reports == scan_from(
            src,
            step_at(src, pos, line).next,
            line,
        ).reports,
{
    lemma_comment_end(src, pos + 2);
    lemma_scan_from_step(src, pos, line);
    assert(scan_from(src, pos, line).tokens =~= scan_from(
        src,
        step_at(src, pos, line).next,
        line,
    ).tokens);
    assert(scan_from(src, pos, line).reports =~= scan_from(
        src,
        step_at(src, pos, line).next,
        line,
    ).reports);
}

/// A terminated string token keeps the line of its opening quote, while the
/// line counter advances past each newline of the body, so the tokens after
/// the string report the incremented line.
pub proof fn lemma_string_line_tracking(src: Seq<char>, pos: int, line: int)
    requires
        0 <= pos < src.len(),
        src[pos] == '"',
        string_body_end(src, pos + 1) < src.len(),
    ensures
        ({
            let close = string_body_end(src, pos + 1);
            let st = step_at(src, pos, line);
            st.token == Some(
                TokenModel {
                    kind: TokenType::String,
                    lexeme: src.subrange(pos, close + 1),
                    literal: LiteralModel::Text(src.subrange(pos + 1, close)),
                    line,
                },
            ) && st.next == close + 1 && st.line == line + count_char(src, pos + 1, close, '\n')
        }),
{
}

/// Every scan result holds at least one token and closes with the
/// end-of-input token: kind `Eof`, an empty lexeme, no literal value.
pub proof fn lemma_scan_ends_with_eof(src: Seq<char>, pos: int, line: int)
    requires
        0 <= pos,
    ensures
        scan_from(src, pos, line).tokens.len() >= 1,
        scan_from(src, pos, line).tokens.last().kind == TokenType::Eof,
        scan_from(src, pos, line).tokens.last().lexeme == Seq::<char>::empty(),
        scan_from(src, pos, line).tokens.last().literal == LiteralModel::NoValue,
    decreases src.len() - pos,
{
    if pos < src.len() {
        let st = step_at(src, pos, line);
        let next = if pos < st.next && st.next <= src.len() {
            st.next
        } else {
            pos + 1
        };
        lemma_scan_ends_with_eof(src, next, st.line);
        let rest = scan_from(src, next, st.line);
        assert(scan_from(src, pos, line).tokens.last() == rest.tokens.last());
    }
}

} // verus!
