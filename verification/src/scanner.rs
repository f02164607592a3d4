//! The scanner: a cursor over the source text that emits tokens one
//! dispatch at a time, exactly as the scan model describes.

use vstd::prelude::*;
use vstd::string::StrSliceExecFns;

use crate::chars::{is_alphabetic_char, is_alphanumeric_char, is_digit, is_digit_char};
use crate::error::{Error, ReportModel};
use crate::model::{
    comment_end, count_char, decimal_value, digit_value, digits_end, emitted, eof_token,
    lemma_comment_end, lemma_count_char_bounds, lemma_digits_end, lemma_scan_from_step,
    lemma_step_at_bounds, lemma_string_body_end, lemma_word_end, number_step, number_value,
    scan_from, step_at, string_body_end, string_step, word_end,
};
use crate::tokens::{Literal, Token, TokenModel, TokenType};

verus! {

/// Owns the source text and the scan cursor, and accumulates the tokens and
/// error reports of one scan.
pub struct Scanner {
    pub source: String,
    /// The number of characters in `source`, cached at construction.
    pub chars_len: usize,
    /// Where the token being built begins.
    pub start: usize,
    /// The read cursor.
    pub current: usize,
    /// The 1-based line the cursor stands on.
    pub line: usize,
    pub tokens: Vec<Token>,
    pub errors: Error,
}

impl Scanner {
    /// The characters being scanned.
    pub open spec fn src(self) -> Seq<char> {
        self.source@
    }

    /// The tokens accumulated so far.
    pub open spec fn toks(self) -> Seq<TokenModel> {
        self.tokens.deep_view()
    }

    /// The error reports accumulated so far.
    pub open spec fn reps(self) -> Seq<ReportModel> {
        self.errors.reports.deep_view()
    }

    /// Internal consistency: the cached length is the character count, the
    /// cursor pair stays inside the source, and the line counter stays
    /// 1-based and cannot outrun the characters consumed.
    pub open spec fn wf(self) -> bool {
        &&& self.chars_len == self.src().len()
        &&& self.src().len() < usize::MAX
        &&& self.start <= self.current
        &&& self.current <= self.src().len()
        &&& 1 <= self.line
        &&& self.line <= self.current + 1
    }

    /// A fresh scanner over `source`, at the first character of line 1, with
    /// nothing accumulated.
    pub fn new(source: String) -> (s: Scanner)
        requires
            source@.len() < usize::MAX,
        ensures
            s.wf(),
            s.source == source,
            s.start == 0,
            s.current == 0,
            s.line == 1,
            s.toks() == Seq::<TokenModel>::empty(),
            s.reps() == Seq::<ReportModel>::empty(),
    {
        let chars_len = source.as_str().unicode_len();
        let s = Scanner {
            source,
            chars_len,
            start: 0,
            current: 0,
            line: 1,
            tokens: Vec::new(),
            errors: Error::new(),
        };
        proof {
            assert(s.toks() =~= Seq::<TokenModel>::empty());
        }
        s
    }

    fn is_end(&self) -> (r: bool)
        requires
            self.wf(),
        ensures
            r == (self.current >= self.src().len()),
    {
        self.current >= self.chars_len
    }

    /// The character under the cursor, or the null character at the end.
    fn peek(&self) -> (c: char)
        requires
            self.wf(),
        ensures
            self.current < self.src().len() ==> c == self.src()[self.current as int],
            self.current >= self.src().len() ==> c == '\0',
    {
        if self.is_end() {
            '\0'
        } else {
            self.source.as_str().get_char(self.current)
        }
    }

    /// The character after the cursor, or the null character past the end.
    fn peek_next(&self) -> (c: char)
        requires
            self.wf(),
        ensures
            self.current + 1 < self.src().len() ==> c == self.src()[self.current as int + 1],
            self.current + 1 >= self.src().len() ==> c == '\0',
    {
        if self.current < self.chars_len && self.chars_len - self.current >= 2 {
            self.source.as_str().get_char(self.current + 1)
        } else {
            '\0'
        }
    }

    /// Consumes and returns the character under the cursor.
    fn advance(&mut self) -> (c: char)
        requires
            old(self).wf(),
            old(self).current < old(self).src().len(),
        ensures
            final(self).wf(),
            c == old(self).src()[old(self).current as int],
            final(self).current == old(self).current + 1,
            final(self).source == old(self).source,
            final(self).chars_len == old(self).chars_len,
            final(self).start == old(self).start,
            final(self).line == old(self).line,
            final(self).tokens == old(self).tokens,
            final(self).errors == old(self).errors,
    {
        let c = self.source.as_str().get_char(self.current);
        self.current = self.current + 1;
        c
    }

    /// Appends a token for the source text between `start` and `current`,
    /// attributed to the line the cursor stands on.
    fn add_token(&mut self, token_type: TokenType, literal: Literal)
        requires
            old(self).wf(),
        ensures
            final(self).wf(),
            final(self).toks() == old(self).toks().push(
                TokenModel {
                    kind: token_type,
                    lexeme: old(self).src().subrange(
                        old(self).start as int,
                        old(self).current as int,
                    ),
                    literal: literal@,
                    line: old(self).line as int,
                },
            ),
            final(self).source == old(self).source,
            final(self).chars_len == old(self).chars_len,
            final(self).start == old(self).start,
            final(self).current == old(self).current,
            final(self).line == old(self).line,
            final(self).errors == old(self).errors,
    {
        let ghost expected = TokenModel {
            kind: token_type,
            lexeme: self.src().subrange(self.start as int, self.current as int),
            literal: literal@,
            line: self.line as int,
        };
        let text = self.source.as_str().substring_char(self.start, self.current).to_owned();
        let t = Token::new(token_type, text, literal, self.line);
        let ghost prior = self.toks();
        self.tokens.push(t);
        proof {
            assert(self.toks() =~~= prior.push(expected));
        }
    }

    fn add_token_with_no_value(&mut self, token_type: TokenType)
        requires
            old(self).wf(),
        ensures
            final(self).wf(),
            final(self).toks() == old(self).toks().push(
                TokenModel {
                    kind: token_type,
                    lexeme: old(self).src().subrange(
                        old(self).start as int,
                        old(self).current as int,
                    ),
                    literal: crate::tokens::LiteralModel::NoValue,
                    line: old(self).line as int,
                },
            ),
            final(self).source == old(self).source,
            final(self).chars_len == old(self).chars_len,
            final(self).start == old(self).start,
            final(self).current == old(self).current,
            final(self).line == old(self).line,
            final(self).errors == old(self).errors,
    {
        self.add_token(token_type, Literal::NoValue)
    }

    /// Consumes the next character exactly when it equals `expected`.
    fn match_next(&mut self, expected: char) -> (r: bool)
        requires
            old(self).wf(),
        ensures
            final(self).wf(),
            r == (old(self).current < old(self).src().len() && old(self).src()[old(self).current as int] == expected),
            r ==> final(self).current == old(self).current + 1,
            !r ==> final(self).current == old(self).current,
            final(self).source == old(self).source,
            final(self).chars_len == old(self).chars_len,
            final(self).start == old(self).start,
            final(self).line == old(self).line,
            final(self).tokens == old(self).tokens,
            final(self).errors == old(self).errors,
    {
        if self.is_end() {
            return false;
        }
        let dc = self.source.as_str().get_char(self.current);
        if dc != expected {
            return false;
        }
        self.current = self.current + 1;
        true
    }

    /// Emits the two-character operator when `expected` follows, the
    /// one-character operator otherwise.
    fn add_token_if_match_next(&mut self, expected: char, matched: TokenType, lone: TokenType)
        requires
            old(self).wf(),
        ensures
            final(self).wf(),
            final(self).source == old(self).source,
            final(self).chars_len == old(self).chars_len,
            final(self).start == old(self).start,
            final(self).line == old(self).line,
            final(self).errors == old(self).errors,
            ({
                let follows = old(self).current < old(self).src().len() && old(self).src()[old(self).current as int] == expected;
                if follows {
                    final(self).current == old(self).current + 1 && final(self).toks() == old(self).toks().push(
                        TokenModel {
                            kind: matched,
                            lexeme: old(self).src().subrange(
                                old(self).start as int,
                                old(self).current as int + 1,
                            ),
                            literal: crate::tokens::LiteralModel::NoValue,
                            line: old(self).line as int,
                        },
                    )
                } else {
                    final(self).current == old(self).current && final(self).toks() == old(self).toks().push(
                        TokenModel {
                            kind: lone,
                            lexeme: old(self).src().subrange(
                                old(self).start as int,
                                old(self).current as int,
                            ),
                            literal: crate::tokens::LiteralModel::NoValue,
                            line: old(self).line as int,
                        },
                    )
                }
            }),
    {
        if self.match_next(expected) {
            self.add_token_with_no_value(matched);
        } else {
            self.add_token_with_no_value(lone);
        }
    }

    /// Discards the rest of the line: a comment's body.  The newline itself
    /// is left for the main dispatch, which counts it.
    fn skip_line(&mut self)
        requires
            old(self).wf(),
        ensures
            final(self).wf(),
            final(self).current == comment_end(old(self).src(), old(self).current as int),
            final(self).source == old(self).source,
            final(self).chars_len == old(self).chars_len,
            final(self).start == old(self).start,
            final(self).line == old(self).line,
            final(self).tokens == old(self).tokens,
            final(self).errors == old(self).errors,
    {
        let ghost orig = *self;
        let ghost src = self.src();
        proof {
            lemma_comment_end(orig.src(), orig.current as int);
        }
        while !self.is_end() && self.peek() != '\n'
            invariant
                self.wf(),
                self.source == orig.source,
                src == self.src(),
                self.chars_len == orig.chars_len,
                self.start == orig.start,
                self.line == orig.line,
                self.tokens == orig.tokens,
                self.errors == orig.errors,
                orig.current <= self.current,
                comment_end(orig.src(), orig.current as int) == comment_end(
                    self.src(),
                    self.current as int,
                ),
            decreases self.src().len() - self.current,
        {
            self.advance();
        }
    }

    /// A string literal: the opening quote has just been consumed.  The body
    /// runs to the closing quote; each embedded newline advances the line
    /// counter, but the token keeps the line of its opening quote.  When the
    /// source ends first, an error is reported and no token is emitted.
    fn read_string(&mut self)
        requires
            old(self).wf(),
            old(self).current == old(self).start + 1,
            old(self).start < old(self).src().len(),
            old(self).src()[old(self).start as int] == '"',
        ensures
            final(self).wf(),
            final(self).source == old(self).source,
            final(self).chars_len == old(self).chars_len,
            final(self).start == old(self).start,
            ({
                let st = string_step(old(self).src(), old(self).start as int, old(self).line as int);
                final(self).current == st.next && final(self).line as int == st.line && final(self).toks() == old(self).toks() + emitted(st.token) && final(self).reps() == old(self).reps() + st.reports
            }),
    {
        let ghost orig = *self;
        let ghost src = self.src();
        let line_start = self.line;
        proof {
            lemma_string_body_end(src, orig.current as int);
        }
        while !self.is_end() && self.peek() != '"'
            invariant
                self.wf(),
                self.source == orig.source,
                src == self.src(),
                self.chars_len == orig.chars_len,
                self.start == orig.start,
                self.tokens == orig.tokens,
                self.errors == orig.errors,
                orig.current <= self.current,
                string_body_end(src, orig.current as int) == string_body_end(
                    src,
                    self.current as int,
                ),
                self.line as int == orig.line as int + count_char(
                    src,
                    orig.current as int,
                    self.current as int,
                    '\n',
                ),
                line_start == orig.line,
            decreases self.src().len() - self.current,
        {
            proof {
                lemma_count_char_bounds(src, orig.current as int, self.current as int, '\n');
            }
            let c = self.advance();
            if c == '\n' {
                self.line = self.line + 1;
            }
        }
        let ghost close = string_body_end(src, orig.current as int);
        if self.is_end() {
            self.errors.complain(self.line, "Unterminated string".to_owned());
            proof {
                let st = string_step(src, orig.start as int, orig.line as int);
                assert(self.reps() =~~= orig.reps() + st.reports);
                assert(self.toks() =~~= orig.toks() + emitted(st.token));
            }
            return;
        }
        self.advance();
        let value = self.source.as_str().substring_char(self.start + 1, self.current - 1).to_owned();
        let text = self.source.as_str().substring_char(self.start, self.current).to_owned();
        let t = Token::new(TokenType::String, text, Literal::String(value), line_start);
        let ghost prior = self.toks();
        self.tokens.push(t);
        proof {
            let st = string_step(src, orig.start as int, orig.line as int);
            assert(self.toks() =~~= orig.toks() + emitted(st.token));
            assert(self.reps() =~~= orig.reps() + st.reports);
        }
    }

    /// A number literal: the first digit has just been consumed.  A maximal
    /// digit run, then a fractional point and a second run when a digit
    /// follows the point.  The stored value comes from the integer digits
    /// alone, reduced modulo 2^64; the fractional digits only lengthen the
    /// lexeme.
    fn read_number(&mut self)
        requires
            old(self).wf(),
            old(self).current == old(self).start + 1,
            old(self).start < old(self).src().len(),
            is_digit_char(old(self).src()[old(self).start as int]),
        ensures
            final(self).wf(),
            final(self).source == old(self).source,
            final(self).chars_len == old(self).chars_len,
            final(self).start == old(self).start,
            final(self).line == old(self).line,
            final(self).errors == old(self).errors,
            ({
                let st = number_step(old(self).src(), old(self).start as int, old(self).line as int);
                final(self).current == st.next && final(self).toks() == old(self).toks() + emitted(
                    st.token,
                )
            }),
    {
        let ghost orig = *self;
        let ghost src = self.src();
        proof {
            lemma_digits_end(src, orig.current as int);
        }
        while is_digit(self.peek())
            invariant
                self.wf(),
                self.source == orig.source,
                src == self.src(),
                self.chars_len == orig.chars_len,
                self.start == orig.start,
                self.line == orig.line,
                self.tokens == orig.tokens,
                self.errors == orig.errors,
                orig.current <= self.current,
                digits_end(src, orig.current as int) == digits_end(src, self.current as int),
            decreases self.src().len() - self.current,
        {
            self.advance();
        }
        let int_end = self.current;
        if self.peek() == '.' && is_digit(self.peek_next()) {
            self.advance();
            proof {
                lemma_digits_end(src, self.current as int);
            }
            let ghost frac_from = self.current as int;
            while is_digit(self.peek())
                invariant
                    self.wf(),
                    self.source == orig.source,
                    src == self.src(),
                    self.chars_len == orig.chars_len,
                    self.start == orig.start,
                    self.line == orig.line,
                    self.tokens == orig.tokens,
                    self.errors == orig.errors,
                    frac_from <= self.current as int,
                    digits_end(src, frac_from) == digits_end(src, self.current as int),
                decreases self.src().len() - self.current,
            {
                self.advance();
            }
        }
        let ghost pos = orig.start as int;
        let ghost int_digits = src.subrange(pos, int_end as int);
        let mut value: u64 = 0;
        let mut i: usize = self.start;
        while i < int_end
            invariant
                orig.start <= i <= int_end,
                int_end <= src.len(),
                src == self.src(),
                self.start == orig.start,
                forall|j: int| orig.start <= j < int_end ==> is_digit_char(src[j]),
                value == number_value(src.subrange(orig.start as int, i as int)),
            decreases int_end - i,
        {
            let c = self.source.as_str().get_char(i);
            let d = (c as u32) - 48;
            let wide: u128 = (value as u128) * 10 + (d as u128);
            let next_value = (wide % 0x1_0000_0000_0000_0000u128) as u64;
            proof {
                let m = 0x1_0000_0000_0000_0000int;
                let prefix = src.subrange(orig.start as int, i as int);
                let prefix1 = src.subrange(orig.start as int, i as int + 1);
                assert(prefix1.drop_last() =~= prefix);
                assert(prefix1.last() == src[i as int]);
                let dv = decimal_value(prefix);
                let dd = digit_value(src[i as int]);
                vstd::arithmetic::div_mod::lemma_mul_mod_noop_left(dv, 10, m);
                vstd::arithmetic::div_mod::lemma_add_mod_noop((dv % m) * 10, dd, m);
                vstd::arithmetic::div_mod::lemma_add_mod_noop(dv * 10, dd, m);
                vstd::arithmetic::div_mod::lemma_small_mod(dd as nat, m as nat);
                assert(decimal_value(prefix1) == dv * 10 + dd);
                assert(next_value == number_value(prefix1));
            }
            value = next_value;
            i = i + 1;
        }
        proof {
            assert(src.subrange(orig.start as int, int_end as int) =~= int_digits);
        }
        self.add_token(TokenType::Number, Literal::Number(value));
        proof {
            let st = number_step(src, pos, orig.line as int);
            assert(self.toks() =~~= orig.toks() + emitted(st.token));
        }
    }

    /// An identifier or reserved word: the first letter has just been
    /// consumed.  The maximal letter-or-digit run is looked up in the
    /// reserved-word table; an unreserved word is an identifier.
    fn read_identifier(&mut self)
        requires
            old(self).wf(),
            old(self).current == old(self).start + 1,
            old(self).start < old(self).src().len(),
        ensures
            final(self).wf(),
            final(self).source == old(self).source,
            final(self).chars_len == old(self).chars_len,
            final(self).start == old(self).start,
            final(self).line == old(self).line,
            final(self).errors == old(self).errors,
            ({
                let st = crate::model::identifier_step(
                    old(self).src(),
                    old(self).start as int,
                    old(self).line as int,
                );
                final(self).current == st.next && final(self).toks() == old(self).toks() + emitted(
                    st.token,
                )
            }),
    {
        let ghost orig = *self;
        let ghost src = self.src();
        proof {
            lemma_word_end(src, orig.current as int);
        }
        while !self.is_end() && is_alphanumeric_char(self.peek())
            invariant
                self.wf(),
                self.source == orig.source,
                src == self.src(),
                self.chars_len == orig.chars_len,
                self.start == orig.start,
                self.line == orig.line,
                self.tokens == orig.tokens,
                self.errors == orig.errors,
                orig.current <= self.current,
                word_end(src, orig.current as int) == word_end(src, self.current as int),
            decreases self.src().len() - self.current,
        {
            self.advance();
        }
        let text = self.source.as_str().substring_char(self.start, self.current);
        let kw = TokenType::get_keyword_type(text);
        if kw == TokenType::NonExistent {
            self.add_token_with_no_value(TokenType::Identifier);
        } else {
            self.add_token_with_no_value(kw);
        }
        proof {
            let st = crate::model::identifier_step(src, orig.start as int, orig.line as int);
            assert(self.toks() =~~= orig.toks() + emitted(st.token));
        }
    }

    /// One dispatch: consumes one token's worth of characters, emitting a
    /// token, discarding whitespace or a comment, or reporting an error,
    /// exactly as `step_at` describes.
    pub fn scan_token(&mut self)
        requires
            old(self).wf(),
            old(self).current < old(self).src().len(),
            old(self).start == old(self).current,
        ensures
            final(self).wf(),
            final(self).source == old(self).source,
            final(self).chars_len == old(self).chars_len,
            old(self).current < final(self).current,
            ({
                let st = step_at(old(self).src(), old(self).current as int, old(self).line as int);
                final(self).current == st.next && final(self).line as int == st.line && final(self).toks() == old(self).toks() + emitted(st.token) && final(self).reps() == old(self).reps() + st.reports
            }),
    {
        let ghost orig = *self;
        let c = self.advance();
        match c {
            '(' => self.add_token_with_no_value(TokenType::LeftParen),
            ')' => self.add_token_with_no_value(TokenType::RightParen),
            '{' => self.add_token_with_no_value(TokenType::LeftBrace),
            '}' => self.add_token_with_no_value(TokenType::RightBrace),
            ',' => self.add_token_with_no_value(TokenType::Comma),
            '.' => self.add_token_with_no_value(TokenType::Dot),
            '-' => self.add_token_with_no_value(TokenType::Minus),
            '+' => self.add_token_with_no_value(TokenType::Plus),
            ';' => self.add_token_with_no_value(TokenType::Semicolon),
            '*' => self.add_token_with_no_value(TokenType::Star),
            '!' => self.add_token_if_match_next('=', TokenType::BangEqual, TokenType::Bang),
            '=' => self.add_token_if_match_next('=', TokenType::EqualEqual, TokenType::Equal),
            '<' => self.add_token_if_match_next('=', TokenType::LessEqual, TokenType::Less),
            '>' => self.add_token_if_match_next('=', TokenType::GreaterEqual, TokenType::Greater),
            '/' => {
                if self.match_next('/') {
                    self.skip_line();
                } else {
                    self.add_token_with_no_value(TokenType::Slash);
                }
            },
            ' ' | '\r' | '\t' => (),
            '\n' => {
                self.line = self.line + 1;
            },
            '"' => self.read_string(),
            other => {
                if is_digit(other) {
                    self.read_number();
                } else if is_alphabetic_char(other) {
                    self.read_identifier();
                } else {
                    self.errors.complain(self.line, "Unexpected character".to_owned());
                }
            },
        }
        proof {
            let st = step_at(orig.src(), orig.current as int, orig.line as int);
            lemma_step_at_bounds(orig.src(), orig.current as int, orig.line as int);
            assert(self.toks() =~~= orig.toks() + emitted(st.token));
            assert(self.reps() =~~= orig.reps() + st.reports);
        }
    }

    /// Runs the scan to the end of the source and returns the accumulated
    /// tokens, closed by the end-of-input token on the last line reached.
    pub fn scan_tokens(&mut self) -> (tokens: Vec<Token>)
        requires
            old(self).wf(),
        ensures
            final(self).wf(),
            final(self).source == old(self).source,
            tokens.deep_view() == old(self).toks() + scan_from(
                old(self).src(),
                old(self).current as int,
                old(self).line as int,
            ).tokens,
            final(self).reps() == old(self).reps() + scan_from(
                old(self).src(),
                old(self).current as int,
                old(self).line as int,
            ).reports,
    {
        let ghost orig = *self;
        while !self.is_end()
            invariant
                self.wf(),
                self.source == orig.source,
                self.chars_len == orig.chars_len,
                orig.toks() + scan_from(orig.src(), orig.current as int, orig.line as int).tokens
                    == self.toks() + scan_from(self.src(), self.current as int, self.line as int).tokens,
                orig.reps() + scan_from(orig.src(), orig.current as int, orig.line as int).reports
                    == self.reps() + scan_from(self.src(), self.current as int, self.line as int).reports,
            decreases self.src().len() - self.current,
        {
            self.start = self.current;
            let ghost pre = *self;
            self.scan_token();
            proof {
                lemma_scan_from_step(pre.src(), pre.current as int, pre.line as int);
                let st = step_at(pre.src(), pre.current as int, pre.line as int);
                assert(pre.toks() + scan_from(pre.src(), pre.current as int, pre.line as int).tokens
                    =~~= self.toks() + scan_from(self.src(), self.current as int, self.line as int).tokens);
                assert(pre.reps() + scan_from(pre.src(), pre.current as int, pre.line as int).reports
                    =~~= self.reps() + scan_from(self.src(), self.current as int, self.line as int).reports);
            }
        }
        let text = String::new();
        let t = Token::new(TokenType::Eof, text, Literal::NoValue, self.line);
        let ghost prior = self.toks();
        self.tokens.push(t);
        proof {
            assert(self.toks() =~~= prior.push(eof_token(self.line as int)));
            assert(prior + scan_from(self.src(), self.current as int, self.line as int).tokens
                =~~= self.toks());
        }
        let mut out: Vec<Token> = Vec::new();
        core::mem::swap(&mut out, &mut self.tokens);
        out
    }
}

} // verus!
