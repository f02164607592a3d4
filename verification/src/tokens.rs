//! The token model: token kinds, literal values, and the token record.

use vstd::prelude::*;
use vstd::string::StrSliceExecFns;

verus! {

/// The literal value carried by a token: text for string literals, a number
/// for number literals, nothing for every other kind.
#[derive(Debug, PartialEq)]
pub enum Literal {
    NoValue,
    String(String),
    Number(u64),
}

/// The closed set of token categories.
#[derive(Debug, PartialEq, Eq, Structural, Clone, Copy)]
pub enum TokenType {
    // Single character tokens
    LeftParen,
    RightParen,
    LeftBrace,
    RightBrace,
    Comma,
    Dot,
    Minus,
    Plus,
    Semicolon,
    Slash,
    Star,
    // One or two character tokens
    Bang,
    BangEqual,
    Equal,
    EqualEqual,
    Greater,
    GreaterEqual,
    Less,
    LessEqual,
    // Literals
    Identifier,
    String,
    Number,
    // Keywords
    And,
    Class,
    Else,
    False,
    Fun,
    For,
    If,
    Nil,
    Or,
    Print,
    Return,
    Super,
    This,
    True,
    Var,
    While,
    Eof,
    /// Returned by the keyword table for a word that is not reserved.
    NonExistent,
}

/// The mathematical value of a literal.
pub ghost enum LiteralModel {
    NoValue,
    Text(Seq<char>),
    Num(u64),
}

/// The mathematical value of a token: its kind, the exact source characters
/// it consumed, its literal value, and the 1-based line its first character
/// stands on.
pub ghost struct TokenModel {
    pub kind: TokenType,
    pub lexeme: Seq<char>,
    pub literal: LiteralModel,
    pub line: int,
}

impl View for Literal {
    type V = LiteralModel;

    open spec fn view(&self) -> LiteralModel {
        match self {
            Literal::NoValue => LiteralModel::NoValue,
            Literal::String(s) => LiteralModel::Text(s@),
            Literal::Number(n) => LiteralModel::Num(*n),
        }
    }
}

impl DeepView for Literal {
    type V = LiteralModel;

    open spec fn deep_view(&self) -> LiteralModel {
        self.view()
    }
}

/// An immutable record of one scanned token.
#[derive(Debug, PartialEq)]
pub struct Token {
    pub token_type: TokenType,
    pub lexeme: String,
    pub literal: Literal,
    pub line: usize,
}

impl View for Token {
    type V = TokenModel;

    open spec fn view(&self) -> TokenModel {
        TokenModel {
            kind: self.token_type,
            lexeme: self.lexeme@,
            literal: self.literal@,
            line: self.line as int,
        }
    }
}

impl DeepView for Token {
    type V = TokenModel;

    open spec fn deep_view(&self) -> TokenModel {
        self.view()
    }
}

impl Token {
    pub fn new(token_type: TokenType, lexeme: String, literal: Literal, line: usize) -> (t: Token)
        ensures
            t@ == (TokenModel { kind: token_type, lexeme: lexeme@, literal: literal@, line: line as int }),
    {
        Token { token_type, lexeme, literal, line }
    }
}

/// The reserved-word table: the keyword kind of `s`, or `NonExistent` when
/// `s` is not a reserved word.
pub open spec fn keyword_kind(s: Seq<char>) -> TokenType {
    if s == "and"@ {
        TokenType::And
    } else if s == "class"@ {
        TokenType::Class
    } else if s == "else"@ {
        TokenType::Else
    } else if s == "false"@ {
        TokenType::False
    } else if s == "fun"@ {
        TokenType::Fun
    } else if s == "for"@ {
        TokenType::For
    } else if s == "if"@ {
        TokenType::If
    } else if s == "nil"@ {
        TokenType::Nil
    } else if s == "or"@ {
        TokenType::Or
    } else if s == "print"@ {
        TokenType::Print
    } else if s == "return"@ {
        TokenType::Return
    } else if s == "super"@ {
        TokenType::Super
    } else if s == "this"@ {
        TokenType::This
    } else if s == "true"@ {
        TokenType::True
    } else if s == "var"@ {
        TokenType::Var
    } else if s == "while"@ {
        TokenType::While
    } else {
        TokenType::NonExistent
    }
}

/// Character-for-character equality of two string slices.
fn str_eq(a: &str, b: &str) -> (r: bool)
    ensures
        r == (a@ == b@),
{
    let an = a.unicode_len();
    let bn = b.unicode_len();
    if an != bn {
        proof {
            assert(a@ != b@) by {
                assert(a@.len() != b@.len());
            }
        }
        return false;
    }
    let mut i: usize = 0;
    while i < an
        invariant
            an == a@.len(),
            an == b@.len(),
            i <= an,
            forall|j: int| 0 <= j < i ==> a@[j] == b@[j],
        decreases an - i,
    {
        if a.get_char(i) != b.get_char(i) {
            proof {
                assert(a@[i as int] != b@[i as int]);
            }
            return false;
        }
        i = i + 1;
    }
    proof {
        assert(a@ =~= b@);
    }
    true
}

impl TokenType {
    /// Looks `s` up in the reserved-word table.
    pub fn get_keyword_type(s: &str) -> (t: TokenType)
        ensures
            t == keyword_kind(s@),
    {
        if str_eq(s, "and") {
            TokenType::And
        } else if str_eq(s, "class") {
            TokenType::Class
        } else if str_eq(s, "else") {
            TokenType::Else
        } else if str_eq(s, "false") {
            TokenType::False
        } else if str_eq(s, "fun") {
            TokenType::Fun
        } else if str_eq(s, "for") {
            TokenType::For
        } else if str_eq(s, "if") {
            TokenType::If
        } else if str_eq(s, "nil") {
            TokenType::Nil
        } else if str_eq(s, "or") {
            TokenType::Or
        } else if str_eq(s, "print") {
            TokenType::Print
        } else if str_eq(s, "return") {
            TokenType::Return
        } else if str_eq(s, "super") {
            TokenType::Super
        } else if str_eq(s, "this") {
            TokenType::This
        } else if str_eq(s, "true") {
            TokenType::True
        } else if str_eq(s, "var") {
            TokenType::Var
        } else if str_eq(s, "while") {
            TokenType::While
        } else {
            TokenType::NonExistent
        }
    }
}

} // verus!
