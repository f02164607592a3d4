//! A verified lexical scanner for the Lox scripting language.
//!
//! Source text goes in, an ordered token sequence comes out, always ending in
//! an end-of-input marker.  Lexical errors (an unexpected character, an
//! unterminated string) are recorded as diagnostics and never stop the scan.

pub mod chars;
pub mod error;
pub mod laws;
pub mod lox;
pub mod model;
pub mod scanner;
pub mod tokens;
