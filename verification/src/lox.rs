//! The scanning entry point a caller drives: feed it whole program text,
//! receive the token sequence and the error reports.

use vstd::prelude::*;

use crate::error::Report;
use crate::model::spec_scan;
use crate::scanner::Scanner;
use crate::tokens::Token;

verus! {

/// Drives one scan per supplied program text.
pub struct Lox {}

impl Lox {
    pub fn new() -> (l: Lox) {
        Lox {  }
    }

    /// Scans `source` and returns its complete token sequence together with
    /// the lexical error reports, each in source order.
    pub fn run(&self, source: String) -> (r: (Vec<Token>, Vec<Report>))
        requires
            source@.len() < usize::MAX,
        ensures
            r.0.deep_view() == spec_scan(source@).tokens,
            r.1.deep_view() == spec_scan(source@).reports,
    {
        let ghost text = source@;
        let mut scanner = Scanner::new(source);
        let tokens = scanner.scan_tokens();
        let reports = scanner.errors.take_reports();
        proof {
            assert(tokens.deep_view() =~~= spec_scan(text).tokens);
            assert(reports.deep_view() =~~= spec_scan(text).reports);
        }
        (tokens, reports)
    }
}

} // verus!
