//! The diagnostics sink the scanner reports lexical errors to.
//!
//! A report never stops the scan; the caller decides afterwards what the
//! accumulated reports mean.  Printing them is the caller's business.

use vstd::prelude::*;

verus! {

/// One lexical error report: the 1-based line it arose on and its message.
#[derive(Debug, PartialEq)]
pub struct Report {
    pub line: usize,
    pub message: String,
}

/// The mathematical value of a report.
pub ghost struct ReportModel {
    pub line: int,
    pub message: Seq<char>,
}

impl View for Report {
    type V = ReportModel;

    open spec fn view(&self) -> ReportModel {
        ReportModel { line: self.line as int, message: self.message@ }
    }
}

impl DeepView for Report {
    type V = ReportModel;

    open spec fn deep_view(&self) -> ReportModel {
        self.view()
    }
}

/// Collects the error reports of one scan, in the order they were raised.
pub struct Error {
    pub reports: Vec<Report>,
}

impl Error {
    pub fn new() -> (e: Error)
        ensures
            e.reports.deep_view() == Seq::<ReportModel>::empty(),
    {
        let e = Error { reports: Vec::new() };
        proof {
            assert(e.reports.deep_view() =~= Seq::<ReportModel>::empty());
        }
        e
    }

    /// Records one lexical error at the given line.
    pub fn complain(&mut self, line: usize, message: String)
        ensures
            final(self).reports.deep_view() == old(self).reports.deep_view().push(
                ReportModel { line: line as int, message: message@ },
            ),
    {
        let ghost prior = self.reports.deep_view();
        self.reports.push(Report { line, message });
        proof {
            assert(self.reports.deep_view() =~= prior.push(
                ReportModel { line: line as int, message: message@ },
            ));
        }
    }

    /// Hands the accumulated reports out, leaving the sink empty.
    pub fn take_reports(&mut self) -> (r: Vec<Report>)
        ensures
            r.deep_view() == old(self).reports.deep_view(),
            final(self).reports.deep_view() == Seq::<ReportModel>::empty(),
    {
        let mut out: Vec<Report> = Vec::new();
        core::mem::swap(&mut out, &mut self.reports);
        proof {
            assert(self.reports.deep_view() =~= Seq::<ReportModel>::empty());
        }
        out
    }
}

} // verus!
