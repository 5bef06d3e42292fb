use vstd::prelude::*;

verus! {

/// One finding: where it was seen (`filename`, 1-based `line`), the text or
/// rendered reference, and, for attribute findings, the attribute's name.
#[derive(Clone, PartialEq, Eq, Debug)]
pub struct ReportItem {
    pub filename: String,
    pub line: usize,
    pub string: String,
    pub prop_name: Option<String>,
}

/// View of `ReportItem`.
pub ghost struct ReportItemV {
    pub filename: Seq<char>,
    pub line: int,
    pub string: Seq<char>,
    pub prop_name: Option<Seq<char>>,
}

impl View for ReportItem {
    type V = ReportItemV;

    open spec fn view(&self) -> ReportItemV {
        ReportItemV {
            filename: self.filename@,
            line: self.line as int,
            string: self.string@,
            prop_name: match self.prop_name {
                Some(p) => Some(p@),
                None => None,
            },
        }
    }
}

impl DeepView for ReportItem {
    type V = ReportItemV;

    open spec fn deep_view(&self) -> ReportItemV {
        self@
    }
}

/// The confidence class a finding is filed under: `Violations` for
/// high-confidence hard-coded text, `Suspicions` for findings that warrant
/// manual review.
#[derive(Clone, Copy, PartialEq, Eq, Structural, Debug)]
pub enum Bucket {
    Violations,
    Suspicions,
}

/// The sequence `s` with `item` appended when there is one.
pub open spec fn recorded(s: Seq<ReportItemV>, item: Option<ReportItemV>) -> Seq<ReportItemV> {
    match item {
        Some(x) => s.push(x),
        None => s,
    }
}

/// The accumulated findings of a run: two append-only ordered sequences.
/// Repeated identical findings are all retained; each stands for a distinct
/// source location.
#[derive(Debug)]
pub struct Report {
    pub violations: Vec<ReportItem>,
    pub suspicions: Vec<ReportItem>,
}

impl Default for Report {
    /// An empty report.
    fn default() -> (r: Report)
        ensures
            r.violations@.len() == 0,
            r.suspicions@.len() == 0,
    {
        Report { violations: Vec::new(), suspicions: Vec::new() }
    }
}

impl Report {
    /// Appends `item`, if there is one, to the chosen bucket; recording
    /// `None` changes nothing.
    pub fn record(&mut self, item: Option<ReportItem>, bucket: Bucket)
        ensures
            bucket == Bucket::Violations ==> final (self).violations.deep_view() == recorded(
                old(self).violations.deep_view(),
                item.deep_view(),
            ) && final (self).suspicions == old(self).suspicions,
            bucket == Bucket::Suspicions ==> final (self).suspicions.deep_view() == recorded(
                old(self).suspicions.deep_view(),
                item.deep_view(),
            ) && final (self).violations == old(self).violations,
    {
        match item {
            Some(x) => {
                match bucket {
                    Bucket::Violations => {
                        self.violations.push(x);
                    },
                    Bucket::Suspicions => {
                        self.suspicions.push(x);
                    },
                }
                proof {
                    assert(final (self).violations.deep_view() =~= if bucket
                        == Bucket::Violations {
                        recorded(old(self).violations.deep_view(), Some(x@))
                    } else {
                        old(self).violations.deep_view()
                    });
                    assert(final (self).suspicions.deep_view() =~= if bucket
                        == Bucket::Suspicions {
                        recorded(old(self).suspicions.deep_view(), Some(x@))
                    } else {
                        old(self).suspicions.deep_view()
                    });
                }
            },
            None => {},
        }
    }
}

} // verus!
