//! Findings, their severities, and the interface every check implements.
use vstd::prelude::*;
use crate::syntax::SourceFile;

verus! {

/// How serious a finding is. `High` orders first.
#[derive(Clone, Copy, Debug, PartialEq, Eq, Structural, Hash, PartialOrd, Ord)]
pub enum Severity {
    High,
    Medium,
    Low,
}

/// The position of a severity in the order `High`, `Medium`, `Low`.
pub open spec fn severity_rank(s: Severity) -> nat {
    match s {
        Severity::High => 0,
        Severity::Medium => 1,
        Severity::Low => 2,
    }
}

/// `a` is at least as serious as `b` (`a <= b` in the derived order).
pub fn severity_at_least(a: Severity, b: Severity) -> (r: bool)
    ensures
        r == (severity_rank(a) <= severity_rank(b)),
{
    let ra: u8 = match a {
        Severity::High => 0,
        Severity::Medium => 1,
        Severity::Low => 2,
    };
    let rb: u8 = match b {
        Severity::High => 0,
        Severity::Medium => 1,
        Severity::Low => 2,
    };
    ra <= rb
}

/// One reported issue.
#[derive(Clone, Debug)]
pub struct Finding {
    pub check_name: String,
    pub severity: Severity,
    /// Path of the scanned file relative to the scan root; empty until the analyzer
    /// fills it in.
    pub file_path: String,
    pub line: usize,
    pub function_name: String,
    pub description: String,
    pub rule_url: Option<String>,
    pub suggestion: Option<String>,
}

/// A finding's content, as text.
pub struct FindingView {
    pub check_name: Seq<char>,
    pub severity: Severity,
    pub file_path: Seq<char>,
    pub line: usize,
    pub function_name: Seq<char>,
    pub description: Seq<char>,
    pub rule_url: Option<Seq<char>>,
    pub suggestion: Option<Seq<char>>,
}

pub open spec fn opt_text(o: Option<String>) -> Option<Seq<char>> {
    match o {
        Some(s) => Some(s@),
        None => None,
    }
}

impl View for Finding {
    type V = FindingView;

    open spec fn view(&self) -> FindingView {
        FindingView {
            check_name: self.check_name@,
            severity: self.severity,
            file_path: self.file_path@,
            line: self.line,
            function_name: self.function_name@,
            description: self.description@,
            rule_url: opt_text(self.rule_url),
            suggestion: opt_text(self.suggestion),
        }
    }
}

/// The content of each finding.
pub open spec fn findings_view(s: Seq<Finding>) -> Seq<FindingView> {
    s.map_values(|f: Finding| f@)
}

pub proof fn lemma_findings_view_push(s: Seq<Finding>, f: Finding)
    ensures
        findings_view(s.push(f)) == findings_view(s).push(f@),
{
    assert(findings_view(s.push(f)) =~= findings_view(s).push(f@));
}

pub proof fn lemma_findings_view_add(a: Seq<Finding>, b: Seq<Finding>)
    ensures
        findings_view(a + b) == findings_view(a) + findings_view(b),
{
    assert(findings_view(a + b) =~= findings_view(a) + findings_view(b));
}

/// A copy of an optional text.
pub fn copy_opt(o: &Option<String>) -> (r: Option<String>)
    ensures
        opt_text(r) == opt_text(*o),
{
    match o {
        Some(s) => Some(s.clone()),
        None => None,
    }
}

impl Finding {
    /// A copy with the same content.
    pub fn duplicate(&self) -> (r: Finding)
        ensures
            r@ == self@,
    {
        Finding {
            check_name: self.check_name.clone(),
            severity: self.severity,
            file_path: self.file_path.clone(),
            line: self.line,
            function_name: self.function_name.clone(),
            description: self.description.clone(),
            rule_url: copy_opt(&self.rule_url),
            suggestion: copy_opt(&self.suggestion),
        }
    }
}

/// A detector run over one parsed file.
pub trait Check {
    /// The check's name as `name` returns it.
    spec fn name_spec(&self) -> Seq<char>;

    /// The findings `run` reports for `file`.
    spec fn findings_spec(&self, file: &SourceFile) -> Seq<FindingView>;

    /// The check's name, e.g. `unprotected-admin`.
    fn name(&self) -> (r: &str)
        ensures
            r@ == self.name_spec(),
    ;

    /// The findings for one file (`source` is its text); `file_path` is left empty.
    fn run(&self, file: &SourceFile, source: &str) -> (r: Vec<Finding>)
        ensures
            findings_view(r@) == self.findings_spec(file),
    ;
}

}
