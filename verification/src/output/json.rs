//! What the JSON report holds.

use vstd::prelude::*;

use super::{count_of, count_severity, sort_violations, sorted_violations};
use crate::engine::matcher::{opt_chars, severity_word, violations_view, Severity, Violation, ViolationView};

verus! {

/// One violation in the JSON report.
#[derive(Debug)]
pub struct JsonViolation {
    pub path: String,
    pub rule: String,
    pub message: String,
    pub severity: String,
    pub fix: Option<String>,
}

/// The counts in the JSON report.
#[derive(Debug)]
pub struct JsonSummary {
    pub total: usize,
    pub errors: usize,
    pub warnings: usize,
}

/// The JSON report: the violations sorted by path then rule, and the counts.
#[derive(Debug)]
pub struct JsonOutput {
    pub violations: Vec<JsonViolation>,
    pub summary: JsonSummary,
}

/// One violation of the JSON report, as plain values.
pub struct JsonViolationView {
    pub path: Seq<char>,
    pub rule: Seq<char>,
    pub message: Seq<char>,
    pub severity: Seq<char>,
    pub fix: Option<Seq<char>>,
}

impl View for JsonViolation {
    type V = JsonViolationView;

    open spec fn view(&self) -> JsonViolationView {
        JsonViolationView {
            path: self.path@,
            rule: self.rule@,
            message: self.message@,
            severity: self.severity@,
            fix: opt_chars(self.fix),
        }
    }
}

/// How a violation is written in the JSON report.
pub open spec fn json_violation(v: ViolationView) -> JsonViolationView {
    JsonViolationView {
        path: v.path,
        rule: v.rule_id,
        message: v.message,
        severity: severity_word(v.severity),
        fix: v.fix_suggestion,
    }
}

/// Writes violations as JSON, indented or on one line.
pub struct JsonReporter {
    pretty: bool,
}

impl JsonReporter {
    /// Whether the JSON is indented.
    pub closed spec fn is_pretty(&self) -> bool {
        self.pretty
    }

    /// A reporter writing indented JSON.
    pub fn new() -> (r: Self)
        ensures
            r.is_pretty(),
    {
        JsonReporter { pretty: true }
    }

    /// The same reporter writing JSON on one line.
    pub fn compact(self) -> (r: Self)
        ensures
            !r.is_pretty(),
    {
        let mut s = self;
        s.pretty = false;
        s
    }

    /// Whether the JSON is indented.
    pub fn pretty(&self) -> (r: bool)
        ensures
            r == self.is_pretty(),
    {
        self.pretty
    }

    /// What the report holds: the violations sorted by path then rule, and
    /// how many there are of each severity.
    pub fn build(&self, violations: &Vec<Violation>) -> (r: JsonOutput)
        ensures
            r.violations@.map_values(|j: JsonViolation| j@) == sorted_violations(violations_view(violations@)).map_values(
                |v: ViolationView| json_violation(v),
            ),
            r.summary.total == violations@.len(),
            r.summary.errors == count_severity(violations_view(violations@), Severity::Error),
            r.summary.warnings == count_severity(violations_view(violations@), Severity::Warning),
    {
        let sorted = sort_violations(violations);
        let ghost sv = violations_view(sorted@);
        let mut out: Vec<JsonViolation> = Vec::new();
        let n = sorted.len();
        for i in 0..n
            invariant
                n == sorted@.len(),
                sv == violations_view(sorted@),
                out@.map_values(|j: JsonViolation| j@) == sv.take(i as int).map_values(
                    |v: ViolationView| json_violation(v),
                ),
        {
            let v = &sorted[i];
            let fix = match &v.fix_suggestion {
                Some(f) => Some(f.clone()),
                None => None,
            };
            let j = JsonViolation {
                path: v.path.clone(),
                rule: v.rule_id.clone(),
                message: v.message.clone(),
                severity: v.severity.to_string(),
                fix,
            };
            let ghost before = out@.map_values(|j: JsonViolation| j@);
            let ghost jv = j@;
            assert(sv[i as int] == v@);
            assert(jv == json_violation(sv[i as int]));
            out.push(j);
            assert(out@.map_values(|j: JsonViolation| j@) =~= before.push(jv));
            assert(sv.take(i + 1).map_values(|v: ViolationView| json_violation(v)) =~= sv.take(i as int).map_values(
                |v: ViolationView| json_violation(v),
            ).push(jv));
        }
        assert(sv.take(n as int) =~= sv);
        let errors = count_of(violations, Severity::Error);
        let warnings = count_of(violations, Severity::Warning);
        JsonOutput { violations: out, summary: JsonSummary { total: violations.len(), errors, warnings } }
    }
}

} // verus!
