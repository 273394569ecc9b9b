//! The report for a terminal.

use colored::Colorize;
use vstd::prelude::*;

use super::{count_of, count_severity, sort_violations, sorted_violations};
use crate::engine::layout_trie::{attempts_view, AttemptView, MatchAttempt};
use crate::engine::matcher::{severity_word, violations_view, Severity, Violation, ViolationView};
use crate::text::{decimal, decimal_string, replace_all, to_owned_string};

verus! {

// ---------------------------------------------------------------------------
// Outside calls: terminal colours. Whether colour codes are written depends
// on the environment, so each call gives one of two texts.
// ---------------------------------------------------------------------------

/// The sequence that ends a colour.
pub open spec fn reset_code() -> Seq<char> {
    seq!['\u{1b}', '[', '0', 'm']
}

/// The text wrapped in a colour: the colour's code, the text with the code
/// written again after each reset inside it, and a reset.
pub open spec fn painted(s: Seq<char>, code: Seq<char>) -> Seq<char> {
    code + replace_all(s, reset_code(), reset_code() + code) + reset_code()
}

/// The code of a colour made of the SGR parameters `params`.
pub open spec fn sgr(params: Seq<char>) -> Seq<char> {
    seq!['\u{1b}', '['] + params + seq!['m']
}

/// What a colour call gives: the text unchanged where colours are off, or
/// the text painted with the code.
pub open spec fn paint_outcome(r: Seq<char>, s: Seq<char>, code: Seq<char>) -> bool {
    r == s || r == painted(s, code)
}

/// Calls `colored`'s `red` then `bold` on the text and writes it out.
#[verifier::external_body]
fn red_bold(s: &str) -> (r: String)
    ensures
        paint_outcome(r@, s@, sgr(seq!['1', ';', '3', '1'])),
{
    s.red().bold().to_string()
}

/// Calls `colored`'s `yellow` then `bold` on the text and writes it out.
#[verifier::external_body]
fn yellow_bold(s: &str) -> (r: String)
    ensures
        paint_outcome(r@, s@, sgr(seq!['1', ';', '3', '3'])),
{
    s.yellow().bold().to_string()
}

/// Calls `colored`'s `cyan` on the text and writes it out.
#[verifier::external_body]
fn cyan(s: &str) -> (r: String)
    ensures
        paint_outcome(r@, s@, sgr(seq!['3', '6'])),
{
    s.cyan().to_string()
}

/// Calls `colored`'s `white` then `bold` on the text and writes it out.
#[verifier::external_body]
fn white_bold(s: &str) -> (r: String)
    ensures
        paint_outcome(r@, s@, sgr(seq!['1', ';', '3', '7'])),
{
    s.white().bold().to_string()
}

/// Calls `colored`'s `green` on the text and writes it out.
#[verifier::external_body]
fn green(s: &str) -> (r: String)
    ensures
        paint_outcome(r@, s@, sgr(seq!['3', '2'])),
{
    s.green().to_string()
}

/// Calls `colored`'s `red` on the text and writes it out.
#[verifier::external_body]
fn red(s: &str) -> (r: String)
    ensures
        paint_outcome(r@, s@, sgr(seq!['3', '1'])),
{
    s.red().to_string()
}

/// Calls `colored`'s `bold` on the text and writes it out.
#[verifier::external_body]
fn bold(s: &str) -> (r: String)
    ensures
        paint_outcome(r@, s@, sgr(seq!['1'])),
{
    s.bold().to_string()
}

// ---------------------------------------------------------------------------
// The text of a report
// ---------------------------------------------------------------------------

/// How the parts of one violation are written: plainly, or with colours.
pub struct PaintView {
    pub severity: Seq<char>,
    pub rule: Seq<char>,
    pub path: Seq<char>,
    pub matched: Seq<char>,
    pub failed: Seq<char>,
    pub fix: Option<Seq<char>>,
}

/// The parts of a violation written plainly.
pub open spec fn plain_paint(v: ViolationView) -> PaintView {
    PaintView {
        severity: severity_word(v.severity),
        rule: "["@ + v.rule_id + "]"@,
        path: v.path,
        matched: "✓"@,
        failed: "✗"@,
        fix: match v.fix_suggestion {
            Some(f) => Some("  = fix: "@ + f),
            None => None,
        },
    }
}

/// The parts of a violation written with colours, each one either plain
/// or painted: the severity red or yellow and bold, the rule cyan, the path
/// white and bold, the marks green and red, the fix green.
pub open spec fn colored_paint(p: PaintView, v: ViolationView) -> bool {
    let plain = plain_paint(v);
    &&& paint_outcome(p.severity, plain.severity, match v.severity {
        Severity::Error => sgr(seq!['1', ';', '3', '1']),
        Severity::Warning => sgr(seq!['1', ';', '3', '3']),
    })
    &&& paint_outcome(p.rule, plain.rule, sgr(seq!['3', '6']))
    &&& paint_outcome(p.path, plain.path, sgr(seq!['1', ';', '3', '7']))
    &&& paint_outcome(p.matched, plain.matched, sgr(seq!['3', '2']))
    &&& paint_outcome(p.failed, plain.failed, sgr(seq!['3', '1']))
    &&& match (p.fix, plain.fix) {
        (Some(f), Some(g)) => paint_outcome(f, g, sgr(seq!['3', '2'])),
        (None, None) => true,
        _ => false,
    }
}

/// One line per tried pattern, with the given marks.
pub open spec fn marked_attempts(attempts: Seq<AttemptView>, matched: Seq<char>, failed: Seq<char>) -> Seq<char>
    decreases attempts.len(),
{
    if attempts.len() == 0 {
        Seq::empty()
    } else {
        let a = attempts[0];
        "    "@ + (if a.matched {
            matched
        } else {
            failed
        }) + " "@ + a.pattern + (match a.reason {
            Some(r) => " ("@ + r + ")"@,
            None => Seq::empty(),
        }) + "\n"@ + marked_attempts(attempts.drop_first(), matched, failed)
    }
}

/// The lines of one violation: severity, rule and message; the path; the
/// tried patterns, if any; the fix, if any.
pub open spec fn violation_text(v: ViolationView, p: PaintView) -> Seq<char> {
    p.severity + p.rule + ": "@ + v.message + "\n  --> "@ + p.path + "\n"@ + (if v.attempts.len() == 0 {
        Seq::empty()
    } else {
        "\n  Tried to match:\n"@ + marked_attempts(v.attempts, p.matched, p.failed)
    }) + (match p.fix {
        Some(f) => f + "\n"@,
        None => Seq::empty(),
    })
}

/// The violations one after another, each followed by an empty line.
pub open spec fn violation_blocks(vs: Seq<ViolationView>, paints: Seq<PaintView>) -> Seq<char>
    decreases vs.len(),
{
    if vs.len() == 0 {
        Seq::empty()
    } else {
        violation_blocks(vs.drop_last(), paints) + violation_text(vs.last(), paints[vs.len() - 1]) + "\n"@
    }
}

/// The closing count of errors and warnings.
pub open spec fn summary_text(errors: nat, warnings: nat) -> Seq<char> {
    decimal(errors) + " "@ + (if errors == 1 {
        "error"@
    } else {
        "errors"@
    }) + " and "@ + decimal(warnings) + " "@ + (if warnings == 1 {
        "warning"@
    } else {
        "warnings"@
    }) + " found."@
}

/// The report on a non-empty list of violations: the sorted violations
/// written with `paints`, then the summary written as `summary`.
pub open spec fn report_text(vs: Seq<ViolationView>, paints: Seq<PaintView>, summary: Seq<char>) -> Seq<char> {
    violation_blocks(sorted_violations(vs), paints) + summary
}

/// Paints and a summary fit for a coloured report: a coloured paint for
/// each sorted violation, and the plain summary or the summary in bold.
pub open spec fn colored_report(vs: Seq<ViolationView>, paints: Seq<PaintView>, summary: Seq<char>) -> bool {
    let sorted = sorted_violations(vs);
    &&& paints.len() == sorted.len()
    &&& forall|i: int| 0 <= i < sorted.len() ==> colored_paint(#[trigger] paints[i], sorted[i])
    &&& paint_outcome(
        summary,
        summary_text(count_severity(vs, Severity::Error), count_severity(vs, Severity::Warning)),
        sgr(seq!['1']),
    )
}

/// The report written without colours.
pub open spec fn plain_report(vs: Seq<ViolationView>) -> Seq<char> {
    if vs.len() == 0 {
        "No violations found."@
    } else {
        let sorted = sorted_violations(vs);
        report_text(
            vs,
            sorted.map_values(|v: ViolationView| plain_paint(v)),
            summary_text(count_severity(vs, Severity::Error), count_severity(vs, Severity::Warning)),
        )
    }
}

/// The parts of a violation, written out.
struct Paint {
    severity: String,
    rule: String,
    path: String,
    matched: String,
    failed: String,
    fix: Option<String>,
}

impl View for Paint {
    type V = PaintView;

    closed spec fn view(&self) -> PaintView {
        PaintView {
            severity: self.severity@,
            rule: self.rule@,
            path: self.path@,
            matched: self.matched@,
            failed: self.failed@,
            fix: match self.fix {
                Some(f) => Some(f@),
                None => None,
            },
        }
    }
}

/// Writes violations for a terminal.
pub struct ConsoleReporter {
    use_color: bool,
}

impl ConsoleReporter {
    /// Whether colours are used.
    pub closed spec fn colored(&self) -> bool {
        self.use_color
    }

    /// A reporter that uses colours.
    pub fn new() -> (r: Self)
        ensures
            r.colored(),
    {
        ConsoleReporter { use_color: true }
    }

    /// The same reporter without colours.
    pub fn no_color(self) -> (r: Self)
        ensures
            !r.colored(),
    {
        let mut s = self;
        s.use_color = false;
        s
    }

    fn paint_for(&self, v: &Violation) -> (p: Paint)
        ensures
            !self.colored() ==> p@ == plain_paint(v@),
            self.colored() ==> colored_paint(p@, v@),
            p@.fix is Some == v.fix_suggestion is Some,
    {
        proof {
            reveal_strlit("[");
            reveal_strlit("]");
            reveal_strlit("  = fix: ");
            reveal_strlit("error");
            reveal_strlit("warning");
            reveal_strlit("✓");
            reveal_strlit("✗");
        }
        let mut rule = String::from_str("[");
        rule.append(v.rule_id.as_str());
        rule.append("]");
        let fix_line = match &v.fix_suggestion {
            Some(f) => {
                let mut l = String::from_str("  = fix: ");
                l.append(f.as_str());
                Some(l)
            },
            None => None,
        };
        if !self.use_color {
            let severity = match v.severity {
                Severity::Error => String::from_str("error"),
                Severity::Warning => String::from_str("warning"),
            };
            return Paint {
                severity,
                rule,
                path: v.path.clone(),
                matched: String::from_str("✓"),
                failed: String::from_str("✗"),
                fix: fix_line,
            };
        }
        let severity = match v.severity {
            Severity::Error => red_bold("error"),
            Severity::Warning => yellow_bold("warning"),
        };
        let fix = match fix_line {
            Some(l) => Some(green(l.as_str())),
            None => None,
        };
        Paint {
            severity,
            rule: cyan(rule.as_str()),
            path: white_bold(v.path.as_str()),
            matched: green("✓"),
            failed: red("✗"),
            fix,
        }
    }

    /// The lines of one violation written with the given parts.
    fn format_with(v: &Violation, p: &Paint) -> (r: String)
        ensures
            r@ == violation_text(v@, p@),
    {
        let mut out = p.severity.clone();
        out.append(p.rule.as_str());
        out.append(": ");
        out.append(v.message.as_str());
        out.append("\n  --> ");
        out.append(p.path.as_str());
        out.append("\n");
        if v.attempts.len() > 0 {
            out.append("\n  Tried to match:\n");
            assert(attempts_view(v.attempts@).skip(0) =~= attempts_view(v.attempts@));
            out.append(marked_lines(&v.attempts, 0, p.matched.as_str(), p.failed.as_str()).as_str());
        }
        match &p.fix {
            Some(f) => {
                out.append(f.as_str());
                out.append("\n");
            },
            None => {},
        }
        out
    }

    /// The lines of one violation.
    pub fn format_violation(&self, v: &Violation) -> (r: String)
        ensures
            !self.colored() ==> r@ == violation_text(v@, plain_paint(v@)),
            self.colored() ==> exists|p: PaintView| colored_paint(p, v@) && r@ == violation_text(v@, p),
    {
        let p = self.paint_for(v);
        Self::format_with(v, &p)
    }

    /// The report: each violation sorted by path then rule, followed by an
    /// empty line, then the count of errors and warnings; or a note that
    /// there are none. With colours, only how the parts are written differs.
    pub fn report(&self, violations: &Vec<Violation>) -> (r: String)
        ensures
            !self.colored() ==> r@ == plain_report(violations_view(violations@)),
            self.colored() && violations@.len() == 0 ==> paint_outcome(
                r@,
                "No violations found."@,
                sgr(seq!['3', '2']),
            ),
            self.colored() && violations@.len() > 0 ==> exists|paints: Seq<PaintView>, summary: Seq<char>|
                #[trigger] colored_report(violations_view(violations@), paints, summary) && r@ == report_text(
                    violations_view(violations@),
                    paints,
                    summary,
                ),
    {
        let ghost vv = violations_view(violations@);
        if violations.len() == 0 {
            if self.use_color {
                return green("No violations found.");
            }
            return String::from_str("No violations found.");
        }
        let sorted = sort_violations(violations);
        let ghost sv = violations_view(sorted@);
        let mut out = String::new();
        let ghost mut paints: Seq<PaintView> = Seq::empty();
        let n = sorted.len();
        for i in 0..n
            invariant
                n == sorted@.len(),
                sv == violations_view(sorted@),
                paints.len() == i,
                !self.colored() ==> paints == sv.take(i as int).map_values(|v: ViolationView| plain_paint(v)),
                self.colored() ==> forall|j: int| 0 <= j < i ==> colored_paint(#[trigger] paints[j], sv[j]),
                out@ == violation_blocks(sv.take(i as int), paints),
        {
            let p = self.paint_for(&sorted[i]);
            let text = Self::format_with(&sorted[i], &p);
            let ghost before = paints;
            proof {
                paints = paints.push(p@);
                assert(sv.take(i + 1).drop_last() =~= sv.take(i as int));
                assert(sv[i as int] == sorted@[i as int]@);
                assert(violation_blocks(sv.take(i as int), paints) == violation_blocks(sv.take(i as int), before))
                    by {
                    lemma_blocks_prefix(sv.take(i as int), before, paints);
                }
                if !self.colored() {
                    assert(paints =~= sv.take(i + 1).map_values(|v: ViolationView| plain_paint(v)));
                }
            }
            out.append(text.as_str());
            out.append("\n");
        }
        assert(sv.take(n as int) =~= sv);
        let errors = count_of(violations, Severity::Error);
        let warnings = count_of(violations, Severity::Warning);
        let mut summary = decimal_string(errors);
        summary.append(" ");
        summary.append(if errors == 1 {
            "error"
        } else {
            "errors"
        });
        summary.append(" and ");
        summary.append(decimal_string(warnings).as_str());
        summary.append(" ");
        summary.append(if warnings == 1 {
            "warning"
        } else {
            "warnings"
        });
        summary.append(" found.");
        proof {
            reveal_strlit(" ");
            reveal_strlit("error");
            reveal_strlit("errors");
            reveal_strlit(" and ");
            reveal_strlit("warning");
            reveal_strlit("warnings");
            reveal_strlit(" found.");
        }
        assert(summary@ == summary_text(
            count_severity(vv, Severity::Error),
            count_severity(vv, Severity::Warning),
        ));
        let summary = if self.use_color {
            bold(summary.as_str())
        } else {
            summary
        };
        out.append(summary.as_str());
        assert(out@ == report_text(vv, paints, summary@));
        proof {
            if self.colored() {
                assert(sv == sorted_violations(vv));
                assert(colored_report(vv, paints, summary@));
            }
        }
        out
    }
}

/// Only the first `vs.len()` paints matter to the blocks.
proof fn lemma_blocks_prefix(vs: Seq<ViolationView>, a: Seq<PaintView>, b: Seq<PaintView>)
    requires
        a.len() >= vs.len(),
        b.len() >= vs.len(),
        forall|i: int| 0 <= i < vs.len() ==> a[i] == b[i],
    ensures
        violation_blocks(vs, a) == violation_blocks(vs, b),
    decreases vs.len(),
{
    if vs.len() > 0 {
        lemma_blocks_prefix(vs.drop_last(), a, b);
    }
}

/// One line per tried pattern from position `i` on, with the given marks.
fn marked_lines(attempts: &Vec<MatchAttempt>, i: usize, matched: &str, failed: &str) -> (r: String)
    requires
        i <= attempts@.len(),
    ensures
        r@ == marked_attempts(attempts_view(attempts@).skip(i as int), matched@, failed@),
    decreases attempts@.len() - i,
{
    let ghost av = attempts_view(attempts@);
    if i == attempts.len() {
        assert(av.skip(i as int) =~= Seq::<AttemptView>::empty());
        return String::new();
    }
    let a = &attempts[i];
    assert(av.skip(i as int)[0] == a@);
    assert(av.skip(i as int).drop_first() =~= av.skip(i + 1));
    let mut out = String::from_str("    ");
    out.append(if a.matched {
        matched
    } else {
        failed
    });
    out.append(" ");
    out.append(a.pattern.as_str());
    match &a.reason {
        Some(r) => {
            out.append(" (");
            out.append(r.as_str());
            out.append(")");
        },
        None => {},
    }
    out.append("\n");
    out.append(marked_lines(attempts, i + 1, matched, failed).as_str());
    out
}

} // verus!
