//! Checking one path against a whole configuration.

use vstd::prelude::*;

use super::layout_trie::{
    attempts_view, expected_at, expected_view, match_path_spec, AttemptView, ExpectedChild, ExpectedView,
    LayoutMatcher, MatchAttempt, MatchResult, Outcome,
};
use super::rules::{
    check_path_spec, compiled_view, ignored_by, rule_message_spec, rule_id_spec, rule_violations_view,
    CompiledRules, RuleViolationView, RulesView,
};
use crate::config::{ConfigIR, LayoutNode, Mode};
use crate::text::{join_with, path_components, to_owned_string, views};

verus! {

/// How serious a violation is.
#[derive(Debug, Clone, Copy, PartialEq, Eq, Structural)]
pub enum Severity {
    Error,
    Warning,
}

/// The word for a severity.
pub open spec fn severity_word(s: Severity) -> Seq<char> {
    match s {
        Severity::Error => "error"@,
        Severity::Warning => "warning"@,
    }
}

impl Severity {
    /// The lowercase word for the severity: `error` or `warning`.
    pub fn to_string(&self) -> (r: String)
        ensures
            r@ == severity_word(*self),
    {
        match self {
            Severity::Error => String::from_str("error"),
            Severity::Warning => String::from_str("warning"),
        }
    }
}

/// The severity that a mode gives its violations.
pub open spec fn severity_of(strict: bool) -> Severity {
    if strict {
        Severity::Error
    } else {
        Severity::Warning
    }
}

/// A violation, as plain values.
pub struct ViolationView {
    pub path: Seq<char>,
    pub rule_id: Seq<char>,
    pub message: Seq<char>,
    pub severity: Severity,
    pub fix_suggestion: Option<Seq<char>>,
    pub attempts: Seq<AttemptView>,
}

/// One broken rule at one path.
#[derive(Debug)]
pub struct Violation {
    pub path: String,
    pub rule_id: String,
    pub message: String,
    pub severity: Severity,
    pub fix_suggestion: Option<String>,
    pub attempts: Vec<MatchAttempt>,
}

/// The characters of an optional string.
pub open spec fn opt_chars(o: Option<String>) -> Option<Seq<char>> {
    match o {
        Some(s) => Some(s@),
        None => None,
    }
}

impl View for Violation {
    type V = ViolationView;

    open spec fn view(&self) -> ViolationView {
        ViolationView {
            path: self.path@,
            rule_id: self.rule_id@,
            message: self.message@,
            severity: self.severity,
            fix_suggestion: opt_chars(self.fix_suggestion),
            attempts: attempts_view(self.attempts@),
        }
    }
}

impl Clone for Violation {
    fn clone(&self) -> (r: Self)
        ensures
            r@ == self@,
    {
        let fix_suggestion = match &self.fix_suggestion {
            Some(s) => Some(s.clone()),
            None => None,
        };
        Violation {
            path: self.path.clone(),
            rule_id: self.rule_id.clone(),
            message: self.message.clone(),
            severity: self.severity,
            fix_suggestion,
            attempts: super::layout_trie::copy_attempts(&self.attempts),
        }
    }
}

/// The violations, as plain values.
pub open spec fn violations_view(v: Seq<Violation>) -> Seq<ViolationView> {
    v.map_values(|x: Violation| x@)
}

/// A violation with no suggestion and no recorded attempts.
pub open spec fn plain_violation(path: Seq<char>, rule_id: Seq<char>, message: Seq<char>, severity: Severity) -> ViolationView {
    ViolationView { path, rule_id, message, severity, fix_suggestion: None, attempts: Seq::empty() }
}

/// How a broken path or name rule is reported.
pub open spec fn rule_report(path: Seq<char>, severity: Severity) -> spec_fn(RuleViolationView) -> ViolationView {
    |rv: RuleViolationView| plain_violation(path, rule_id_spec(rv), rule_message_spec(rv), severity)
}

/// A lowercase hexadecimal digit.
pub open spec fn hex_digit(d: nat) -> char {
    if d < 10 {
        ((d + 48) as u32) as char
    } else {
        ((d + 87) as u32) as char
    }
}

/// A number below 256 in lowercase hexadecimal, without leading zeros.
pub open spec fn small_hex(n: nat) -> Seq<char> {
    if n < 16 {
        seq![hex_digit(n)]
    } else {
        seq![hex_digit(n / 16), hex_digit(n % 16)]
    }
}

/// What `char::escape_debug` writes for a character.
pub uninterp spec fn char_escape_debug(c: char) -> Seq<char>;

/// `char::escape_debug`, written out: the character's escaped form, which
/// depends on the character alone. Outside ASCII it is what the debug form
/// of a string writes for it.
#[verifier::external_body]
fn escape_debug_text(c: char) -> (r: String)
    ensures
        r@ == char_escape_debug(c),
{
    c.escape_debug().to_string()
}

/// A character as Rust's debug form of a string writes it: the quote, the
/// backslash and the ASCII control characters escaped, other ASCII
/// characters as they are, and the rest as `char::escape_debug` writes them.
pub open spec fn debug_char(c: char) -> Seq<char> {
    if c == '\0' {
        seq!['\\', '0']
    } else if c == '\t' {
        seq!['\\', 't']
    } else if c == '\r' {
        seq!['\\', 'r']
    } else if c == '\n' {
        seq!['\\', 'n']
    } else if c == '\\' {
        seq!['\\', '\\']
    } else if c == '"' {
        seq!['\\', '"']
    } else if (c as u32) < 32 || (c as u32) == 127 {
        seq!['\\', 'u', '{'] + small_hex((c as u32) as nat) + seq!['}']
    } else if (c as u32) < 128 {
        seq![c]
    } else {
        char_escape_debug(c)
    }
}

/// The characters of a string escaped for its debug form.
pub open spec fn debug_chars(s: Seq<char>) -> Seq<char>
    decreases s.len(),
{
    if s.len() == 0 {
        Seq::empty()
    } else {
        debug_chars(s.drop_last()) + debug_char(s.last())
    }
}

/// A string in double quotes, escaped as its debug form.
pub open spec fn debug_quoted(s: Seq<char>) -> Seq<char> {
    seq!['"'] + debug_chars(s) + seq!['"']
}

/// A list written as Rust writes a list of strings for debugging.
pub open spec fn quoted_list(items: Seq<Seq<char>>) -> Seq<char> {
    "["@ + join_with(items.map_values(|s: Seq<char>| debug_quoted(s)), ", "@) + "]"@
}

/// The message for a path that the layout does not define.
pub open spec fn not_in_layout_message(nearest: Option<Seq<char>>) -> Seq<char> {
    match nearest {
        Some(n) => "path not defined in layout (nearest valid: "@ + n + ")"@,
        None => "path not defined in layout"@,
    }
}

/// How the layout's verdict on a path is reported.
pub open spec fn layout_report(o: Outcome, path: Seq<char>, severity: Severity) -> Seq<ViolationView> {
    match o {
        Outcome::Denied { reason, attempts } => seq![
            ViolationView { path, rule_id: "layout"@, message: reason, severity, fix_suggestion: None, attempts },
        ],
        Outcome::NotInLayout { nearest_valid, attempts } => seq![
            ViolationView {
                path,
                rule_id: "layout"@,
                message: not_in_layout_message(nearest_valid),
                severity,
                fix_suggestion: None,
                attempts,
            },
        ],
        Outcome::MissingRequired { expected } => seq![
            plain_violation(path, "layout"@, "missing required children: "@ + quoted_list(expected), severity),
        ],
        _ => Seq::empty(),
    }
}

/// The violations of one path: none when the path is ignored; else the
/// broken path and name rules, then the layout's complaint if any.
pub open spec fn file_check_spec(
    layout: Option<LayoutNode>,
    rules: RulesView,
    strict: bool,
    path: Seq<char>,
) -> Seq<ViolationView> {
    if ignored_by(rules, path) {
        Seq::empty()
    } else {
        let sev = severity_of(strict);
        let from_rules = check_path_spec(rules, path).map_values(rule_report(path, sev));
        match layout {
            Some(root) => from_rules + layout_report(match_path_spec(root, path), path, sev),
            None => from_rules,
        }
    }
}

/// A child that the layout expects, as reported by `explain_path`.
#[derive(Debug)]
pub struct ExpectedChildInfo {
    pub name: String,
    pub is_dir: bool,
    pub optional: bool,
    pub is_param: bool,
}

impl View for ExpectedChildInfo {
    type V = ExpectedView;

    open spec fn view(&self) -> ExpectedView {
        ExpectedView { name: self.name@, is_dir: self.is_dir, optional: self.optional, is_param: self.is_param }
    }
}

/// What the layout says of one path.
#[derive(Debug)]
pub struct PathExplanation {
    pub path: String,
    pub match_result: MatchResult,
    pub expected_children: Vec<ExpectedChildInfo>,
}

/// Checks paths against a layout and a set of rules.
pub struct FileMatcher {
    layout_matcher: Option<LayoutMatcher>,
    rules: CompiledRules,
    strict_mode: bool,
}

impl FileMatcher {
    /// The layout checked, if the configuration has one.
    pub closed spec fn layout(&self) -> Option<LayoutNode> {
        match self.layout_matcher {
            Some(m) => Some(m.layout()),
            None => None,
        }
    }

    /// The compiled rules.
    pub closed spec fn rules(&self) -> RulesView {
        self.rules@
    }

    /// Whether violations are errors (strict mode) rather than warnings.
    pub closed spec fn strict(&self) -> bool {
        self.strict_mode
    }

    /// A matcher for the configuration's layout and rules; strict mode makes
    /// violations errors. A configuration without a layout is checked
    /// against its rules alone. It never fails.
    pub fn new(config: &ConfigIR) -> (r: Result<Self, globset::Error>)
        ensures
            r matches Ok(m) && m.layout() == config.layout && m.rules() == compiled_view(config.rules)
                && m.strict() == (config.mode == Mode::Strict),
    {
        let layout_matcher = match &config.layout {
            Some(root) => Some(LayoutMatcher::new(root.duplicate())),
            None => None,
        };
        let rules = match CompiledRules::compile(&config.rules) {
            Ok(c) => c,
            Err(e) => {
                return Err(e);
            },
        };
        let strict_mode = config.mode == Mode::Strict;
        Ok(FileMatcher { layout_matcher, rules, strict_mode })
    }

    /// Whether the rules ignore `path`.
    pub fn is_ignored(&self, path: &str) -> (r: bool)
        ensures
            r == ignored_by(self.rules(), path@),
    {
        self.rules.is_ignored(path)
    }

    /// The violations of `path`: nothing when it is ignored; else one per
    /// broken path or name rule, then the layout's complaint, if any.
    pub fn check_path(&self, path: &str) -> (r: Vec<Violation>)
        ensures
            violations_view(r@) == file_check_spec(self.layout(), self.rules(), self.strict(), path@),
    {
        let mut violations: Vec<Violation> = Vec::new();
        if self.rules.is_ignored(path) {
            assert(violations_view(violations@) =~= Seq::<ViolationView>::empty());
            return violations;
        }
        let severity = if self.strict_mode {
            Severity::Error
        } else {
            Severity::Warning
        };
        let ghost sev = severity_of(self.strict_mode);
        let rule_violations = self.rules.check_path(path);
        let ghost rvs = rule_violations_view(rule_violations@);
        let n = rule_violations.len();
        for i in 0..n
            invariant
                n == rule_violations@.len(),
                rvs == rule_violations_view(rule_violations@),
                severity == sev,
                violations_view(violations@) == rvs.take(i as int).map_values(rule_report(path@, sev)),
        {
            let rv = &rule_violations[i];
            let v = Violation {
                path: to_owned_string(path),
                rule_id: to_owned_string(rv.rule_id()),
                message: rv.message(),
                severity,
                fix_suggestion: None,
                attempts: Vec::new(),
            };
            let ghost before = violations_view(violations@);
            let ghost vv = v@;
            violations.push(v);
            assert(attempts_view(Seq::<MatchAttempt>::empty()) =~= Seq::<AttemptView>::empty());
            assert(rvs[i as int] == rule_violations@[i as int]@);
            assert(vv == rule_report(path@, sev)(rvs[i as int]));
            assert(violations_view(violations@) =~= before.push(vv));
            assert(rvs.take(i + 1).map_values(rule_report(path@, sev)) =~= rvs.take(i as int).map_values(
                rule_report(path@, sev),
            ).push(rule_report(path@, sev)(rvs[i as int])));
        }
        assert(rvs.take(n as int) =~= rvs);
        let ghost first = violations_view(violations@);
        match &self.layout_matcher {
            None => {},
            Some(lm) => {
                let result = lm.match_path(path);
                let ghost o = result@;
                match result {
                    MatchResult::Denied { reason, attempts } => {
                        violations.push(
                            Violation {
                                path: to_owned_string(path),
                                rule_id: String::from_str("layout"),
                                message: reason,
                                severity,
                                fix_suggestion: None,
                                attempts,
                            },
                        );
                        assert(violations_view(violations@) =~= first + layout_report(o, path@, sev));
                    },
                    MatchResult::NotInLayout { nearest_valid, attempts } => {
                        let message = match nearest_valid {
                            Some(nearest) => {
                                let mut m = String::from_str("path not defined in layout (nearest valid: ");
                                m.append(nearest.as_str());
                                m.append(")");
                                m
                            },
                            None => String::from_str("path not defined in layout"),
                        };
                        violations.push(
                            Violation {
                                path: to_owned_string(path),
                                rule_id: String::from_str("layout"),
                                message,
                                severity,
                                fix_suggestion: None,
                                attempts,
                            },
                        );
                        assert(violations_view(violations@) =~= first + layout_report(o, path@, sev));
                    },
                    MatchResult::MissingRequired { expected } => {
                        let mut message = String::from_str("missing required children: ");
                        let listed = quote_list(&expected);
                        message.append(listed.as_str());
                        violations.push(
                            Violation {
                                path: to_owned_string(path),
                                rule_id: String::from_str("layout"),
                                message,
                                severity,
                                fix_suggestion: None,
                                attempts: Vec::new(),
                            },
                        );
                        assert(attempts_view(Seq::<MatchAttempt>::empty()) =~= Seq::<AttemptView>::empty());
                        assert(violations_view(violations@) =~= first + layout_report(o, path@, sev));
                    },
                    _ => {
                        assert(violations_view(violations@) =~= first + layout_report(o, path@, sev));
                    },
                }
            },
        }
        violations
    }

    /// The layout's verdict on `path` and what it expects below it. Without
    /// a layout every path is allowed and nothing is expected.
    pub fn explain_path(&self, path: &str) -> (r: PathExplanation)
        ensures
            r.path@ == path@,
            match self.layout() {
                Some(root) => r.match_result@ == match_path_spec(root, path@) && r.expected_children@.map_values(
                    |e: ExpectedChildInfo| e@,
                ) == expected_at(path_components(path@), root),
                None => r.match_result@ == Outcome::Allowed && r.expected_children@.len() == 0,
            },
    {
        match &self.layout_matcher {
            None => PathExplanation {
                path: to_owned_string(path),
                match_result: MatchResult::Allowed,
                expected_children: Vec::new(),
            },
            Some(lm) => {
                let match_result = lm.match_path(path);
                let expected = lm.get_expected_children(path);
                let ghost ev = expected_view(expected@);
                let mut infos: Vec<ExpectedChildInfo> = Vec::new();
                let n = expected.len();
                for i in 0..n
                    invariant
                        n == expected@.len(),
                        ev == expected_view(expected@),
                        infos@.map_values(|e: ExpectedChildInfo| e@) == ev.take(i as int),
                {
                    let e = &expected[i];
                    let ghost before = infos@.map_values(|e: ExpectedChildInfo| e@);
                    assert(ev[i as int] == expected@[i as int]@);
                    infos.push(
                        ExpectedChildInfo {
                            name: e.name.clone(),
                            is_dir: e.is_dir,
                            optional: e.optional,
                            is_param: e.is_param,
                        },
                    );
                    assert(infos@.map_values(|e: ExpectedChildInfo| e@) =~= before.push(ev[i as int]));
                    assert(ev.take(i + 1) =~= ev.take(i as int).push(ev[i as int]));
                }
                assert(ev.take(n as int) =~= ev);
                PathExplanation { path: to_owned_string(path), match_result, expected_children: infos }
            },
        }
    }
}

fn hex_text(d: usize) -> (r: &'static str)
    requires
        d < 16,
    ensures
        r@ == seq![hex_digit(d as nat)],
{
    let digits = "0123456789abcdef";
    proof {
        reveal_strlit("0123456789abcdef");
    }
    let r = digits.substring_char(d, d + 1);
    assert(r@ =~= seq![hex_digit(d as nat)]);
    r
}

fn escape_text(c: char) -> (r: &'static str)
    requires
        c == '\0' || c == '\t' || c == '\r' || c == '\n' || c == '\\' || c == '"',
    ensures
        r@ == debug_char(c),
{
    proof {
        reveal_strlit("\\0");
        reveal_strlit("\\t");
        reveal_strlit("\\r");
        reveal_strlit("\\n");
        reveal_strlit("\\\\");
        reveal_strlit("\\\"");
    }
    let r = if c == '\0' {
        "\\0"
    } else if c == '\t' {
        "\\t"
    } else if c == '\r' {
        "\\r"
    } else if c == '\n' {
        "\\n"
    } else if c == '\\' {
        "\\\\"
    } else {
        "\\\""
    };
    assert(r@ =~= debug_char(c));
    r
}

/// A string in double quotes, escaped as its debug form.
pub fn debug_string(s: &str) -> (r: String)
    ensures
        r@ == debug_quoted(s@),
{
    let cs = crate::text::chars_of(s);
    let mut out = String::from_str("\"");
    proof {
        reveal_strlit("\"");
        reveal_strlit("\\u{");
        reveal_strlit("}");
    }
    assert(s@.take(0) =~= Seq::<char>::empty());
    let n = cs.len();
    for i in 0..n
        invariant
            n == cs@.len(),
            cs@ == s@,
            out@ == seq!['"'] + debug_chars(s@.take(i as int)),
            "\\u{"@ == seq!['\\', 'u', '{'],
            "}"@ == seq!['}'],
    {
        let c = cs[i];
        assert(s@.take(i + 1).drop_last() =~= s@.take(i as int));
        assert(s@.take(i + 1).last() == c);
        let ghost before = out@;
        if c == '\0' || c == '\t' || c == '\r' || c == '\n' || c == '\\' || c == '"' {
            out.append(escape_text(c));
        } else if (c as u32) < 32 || (c as u32) == 127 {
            let v = (c as u32) as usize;
            out.append("\\u{");
            if v >= 16 {
                out.append(hex_text(v / 16));
                out.append(hex_text(v % 16));
            } else {
                out.append(hex_text(v));
            }
            out.append("}");
        } else if (c as u32) < 128 {
            out.append(s.substring_char(i, i + 1));
            assert(s@.subrange(i as int, i + 1) =~= seq![c]);
        } else {
            let e = escape_debug_text(c);
            out.append(e.as_str());
        }
        assert(out@ =~= before + debug_char(c));
    }
    assert(s@.take(n as int) =~= s@);
    out.append("\"");
    assert(out@ =~= debug_quoted(s@));
    out
}

/// The strings written as a bracketed, comma-separated list of quoted items.
pub fn quote_list(items: &Vec<String>) -> (r: String)
    ensures
        r@ == quoted_list(views(items@)),
{
    let ghost q = |s: Seq<char>| debug_quoted(s);
    let mut quoted: Vec<String> = Vec::new();
    let n = items.len();
    for i in 0..n
        invariant
            n == items@.len(),
            q == (|s: Seq<char>| debug_quoted(s)),
            views(quoted@) == views(items@).take(i as int).map_values(q),
    {
        let s = debug_string(items[i].as_str());
        let ghost before = views(quoted@);
        let ghost sv = s@;
        quoted.push(s);
        assert(sv == q(views(items@)[i as int]));
        assert(views(quoted@) =~= before.push(sv));
        assert(views(items@).take(i + 1).map_values(q) =~= views(items@).take(i as int).map_values(q).push(
            q(views(items@)[i as int]),
        ));
    }
    assert(views(items@).take(n as int) =~= views(items@));
    let mut r = String::from_str("[");
    let joined = crate::text::join_strings(&quoted, ", ");
    r.append(joined.as_str());
    r.append("]");
    r
}

/// A path that the ignore rules cover gets no violation at all.
pub proof fn lemma_ignored_path_is_clean(layout: Option<LayoutNode>, rules: RulesView, strict: bool, path: Seq<char>)
    requires
        ignored_by(rules, path),
    ensures
        file_check_spec(layout, rules, strict, path).len() == 0,
{
}

} // verus!
