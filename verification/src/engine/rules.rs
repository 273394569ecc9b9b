//! Forbidden paths, forbidden names and ignored paths.

use vstd::prelude::*;

use crate::config::RulesConfig;
use crate::text::{begins_with, chars_of, components_of, copy_strings, join_strings, join_with, path_components, to_owned_string, views};

verus! {

// ---------------------------------------------------------------------------
// Outside calls
// ---------------------------------------------------------------------------

/// The verdict of `fast_glob::glob_match` on a glob and a path. It depends
/// on the two texts and on the platform the library is built for, whose
/// `std::path::is_separator` also reads a backslash as a separator on Windows.
pub uninterp spec fn glob_matches(pattern: Seq<char>, path: Seq<char>) -> bool;

/// Calls `fast_glob::glob_match(pattern, path)`. Its verdict is a function of
/// the two strings alone, and is named `glob_matches`; nothing more of the glob
/// language is stated here.
#[verifier::external_body]
fn glob_match(pattern: &str, path: &str) -> (r: bool)
    ensures
        r == glob_matches(pattern@, path@),
{
    fast_glob::glob_match(pattern, path)
}

/// What `str::to_lowercase` makes of a string.
pub uninterp spec fn unicode_lowercase(s: Seq<char>) -> Seq<char>;

/// Calls `str::to_lowercase`, the Unicode lowercase mapping; its result is a
/// function of the string alone and is named `unicode_lowercase`.
#[verifier::external_body]
pub(crate) fn lowercase(s: &str) -> (r: String)
    ensures
        r@ == unicode_lowercase(s@),
{
    s.to_lowercase()
}

/// The error type that compiling rules can report.
#[verifier::external_type_specification]
#[verifier::external_body]
pub struct ExGlobsetError(globset::Error);

// ---------------------------------------------------------------------------
// The model
// ---------------------------------------------------------------------------

/// Compiled rules, as plain values.
pub struct RulesView {
    pub forbid_paths: Seq<Seq<char>>,
    pub forbid_negated: Seq<Seq<char>>,
    pub forbid_names: Seq<Seq<char>>,
    pub forbid_names_lower: Seq<Seq<char>>,
    pub ignore_paths: Seq<Seq<char>>,
    pub ignore_negated: Seq<Seq<char>>,
}

/// The patterns that do not begin with `!`, in order.
pub open spec fn plain_patterns(pats: Seq<Seq<char>>) -> Seq<Seq<char>> {
    pats.filter(|p: Seq<char>| !begins_with(p, '!'))
}

/// A pattern that begins with `!` and has more after it.
pub open spec fn is_negation(p: Seq<char>) -> bool {
    begins_with(p, '!') && p.len() > 1
}

/// The negated patterns, without their `!`, in order; a lone `!` is dropped.
pub open spec fn negated_patterns(pats: Seq<Seq<char>>) -> Seq<Seq<char>> {
    pats.filter(|p: Seq<char>| is_negation(p)).map_values(|p: Seq<char>| p.drop_first())
}

/// The rules that `config` compiles to.
pub open spec fn compiled_view(config: RulesConfig) -> RulesView {
    RulesView {
        forbid_paths: plain_patterns(views(config.forbid_paths@)),
        forbid_negated: negated_patterns(views(config.forbid_paths@)),
        forbid_names: views(config.forbid_names@),
        forbid_names_lower: views(config.forbid_names@).map_values(|n: Seq<char>| unicode_lowercase(n)),
        ignore_paths: plain_patterns(views(config.ignore_paths@)),
        ignore_negated: negated_patterns(views(config.ignore_paths@)),
    }
}

/// Whether some pattern of `pats` matches `path`.
pub open spec fn any_glob(pats: Seq<Seq<char>>, path: Seq<char>) -> bool {
    exists|i: int| 0 <= i < pats.len() && #[trigger] glob_matches(pats[i], path)
}

/// The patterns of `pats` that match `path`, in order.
pub open spec fn matching_globs(pats: Seq<Seq<char>>, path: Seq<char>) -> Seq<Seq<char>> {
    pats.filter(|p: Seq<char>| glob_matches(p, path))
}

/// A path is ignored when an ignore pattern matches it and no negated
/// ignore pattern does.
pub open spec fn ignored_by(v: RulesView, path: Seq<char>) -> bool {
    any_glob(v.ignore_paths, path) && !any_glob(v.ignore_negated, path)
}

/// The last component of a path, when it is a name (not the root, `.` or `..`).
pub open spec fn file_name(path: Seq<char>) -> Option<Seq<char>> {
    let comps = path_components(path);
    if comps.len() == 0 {
        None
    } else {
        let last = comps.last();
        if last == seq!['/'] || last == seq!['.'] || last == seq!['.', '.'] {
            None
        } else {
            Some(last)
        }
    }
}

/// The last component of a path, as `Path::file_name` gives it.
pub fn file_name_of(path: &str) -> (r: Option<String>)
    ensures
        match file_name(path@) {
            Some(n) => r matches Some(x) && x@ == n,
            None => r is None,
        },
{
    let comps = components_of(path);
    let k = comps.len();
    if k == 0 {
        return None;
    }
    assert(views(comps@).last() == comps@[k - 1]@);
    let name = comps[k - 1].as_str();
    proof {
        reveal_strlit("/");
        reveal_strlit(".");
        reveal_strlit("..");
        assert("/"@ =~= seq!['/']);
        assert("."@ =~= seq!['.']);
        assert(".."@ =~= seq!['.', '.']);
    }
    if crate::text::str_eq(name, "/") || crate::text::str_eq(name, ".") || crate::text::str_eq(name, "..") {
        return None;
    }
    Some(to_owned_string(name))
}

/// The ASCII lowercase of a character; other characters stay.
pub open spec fn ascii_lower_char(c: char) -> char {
    if 'A' <= c && c <= 'Z' {
        ((c as u32) + 32) as char
    } else {
        c
    }
}

/// The ASCII lowercase of a string.
pub open spec fn ascii_lower(s: Seq<char>) -> Seq<char> {
    s.map_values(|c: char| ascii_lower_char(c))
}

/// Whether the lowercased name `lname` is caught by the forbidden name `f`:
/// it is `f`, or begins with `f` followed by a character that is not an
/// ASCII letter or digit (`temp.ts`, `copy (2).ts`, `final-v2.ts`).
pub open spec fn name_hits(lname: Seq<char>, f: Seq<char>) -> bool {
    lname == f || (f.len() < lname.len() && lname.take(f.len() as int) == f && !crate::text::is_alnum(
        lname[f.len() as int],
    ))
}

/// The first index, from `i` on, of a forbidden name that `lname` hits.
pub open spec fn first_name_hit(lowers: Seq<Seq<char>>, lname: Seq<char>, i: int) -> Option<int>
    decreases lowers.len() - i,
{
    if i < 0 || i >= lowers.len() {
        None
    } else if name_hits(lname, lowers[i]) {
        Some(i)
    } else {
        first_name_hit(lowers, lname, i + 1)
    }
}

/// A rule violation, as plain values.
pub enum RuleViolationView {
    ForbiddenPath { path: Seq<char>, matched_patterns: Seq<Seq<char>> },
    ForbiddenName { path: Seq<char>, name: Seq<char>, forbidden: Seq<char> },
}

/// The name rule's verdict on a path: the first forbidden name that catches
/// the file name (ASCII-lowercased), when the name is at most 256 bytes long.
pub open spec fn name_violations(v: RulesView, path: Seq<char>) -> Seq<RuleViolationView> {
    if v.forbid_names.len() == 0 {
        Seq::empty()
    } else {
        match file_name(path) {
            Some(name) => if vstd::utf8::encode_utf8(name).len() <= 256 {
                match first_name_hit(v.forbid_names_lower, ascii_lower(name), 0) {
                    Some(i) => seq![
                        RuleViolationView::ForbiddenName { path, name, forbidden: v.forbid_names[i] },
                    ],
                    None => Seq::empty(),
                }
            } else {
                Seq::empty()
            },
            None => Seq::empty(),
        }
    }
}

/// The verdict of the path and name rules on `path`. A path that matches a
/// forbidden pattern and a negated one gets no forbidden-path violation; the
/// name rule applies to it all the same.
pub open spec fn check_path_spec(v: RulesView, path: Seq<char>) -> Seq<RuleViolationView> {
    if v.forbid_paths.len() == 0 && v.forbid_names.len() == 0 {
        Seq::empty()
    } else {
        let hits = matching_globs(v.forbid_paths, path);
        if hits.len() > 0 && !any_glob(v.forbid_negated, path) {
            seq![RuleViolationView::ForbiddenPath { path, matched_patterns: hits }] + name_violations(v, path)
        } else {
            name_violations(v, path)
        }
    }
}

/// Whether the forbidden name at index `i` lowercases to `lname`.
pub open spec fn lower_is(v: RulesView, lname: Seq<char>) -> spec_fn(int) -> bool {
    |i: int| v.forbid_names_lower[i] == lname
}

/// The forbidden name at an index.
pub open spec fn name_at(v: RulesView) -> spec_fn(int) -> Seq<char> {
    |i: int| v.forbid_names[i]
}

/// The forbidden names whose lowercase equals `lname`, in order.
pub open spec fn directory_hits(v: RulesView, lname: Seq<char>) -> Seq<Seq<char>> {
    Seq::new(v.forbid_names.len(), |i: int| i).filter(lower_is(v, lname)).map_values(name_at(v))
}

/// How a forbidden directory name is reported.
pub open spec fn name_report(path: Seq<char>, name: Seq<char>) -> spec_fn(Seq<char>) -> RuleViolationView {
    |f: Seq<char>| RuleViolationView::ForbiddenName { path, name, forbidden: f }
}

// ---------------------------------------------------------------------------
// Violations
// ---------------------------------------------------------------------------

/// A broken path or name rule.
#[derive(Debug, Clone)]
pub enum RuleViolation {
    ForbiddenPath { path: String, matched_patterns: Vec<String> },
    ForbiddenName { path: String, name: String, forbidden: String },
}

impl View for RuleViolation {
    type V = RuleViolationView;

    open spec fn view(&self) -> RuleViolationView {
        match self {
            RuleViolation::ForbiddenPath { path, matched_patterns } => RuleViolationView::ForbiddenPath {
                path: path@,
                matched_patterns: views(matched_patterns@),
            },
            RuleViolation::ForbiddenName { path, name, forbidden } => RuleViolationView::ForbiddenName {
                path: path@,
                name: name@,
                forbidden: forbidden@,
            },
        }
    }
}

/// The violations, as plain values.
pub open spec fn rule_violations_view(v: Seq<RuleViolation>) -> Seq<RuleViolationView> {
    v.map_values(|r: RuleViolation| r@)
}

/// The rule that a violation breaks.
pub open spec fn rule_id_spec(v: RuleViolationView) -> Seq<char> {
    match v {
        RuleViolationView::ForbiddenPath { .. } => "forbidPaths"@,
        RuleViolationView::ForbiddenName { .. } => "forbidNames"@,
    }
}

/// The message that explains a violation.
pub open spec fn rule_message_spec(v: RuleViolationView) -> Seq<char> {
    match v {
        RuleViolationView::ForbiddenPath { matched_patterns, .. } => "path matches forbidden pattern: "@ + join_with(
            matched_patterns,
            ", "@,
        ),
        RuleViolationView::ForbiddenName { name, forbidden, .. } => "'"@ + name + "' matches forbidden name '"@
            + forbidden + "'"@,
    }
}

impl RuleViolation {
    /// The path that broke the rule.
    pub fn path(&self) -> (r: &str)
        ensures
            r@ == (match self@ {
                RuleViolationView::ForbiddenPath { path, .. } => path,
                RuleViolationView::ForbiddenName { path, .. } => path,
            }),
    {
        match self {
            RuleViolation::ForbiddenPath { path, .. } => path.as_str(),
            RuleViolation::ForbiddenName { path, .. } => path.as_str(),
        }
    }

    /// The rule that was broken.
    pub fn rule_id(&self) -> (r: &'static str)
        ensures
            r@ == rule_id_spec(self@),
    {
        match self {
            RuleViolation::ForbiddenPath { .. } => "forbidPaths",
            RuleViolation::ForbiddenName { .. } => "forbidNames",
        }
    }

    /// A one-line explanation.
    pub fn message(&self) -> (r: String)
        ensures
            r@ == rule_message_spec(self@),
    {
        match self {
            RuleViolation::ForbiddenPath { matched_patterns, .. } => {
                let mut r = String::from_str("path matches forbidden pattern: ");
                let joined = join_strings(matched_patterns, ", ");
                r.append(joined.as_str());
                r
            },
            RuleViolation::ForbiddenName { name, forbidden, .. } => {
                let mut r = String::from_str("'");
                r.append(name.as_str());
                r.append("' matches forbidden name '");
                r.append(forbidden.as_str());
                r.append("'");
                r
            },
        }
    }
}

} // verus!

verus! {

/// Path and name rules, ready to check paths.
#[derive(Debug)]
pub struct CompiledRules {
    forbid_paths_patterns: Vec<String>,
    forbid_paths_negated: Vec<String>,
    forbid_names: Vec<String>,
    forbid_names_lower: Vec<String>,
    ignore_paths_patterns: Vec<String>,
    ignore_paths_negated: Vec<String>,
}

impl CompiledRules {
    /// The rules, as plain values.
    pub closed spec fn view(&self) -> RulesView {
        RulesView {
            forbid_paths: views(self.forbid_paths_patterns@),
            forbid_negated: views(self.forbid_paths_negated@),
            forbid_names: views(self.forbid_names@),
            forbid_names_lower: views(self.forbid_names_lower@),
            ignore_paths: views(self.ignore_paths_patterns@),
            ignore_negated: views(self.ignore_paths_negated@),
        }
    }

    /// Every forbidden name is stored beside its lowercase.
    #[verifier::type_invariant]
    closed spec fn names_paired(&self) -> bool {
        &&& self.forbid_names_lower@.len() == self.forbid_names@.len()
        &&& forall|i: int|
            0 <= i < self.forbid_names@.len() ==> #[trigger] self.forbid_names_lower@[i]@ == unicode_lowercase(
                self.forbid_names@[i]@,
            )
    }

    /// Splits the path and ignore patterns into plain and negated (`!`)
    /// ones and lowercases the forbidden names. It never fails.
    pub fn compile(config: &RulesConfig) -> (r: Result<Self, globset::Error>)
        ensures
            r matches Ok(c) && c@ == compiled_view(*config),
    {
        let (forbid_paths_patterns, forbid_paths_negated) = split_negations(&config.forbid_paths);
        let (ignore_paths_patterns, ignore_paths_negated) = split_negations(&config.ignore_paths);
        let mut forbid_names: Vec<String> = Vec::new();
        let mut forbid_names_lower: Vec<String> = Vec::new();
        let n = config.forbid_names.len();
        for i in 0..n
            invariant
                n == config.forbid_names@.len(),
                forbid_names@ == config.forbid_names@.take(i as int),
                forbid_names_lower@.len() == i,
                forall|j: int| 0 <= j < i ==> #[trigger] forbid_names_lower@[j]@ == unicode_lowercase(
                    config.forbid_names@[j]@,
                ),
        {
            forbid_names.push(config.forbid_names[i].clone());
            forbid_names_lower.push(lowercase(config.forbid_names[i].as_str()));
            assert(forbid_names@ =~= config.forbid_names@.take(i + 1));
        }
        assert(forbid_names@ =~= config.forbid_names@);
        let r = CompiledRules {
            forbid_paths_patterns,
            forbid_paths_negated,
            forbid_names,
            forbid_names_lower,
            ignore_paths_patterns,
            ignore_paths_negated,
        };
        assert(views(r.forbid_names_lower@) =~= views(config.forbid_names@).map_values(
            |n: Seq<char>| unicode_lowercase(n),
        ));
        Ok(r)
    }

    /// Whether `path` is ignored: an ignore pattern matches it and no negated
    /// ignore pattern does.
    pub fn is_ignored(&self, path: &str) -> (r: bool)
        ensures
            r == ignored_by(self@, path@),
    {
        if self.ignore_paths_patterns.len() == 0 {
            return false;
        }
        if !any_match(&self.ignore_paths_patterns, path) {
            return false;
        }
        !any_match(&self.ignore_paths_negated, path)
    }

    /// Whether there is any path or name rule to check.
    pub fn has_rules(&self) -> (r: bool)
        ensures
            r == (self@.forbid_paths.len() > 0 || self@.forbid_names.len() > 0),
    {
        self.forbid_paths_patterns.len() > 0 || self.forbid_names.len() > 0
    }

    /// The path and name rules that `path` breaks.
    pub fn check_path(&self, path: &str) -> (r: Vec<RuleViolation>)
        ensures
            rule_violations_view(r@) == check_path_spec(self@, path@),
    {
        proof {
            use_type_invariant(self);
        }
        let mut violations: Vec<RuleViolation> = Vec::new();
        if self.forbid_paths_patterns.len() == 0 && self.forbid_names.len() == 0 {
            assert(rule_violations_view(violations@) =~= Seq::<RuleViolationView>::empty());
            return violations;
        }
        let hits = matching(&self.forbid_paths_patterns, path);
        if hits.len() > 0 && !any_match(&self.forbid_paths_negated, path) {
            violations.push(RuleViolation::ForbiddenPath { path: to_owned_string(path), matched_patterns: hits });
        }
        let ghost first = rule_violations_view(violations@);
        let mut named = self.check_name(path);
        let ghost second = rule_violations_view(named@);
        violations.append(&mut named);
        assert(rule_violations_view(violations@) =~= first + second);
        violations
    }

    fn check_name(&self, path: &str) -> (r: Vec<RuleViolation>)
        ensures
            rule_violations_view(r@) == name_violations(self@, path@),
    {
        proof {
            use_type_invariant(self);
        }
        let mut violations: Vec<RuleViolation> = Vec::new();
        assert(rule_violations_view(violations@) =~= Seq::<RuleViolationView>::empty());
        if self.forbid_names.len() == 0 {
            return violations;
        }
        let comps = components_of(path);
        let k = comps.len();
        if k == 0 {
            return violations;
        }
        assert(views(comps@).last() == comps@[k - 1]@);
        let name = comps[k - 1].as_str();
        if crate::text::str_eq(name, "/") || crate::text::str_eq(name, ".") || crate::text::str_eq(name, "..") {
            proof {
                reveal_strlit("/");
                reveal_strlit(".");
                reveal_strlit("..");
                assert("/"@ =~= seq!['/']);
                assert("."@ =~= seq!['.']);
                assert(".."@ =~= seq!['.', '.']);
            }
            return violations;
        }
        proof {
            reveal_strlit("/");
            reveal_strlit(".");
            reveal_strlit("..");
            assert("/"@ =~= seq!['/']);
            assert("."@ =~= seq!['.']);
            assert(".."@ =~= seq!['.', '.']);
        }
        assert(file_name(path@) == Some(name@));
        let bytes = name.as_bytes();
        if bytes.len() > 256 {
            return violations;
        }
        let lower = ascii_lower_chars(name);
        let n = self.forbid_names_lower.len();
        let mut i: usize = 0;
        while i < n
            invariant
                n == self.forbid_names_lower@.len(),
                n == self.forbid_names@.len(),
                n > 0,
                violations@.len() == 0,
                file_name(path@) == Some(name@),
                vstd::utf8::encode_utf8(name@).len() <= 256,
                lower@ == ascii_lower(name@),
                i <= n,
                first_name_hit(self@.forbid_names_lower, ascii_lower(name@), 0) == first_name_hit(
                    self@.forbid_names_lower,
                    ascii_lower(name@),
                    i as int,
                ),
            decreases n - i,
        {
            let f = chars_of(self.forbid_names_lower[i].as_str());
            assert(self@.forbid_names_lower[i as int] == self.forbid_names_lower@[i as int]@);
            if name_hit(&lower, &f) {
                assert(self@.forbid_names[i as int] == self.forbid_names@[i as int]@);
                violations.push(
                    RuleViolation::ForbiddenName {
                        path: to_owned_string(path),
                        name: to_owned_string(name),
                        forbidden: self.forbid_names[i].clone(),
                    },
                );
                assert(rule_violations_view(violations@) =~= name_violations(self@, path@));
                return violations;
            }
            i = i + 1;
        }
        violations
    }

    /// The forbidden names whose lowercase equals the lowercase of `name`,
    /// each reported against `path`.
    pub fn check_directory_name(&self, name: &str, path: &str) -> (r: Vec<RuleViolation>)
        ensures
            rule_violations_view(r@) == directory_hits(self@, unicode_lowercase(name@)).map_values(
                name_report(path@, name@),
            ),
    {
        proof {
            use_type_invariant(self);
        }
        let name_lower = lowercase(name);
        let n = self.forbid_names.len();
        let ghost v = self@;
        let ghost lname = unicode_lowercase(name@);
        let ghost idx = Seq::new(n as nat, |i: int| i);
        let mut violations: Vec<RuleViolation> = Vec::new();
        assert(idx.take(0).filter(lower_is(v, lname)) =~= Seq::<int>::empty()) by {
            reveal(Seq::filter);
        }
        assert(rule_violations_view(violations@) =~= Seq::<RuleViolationView>::empty());
        for i in 0..n
            invariant
                n == self.forbid_names@.len(),
                n == self.forbid_names_lower@.len(),
                v == self@,
                idx == Seq::new(n as nat, |i: int| i),
                name_lower@ == lname,
                rule_violations_view(violations@) == idx.take(i as int).filter(lower_is(v, lname)).map_values(
                    name_at(v),
                ).map_values(name_report(path@, name@)),
        {
            let ghost before = idx.take(i as int).filter(lower_is(v, lname));
            let ghost old_v = rule_violations_view(violations@);
            assert(idx.take(i + 1) =~= idx.take(i as int).push(i as int));
            proof {
                idx.take(i as int).lemma_filter_push(i as int, lower_is(v, lname));
            }
            assert(v.forbid_names_lower[i as int] == self.forbid_names_lower@[i as int]@);
            if crate::text::str_eq(name_lower.as_str(), self.forbid_names_lower[i].as_str()) {
                violations.push(
                    RuleViolation::ForbiddenName {
                        path: to_owned_string(path),
                        name: to_owned_string(name),
                        forbidden: self.forbid_names[i].clone(),
                    },
                );
                assert(idx.take(i + 1).filter(lower_is(v, lname)) == before.push(i as int));
                assert(v.forbid_names[i as int] == self.forbid_names@[i as int]@);
                assert(before.push(i as int).map_values(name_at(v)) =~= before.map_values(name_at(v)).push(
                    v.forbid_names[i as int],
                ));
                assert(before.map_values(name_at(v)).push(v.forbid_names[i as int]).map_values(
                    name_report(path@, name@),
                ) =~= before.map_values(name_at(v)).map_values(name_report(path@, name@)).push(
                    name_report(path@, name@)(v.forbid_names[i as int]),
                ));
                assert(rule_violations_view(violations@) =~= old_v.push(
                    name_report(path@, name@)(v.forbid_names[i as int]),
                ));
            } else {
                assert(idx.take(i + 1).filter(lower_is(v, lname)) == before);
            }
        }
        assert(idx.take(n as int) =~= idx);
        violations
    }
}

impl Clone for CompiledRules {
    fn clone(&self) -> (r: Self)
        ensures
            r@ == self@,
    {
        proof {
            use_type_invariant(self);
        }
        let forbid_names_lower = copy_strings(&self.forbid_names_lower);
        let forbid_names = copy_strings(&self.forbid_names);
        assert forall|i: int| 0 <= i < forbid_names@.len() implies #[trigger] forbid_names_lower@[i]@ == unicode_lowercase(
            forbid_names@[i]@,
        ) by {
            assert(views(forbid_names@)[i] == views(self.forbid_names@)[i]);
            assert(views(forbid_names_lower@)[i] == views(self.forbid_names_lower@)[i]);
        }
        CompiledRules {
            forbid_paths_patterns: copy_strings(&self.forbid_paths_patterns),
            forbid_paths_negated: copy_strings(&self.forbid_paths_negated),
            forbid_names,
            forbid_names_lower,
            ignore_paths_patterns: copy_strings(&self.ignore_paths_patterns),
            ignore_paths_negated: copy_strings(&self.ignore_paths_negated),
        }
    }
}


/// The plain patterns and the negated ones (without `!`) of `pats`.
fn split_negations(pats: &Vec<String>) -> (r: (Vec<String>, Vec<String>))
    ensures
        views(r.0@) == plain_patterns(views(pats@)),
        views(r.1@) == negated_patterns(views(pats@)),
{
    let ghost pv = views(pats@);
    let ghost plain_pred = |p: Seq<char>| !begins_with(p, '!');
    let ghost neg_pred = |p: Seq<char>| is_negation(p);
    let ghost strip = |p: Seq<char>| p.drop_first();
    let mut plain: Vec<String> = Vec::new();
    let mut negated: Vec<String> = Vec::new();
    let n = pats.len();
    assert(pv.take(0).filter(plain_pred) =~= Seq::<Seq<char>>::empty()) by {
        reveal(Seq::filter);
    }
    assert(pv.take(0).filter(neg_pred) =~= Seq::<Seq<char>>::empty()) by {
        reveal(Seq::filter);
    }
    for i in 0..n
        invariant
            n == pats@.len(),
            pv == views(pats@),
            plain_pred == (|p: Seq<char>| !begins_with(p, '!')),
            neg_pred == (|p: Seq<char>| is_negation(p)),
            strip == (|p: Seq<char>| p.drop_first()),
            views(plain@) == pv.take(i as int).filter(plain_pred),
            views(negated@) == pv.take(i as int).filter(neg_pred).map_values(strip),
    {
        let p = pats[i].as_str();
        assert(pv.take(i + 1) =~= pv.take(i as int).push(p@));
        proof {
            pv.take(i as int).lemma_filter_push(p@, plain_pred);
            pv.take(i as int).lemma_filter_push(p@, neg_pred);
        }
        let ghost nb = pv.take(i as int).filter(neg_pred);
        let ghost pb = views(plain@);
        let ghost ngb = views(negated@);
        if crate::text::starts_with_char(p, '!') {
            let k = p.unicode_len();
            if k > 1 {
                let rest = p.substring_char(1, k);
                assert(rest@ =~= p@.drop_first());
                negated.push(to_owned_string(rest));
                assert(views(negated@) =~= ngb.push(p@.drop_first()));
                assert(nb.push(p@).map_values(strip) =~= nb.map_values(strip).push(strip(p@)));
            }
        } else {
            plain.push(pats[i].clone());
            assert(views(plain@) =~= pb.push(p@));
        }
    }
    assert(pv.take(n as int) =~= pv);
    (plain, negated)
}

/// Whether some pattern of `pats` matches `path`.
fn any_match(pats: &Vec<String>, path: &str) -> (r: bool)
    ensures
        r == any_glob(views(pats@), path@),
{
    let n = pats.len();
    for i in 0..n
        invariant
            n == pats@.len(),
            forall|j: int| 0 <= j < i ==> !#[trigger] glob_matches(views(pats@)[j], path@),
    {
        assert(views(pats@)[i as int] == pats@[i as int]@);
        if glob_match(pats[i].as_str(), path) {
            return true;
        }
    }
    false
}

/// The patterns of `pats` that match `path`, in order.
fn matching(pats: &Vec<String>, path: &str) -> (r: Vec<String>)
    ensures
        views(r@) == matching_globs(views(pats@), path@),
{
    let ghost pv = views(pats@);
    let ghost pred = |p: Seq<char>| glob_matches(p, path@);
    let mut hits: Vec<String> = Vec::new();
    let n = pats.len();
    assert(pv.take(0).filter(pred) =~= Seq::<Seq<char>>::empty()) by {
        reveal(Seq::filter);
    }
    for i in 0..n
        invariant
            n == pats@.len(),
            pv == views(pats@),
            pred == (|p: Seq<char>| glob_matches(p, path@)),
            views(hits@) == pv.take(i as int).filter(pred),
    {
        let p = pats[i].as_str();
        assert(pv.take(i + 1) =~= pv.take(i as int).push(p@));
        proof {
            pv.take(i as int).lemma_filter_push(p@, pred);
        }
        let ghost before = views(hits@);
        if glob_match(p, path) {
            hits.push(pats[i].clone());
            assert(views(hits@) =~= before.push(p@));
        }
    }
    assert(pv.take(n as int) =~= pv);
    hits
}

/// The ASCII lowercase of the characters of `s`.
fn ascii_lower_chars(s: &str) -> (r: Vec<char>)
    ensures
        r@ == ascii_lower(s@),
{
    let cs = chars_of(s);
    let mut r: Vec<char> = Vec::new();
    let n = cs.len();
    for i in 0..n
        invariant
            n == cs@.len(),
            cs@ == s@,
            r@ == ascii_lower(s@).take(i as int),
    {
        let c = cs[i];
        let l = if 'A' <= c && c <= 'Z' {
            let code: u32 = c as u32;
            char_from_ascii(code + 32)
        } else {
            c
        };
        r.push(l);
        assert(r@ =~= ascii_lower(s@).take(i + 1));
    }
    assert(ascii_lower(s@).take(n as int) =~= ascii_lower(s@));
    r
}

fn char_from_ascii(code: u32) -> (c: char)
    requires
        97 <= code <= 122,
    ensures
        c == code as char,
{
    let b: u8 = code as u8;
    b as char
}

/// Whether the forbidden name `f` catches the lowercased name `lower`.
fn name_hit(lower: &Vec<char>, f: &Vec<char>) -> (r: bool)
    ensures
        r == name_hits(lower@, f@),
{
    let n = f.len();
    if n > lower.len() {
        return false;
    }
    if !prefix_equals(lower, n, f) {
        assert(lower@ != f@) by {
            if lower@ == f@ {
                assert(lower@.take(n as int) =~= lower@);
            }
        }
        return false;
    }
    if n == lower.len() {
        assert(lower@.take(n as int) =~= lower@);
        return true;
    }
    let c = lower[n];
    !(('a' <= c && c <= 'z') || ('A' <= c && c <= 'Z') || ('0' <= c && c <= '9'))
}

/// Whether the first `n` characters of `a` are exactly `b`.
fn prefix_equals(a: &Vec<char>, n: usize, b: &Vec<char>) -> (r: bool)
    requires
        n <= a@.len(),
    ensures
        r == (a@.take(n as int) == b@),
{
    if n != b.len() {
        assert(a@.take(n as int).len() != b@.len());
        return false;
    }
    let mut i: usize = 0;
    while i < n
        invariant
            n == b@.len(),
            n <= a@.len(),
            i <= n,
            forall|j: int| 0 <= j < i ==> a@[j] == b@[j],
        decreases n - i,
    {
        if a[i] != b[i] {
            assert(a@.take(n as int)[i as int] != b@[i as int]);
            return false;
        }
        i = i + 1;
    }
    assert(a@.take(n as int) =~= b@);
    true
}

// ---------------------------------------------------------------------------
// Laws
// ---------------------------------------------------------------------------

/// A negated pattern of a list, without its `!`, is among the list's
/// negated patterns.
proof fn lemma_negated_member(pats: Seq<Seq<char>>, j: int)
    requires
        0 <= j < pats.len(),
        is_negation(pats[j]),
    ensures
        negated_patterns(pats).contains(pats[j].drop_first()),
{
    let neg = |p: Seq<char>| is_negation(p);
    pats.lemma_filter_contains(neg, j);
    let f = pats.filter(neg);
    let k = choose|k: int| 0 <= k < f.len() && f[k] == pats[j];
    let m = f.map_values(|p: Seq<char>| p.drop_first());
    assert(m[k] == pats[j].drop_first());
}

/// A path that a negated forbidden-path pattern (`!` and a glob) matches is
/// never reported as a forbidden path.
pub proof fn lemma_negation_exempts_path(config: RulesConfig, path: Seq<char>, j: int)
    requires
        0 <= j < config.forbid_paths@.len(),
        is_negation(config.forbid_paths@[j]@),
        glob_matches(config.forbid_paths@[j]@.drop_first(), path),
    ensures
        forall|i: int|
            0 <= i < check_path_spec(compiled_view(config), path).len()
                ==> !(#[trigger] check_path_spec(compiled_view(config), path)[i] is ForbiddenPath),
{
    let v = compiled_view(config);
    let pats = views(config.forbid_paths@);
    assert(pats[j] == config.forbid_paths@[j]@);
    lemma_negated_member(pats, j);
    let q = pats[j].drop_first();
    let k = choose|k: int| 0 <= k < v.forbid_negated.len() && v.forbid_negated[k] == q;
    assert(glob_matches(v.forbid_negated[k], path));
    assert(any_glob(v.forbid_negated, path));
    let r = check_path_spec(v, path);
    assert forall|i: int| 0 <= i < r.len() implies !(#[trigger] r[i] is ForbiddenPath) by {
        if !(v.forbid_paths.len() == 0 && v.forbid_names.len() == 0) {
            assert(r == name_violations(v, path) || r.len() == 0);
        }
    }
}

/// A path that a negated forbidden-path pattern matches is still held to
/// the name rule: what it gets is exactly the name rule's verdict.
pub proof fn lemma_negation_keeps_name_rule(config: RulesConfig, path: Seq<char>, j: int)
    requires
        0 <= j < config.forbid_paths@.len(),
        is_negation(config.forbid_paths@[j]@),
        glob_matches(config.forbid_paths@[j]@.drop_first(), path),
    ensures
        check_path_spec(compiled_view(config), path) == name_violations(compiled_view(config), path),
{
    let v = compiled_view(config);
    let pats = views(config.forbid_paths@);
    assert(pats[j] == config.forbid_paths@[j]@);
    lemma_negated_member(pats, j);
    let q = pats[j].drop_first();
    let k = choose|k: int| 0 <= k < v.forbid_negated.len() && v.forbid_negated[k] == q;
    assert(glob_matches(v.forbid_negated[k], path));
}

/// A path that a negated ignore pattern matches is never ignored.
pub proof fn lemma_negation_keeps_checked(config: RulesConfig, path: Seq<char>, j: int)
    requires
        0 <= j < config.ignore_paths@.len(),
        is_negation(config.ignore_paths@[j]@),
        glob_matches(config.ignore_paths@[j]@.drop_first(), path),
    ensures
        !ignored_by(compiled_view(config), path),
{
    let v = compiled_view(config);
    let pats = views(config.ignore_paths@);
    assert(pats[j] == config.ignore_paths@[j]@);
    lemma_negated_member(pats, j);
    let q = pats[j].drop_first();
    let k = choose|k: int| 0 <= k < v.ignore_negated.len() && v.ignore_negated[k] == q;
    assert(glob_matches(v.ignore_negated[k], path));
}

/// Only the forbidden-path rule reports a path that a forbidden pattern and
/// no negated pattern matches, and it lists every matching pattern.
pub proof fn lemma_forbidden_path_reported(config: RulesConfig, path: Seq<char>, j: int)
    requires
        0 <= j < config.forbid_paths@.len(),
        !begins_with(config.forbid_paths@[j]@, '!'),
        glob_matches(config.forbid_paths@[j]@, path),
        !any_glob(compiled_view(config).forbid_negated, path),
    ensures
        check_path_spec(compiled_view(config), path).len() >= 1,
        check_path_spec(compiled_view(config), path)[0] == (RuleViolationView::ForbiddenPath {
            path,
            matched_patterns: matching_globs(compiled_view(config).forbid_paths, path),
        }),
        matching_globs(compiled_view(config).forbid_paths, path).contains(config.forbid_paths@[j]@),
{
    let v = compiled_view(config);
    let pats = views(config.forbid_paths@);
    assert(pats[j] == config.forbid_paths@[j]@);
    let plain = |p: Seq<char>| !begins_with(p, '!');
    pats.lemma_filter_contains(plain, j);
    let k = choose|k: int| 0 <= k < v.forbid_paths.len() && v.forbid_paths[k] == pats[j];
    let hit = |p: Seq<char>| glob_matches(p, path);
    v.forbid_paths.lemma_filter_contains(hit, k);
    assert(matching_globs(v.forbid_paths, path).len() > 0);
}

/// Where a forbidden name `f` stops catching a lowercased file name: the
/// name `f` itself is caught; `f` followed by an ASCII letter or digit
/// (`temp2.ts`, `temps.ts`) is not, whatever follows; `f` followed by any
/// other character (`temp.ts`, `temp-old.ts`, `temp (2).ts`) is. A name that
/// does not begin with `f` is never caught.
pub proof fn lemma_name_hit_boundary(f: Seq<char>, c: char, rest: Seq<char>, other: Seq<char>)
    ensures
        name_hits(f, f),
        (('0' <= c && c <= '9') || ('a' <= c && c <= 'z') || ('A' <= c && c <= 'Z')) ==> !name_hits(
            f + seq![c] + rest,
            f,
        ),
        !(('0' <= c && c <= '9') || ('a' <= c && c <= 'z') || ('A' <= c && c <= 'Z')) ==> name_hits(
            f + seq![c] + rest,
            f,
        ),
        name_hits(other, f) ==> other.len() >= f.len() && other.take(f.len() as int) == f,
{
    let l = f + seq![c] + rest;
    assert(l.take(f.len() as int) =~= f);
    assert(l[f.len() as int] == c);
    assert(l.len() > f.len());
    if other == f {
        assert(other.take(f.len() as int) =~= f);
    }
}

} // verus!
