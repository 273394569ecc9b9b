//! Matching a path against the layout tree, and listing what the layout
//! expects below a path.

use vstd::prelude::*;

use crate::config::{CaseStyle, ChildMap, LayoutNode, NodeList};
use crate::text::{
    begins_with, components_of, decimal, decimal_string, join_strings, join_with, path_components,
    simple_pattern_match, simple_pattern_matches, starts_with_char, stem, stem_of, to_owned_string,
    views,
};

verus! {

/// One pattern that was tried while matching, as plain characters.
pub struct AttemptView {
    pub pattern: Seq<char>,
    pub matched: bool,
    pub reason: Option<Seq<char>>,
}

/// A match result, as plain characters.
pub enum Outcome {
    Allowed,
    AllowedParam { name: Seq<char>, value: Seq<char> },
    AllowedMany { values: Seq<Seq<char>> },
    Denied { reason: Seq<char>, attempts: Seq<AttemptView> },
    NotInLayout { nearest_valid: Option<Seq<char>>, attempts: Seq<AttemptView> },
    MissingRequired { expected: Seq<Seq<char>> },
}

/// One pattern that was tried while matching a path.
#[derive(Debug)]
pub struct MatchAttempt {
    pub pattern: String,
    pub matched: bool,
    pub reason: Option<String>,
}

/// The characters of an optional string.
pub open spec fn opt_view(o: Option<String>) -> Option<Seq<char>> {
    match o {
        Some(s) => Some(s@),
        None => None,
    }
}

impl View for MatchAttempt {
    type V = AttemptView;

    open spec fn view(&self) -> AttemptView {
        AttemptView { pattern: self.pattern@, matched: self.matched, reason: opt_view(self.reason) }
    }
}

impl Clone for MatchAttempt {
    fn clone(&self) -> (r: Self)
        ensures
            r@ == self@,
    {
        let reason = match &self.reason {
            Some(s) => Some(s.clone()),
            None => None,
        };
        MatchAttempt { pattern: self.pattern.clone(), matched: self.matched, reason }
    }
}

/// A copy of every attempt.
pub fn copy_attempts(v: &Vec<MatchAttempt>) -> (r: Vec<MatchAttempt>)
    ensures
        attempts_view(r@) == attempts_view(v@),
{
    let mut r: Vec<MatchAttempt> = Vec::new();
    let n = v.len();
    for i in 0..n
        invariant
            n == v@.len(),
            attempts_view(r@) == attempts_view(v@).take(i as int),
    {
        let ghost before = attempts_view(r@);
        let a = v[i].clone();
        assert(a@ == attempts_view(v@)[i as int]);
        r.push(a);
        assert(attempts_view(r@) =~= before.push(a@));
        assert(attempts_view(v@).take(i + 1) =~= attempts_view(v@).take(i as int).push(a@));
    }
    assert(attempts_view(v@).take(n as int) =~= attempts_view(v@));
    r
}

/// The attempts, as plain characters.
pub open spec fn attempts_view(v: Seq<MatchAttempt>) -> Seq<AttemptView> {
    v.map_values(|a: MatchAttempt| a@)
}

/// The verdict on one path.
#[derive(Debug, Clone)]
pub enum MatchResult {
    Allowed,
    AllowedParam { name: String, value: String },
    AllowedMany { values: Vec<String> },
    Denied { reason: String, attempts: Vec<MatchAttempt> },
    NotInLayout { nearest_valid: Option<String>, attempts: Vec<MatchAttempt> },
    MissingRequired { expected: Vec<String> },
}

impl View for MatchResult {
    type V = Outcome;

    open spec fn view(&self) -> Outcome {
        match self {
            MatchResult::Allowed => Outcome::Allowed,
            MatchResult::AllowedParam { name, value } => Outcome::AllowedParam { name: name@, value: value@ },
            MatchResult::AllowedMany { values } => Outcome::AllowedMany { values: views(values@) },
            MatchResult::Denied { reason, attempts } => Outcome::Denied {
                reason: reason@,
                attempts: attempts_view(attempts@),
            },
            MatchResult::NotInLayout { nearest_valid, attempts } => Outcome::NotInLayout {
                nearest_valid: opt_view(*nearest_valid),
                attempts: attempts_view(attempts@),
            },
            MatchResult::MissingRequired { expected } => Outcome::MissingRequired { expected: views(expected@) },
        }
    }
}

/// The path is accepted.
pub open spec fn is_ok(o: Outcome) -> bool {
    o is Allowed || o is AllowedParam || o is AllowedMany
}

impl MatchResult {
    /// Whether the path is accepted.
    pub fn is_allowed(&self) -> (r: bool)
        ensures
            r == is_ok(self@),
    {
        match self {
            MatchResult::Allowed => true,
            MatchResult::AllowedParam { .. } => true,
            MatchResult::AllowedMany { .. } => true,
            _ => false,
        }
    }
}

// ---------------------------------------------------------------------------
// Messages
// ---------------------------------------------------------------------------

/// The lowercase name of a case style.
pub open spec fn case_name(c: CaseStyle) -> Seq<char> {
    match c {
        CaseStyle::Kebab => "kebab"@,
        CaseStyle::Snake => "snake"@,
        CaseStyle::Camel => "camel"@,
        CaseStyle::Pascal => "pascal"@,
        CaseStyle::Any => "any"@,
    }
}

fn case_name_str(c: CaseStyle) -> (r: &'static str)
    ensures
        r@ == case_name(c),
{
    match c {
        CaseStyle::Kebab => "kebab",
        CaseStyle::Snake => "snake",
        CaseStyle::Camel => "camel",
        CaseStyle::Pascal => "pascal",
        CaseStyle::Any => "any",
    }
}

pub open spec fn msg_param_case(cur: Seq<char>, case: CaseStyle, name: Seq<char>) -> Seq<char> {
    "'"@ + cur + "' does not match "@ + case_name(case) + " case for parameter "@ + name
}

pub open spec fn attempt_param_case(case: CaseStyle, name: Seq<char>) -> AttemptView {
    AttemptView {
        pattern: "$"@ + name,
        matched: false,
        reason: Some("expected "@ + case_name(case) + " case"@),
    }
}

pub open spec fn msg_case(s: Seq<char>, case: CaseStyle) -> Seq<char> {
    "'"@ + s + "' does not match "@ + case_name(case) + " case"@
}

pub open spec fn attempt_many_case(case: CaseStyle) -> AttemptView {
    AttemptView {
        pattern: "$many("@ + case_name(case) + ")"@,
        matched: false,
        reason: Some("expected "@ + case_name(case) + " case"@),
    }
}

pub open spec fn attempt_file_case(case: CaseStyle) -> AttemptView {
    AttemptView {
        pattern: "file(case: "@ + case_name(case) + ")"@,
        matched: false,
        reason: Some("filename must be "@ + case_name(case) + " case"@),
    }
}

pub open spec fn msg_strict(cur: Seq<char>) -> Seq<char> {
    "'"@ + cur + "' not allowed in strict directory (no matching pattern)"@
}

pub open spec fn msg_file_children(cur: Seq<char>) -> Seq<char> {
    "'"@ + cur + "' is a file, cannot have children"@
}

pub open spec fn attempt_file_children() -> AttemptView {
    AttemptView { pattern: "file"@, matched: false, reason: Some("files cannot have child paths"@) }
}

pub open spec fn msg_pattern(cur: Seq<char>, pat: Seq<char>) -> Seq<char> {
    "'"@ + cur + "' does not match pattern '"@ + pat + "'"@
}

pub open spec fn attempt_pattern(pat: Seq<char>) -> AttemptView {
    AttemptView { pattern: pat, matched: false, reason: Some("filename must match pattern '"@ + pat + "'"@) }
}

pub open spec fn msg_depth(limit: nat, depth: nat) -> Seq<char> {
    "path exceeds maximum depth of "@ + decimal(limit) + " (current depth: "@ + decimal(depth) + ")"@
}

pub open spec fn attempt_depth(limit: nat) -> AttemptView {
    AttemptView {
        pattern: "maxDepth: "@ + decimal(limit),
        matched: false,
        reason: Some("directory nesting too deep"@),
    }
}

pub open spec fn attempt_literal(key: Seq<char>) -> AttemptView {
    AttemptView { pattern: key, matched: false, reason: Some("expected literal '"@ + key + "'"@) }
}

pub open spec fn attempt_param_key(key: Seq<char>) -> AttemptView {
    AttemptView { pattern: key, matched: false, reason: Some("parameter/pattern did not match"@) }
}

pub open spec fn attempt_recursive(max: nat) -> AttemptView {
    AttemptView { pattern: "recursive"@, matched: false, reason: Some("exceeded max depth of "@ + decimal(max)) }
}

/// The reason of the first attempt a failed outcome records.
pub open spec fn first_reason(o: Outcome) -> Option<Seq<char>> {
    match o {
        Outcome::Denied { attempts, .. } => if attempts.len() > 0 { attempts[0].reason } else { None },
        Outcome::NotInLayout { attempts, .. } => if attempts.len() > 0 { attempts[0].reason } else { None },
        _ => None,
    }
}

pub open spec fn attempt_either(i: nat, reason: Option<Seq<char>>) -> AttemptView {
    AttemptView { pattern: "either["@ + decimal(i) + "]"@, matched: false, reason }
}

/// The path walked so far, joined with `/`, when it is not empty.
pub open spec fn nearest(psf: Seq<Seq<char>>) -> Option<Seq<char>> {
    if psf.len() == 0 {
        None
    } else {
        Some(join_with(psf, "/"@))
    }
}

fn attempt(pattern: String, reason: String) -> (a: MatchAttempt)
    ensures
        a@ == (AttemptView { pattern: pattern@, matched: false, reason: Some(reason@) }),
{
    MatchAttempt { pattern, matched: false, reason: Some(reason) }
}

fn cat2(a: &str, b: &str) -> (r: String)
    ensures
        r@ == a@ + b@,
{
    let mut r = String::from_str(a);
    r.append(b);
    r
}

fn cat3(a: &str, b: &str, c: &str) -> (r: String)
    ensures
        r@ == a@ + b@ + c@,
{
    let mut r = cat2(a, b);
    r.append(c);
    r
}

fn cat4(a: &str, b: &str, c: &str, d: &str) -> (r: String)
    ensures
        r@ == a@ + b@ + c@ + d@,
{
    let mut r = cat3(a, b, c);
    r.append(d);
    r
}

fn cat6(a: &str, b: &str, c: &str, d: &str, e: &str, f: &str) -> (r: String)
    ensures
        r@ == a@ + b@ + c@ + d@ + e@ + f@,
{
    let mut r = cat4(a, b, c, d);
    r.append(e);
    r.append(f);
    r
}

fn denied_param_case(cur: &str, case: CaseStyle, name: &str) -> (r: MatchResult)
    ensures
        r@ == (Outcome::Denied {
            reason: msg_param_case(cur@, case, name@),
            attempts: seq![attempt_param_case(case, name@)],
        }),
{
    let cn = case_name_str(case);
    let reason = cat6("'", cur, "' does not match ", cn, " case for parameter ", name);
    let a = attempt(cat2("$", name), cat3("expected ", cn, " case"));
    let attempts = vec![a];
    assert(attempts_view(attempts@) =~= seq![attempt_param_case(case, name@)]);
    MatchResult::Denied { reason, attempts }
}

fn denied_many_case(cur: &str, case: CaseStyle) -> (r: MatchResult)
    ensures
        r@ == (Outcome::Denied { reason: msg_case(cur@, case), attempts: seq![attempt_many_case(case)] }),
{
    let cn = case_name_str(case);
    let reason = cat4("'", cur, "' does not match ", cn);
    let mut reason = reason;
    reason.append(" case");
    let a = attempt(cat3("$many(", cn, ")"), cat3("expected ", cn, " case"));
    let attempts = vec![a];
    assert(attempts_view(attempts@) =~= seq![attempt_many_case(case)]);
    MatchResult::Denied { reason, attempts }
}

fn denied_file_case(stem_str: &str, case: CaseStyle) -> (r: MatchResult)
    ensures
        r@ == (Outcome::Denied { reason: msg_case(stem_str@, case), attempts: seq![attempt_file_case(case)] }),
{
    let cn = case_name_str(case);
    let mut reason = cat4("'", stem_str, "' does not match ", cn);
    reason.append(" case");
    let a = attempt(cat3("file(case: ", cn, ")"), cat3("filename must be ", cn, " case"));
    let attempts = vec![a];
    assert(attempts_view(attempts@) =~= seq![attempt_file_case(case)]);
    MatchResult::Denied { reason, attempts }
}

fn denied_depth(limit: usize, depth: usize) -> (r: MatchResult)
    ensures
        r@ == (Outcome::Denied {
            reason: msg_depth(limit as nat, depth as nat),
            attempts: seq![attempt_depth(limit as nat)],
        }),
{
    let l = decimal_string(limit);
    let d = decimal_string(depth);
    let mut reason = cat4("path exceeds maximum depth of ", l.as_str(), " (current depth: ", d.as_str());
    reason.append(")");
    let a = attempt(cat2("maxDepth: ", l.as_str()), String::from_str("directory nesting too deep"));
    let attempts = vec![a];
    assert(attempts_view(attempts@) =~= seq![attempt_depth(limit as nat)]);
    MatchResult::Denied { reason, attempts }
}

fn nearest_of(psf: &Vec<String>) -> (r: Option<String>)
    ensures
        opt_view(r) == nearest(views(psf@)),
{
    if psf.len() == 0 {
        None
    } else {
        Some(join_strings(psf, "/"))
    }
}

} // verus!

verus! {

// ---------------------------------------------------------------------------
// What matching a path means
// ---------------------------------------------------------------------------

/// The keys of `m` that do not begin with `$`, in order.
pub open spec fn literal_keys(m: ChildMap) -> Seq<Seq<char>>
    decreases m,
{
    match m {
        ChildMap::Empty => Seq::empty(),
        ChildMap::Entry(k, _, rest) => if begins_with(k@, '$') {
            literal_keys(*rest)
        } else {
            seq![k@].add(literal_keys(*rest))
        },
    }
}

/// The keys of `m` that begin with `$`, in order.
pub open spec fn dynamic_keys(m: ChildMap) -> Seq<Seq<char>>
    decreases m,
{
    match m {
        ChildMap::Empty => Seq::empty(),
        ChildMap::Entry(k, _, rest) => if begins_with(k@, '$') {
            seq![k@].add(dynamic_keys(*rest))
        } else {
            dynamic_keys(*rest)
        },
    }
}

/// At most the first five items.
pub open spec fn first_five(s: Seq<Seq<char>>) -> Seq<Seq<char>> {
    if s.len() <= 5 {
        s
    } else {
        s.take(5)
    }
}

/// What a directory reports when no child fits: the first five literal keys,
/// then every dynamic key, as attempts.
pub open spec fn fallback_attempts(full: ChildMap) -> Seq<AttemptView> {
    first_five(literal_keys(full)).map_values(|k: Seq<char>| attempt_literal(k)) + dynamic_keys(full).map_values(
        |k: Seq<char>| attempt_param_key(k),
    )
}

/// The verdict when no child of a directory fits `cur`.
pub open spec fn dir_fallback(cur: Seq<char>, full: ChildMap, strict: bool, psf: Seq<Seq<char>>) -> Outcome {
    if strict {
        Outcome::Denied { reason: msg_strict(cur), attempts: fallback_attempts(full) }
    } else {
        Outcome::NotInLayout { nearest_valid: nearest(psf), attempts: fallback_attempts(full) }
    }
}

/// The verdict of a file node on the segment `cur`.
pub open spec fn file_outcome(
    cur: Seq<char>,
    has_more: bool,
    pattern: Option<String>,
    case: Option<CaseStyle>,
) -> Outcome {
    if has_more {
        Outcome::Denied { reason: msg_file_children(cur), attempts: seq![attempt_file_children()] }
    } else if pattern is Some && !simple_pattern_matches(cur, pattern->0@) {
        Outcome::Denied {
            reason: msg_pattern(cur, pattern->0@),
            attempts: seq![attempt_pattern(pattern->0@)],
        }
    } else if case is Some && !case->0.accepts(stem(cur)) {
        Outcome::Denied { reason: msg_case(stem(cur), case->0), attempts: seq![attempt_file_case(case->0)] }
    } else {
        Outcome::Allowed
    }
}

/// The directory's own depth limit, or the inherited one.
pub open spec fn effective_limit(own: Option<usize>, inherited: Option<usize>) -> Option<usize> {
    if own is Some {
        own
    } else {
        inherited
    }
}

/// Matches the segments `segs` against `node`, having walked `psf` so far at
/// nesting depth `depth`, under the depth limit `lim`.
pub open spec fn match_node(
    segs: Seq<Seq<char>>,
    node: LayoutNode,
    psf: Seq<Seq<char>>,
    lim: Option<usize>,
    depth: nat,
) -> Outcome
    decreases segs.len(), node, 1int,
{
    if lim is Some && depth > lim->0 {
        Outcome::Denied { reason: msg_depth(lim->0 as nat, depth), attempts: seq![attempt_depth(lim->0 as nat)] }
    } else if segs.len() == 0 {
        Outcome::Allowed
    } else {
        let cur = segs[0];
        let rem = segs.drop_first();
        match node {
            LayoutNode::Dir { children, strict, max_depth, .. } => {
                let eff = effective_limit(max_depth, lim);
                match dir_lookup(segs, children, psf, eff, depth) {
                    Some(o) => o,
                    None => dir_scan(segs, children, children, strict, psf, eff, depth, None),
                }
            },
            LayoutNode::File { pattern, case, .. } => file_outcome(cur, rem.len() > 0, pattern, case),
            LayoutNode::Param { name, case, child } => {
                if case.accepts(cur) {
                    let r = match_node(rem, *child, psf.push(cur), lim, depth + 1);
                    if is_ok(r) {
                        Outcome::AllowedParam { name: name@, value: cur }
                    } else {
                        r
                    }
                } else {
                    Outcome::Denied {
                        reason: msg_param_case(cur, case, name@),
                        attempts: seq![attempt_param_case(case, name@)],
                    }
                }
            },
            LayoutNode::Many { case, child, .. } => {
                if case is Some && !case->0.accepts(cur) {
                    Outcome::Denied { reason: msg_case(cur, case->0), attempts: seq![attempt_many_case(case->0)] }
                } else {
                    match_node(rem, *child, psf.push(cur), lim, depth + 1)
                }
            },
            LayoutNode::Recursive { max_depth, child } => match_rec(segs, *child, psf, max_depth as nat, 0),
            LayoutNode::Either { variants } => either_node(segs, variants, 0, Seq::empty(), psf, lim, depth),
        }
    }
}

/// The verdict through the first child whose key is the next segment, if any.
pub open spec fn dir_lookup(
    segs: Seq<Seq<char>>,
    scan: ChildMap,
    psf: Seq<Seq<char>>,
    eff: Option<usize>,
    depth: nat,
) -> Option<Outcome>
    decreases segs.len(), scan, 0int,
{
    if segs.len() == 0 {
        None
    } else {
        match scan {
            ChildMap::Empty => None,
            ChildMap::Entry(k, n, rest) => if k@ == segs[0] {
                Some(match_node(segs.drop_first(), *n, psf.push(segs[0]), eff, depth + 1))
            } else {
                dir_lookup(segs, *rest, psf, eff, depth)
            },
        }
    }
}

/// The failure kept while scanning: the first one met.
pub open spec fn keep_first(fail: Option<Outcome>, o: Outcome) -> Option<Outcome> {
    if fail is Some {
        fail
    } else {
        Some(o)
    }
}

/// Tries the dynamic (`$`) entries of `scan` in order; `full` is the whole
/// directory. The first entry that accepts the segments decides; an entry
/// that rejects them does not stop the scan, and the first rejection met is
/// kept in `fail`. When no entry accepts, the kept rejection is the
/// verdict, or, where there is none, the directory's fallback.
pub open spec fn dir_scan(
    segs: Seq<Seq<char>>,
    scan: ChildMap,
    full: ChildMap,
    strict: bool,
    psf: Seq<Seq<char>>,
    eff: Option<usize>,
    depth: nat,
    fail: Option<Outcome>,
) -> Outcome
    decreases segs.len(), scan, 0int,
{
    if segs.len() == 0 {
        Outcome::Allowed
    } else {
        let cur = segs[0];
        let rem = segs.drop_first();
        match scan {
            ChildMap::Empty => match fail {
                Some(f) => f,
                None => dir_fallback(cur, full, strict, psf),
            },
            ChildMap::Entry(k, n, rest) => if !begins_with(k@, '$') {
                dir_scan(segs, *rest, full, strict, psf, eff, depth, fail)
            } else {
                match *n {
                    LayoutNode::Param { name, case, child } => {
                        if case.accepts(cur) {
                            let r = match_node(rem, *child, psf.push(cur), eff, depth + 1);
                            if is_ok(r) {
                                Outcome::AllowedParam { name: name@, value: cur }
                            } else {
                                dir_scan(segs, *rest, full, strict, psf, eff, depth, fail)
                            }
                        } else {
                            dir_scan(
                                segs,
                                *rest,
                                full,
                                strict,
                                psf,
                                eff,
                                depth,
                                keep_first(
                                    fail,
                                    Outcome::Denied {
                                        reason: msg_param_case(cur, case, name@),
                                        attempts: seq![attempt_param_case(case, name@)],
                                    },
                                ),
                            )
                        }
                    },
                    LayoutNode::Many { case, child, .. } => {
                        if case is Some && !case->0.accepts(cur) {
                            dir_scan(
                                segs,
                                *rest,
                                full,
                                strict,
                                psf,
                                eff,
                                depth,
                                keep_first(
                                    fail,
                                    Outcome::Denied {
                                        reason: msg_case(cur, case->0),
                                        attempts: seq![attempt_many_case(case->0)],
                                    },
                                ),
                            )
                        } else if child->File_pattern is Some && (*child is File) && !simple_pattern_matches(
                            cur,
                            child->File_pattern->0@,
                        ) {
                            dir_scan(segs, *rest, full, strict, psf, eff, depth, fail)
                        } else if (*child is File) && child->File_case is Some && !child->File_case->0.accepts(
                            stem(cur),
                        ) {
                            dir_scan(
                                segs,
                                *rest,
                                full,
                                strict,
                                psf,
                                eff,
                                depth,
                                keep_first(
                                    fail,
                                    Outcome::Denied {
                                        reason: msg_case(stem(cur), child->File_case->0),
                                        attempts: seq![attempt_file_case(child->File_case->0)],
                                    },
                                ),
                            )
                        } else {
                            let r = match_node(rem, *child, psf.push(cur), eff, depth + 1);
                            if is_ok(r) {
                                Outcome::AllowedMany { values: seq![cur] }
                            } else {
                                dir_scan(segs, *rest, full, strict, psf, eff, depth, keep_first(fail, r))
                            }
                        }
                    },
                    LayoutNode::Recursive { max_depth, child } => {
                        let r = match_rec(segs, *child, psf, max_depth as nat, 0);
                        if is_ok(r) {
                            r
                        } else {
                            dir_scan(segs, *rest, full, strict, psf, eff, depth, fail)
                        }
                    },
                    LayoutNode::Either { variants } => match either_first(segs, variants, psf, eff, depth) {
                        Some(o) => o,
                        None => dir_scan(segs, *rest, full, strict, psf, eff, depth, fail),
                    },
                    _ => dir_scan(segs, *rest, full, strict, psf, eff, depth, fail),
                }
            },
        }
    }
}

/// The first accepting verdict among the variants, if any.
pub open spec fn either_first(
    segs: Seq<Seq<char>>,
    list: NodeList,
    psf: Seq<Seq<char>>,
    lim: Option<usize>,
    depth: nat,
) -> Option<Outcome>
    decreases segs.len(), list, 0int,
{
    match list {
        NodeList::Nil => None,
        NodeList::Cons(v, rest) => {
            let r = match_node(segs, *v, psf, lim, depth);
            if is_ok(r) {
                Some(r)
            } else {
                either_first(segs, *rest, psf, lim, depth)
            }
        },
    }
}

/// The first accepting verdict among the variants numbered from `i`, or a
/// report of every failed variant.
pub open spec fn either_node(
    segs: Seq<Seq<char>>,
    list: NodeList,
    i: nat,
    acc: Seq<AttemptView>,
    psf: Seq<Seq<char>>,
    lim: Option<usize>,
    depth: nat,
) -> Outcome
    decreases segs.len(), list, 0int,
{
    match list {
        NodeList::Nil => Outcome::NotInLayout { nearest_valid: nearest(psf), attempts: acc },
        NodeList::Cons(v, rest) => {
            let r = match_node(segs, *v, psf, lim, depth);
            if is_ok(r) {
                r
            } else {
                either_node(segs, *rest, i + 1, acc.push(attempt_either(i, first_reason(r))), psf, lim, depth)
            }
        },
    }
}

/// Whether a recursive level's own naming rule lets `seg` stand as the name
/// of an intermediate directory: a parameter's case, a repeated segment's
/// case; other shapes put no rule on the name.
pub open spec fn level_name_fits(child: LayoutNode, seg: Seq<char>) -> bool {
    match child {
        LayoutNode::Param { case, .. } => case.accepts(seg),
        LayoutNode::Many { case, .. } => !(case is Some && !case->0.accepts(seg)),
        _ => true,
    }
}

/// Matches `child` at successive nesting levels, level `cd` of at most `max`:
/// where the level does not accept the segments, the first segment is taken
/// as an intermediate directory of the route and the next level is tried,
/// but only when that segment fits the level's naming rule; a segment that
/// breaks it gets the level's own verdict.
pub open spec fn match_rec(
    segs: Seq<Seq<char>>,
    child: LayoutNode,
    psf: Seq<Seq<char>>,
    max: nat,
    cd: nat,
) -> Outcome
    decreases segs.len(), child, 2int,
{
    if segs.len() == 0 {
        Outcome::Allowed
    } else if cd >= max {
        Outcome::NotInLayout { nearest_valid: nearest(psf), attempts: seq![attempt_recursive(max)] }
    } else {
        let r = match_node(segs, child, psf, None, 0);
        if is_ok(r) {
            r
        } else if level_name_fits(child, segs[0]) {
            match_rec(segs.drop_first(), child, psf.push(segs[0]), max, cd + 1)
        } else {
            r
        }
    }
}

/// Each of the first `k` segments fits `case`.
pub open spec fn prefix_fits_case(case: CaseStyle, segs: Seq<Seq<char>>, k: int) -> bool {
    forall|i: int| 0 <= i < k ==> #[trigger] case.accepts(segs[i])
}

/// Under a recursive route parameter, an accepted path follows the route's
/// case on every route segment: some first segments, at least one, are the
/// route's segments, and each of them fits the case.
pub proof fn lemma_recursive_route_keeps_case(
    segs: Seq<Seq<char>>,
    child: LayoutNode,
    psf: Seq<Seq<char>>,
    max: nat,
    cd: nat,
)
    requires
        child is Param,
        segs.len() > 0,
        is_ok(match_rec(segs, child, psf, max, cd)),
    ensures
        exists|k: int| 0 < k <= segs.len() && #[trigger] prefix_fits_case(child->Param_case, segs, k),
    decreases segs.len(),
{
    let case = child->Param_case;
    let r = match_node(segs, child, psf, None, 0);
    if is_ok(r) {
        assert(case.accepts(segs[0]));
        assert(prefix_fits_case(case, segs, 1));
    } else {
        assert(level_name_fits(child, segs[0]));
        let rest = segs.drop_first();
        if rest.len() == 0 {
            assert(prefix_fits_case(case, segs, 1));
        } else {
            lemma_recursive_route_keeps_case(rest, child, psf.push(segs[0]), max, cd + 1);
            let k = choose|k: int| 0 < k <= rest.len() && #[trigger] prefix_fits_case(case, rest, k);
            assert forall|i: int| 0 <= i < k + 1 implies #[trigger] case.accepts(segs[i]) by {
                if i > 0 {
                    assert(segs[i] == rest[i - 1]);
                }
            }
            assert(prefix_fits_case(case, segs, k + 1));
        }
    }
}

/// The verdict on a whole path.
pub open spec fn match_path_spec(root: LayoutNode, path: Seq<char>) -> Outcome {
    let comps = path_components(path);
    if comps.len() == 0 {
        Outcome::Allowed
    } else {
        match_node(comps, root, Seq::empty(), None, 0)
    }
}

} // verus!

verus! {

/// Whether the dynamic entry `n` accepts the segments on its own: a
/// parameter whose case fits the segment and whose child accepts the rest;
/// a repeated segment whose case (and, for a file, pattern and case) fits
/// and whose child accepts the rest; a recursive shape at some level; a
/// choice with an accepting variant.
pub open spec fn dyn_accepts(
    segs: Seq<Seq<char>>,
    n: LayoutNode,
    psf: Seq<Seq<char>>,
    eff: Option<usize>,
    depth: nat,
) -> bool {
    let cur = segs[0];
    let rem = segs.drop_first();
    match n {
        LayoutNode::Param { case, child, .. } => case.accepts(cur) && is_ok(
            match_node(rem, *child, psf.push(cur), eff, depth + 1),
        ),
        LayoutNode::Many { case, child, .. } => {
            &&& !(case is Some && !case->0.accepts(cur))
            &&& !(child->File_pattern is Some && (*child is File) && !simple_pattern_matches(
                cur,
                child->File_pattern->0@,
            ))
            &&& !((*child is File) && child->File_case is Some && !child->File_case->0.accepts(stem(cur)))
            &&& is_ok(match_node(rem, *child, psf.push(cur), eff, depth + 1))
        },
        LayoutNode::Recursive { max_depth, child } => is_ok(match_rec(segs, *child, psf, max_depth as nat, 0)),
        LayoutNode::Either { variants } => either_first(segs, variants, psf, eff, depth) is Some,
        _ => false,
    }
}

proof fn lemma_either_first_ok(
    segs: Seq<Seq<char>>,
    list: NodeList,
    psf: Seq<Seq<char>>,
    lim: Option<usize>,
    depth: nat,
)
    ensures
        either_first(segs, list, psf, lim, depth) matches Some(o) ==> is_ok(o),
    decreases list,
{
    match list {
        NodeList::Nil => {},
        NodeList::Cons(v, rest) => {
            lemma_either_first_ok(segs, *rest, psf, lim, depth);
        },
    }
}

/// Scanning a directory's entries accepts the segments when any one `$`
/// entry accepts them, wherever it stands and whatever the entries before
/// it make of them.
#[verifier::spinoff_prover]
pub proof fn lemma_scan_accepts(
    segs: Seq<Seq<char>>,
    scan: ChildMap,
    full: ChildMap,
    strict: bool,
    psf: Seq<Seq<char>>,
    eff: Option<usize>,
    depth: nat,
    fail: Option<Outcome>,
    i: int,
)
    requires
        segs.len() > 0,
        0 <= i < scan.entries().len(),
        begins_with(scan.entries()[i].0, '$'),
        dyn_accepts(segs, scan.entries()[i].1, psf, eff, depth),
    ensures
        is_ok(dir_scan(segs, scan, full, strict, psf, eff, depth, fail)),
    decreases scan,
{
    match scan {
        ChildMap::Empty => {
            assert(scan.entries().len() == 0);
        },
        ChildMap::Entry(k, n, rest) => {
            assert(scan.entries()[0] == (k@, *n));
            if i > 0 {
                assert(scan.entries()[i] == rest.entries()[i - 1]);
                assert forall|f: Option<Outcome>| is_ok(dir_scan(segs, *rest, full, strict, psf, eff, depth, f)) by {
                    lemma_scan_accepts(segs, *rest, full, strict, psf, eff, depth, f, i - 1);
                }
                if begins_with(k@, '$') {
                    match *n {
                        LayoutNode::Either { variants } => {
                            lemma_either_first_ok(segs, variants, psf, eff, depth);
                            assert(is_ok(dir_scan(segs, *rest, full, strict, psf, eff, depth, fail)));
                            assert(is_ok(dir_scan(segs, scan, full, strict, psf, eff, depth, fail)));
                        },
                        LayoutNode::Param { name, case, child } => {
                            let cur = segs[0];
                            let denial = Outcome::Denied {
                                reason: msg_param_case(cur, case, name@),
                                attempts: seq![attempt_param_case(case, name@)],
                            };
                            assert(is_ok(dir_scan(segs, *rest, full, strict, psf, eff, depth, fail)));
                            assert(is_ok(
                                dir_scan(segs, *rest, full, strict, psf, eff, depth, keep_first(fail, denial)),
                            ));
                            assert(is_ok(dir_scan(segs, scan, full, strict, psf, eff, depth, fail)));
                        },
                        LayoutNode::Many { case, child, .. } => {
                            let cur = segs[0];
                            assert(is_ok(dir_scan(segs, *rest, full, strict, psf, eff, depth, fail)));
                            if case is Some {
                                let d1 = Outcome::Denied {
                                    reason: msg_case(cur, case->0),
                                    attempts: seq![attempt_many_case(case->0)],
                                };
                                assert(is_ok(
                                    dir_scan(segs, *rest, full, strict, psf, eff, depth, keep_first(fail, d1)),
                                ));
                            }
                            if (*child is File) && child->File_case is Some {
                                let d2 = Outcome::Denied {
                                    reason: msg_case(stem(cur), child->File_case->0),
                                    attempts: seq![attempt_file_case(child->File_case->0)],
                                };
                                assert(is_ok(
                                    dir_scan(segs, *rest, full, strict, psf, eff, depth, keep_first(fail, d2)),
                                ));
                            }
                            let r = match_node(segs.drop_first(), *child, psf.push(cur), eff, depth + 1);
                            assert(is_ok(dir_scan(segs, *rest, full, strict, psf, eff, depth, keep_first(fail, r))));
                            assert(is_ok(dir_scan(segs, scan, full, strict, psf, eff, depth, fail)));
                        },
                        LayoutNode::Recursive { .. } => {
                            assert(is_ok(dir_scan(segs, *rest, full, strict, psf, eff, depth, fail)));
                            assert(is_ok(dir_scan(segs, scan, full, strict, psf, eff, depth, fail)));
                        },
                        _ => {
                            assert(is_ok(dir_scan(segs, *rest, full, strict, psf, eff, depth, fail)));
                            assert(is_ok(dir_scan(segs, scan, full, strict, psf, eff, depth, fail)));
                        },
                    }
                } else {
                    assert(is_ok(dir_scan(segs, *rest, full, strict, psf, eff, depth, fail)));
                    assert(is_ok(dir_scan(segs, scan, full, strict, psf, eff, depth, fail)));
                }
            } else {
                match *n {
                    LayoutNode::Either { variants } => {
                        lemma_either_first_ok(segs, variants, psf, eff, depth);
                        assert(is_ok(dir_scan(segs, scan, full, strict, psf, eff, depth, fail)));
                    },
                    LayoutNode::Param { .. } => {
                        assert(is_ok(dir_scan(segs, scan, full, strict, psf, eff, depth, fail)));
                    },
                    LayoutNode::Many { .. } => {
                        assert(is_ok(dir_scan(segs, scan, full, strict, psf, eff, depth, fail)));
                    },
                    LayoutNode::Recursive { .. } => {
                        assert(is_ok(dir_scan(segs, scan, full, strict, psf, eff, depth, fail)));
                    },
                    _ => {
                        assert(false);
                    },
                }
            }
        },
    }
}

proof fn lemma_lookup_misses(
    segs: Seq<Seq<char>>,
    scan: ChildMap,
    psf: Seq<Seq<char>>,
    eff: Option<usize>,
    depth: nat,
)
    requires
        segs.len() > 0,
        forall|j: int| 0 <= j < scan.entries().len() ==> #[trigger] scan.entries()[j].0 != segs[0],
    ensures
        dir_lookup(segs, scan, psf, eff, depth) is None,
    decreases scan,
{
    match scan {
        ChildMap::Empty => {},
        ChildMap::Entry(k, n, rest) => {
            assert(scan.entries()[0].0 == k@);
            assert forall|j: int| 0 <= j < rest.entries().len() implies #[trigger] rest.entries()[j].0 != segs[0] by {
                assert(scan.entries()[j + 1] == rest.entries()[j]);
            }
            lemma_lookup_misses(segs, *rest, psf, eff, depth);
        },
    }
}

/// A directory accepts a path whose next segment no entry names literally
/// when some `$` entry accepts it, whatever the order of its entries: a
/// `$` entry that rejects the path does not hide a later one.
pub proof fn lemma_dir_accepts_through_dynamic(
    segs: Seq<Seq<char>>,
    node: LayoutNode,
    psf: Seq<Seq<char>>,
    lim: Option<usize>,
    depth: nat,
    i: int,
)
    requires
        node is Dir,
        !(lim is Some && depth > lim->0),
        segs.len() > 0,
        forall|j: int|
            0 <= j < node->Dir_children.entries().len() ==> #[trigger] node->Dir_children.entries()[j].0 != segs[0],
        0 <= i < node->Dir_children.entries().len(),
        begins_with(node->Dir_children.entries()[i].0, '$'),
        dyn_accepts(
            segs,
            node->Dir_children.entries()[i].1,
            psf,
            effective_limit(node->Dir_max_depth, lim),
            depth,
        ),
    ensures
        is_ok(match_node(segs, node, psf, lim, depth)),
{
    let children = node->Dir_children;
    let eff = effective_limit(node->Dir_max_depth, lim);
    lemma_lookup_misses(segs, children, psf, eff, depth);
    lemma_scan_accepts(segs, children, children, node->Dir_strict, psf, eff, depth, None, i);
}

/// Whether a recursive level's naming rule lets `seg` stand as an
/// intermediate directory.
fn level_name_fits_exec(child: &LayoutNode, seg: &str) -> (r: bool)
    ensures
        r == level_name_fits(*child, seg@),
{
    match child {
        LayoutNode::Param { case, .. } => case.validate(seg),
        LayoutNode::Many { case, .. } => match case {
            Some(c) => c.validate(seg),
            None => true,
        },
        _ => true,
    }
}

/// A kept failure as plain values.
pub open spec fn fail_view(fail: Option<MatchResult>) -> Option<Outcome> {
    match fail {
        Some(f) => Some(f@),
        None => None,
    }
}

/// Keeps the first failure met.
fn keep_first_exec(fail: Option<MatchResult>, o: MatchResult) -> (r: Option<MatchResult>)
    ensures
        fail_view(r) == keep_first(fail_view(fail), o@),
{
    match fail {
        Some(f) => Some(f),
        None => Some(o),
    }
}

proof fn lemma_skip_step(segs: Seq<String>, pos: int)
    requires
        0 <= pos < segs.len(),
    ensures
        views(segs).skip(pos).len() == segs.len() - pos,
        views(segs).skip(pos)[0] == segs[pos]@,
        views(segs).skip(pos).drop_first() == views(segs).skip(pos + 1),
{
    assert(views(segs).skip(pos).drop_first() =~= views(segs).skip(pos + 1));
}

/// Matches paths against a layout tree.
#[derive(Debug, Clone)]
pub struct LayoutMatcher {
    root: LayoutNode,
}

impl LayoutMatcher {
    /// The layout this matcher holds.
    pub closed spec fn layout(self) -> LayoutNode {
        self.root
    }

    /// A matcher for the layout rooted at `root`.
    pub fn new(root: LayoutNode) -> (m: Self)
        ensures
            m.layout() == root,
    {
        Self { root }
    }

    /// The verdict on `path`: an empty path is allowed, any other is matched
    /// component by component from the root of the layout.
    pub fn match_path(&self, path: &str) -> (r: MatchResult)
        ensures
            r@ == match_path_spec(self.layout(), path@),
    {
        let components = components_of(path);
        if components.len() == 0 {
            return MatchResult::Allowed;
        }
        assert(views(components@).skip(0) =~= views(components@));
        let empty: Vec<String> = Vec::new();
        assert(views(empty@) =~= Seq::<Seq<char>>::empty());
        self.match_segments(&components, 0, &self.root, empty)
    }

    fn match_segments(&self, segments: &Vec<String>, pos: usize, node: &LayoutNode, path_so_far: Vec<String>) -> (r:
        MatchResult)
        requires
            pos <= segments@.len(),
        ensures
            r@ == match_node(views(segments@).skip(pos as int), *node, views(path_so_far@), None, 0),
    {
        self.match_segments_with_depth(segments, pos, node, &path_so_far, None, 0)
    }

    fn extend_path(&self, path: &Vec<String>, segment: &str) -> (r: Vec<String>)
        ensures
            views(r@) == views(path@).push(segment@),
    {
        let mut new_path: Vec<String> = Vec::new();
        let n = path.len();
        for i in 0..n
            invariant
                n == path@.len(),
                new_path@ == path@.take(i as int),
        {
            new_path.push(path[i].clone());
            assert(new_path@ =~= path@.take(i + 1));
        }
        assert(path@.take(n as int) =~= path@);
        let seg = to_owned_string(segment);
        new_path.push(seg);
        assert(views(new_path@) =~= views(path@).push(segment@));
        new_path
    }

    fn matches_pattern(name: &str, pattern: &str) -> (r: bool)
        ensures
            r == simple_pattern_matches(name@, pattern@),
    {
        simple_pattern_match(name, pattern)
    }

    #[verifier::rlimit(30)]
    fn match_segments_with_depth(
        &self,
        segments: &Vec<String>,
        pos: usize,
        node: &LayoutNode,
        path_so_far: &Vec<String>,
        max_depth_limit: Option<usize>,
        current_depth: usize,
    ) -> (r: MatchResult)
        requires
            pos <= segments@.len(),
            current_depth <= pos,
        ensures
            r@ == match_node(
                views(segments@).skip(pos as int),
                *node,
                views(path_so_far@),
                max_depth_limit,
                current_depth as nat,
            ),
        decreases segments@.len() - pos, *node, 1int,
    {
        if let Some(limit) = max_depth_limit {
            if current_depth > limit {
                return denied_depth(limit, current_depth);
            }
        }
        if pos == segments.len() {
            return MatchResult::Allowed;
        }
        proof {
            lemma_skip_step(segments@, pos as int);
        }
        let current = segments[pos].as_str();
        let ghost segs = views(segments@).skip(pos as int);
        let ghost psf = views(path_so_far@);
        match node {
            LayoutNode::Dir { children, strict, max_depth, .. } => {
                let eff = match max_depth {
                    Some(d) => Some(*d),
                    None => max_depth_limit,
                };
                assert(eff == effective_limit(*max_depth, max_depth_limit));
                let r = match self.dir_lookup(segments, pos, children, path_so_far, eff, current_depth) {
                    Some(r) => r,
                    None => self.dir_scan(segments, pos, children, children, *strict, path_so_far, eff, current_depth, None),
                };
                assert(r@ == match_node(segs, *node, psf, max_depth_limit, current_depth as nat));
                r
            },
            LayoutNode::File { pattern, case, .. } => {
                if pos + 1 < segments.len() {
                    let reason = cat2("'", current);
                    let mut reason = reason;
                    reason.append("' is a file, cannot have children");
                    let a = attempt(String::from_str("file"), String::from_str("files cannot have child paths"));
                    let attempts = vec![a];
                    assert(attempts_view(attempts@) =~= seq![attempt_file_children()]);
                    return MatchResult::Denied { reason, attempts };
                }
                if let Some(pat) = pattern {
                    if !Self::matches_pattern(current, pat.as_str()) {
                        let reason = cat4("'", current, "' does not match pattern '", pat.as_str());
                        let mut reason = reason;
                        reason.append("'");
                        let a = attempt(pat.clone(), cat3("filename must match pattern '", pat.as_str(), "'"));
                        let attempts = vec![a];
                        assert(attempts_view(attempts@) =~= seq![attempt_pattern(pat@)]);
                        return MatchResult::Denied { reason, attempts };
                    }
                }
                if let Some(case_style) = case {
                    let name_without_ext = stem_of(current);
                    if !case_style.validate(name_without_ext) {
                        return denied_file_case(name_without_ext, *case_style);
                    }
                }
                MatchResult::Allowed
            },
            LayoutNode::Param { name, case, child } => {
                if case.validate(current) {
                    let next = self.extend_path(path_so_far, current);
                    let result = self.match_segments_with_depth(
                        segments,
                        pos + 1,
                        child,
                        &next,
                        max_depth_limit,
                        current_depth + 1,
                    );
                    if result.is_allowed() {
                        return MatchResult::AllowedParam { name: name.clone(), value: to_owned_string(current) };
                    }
                    return result;
                }
                denied_param_case(current, *case, name.as_str())
            },
            LayoutNode::Many { case, child, .. } => {
                if let Some(case_style) = case {
                    if !case_style.validate(current) {
                        return denied_many_case(current, *case_style);
                    }
                }
                let next = self.extend_path(path_so_far, current);
                self.match_segments_with_depth(segments, pos + 1, child, &next, max_depth_limit, current_depth + 1)
            },
            LayoutNode::Recursive { max_depth, child } => {
                let r = self.match_recursive(segments, pos, child, path_so_far, *max_depth, 0);
                assert(r@ == match_node(segs, *node, psf, max_depth_limit, current_depth as nat));
                r
            },
            LayoutNode::Either { variants } => {
                let _count = variants.len();
                let empty: Vec<MatchAttempt> = Vec::new();
                assert(attempts_view(empty@) =~= Seq::<AttemptView>::empty());
                let r = self.match_either(segments, pos, variants, 0, empty, path_so_far, max_depth_limit, current_depth);
                assert(r@ == match_node(segs, *node, psf, max_depth_limit, current_depth as nat));
                r
            },
        }
    }

    fn dir_lookup(
        &self,
        segments: &Vec<String>,
        pos: usize,
        scan: &ChildMap,
        path_so_far: &Vec<String>,
        eff: Option<usize>,
        current_depth: usize,
    ) -> (r: Option<MatchResult>)
        requires
            pos < segments@.len(),
            current_depth <= pos,
        ensures
            match dir_lookup(views(segments@).skip(pos as int), *scan, views(path_so_far@), eff, current_depth as nat) {
                Some(o) => r matches Some(x) && x@ == o,
                None => r is None,
            },
        decreases segments@.len() - pos, *scan, 0int,
    {
        let _n = segments.len();
        proof {
            lemma_skip_step(segments@, pos as int);
        }
        match scan {
            ChildMap::Empty => None,
            ChildMap::Entry(k, n, rest) => {
                let current = segments[pos].as_str();
                if crate::text::str_eq(k.as_str(), current) {
                    let next = self.extend_path(path_so_far, current);
                    Some(self.match_segments_with_depth(segments, pos + 1, n, &next, eff, current_depth + 1))
                } else {
                    self.dir_lookup(segments, pos, rest, path_so_far, eff, current_depth)
                }
            },
        }
    }

    #[verifier::rlimit(40)]
    fn dir_scan(
        &self,
        segments: &Vec<String>,
        pos: usize,
        scan: &ChildMap,
        full: &ChildMap,
        strict: bool,
        path_so_far: &Vec<String>,
        eff: Option<usize>,
        current_depth: usize,
        fail: Option<MatchResult>,
    ) -> (r: MatchResult)
        requires
            pos < segments@.len(),
            current_depth <= pos,
        ensures
            r@ == dir_scan(
                views(segments@).skip(pos as int),
                *scan,
                *full,
                strict,
                views(path_so_far@),
                eff,
                current_depth as nat,
                fail_view(fail),
            ),
        decreases segments@.len() - pos, *scan, 0int,
    {
        let _n = segments.len();
        proof {
            lemma_skip_step(segments@, pos as int);
        }
        let current = segments[pos].as_str();
        match scan {
            ChildMap::Empty => match fail {
                Some(f) => f,
                None => Self::dir_fallback(current, full, strict, path_so_far),
            },
            ChildMap::Entry(key, child, rest) => {
                if !starts_with_char(key.as_str(), '$') {
                    return self.dir_scan(segments, pos, rest, full, strict, path_so_far, eff, current_depth, fail);
                }
                match &**child {
                    LayoutNode::Param { name, case, child: inner } => {
                        if case.validate(current) {
                            let next = self.extend_path(path_so_far, current);
                            let result = self.match_segments_with_depth(
                                segments,
                                pos + 1,
                                inner,
                                &next,
                                eff,
                                current_depth + 1,
                            );
                            if result.is_allowed() {
                                return MatchResult::AllowedParam {
                                    name: name.clone(),
                                    value: to_owned_string(current),
                                };
                            }
                            self.dir_scan(segments, pos, rest, full, strict, path_so_far, eff, current_depth, fail)
                        } else {
                            let kept = keep_first_exec(fail, denied_param_case(current, *case, name.as_str()));
                            self.dir_scan(segments, pos, rest, full, strict, path_so_far, eff, current_depth, kept)
                        }
                    },
                    LayoutNode::Many { case, child: inner, .. } => {
                        if let Some(case_style) = case {
                            if !case_style.validate(current) {
                                let kept = keep_first_exec(fail, denied_many_case(current, *case_style));
                                return self.dir_scan(
                                    segments,
                                    pos,
                                    rest,
                                    full,
                                    strict,
                                    path_so_far,
                                    eff,
                                    current_depth,
                                    kept,
                                );
                            }
                        }
                        if let LayoutNode::File { pattern, case: file_case, .. } = &**inner {
                            if let Some(pat) = pattern {
                                if !Self::matches_pattern(current, pat.as_str()) {
                                    return self.dir_scan(
                                        segments,
                                        pos,
                                        rest,
                                        full,
                                        strict,
                                        path_so_far,
                                        eff,
                                        current_depth,
                                        fail,
                                    );
                                }
                            }
                            if let Some(case_style) = file_case {
                                let name_without_ext = stem_of(current);
                                if !case_style.validate(name_without_ext) {
                                    let kept = keep_first_exec(fail, denied_file_case(name_without_ext, *case_style));
                                    return self.dir_scan(
                                        segments,
                                        pos,
                                        rest,
                                        full,
                                        strict,
                                        path_so_far,
                                        eff,
                                        current_depth,
                                        kept,
                                    );
                                }
                            }
                        }
                        let next = self.extend_path(path_so_far, current);
                        let result = self.match_segments_with_depth(
                            segments,
                            pos + 1,
                            inner,
                            &next,
                            eff,
                            current_depth + 1,
                        );
                        if result.is_allowed() {
                            let values = vec![to_owned_string(current)];
                            assert(views(values@) =~= seq![current@]);
                            return MatchResult::AllowedMany { values };
                        }
                        let kept = keep_first_exec(fail, result);
                        self.dir_scan(segments, pos, rest, full, strict, path_so_far, eff, current_depth, kept)
                    },
                    LayoutNode::Recursive { max_depth, child: inner } => {
                        let result = self.match_recursive(segments, pos, inner, path_so_far, *max_depth, 0);
                        if result.is_allowed() {
                            return result;
                        }
                        self.dir_scan(segments, pos, rest, full, strict, path_so_far, eff, current_depth, fail)
                    },
                    LayoutNode::Either { variants } => {
                        match self.either_first(segments, pos, variants, path_so_far, eff, current_depth) {
                            Some(result) => result,
                            None => self.dir_scan(
                                segments,
                                pos,
                                rest,
                                full,
                                strict,
                                path_so_far,
                                eff,
                                current_depth,
                                fail,
                            ),
                        }
                    },
                    _ => self.dir_scan(segments, pos, rest, full, strict, path_so_far, eff, current_depth, fail),
                }
            },
        }
    }

    fn either_first(
        &self,
        segments: &Vec<String>,
        pos: usize,
        list: &NodeList,
        path_so_far: &Vec<String>,
        lim: Option<usize>,
        current_depth: usize,
    ) -> (r: Option<MatchResult>)
        requires
            pos <= segments@.len(),
            current_depth <= pos,
        ensures
            match either_first(views(segments@).skip(pos as int), *list, views(path_so_far@), lim, current_depth as nat) {
                Some(o) => r matches Some(x) && x@ == o,
                None => r is None,
            },
        decreases segments@.len() - pos, *list, 0int,
    {
        match list {
            NodeList::Nil => None,
            NodeList::Cons(v, rest) => {
                let result = self.match_segments_with_depth(segments, pos, v, path_so_far, lim, current_depth);
                if result.is_allowed() {
                    Some(result)
                } else {
                    self.either_first(segments, pos, rest, path_so_far, lim, current_depth)
                }
            },
        }
    }

    fn match_either(
        &self,
        segments: &Vec<String>,
        pos: usize,
        list: &NodeList,
        i: usize,
        acc: Vec<MatchAttempt>,
        path_so_far: &Vec<String>,
        lim: Option<usize>,
        current_depth: usize,
    ) -> (r: MatchResult)
        requires
            pos <= segments@.len(),
            current_depth <= pos,
            i + list.to_seq().len() <= usize::MAX,
        ensures
            r@ == either_node(
                views(segments@).skip(pos as int),
                *list,
                i as nat,
                attempts_view(acc@),
                views(path_so_far@),
                lim,
                current_depth as nat,
            ),
        decreases segments@.len() - pos, *list, 0int,
    {
        match list {
            NodeList::Nil => MatchResult::NotInLayout { nearest_valid: nearest_of(path_so_far), attempts: acc },
            NodeList::Cons(v, rest) => {
                let result = self.match_segments_with_depth(segments, pos, v, path_so_far, lim, current_depth);
                if result.is_allowed() {
                    return result;
                }
                let reason = first_reason_of(&result);
                let a = MatchAttempt { pattern: cat3("either[", decimal_string(i).as_str(), "]"), matched: false, reason };
                let mut acc = acc;
                let ghost before = attempts_view(acc@);
                acc.push(a);
                assert(attempts_view(acc@) =~= before.push(attempt_either(i as nat, first_reason(result@))));
                self.match_either(segments, pos, rest, i + 1, acc, path_so_far, lim, current_depth)
            },
        }
    }

    fn match_recursive(
        &self,
        segments: &Vec<String>,
        pos: usize,
        child: &LayoutNode,
        path_so_far: &Vec<String>,
        max_depth: usize,
        current_depth: usize,
    ) -> (r: MatchResult)
        requires
            pos <= segments@.len(),
        ensures
            r@ == match_rec(
                views(segments@).skip(pos as int),
                *child,
                views(path_so_far@),
                max_depth as nat,
                current_depth as nat,
            ),
        decreases segments@.len() - pos, *child, 2int,
    {
        if pos == segments.len() {
            return MatchResult::Allowed;
        }
        if current_depth >= max_depth {
            let a = attempt(String::from_str("recursive"), cat2("exceeded max depth of ", decimal_string(max_depth).as_str()));
            let attempts = vec![a];
            assert(attempts_view(attempts@) =~= seq![attempt_recursive(max_depth as nat)]);
            return MatchResult::NotInLayout { nearest_valid: nearest_of(path_so_far), attempts };
        }
        proof {
            lemma_skip_step(segments@, pos as int);
        }
        let result = self.match_segments_with_depth(segments, pos, child, path_so_far, None, 0);
        if result.is_allowed() {
            return result;
        }
        if !level_name_fits_exec(child, segments[pos].as_str()) {
            return result;
        }
        let next = self.extend_path(path_so_far, segments[pos].as_str());
        self.match_recursive(segments, pos + 1, child, &next, max_depth, current_depth + 1)
    }

    fn dir_fallback(current: &str, full: &ChildMap, strict: bool, path_so_far: &Vec<String>) -> (r: MatchResult)
        ensures
            r@ == dir_fallback(current@, *full, strict, views(path_so_far@)),
    {
        let attempts = fallback_attempts_of(full);
        if strict {
            let reason = cat3("'", current, "' not allowed in strict directory (no matching pattern)");
            MatchResult::Denied { reason, attempts }
        } else {
            MatchResult::NotInLayout { nearest_valid: nearest_of(path_so_far), attempts }
        }
    }
}

fn first_reason_of(r: &MatchResult) -> (o: Option<String>)
    ensures
        opt_view(o) == first_reason(r@),
{
    match r {
        MatchResult::Denied { attempts, .. } | MatchResult::NotInLayout { attempts, .. } => {
            if attempts.len() > 0 {
                assert(attempts_view(attempts@)[0] == attempts@[0]@);
                match &attempts[0].reason {
                    Some(s) => Some(s.clone()),
                    None => None,
                }
            } else {
                None
            }
        },
        _ => None,
    }
}

fn collect_literal_keys(m: &ChildMap) -> (r: Vec<String>)
    ensures
        views(r@) == literal_keys(*m),
    decreases m,
{
    match m {
        ChildMap::Empty => Vec::new(),
        ChildMap::Entry(k, _, rest) => {
            let tail = collect_literal_keys(rest);
            if starts_with_char(k.as_str(), '$') {
                tail
            } else {
                let mut r = vec![k.clone()];
                let mut t = tail;
                r.append(&mut t);
                assert(views(r@) =~= seq![k@].add(literal_keys(**rest)));
                r
            }
        },
    }
}

fn collect_dynamic_keys(m: &ChildMap) -> (r: Vec<String>)
    ensures
        views(r@) == dynamic_keys(*m),
    decreases m,
{
    match m {
        ChildMap::Empty => Vec::new(),
        ChildMap::Entry(k, _, rest) => {
            let tail = collect_dynamic_keys(rest);
            if starts_with_char(k.as_str(), '$') {
                let mut r = vec![k.clone()];
                let mut t = tail;
                r.append(&mut t);
                assert(views(r@) =~= seq![k@].add(dynamic_keys(**rest)));
                r
            } else {
                tail
            }
        },
    }
}

fn fallback_attempts_of(full: &ChildMap) -> (r: Vec<MatchAttempt>)
    ensures
        attempts_view(r@) == fallback_attempts(*full),
{
    let literal = collect_literal_keys(full);
    let dynamic = collect_dynamic_keys(full);
    let take = if literal.len() <= 5 {
        literal.len()
    } else {
        5
    };
    let ghost lit = first_five(literal_keys(*full));
    assert(lit.len() == take);
    assert(forall|j: int| 0 <= j < take ==> lit[j] == literal@[j]@);
    let mut attempts: Vec<MatchAttempt> = Vec::new();
    for i in 0..take
        invariant
            take <= literal@.len(),
            lit.len() == take,
            forall|j: int| 0 <= j < take ==> lit[j] == literal@[j]@,
            attempts@.len() == i,
            forall|j: int| 0 <= j < i ==> #[trigger] attempts@[j]@ == attempt_literal(lit[j]),
    {
        let key = literal[i].as_str();
        let a = attempt(to_owned_string(key), cat3("expected literal '", key, "'"));
        attempts.push(a);
    }
    let ghost dv = dynamic_keys(*full);
    let n = dynamic.len();
    for i in 0..n
        invariant
            n == dynamic@.len(),
            dv == views(dynamic@),
            lit.len() == take,
            attempts@.len() == take + i,
            forall|j: int| 0 <= j < take ==> #[trigger] attempts@[j]@ == attempt_literal(lit[j]),
            forall|j: int| 0 <= j < i ==> #[trigger] attempts@[take + j]@ == attempt_param_key(dv[j]),
    {
        let a = attempt(dynamic[i].clone(), String::from_str("parameter/pattern did not match"));
        attempts.push(a);
    }
    proof {
        let fa = fallback_attempts(*full);
        let first = lit.map_values(|k: Seq<char>| attempt_literal(k));
        let second = dv.map_values(|k: Seq<char>| attempt_param_key(k));
        assert(fa == first + second);
        assert(dv.len() == n);
        assert forall|k: int| 0 <= k < attempts@.len() implies attempts_view(attempts@)[k] == fa[k] by {
            if k < take {
                assert(attempts@[k]@ == attempt_literal(lit[k]));
            } else {
                let j = k - take;
                assert(attempts@[take + j]@ == attempt_param_key(dv[j]));
            }
        }
        assert(attempts_view(attempts@) =~= fa);
    }
    attempts
}

} // verus!

verus! {

// ---------------------------------------------------------------------------
// What the layout expects below a path
// ---------------------------------------------------------------------------

/// One expected child, as plain values.
pub struct ExpectedView {
    pub name: Seq<char>,
    pub is_dir: bool,
    pub optional: bool,
    pub is_param: bool,
}

/// A child that the layout expects at some path.
#[derive(Debug, Clone)]
pub struct ExpectedChild {
    pub name: String,
    pub is_dir: bool,
    pub optional: bool,
    pub is_param: bool,
}

impl View for ExpectedChild {
    type V = ExpectedView;

    open spec fn view(&self) -> ExpectedView {
        ExpectedView { name: self.name@, is_dir: self.is_dir, optional: self.optional, is_param: self.is_param }
    }
}

/// The expected children, as plain values.
pub open spec fn expected_view(v: Seq<ExpectedChild>) -> Seq<ExpectedView> {
    v.map_values(|e: ExpectedChild| e@)
}

/// Whether a node stands for a directory level: a directory, a parameter,
/// a repeated segment or a recursive shape.
pub open spec fn is_dir_like(n: LayoutNode) -> bool {
    n is Dir || n is Param || n is Many || n is Recursive
}

/// How the entry `k` holding `n` is listed.
pub open spec fn expected_entry(k: Seq<char>, n: LayoutNode) -> ExpectedView {
    ExpectedView { name: k, is_dir: is_dir_like(n), optional: n.spec_is_optional(), is_param: begins_with(k, '$') }
}

/// The entries of a directory, listed in order.
pub open spec fn expected_entries(m: ChildMap) -> Seq<ExpectedView>
    decreases m,
{
    match m {
        ChildMap::Empty => Seq::empty(),
        ChildMap::Entry(k, n, rest) => seq![expected_entry(k@, *n)] + expected_entries(*rest),
    }
}

/// What a node expects directly below itself: a directory's entries, what a
/// recursive shape's child expects, every variant's expectations in order,
/// and nothing for the other nodes.
pub open spec fn collect_expected_spec(node: LayoutNode) -> Seq<ExpectedView>
    decreases node, 1int,
{
    match node {
        LayoutNode::Dir { children, .. } => expected_entries(children),
        LayoutNode::Recursive { child, .. } => collect_expected_spec(*child),
        LayoutNode::Either { variants } => collect_expected_list(variants),
        _ => Seq::empty(),
    }
}

/// The expectations of every node of the list, one after the other.
pub open spec fn collect_expected_list(list: NodeList) -> Seq<ExpectedView>
    decreases list, 0int,
{
    match list {
        NodeList::Nil => Seq::empty(),
        NodeList::Cons(v, rest) => collect_expected_spec(*v) + collect_expected_list(*rest),
    }
}

/// The first entry of `m` whose key begins with `$`.
pub open spec fn first_dynamic(m: ChildMap) -> Option<LayoutNode>
    decreases m,
{
    match m {
        ChildMap::Empty => None,
        ChildMap::Entry(k, n, rest) => if begins_with(k@, '$') {
            Some(*n)
        } else {
            first_dynamic(*rest)
        },
    }
}

/// What the layout expects below the segments `segs`, starting at `node`.
/// A directory follows the entry named by the segment, else its first
/// dynamic entry; parameters, repeated segments and recursive shapes follow
/// their child; a choice takes the first variant that expects anything.
pub open spec fn expected_at(segs: Seq<Seq<char>>, node: LayoutNode) -> Seq<ExpectedView>
    decreases segs.len(), node, 1int,
{
    if segs.len() == 0 {
        collect_expected_spec(node)
    } else {
        let rem = segs.drop_first();
        match node {
            LayoutNode::Dir { children, .. } => match dir_child_for(segs, children) {
                Some(c) => expected_at(rem, c),
                None => Seq::empty(),
            },
            LayoutNode::Param { child, .. } => expected_at(rem, *child),
            LayoutNode::Many { child, .. } => expected_at(rem, *child),
            LayoutNode::Recursive { child, .. } => expected_at(rem, *child),
            LayoutNode::Either { variants } => expected_first(rem, variants),
            LayoutNode::File { .. } => Seq::empty(),
        }
    }
}

/// The child of a directory that the first segment leads to.
pub open spec fn dir_child_for(segs: Seq<Seq<char>>, children: ChildMap) -> Option<LayoutNode> {
    match children.lookup(segs[0]) {
        Some(c) => Some(c),
        None => first_dynamic(children),
    }
}

/// The expectations of the first variant that expects anything below `segs`.
pub open spec fn expected_first(segs: Seq<Seq<char>>, list: NodeList) -> Seq<ExpectedView>
    decreases segs.len(), list, 0int,
{
    match list {
        NodeList::Nil => Seq::empty(),
        NodeList::Cons(v, rest) => {
            let r = expected_at(segs, *v);
            if r.len() > 0 {
                r
            } else {
                expected_first(segs, *rest)
            }
        },
    }
}

fn expected_entries_of(m: &ChildMap) -> (r: Vec<ExpectedChild>)
    ensures
        expected_view(r@) == expected_entries(*m),
    decreases m,
{
    match m {
        ChildMap::Empty => {
            let r: Vec<ExpectedChild> = Vec::new();
            assert(expected_view(r@) =~= Seq::<ExpectedView>::empty());
            r
        },
        ChildMap::Entry(k, n, rest) => {
            let e = ExpectedChild {
                name: k.clone(),
                is_dir: match &**n {
                    LayoutNode::Dir { .. } => true,
                    LayoutNode::Param { .. } => true,
                    LayoutNode::Many { .. } => true,
                    LayoutNode::Recursive { .. } => true,
                    _ => false,
                },
                optional: n.is_optional(),
                is_param: starts_with_char(k.as_str(), '$'),
            };
            let mut r = vec![e];
            let mut tail = expected_entries_of(rest);
            let ghost tv = expected_view(tail@);
            r.append(&mut tail);
            assert(expected_view(r@) =~= seq![expected_entry(k@, **n)] + tv);
            r
        },
    }
}

fn dir_child_of<'a>(segment: &str, children: &'a ChildMap) -> (r: Option<&'a LayoutNode>)
    ensures
        match children.lookup(segment@) {
            Some(c) => r == Some(&c),
            None => match first_dynamic(*children) {
                Some(c) => r == Some(&c),
                None => r is None,
            },
        },
{
    match children.get(segment) {
        Some(c) => Some(c),
        None => first_dynamic_of(children),
    }
}

fn first_dynamic_of(m: &ChildMap) -> (r: Option<&LayoutNode>)
    ensures
        match first_dynamic(*m) {
            Some(c) => r == Some(&c),
            None => r is None,
        },
    decreases m,
{
    match m {
        ChildMap::Empty => None,
        ChildMap::Entry(k, n, rest) => {
            if starts_with_char(k.as_str(), '$') {
                Some(&**n)
            } else {
                first_dynamic_of(rest)
            }
        },
    }
}

impl LayoutMatcher {
    /// What the layout expects directly below `path`.
    pub fn get_expected_children(&self, path: &str) -> (r: Vec<ExpectedChild>)
        ensures
            expected_view(r@) == expected_at(path_components(path@), self.layout()),
    {
        let components = components_of(path);
        assert(views(components@).skip(0) =~= views(components@));
        Self::get_expected_at(&components, 0, &self.root)
    }

    fn get_expected_at(segments: &Vec<String>, pos: usize, node: &LayoutNode) -> (r: Vec<ExpectedChild>)
        requires
            pos <= segments@.len(),
        ensures
            expected_view(r@) == expected_at(views(segments@).skip(pos as int), *node),
        decreases segments@.len() - pos, *node, 1int,
    {
        if pos == segments.len() {
            return Self::collect_expected(node);
        }
        proof {
            lemma_skip_step(segments@, pos as int);
        }
        let current = segments[pos].as_str();
        match node {
            LayoutNode::Dir { children, .. } => match dir_child_of(current, children) {
                Some(child) => Self::get_expected_at(segments, pos + 1, child),
                None => Vec::new(),
            },
            LayoutNode::Param { child, .. } => Self::get_expected_at(segments, pos + 1, child),
            LayoutNode::Many { child, .. } => Self::get_expected_at(segments, pos + 1, child),
            LayoutNode::Recursive { child, .. } => Self::get_expected_at(segments, pos + 1, child),
            LayoutNode::Either { variants } => Self::expected_first_of(segments, pos + 1, variants),
            LayoutNode::File { .. } => Vec::new(),
        }
    }

    fn expected_first_of(segments: &Vec<String>, pos: usize, list: &NodeList) -> (r: Vec<ExpectedChild>)
        requires
            pos <= segments@.len(),
        ensures
            expected_view(r@) == expected_first(views(segments@).skip(pos as int), *list),
        decreases segments@.len() - pos, *list, 0int,
    {
        match list {
            NodeList::Nil => Vec::new(),
            NodeList::Cons(v, rest) => {
                let r = Self::get_expected_at(segments, pos, v);
                if r.len() > 0 {
                    r
                } else {
                    Self::expected_first_of(segments, pos, rest)
                }
            },
        }
    }

    fn collect_expected(node: &LayoutNode) -> (r: Vec<ExpectedChild>)
        ensures
            expected_view(r@) == collect_expected_spec(*node),
        decreases *node, 1int,
    {
        match node {
            LayoutNode::Dir { children, .. } => expected_entries_of(children),
            LayoutNode::Recursive { child, .. } => Self::collect_expected(child),
            LayoutNode::Either { variants } => Self::collect_expected_variants(variants),
            _ => Vec::new(),
        }
    }

    fn collect_expected_variants(list: &NodeList) -> (r: Vec<ExpectedChild>)
        ensures
            expected_view(r@) == collect_expected_list(*list),
        decreases *list, 0int,
    {
        match list {
            NodeList::Nil => Vec::new(),
            NodeList::Cons(v, rest) => {
                let mut r = Self::collect_expected(v);
                let ghost rv = expected_view(r@);
                let mut tail = Self::collect_expected_variants(rest);
                let ghost tv = expected_view(tail@);
                r.append(&mut tail);
                assert(expected_view(r@) =~= rv + tv);
                r
            },
        }
    }
}

} // verus!
