//! Checks that need every walked path at once: required entries, dependent
//! files, mirrored files and files that must sit beside a trigger file.

use vstd::multiset::Multiset;
use vstd::prelude::*;

use super::matcher::{opt_chars, violations_view, Severity, Violation, ViolationView};
use super::layout_trie::{attempts_view, AttemptView, MatchAttempt};
use super::rules::file_name;
use crate::config::{ChildMap, ConfigIR, LayoutNode, MirrorConfig, WhenRequirement};
use crate::paths::{
    path_exists, join_path, parent_of, parent_path, path_join, relative_path, relative_to, same_path, same_path_exec,
    strip_path_prefix, strip_prefix,
};
use crate::text::{
    begins_with, chars_of, find_from, find_from_exec, is_suffix, join_strings, join_with, remove_char,
    remove_char_exec, replace_all, replace_all_exec, split_on, split_str, starts_with_char, str_ends_with, str_eq,
    to_owned_string, trim_char, trim_char_exec, trim_end_pattern, trim_end_pattern_exec, trim_start_char,
    trim_start_char_exec, views,
};

verus! {

// ---------------------------------------------------------------------------
// Outside calls
// ---------------------------------------------------------------------------

/// Whether `glob::Pattern::new` accepts a pattern.
pub uninterp spec fn glob_pattern_valid(pattern: Seq<char>) -> bool;

/// The verdict of `glob::Pattern::matches` on a path, for a pattern that
/// `glob::Pattern::new` accepts. It depends on the two texts and on the
/// platform the library is built for, whose `std::path::is_separator` also
/// reads a backslash as a separator on Windows.
pub uninterp spec fn glob_pattern_matches(pattern: Seq<char>, path: Seq<char>) -> bool;

/// Calls `glob::Pattern::new` and reports whether it accepted the pattern;
/// that is a function of the pattern alone, named `glob_pattern_valid`.
#[verifier::external_body]
pub(crate) fn pattern_valid(pattern: &str) -> (r: bool)
    ensures
        r == glob_pattern_valid(pattern@),
{
    glob::Pattern::new(pattern).is_ok()
}

/// Calls `glob::Pattern::matches` on the pattern compiled from `pattern`;
/// the verdict is a function of the two strings alone, named
/// `glob_pattern_matches`.
#[verifier::external_body]
pub(crate) fn pattern_matches(pattern: &str, path: &str) -> (r: bool)
    requires
        glob_pattern_valid(pattern@),
    ensures
        r == glob_pattern_matches(pattern@, path@),
{
    match glob::Pattern::new(pattern) {
        Ok(p) => p.matches(path),
        Err(_) => false,
    }
}


// ---------------------------------------------------------------------------
// Required entries
// ---------------------------------------------------------------------------

/// The required files and directories under `node`, which sits at `cur`:
/// a required directory or file is listed unless it is the root itself, and
/// a directory's literal children are visited in order; dynamic (`$`) entries
/// and the other node kinds are not looked into.
pub open spec fn required_paths(node: LayoutNode, cur: Seq<char>) -> Seq<Seq<char>>
    decreases node, 1int,
{
    match node {
        LayoutNode::Dir { children, required, .. } => (if required && cur.len() > 0 {
            seq![cur]
        } else {
            Seq::empty()
        }) + required_in(children, cur),
        LayoutNode::File { required, .. } => if required && cur.len() > 0 {
            seq![cur]
        } else {
            Seq::empty()
        },
        _ => Seq::empty(),
    }
}

/// The required paths under the literal children of a directory at `cur`.
pub open spec fn required_in(m: ChildMap, cur: Seq<char>) -> Seq<Seq<char>>
    decreases m, 0int,
{
    match m {
        ChildMap::Empty => Seq::empty(),
        ChildMap::Entry(k, n, rest) => if begins_with(k@, '$') {
            required_in(*rest, cur)
        } else {
            required_paths(*n, path_join(cur, k@)) + required_in(*rest, cur)
        },
    }
}

/// The node reached from `node` by following the literal keys `ks`, one
/// directory level per key.
pub open spec fn node_at(node: LayoutNode, ks: Seq<Seq<char>>) -> Option<LayoutNode>
    decreases ks.len(),
{
    if ks.len() == 0 {
        Some(node)
    } else {
        match node {
            LayoutNode::Dir { children, .. } => match children.lookup(ks[0]) {
                Some(n) => node_at(n, ks.drop_first()),
                None => None,
            },
            _ => None,
        }
    }
}

/// `cur` with the keys `ks` joined on, one after the other.
pub open spec fn joined(cur: Seq<char>, ks: Seq<Seq<char>>) -> Seq<char>
    decreases ks.len(),
{
    if ks.len() == 0 {
        cur
    } else {
        joined(path_join(cur, ks[0]), ks.drop_first())
    }
}

/// A directory or file marked required.
pub open spec fn marked_required(node: LayoutNode) -> bool {
    match node {
        LayoutNode::Dir { required, .. } => required,
        LayoutNode::File { required, .. } => required,
        _ => false,
    }
}

proof fn lemma_required_in_child(m: ChildMap, cur: Seq<char>, k: Seq<char>, n: LayoutNode, p: Seq<char>)
    requires
        m.lookup(k) == Some(n),
        !begins_with(k, '$'),
        required_paths(n, path_join(cur, k)).contains(p),
    ensures
        required_in(m, cur).contains(p),
    decreases m,
{
    match m {
        ChildMap::Empty => {},
        ChildMap::Entry(key, node, rest) => {
            if key@ == k {
                let here = required_paths(*node, path_join(cur, k));
                let j = choose|j: int| 0 <= j < here.len() && here[j] == p;
                assert((here + required_in(*rest, cur))[j] == p);
            } else {
                lemma_required_in_child(*rest, cur, k, n, p);
                let tail = required_in(*rest, cur);
                let j = choose|j: int| 0 <= j < tail.len() && tail[j] == p;
                if !begins_with(key@, '$') {
                    let here = required_paths(*node, path_join(cur, key@));
                    assert((here + tail)[here.len() + j] == p);
                }
            }
        },
    }
}

/// Every required directory or file of a layout is collected, however deep
/// it stands: where following literal (non-`$`), non-empty keys `ks` from
/// `node` at `cur` reaches a node marked required, its joined path is among
/// the required paths of `node`.
pub proof fn lemma_required_found_at_depth(node: LayoutNode, cur: Seq<char>, ks: Seq<Seq<char>>)
    requires
        ks.len() > 0,
        forall|i: int| 0 <= i < ks.len() ==> (#[trigger] ks[i]).len() > 0 && !begins_with(ks[i], '$'),
        node_at(node, ks) matches Some(t) && marked_required(t),
    ensures
        required_paths(node, cur).contains(joined(cur, ks)),
    decreases ks.len(),
{
    match node {
        LayoutNode::Dir { children, required, .. } => {
            let k = ks[0];
            let n = children.lookup(k).unwrap();
            let next = path_join(cur, k);
            let rest = ks.drop_first();
            assert(k.len() > 0 && !begins_with(k, '$'));
            assert(node_at(node, ks) == node_at(n, rest));
            assert(next.len() > 0) by {
                if !(k.len() > 0 && k[0] == '/') {
                    if cur.len() > 0 && cur.last() != '/' {
                        assert((cur + seq!['/'] + k).len() == cur.len() + 1 + k.len());
                    } else {
                        assert((cur + k).len() == cur.len() + k.len());
                    }
                }
            }
            if rest.len() == 0 {
                assert(joined(next, rest) == next);
                assert(node_at(n, rest) == Some(n));
                assert(marked_required(n));
                match n {
                    LayoutNode::Dir { children: c2, .. } => {
                        assert(required_paths(n, next)[0] == next);
                    },
                    LayoutNode::File { .. } => {
                        assert(required_paths(n, next)[0] == next);
                    },
                    _ => {},
                }
            } else {
                assert forall|i: int| 0 <= i < rest.len() implies (#[trigger] rest[i]).len() > 0 && !begins_with(
                    rest[i],
                    '$',
                ) by {
                    assert(rest[i] == ks[i + 1]);
                }
                lemma_required_found_at_depth(n, next, rest);
            }
            let p = joined(cur, ks);
            lemma_required_in_child(children, cur, k, n, p);
            let head: Seq<Seq<char>> = if required && cur.len() > 0 {
                seq![cur]
            } else {
                Seq::empty()
            };
            let tail = required_in(children, cur);
            let j = choose|j: int| 0 <= j < tail.len() && tail[j] == p;
            assert((head + tail)[head.len() + j] == p);
        },
        _ => {},
    }
}

// ---------------------------------------------------------------------------
// Path transformations
// ---------------------------------------------------------------------------

/// A path piece that is `*` or `**`.
pub open spec fn is_star_part(p: Seq<char>) -> bool {
    p == seq!['*'] || p == seq!['*', '*']
}

/// The piece at position `i` of a dependency's target: a wildcard piece takes
/// the path's piece where the source has a wildcard at the same position; a
/// piece with a `*` in it turns `*.test.ts` into the file's name (without its
/// `.ts` endings) followed by `.test.ts`; any other piece stays.
pub open spec fn transform_part(i: int, tp: Seq<char>, sparts: Seq<Seq<char>>, pparts: Seq<Seq<char>>) -> Seq<char> {
    if is_star_part(tp) {
        if i < sparts.len() && i < pparts.len() && is_star_part(sparts[i]) {
            pparts[i]
        } else {
            tp
        }
    } else if tp.contains('*') {
        if i < pparts.len() {
            replace_all(tp, "*.test.ts"@, trim_end_pattern(pparts.last(), ".ts"@) + ".test.ts"@)
        } else {
            tp
        }
    } else {
        tp
    }
}

/// The file that `path`, matched by `source_pattern`, requires by the
/// dependency rule leading to `target_pattern`, piece by piece.
pub open spec fn transform_glob(path: Seq<char>, source_pattern: Seq<char>, target_pattern: Seq<char>) -> Seq<char> {
    let tparts = split_on(target_pattern, '/');
    let sparts = split_on(source_pattern, '/');
    let pparts = split_on(path, '/');
    join_with(Seq::new(tparts.len(), |i: int| transform_part(i, tparts[i], sparts, pparts)), "/"@)
}

/// The two sides of a mirror pattern `"<from> -> <to>"`, when it holds the
/// arrow exactly once.
pub open spec fn split_transform(pattern: Seq<char>) -> Option<(Seq<char>, Seq<char>)> {
    match find_from(pattern, " -> "@, 0) {
        Some(k) => if find_from(pattern, " -> "@, k + 4) is None {
            Some((pattern.take(k), pattern.skip(k + 4)))
        } else {
            None
        },
        None => None,
    }
}

/// The suffix change a mirror pattern asks for; `("*", "*")` means none.
pub open spec fn pattern_transform(pattern: Seq<char>) -> (Seq<char>, Seq<char>) {
    match split_transform(pattern) {
        Some(p) => p,
        None => (seq!['*'], seq!['*']),
    }
}

/// Where the mirror of `source` should be: the source pattern's fixed part
/// (without `*` and outer `/`) is replaced by the target pattern's, then a
/// `from` suffix is changed into the `to` suffix (their leading `*` dropped)
/// unless either side is `*`.
pub open spec fn mirror_target(
    source: Seq<char>,
    source_pattern: Seq<char>,
    target_pattern: Seq<char>,
    from_ext: Seq<char>,
    to_ext: Seq<char>,
) -> Seq<char> {
    let sb = trim_char(remove_char(source_pattern, '*'), '/');
    let tb = trim_char(remove_char(target_pattern, '*'), '/');
    let t = replace_all(source, sb, tb);
    if from_ext != seq!['*'] && to_ext != seq!['*'] {
        let fs = trim_start_char(from_ext, '*');
        let ts = trim_start_char(to_ext, '*');
        if is_suffix(fs, t) {
            t.take(t.len() - fs.len()) + ts
        } else {
            t
        }
    } else {
        t
    }
}

/// Whether `p` is, by components, one of `paths`.
pub open spec fn in_paths(paths: Seq<Seq<char>>, p: Seq<char>) -> bool {
    exists|j: int| 0 <= j < paths.len() && #[trigger] same_path(paths[j], p)
}

/// Whether one of `paths`, taken relative to `root`, is `target` by components.
pub open spec fn in_paths_under(paths: Seq<Seq<char>>, root: Seq<char>, target: Seq<char>) -> bool {
    exists|j: int|
        0 <= j < paths.len() && (#[trigger] strip_prefix(paths[j], root) matches Some(rp) && same_path(rp, target))
}

} // verus!

verus! {

/// A violation that stands when `missing_path` does not exist on disk.
#[derive(Debug, Clone)]
pub struct PendingCheck {
    pub violation: Violation,
    pub missing_path: String,
}

/// A pending check, as plain values.
pub struct PendingView {
    pub violation: ViolationView,
    pub missing_path: Seq<char>,
}

impl View for PendingCheck {
    type V = PendingView;

    open spec fn view(&self) -> PendingView {
        PendingView { violation: self.violation@, missing_path: self.missing_path@ }
    }
}

/// The pending checks, as plain values.
pub open spec fn pending_view(v: Seq<PendingCheck>) -> Seq<PendingView> {
    v.map_values(|p: PendingCheck| p@)
}

/// The violations whose path was found missing, in order; `present[i]`
/// answers for the `i`-th check.
pub open spec fn confirmed(pending: Seq<PendingView>, present: Seq<bool>) -> Seq<ViolationView>
    decreases pending.len(),
{
    if pending.len() == 0 {
        Seq::empty()
    } else {
        let rest = confirmed(pending.drop_last(), present.take(pending.len() - 1));
        if present[pending.len() - 1] {
            rest
        } else {
            rest.push(pending.last().violation)
        }
    }
}

/// The sequences one after the other.
pub open spec fn concat_all<A>(s: Seq<Seq<A>>) -> Seq<A>
    decreases s.len(),
{
    if s.len() == 0 {
        Seq::empty()
    } else {
        concat_all(s.drop_last()) + s.last()
    }
}

pub proof fn lemma_concat_all_step<A>(s: Seq<Seq<A>>, i: int)
    requires
        0 <= i < s.len(),
    ensures
        concat_all(s.take(i + 1)) == concat_all(s.take(i)) + s[i],
{
    assert(s.take(i + 1).drop_last() =~= s.take(i));
}

/// A violation with a fix suggestion and no recorded attempts.
pub open spec fn fixable(path: Seq<char>, rule_id: Seq<char>, message: Seq<char>, severity: Severity, fix: Seq<char>) -> ViolationView {
    ViolationView { path, rule_id, message, severity, fix_suggestion: Some(fix), attempts: Seq::empty() }
}

/// The check for one required path.
pub open spec fn required_check(root: Seq<char>, severity: Severity) -> spec_fn(Seq<char>) -> PendingView {
    |r: Seq<char>|
        PendingView {
            violation: fixable(
                r,
                "required"@,
                "required path does not exist: "@ + r,
                severity,
                "create the required file or directory: "@ + r,
            ),
            missing_path: path_join(root, r),
        }
}

/// The checks of the required paths of the layout.
pub open spec fn required_pending(c: ConfigIR, root: Seq<char>, severity: Severity) -> Seq<PendingView> {
    match c.layout {
        Some(l) => required_paths(l, Seq::empty()).map_values(required_check(root, severity)),
        None => Seq::empty(),
    }
}

/// The check, if any, of one walked path under one dependency rule.
pub open spec fn dependency_item(
    paths: Seq<Seq<char>>,
    root: Seq<char>,
    sp: Seq<char>,
    tp: Seq<char>,
    severity: Severity,
) -> spec_fn(Seq<char>) -> Seq<PendingView> {
    |p: Seq<char>|
        {
            let rel = relative_to(p, root);
            let expected = transform_glob(rel, sp, tp);
            let full = path_join(root, expected);
            if glob_pattern_matches(sp, rel) && !in_paths(paths, full) {
                seq![
                    PendingView {
                        violation: fixable(
                            rel,
                            "dependency"@,
                            "missing required dependency: "@ + rel + " requires "@ + expected,
                            severity,
                            "create: "@ + expected,
                        ),
                        missing_path: full,
                    },
                ]
            } else {
                Seq::empty()
            }
        }
}

/// The checks of one dependency rule; none when its source pattern is invalid.
pub open spec fn dependency_rule(paths: Seq<Seq<char>>, root: Seq<char>, sp: Seq<char>, tp: Seq<char>, severity: Severity) -> Seq<PendingView> {
    if glob_pattern_valid(sp) {
        concat_all(paths.map_values(dependency_item(paths, root, sp, tp, severity)))
    } else {
        Seq::empty()
    }
}

/// The checks of every dependency rule, in order.
pub open spec fn dependency_pending(c: ConfigIR, paths: Seq<Seq<char>>, root: Seq<char>, severity: Severity) -> Seq<PendingView> {
    concat_all(
        c.dependencies@.map_values(|d: (String, String)| dependency_rule(paths, root, d.0@, d.1@, severity)),
    )
}

/// The check, if any, of one walked path under one mirror rule.
pub open spec fn mirror_item(
    paths: Seq<Seq<char>>,
    root: Seq<char>,
    m: MirrorConfig,
    severity: Severity,
) -> spec_fn(Seq<char>) -> Seq<PendingView> {
    |p: Seq<char>|
        {
            let rel = relative_to(p, root);
            let t = pattern_transform(m.pattern@);
            let expected = mirror_target(rel, m.source@, m.target@, t.0, t.1);
            let full = path_join(root, expected);
            if glob_pattern_matches(m.source@, rel) && !in_paths(paths, full) {
                seq![
                    PendingView {
                        violation: fixable(
                            rel,
                            "mirror"@,
                            "missing mirrored file: "@ + rel + " should have mirror at "@ + expected,
                            severity,
                            "create mirrored file: "@ + expected,
                        ),
                        missing_path: full,
                    },
                ]
            } else {
                Seq::empty()
            }
        }
}

/// The checks of one mirror rule; none when its source pattern is invalid.
pub open spec fn mirror_rule(paths: Seq<Seq<char>>, root: Seq<char>, m: MirrorConfig, severity: Severity) -> Seq<PendingView> {
    if glob_pattern_valid(m.source@) {
        concat_all(paths.map_values(mirror_item(paths, root, m, severity)))
    } else {
        Seq::empty()
    }
}

/// The checks of every mirror rule, in order.
pub open spec fn mirror_pending(c: ConfigIR, paths: Seq<Seq<char>>, root: Seq<char>, severity: Severity) -> Seq<PendingView> {
    concat_all(c.mirror@.map_values(|m: MirrorConfig| mirror_rule(paths, root, m, severity)))
}

/// The check, if any, of one file required beside a trigger file whose
/// directory (relative to the root) is `parent`.
pub open spec fn when_file(
    paths: Seq<Seq<char>>,
    root: Seq<char>,
    rel: Seq<char>,
    parent: Seq<char>,
    trigger: Seq<char>,
    severity: Severity,
) -> spec_fn(Seq<char>) -> Seq<PendingView> {
    |f: Seq<char>|
        {
            let required_path = path_join(parent, f);
            if in_paths_under(paths, root, required_path) {
                Seq::empty()
            } else {
                seq![
                    PendingView {
                        violation: fixable(
                            rel,
                            "when"@,
                            trigger + " requires "@ + f + " to exist in the same directory"@,
                            severity,
                            "create: "@ + required_path,
                        ),
                        missing_path: path_join(root, required_path),
                    },
                ]
            }
        }
}

/// The checks of one walked path under one `when` rule: nothing unless its
/// file name is the trigger.
pub open spec fn when_item(
    paths: Seq<Seq<char>>,
    root: Seq<char>,
    trigger: Seq<char>,
    needed: Seq<Seq<char>>,
    severity: Severity,
) -> spec_fn(Seq<char>) -> Seq<PendingView> {
    |p: Seq<char>|
        {
            let rel = relative_to(p, root);
            if file_name(rel) == Some(trigger) {
                let parent = match parent_path(rel) {
                    Some(q) => q,
                    None => Seq::empty(),
                };
                concat_all(needed.map_values(when_file(paths, root, rel, parent, trigger, severity)))
            } else {
                Seq::empty()
            }
        }
}

/// The checks of every `when` rule, in order.
pub open spec fn when_pending(c: ConfigIR, paths: Seq<Seq<char>>, root: Seq<char>, severity: Severity) -> Seq<PendingView> {
    concat_all(
        c.when@.map_values(
            |w: (String, WhenRequirement)|
                concat_all(paths.map_values(when_item(paths, root, w.0@, views(w.1.requires@), severity))),
        ),
    )
}

/// Every pending check, in the order the rules are checked: required paths,
/// dependencies, mirrors, then `when` rules.
pub open spec fn all_pending(c: ConfigIR, paths: Seq<Seq<char>>, root: Seq<char>, severity: Severity) -> Seq<PendingView> {
    required_pending(c, root, severity) + dependency_pending(c, paths, root, severity) + mirror_pending(
        c,
        paths,
        root,
        severity,
    ) + when_pending(c, paths, root, severity)
}

/// Whether no two of `paths` are the same path.
pub open spec fn distinct_paths(paths: Seq<Seq<char>>) -> bool {
    forall|i: int, j: int| 0 <= i < j < paths.len() ==> !#[trigger] same_path(paths[i], paths[j])
}

/// Validates what needs every walked path at once.
pub struct PostValidator<'a> {
    config: &'a ConfigIR,
    all_paths: Vec<String>,
    many_matches: Vec<String>,
}

impl<'a> PostValidator<'a> {
    /// The configuration validated against.
    pub closed spec fn config(&self) -> ConfigIR {
        *self.config
    }

    /// The recorded paths, in the order first recorded.
    pub closed spec fn paths(&self) -> Seq<Seq<char>> {
        views(self.all_paths@)
    }

    /// How often each many-pattern was recorded as matching.
    pub closed spec fn many_counts(&self) -> Multiset<Seq<char>> {
        views(self.many_matches@).to_multiset()
    }

    #[verifier::type_invariant]
    closed spec fn no_repeats(&self) -> bool {
        distinct_paths(views(self.all_paths@))
    }

    /// A validator with nothing recorded yet.
    pub fn new(config: &'a ConfigIR) -> (r: Self)
        ensures
            r.config() == *config,
            r.paths().len() == 0,
            r.many_counts() =~= Multiset::empty(),
    {
        let r = PostValidator { config, all_paths: Vec::new(), many_matches: Vec::new() };
        assert(views(r.all_paths@) =~= Seq::<Seq<char>>::empty());
        assert(views(r.many_matches@) =~= Seq::<Seq<char>>::empty());
        proof {
            broadcast use vstd::seq_lib::group_to_multiset_ensures;
        }
        r
    }

    /// Records a walked path; a path already recorded (by components) is
    /// not recorded twice.
    pub fn record_path(&mut self, path: &str)
        ensures
            final(self).config() == old(self).config(),
            final(self).many_counts() == old(self).many_counts(),
            final(self).paths() == (if in_paths(old(self).paths(), path@) {
                old(self).paths()
            } else {
                old(self).paths().push(path@)
            }),
    {
        proof {
            use_type_invariant(&*self);
        }
        let n = self.all_paths.len();
        let mut i: usize = 0;
        while i < n
            invariant
                n == self.all_paths@.len(),
                i <= n,
                forall|j: int| 0 <= j < i ==> !#[trigger] same_path(views(self.all_paths@)[j], path@),
            decreases n - i,
        {
            assert(views(self.all_paths@)[i as int] == self.all_paths@[i as int]@);
            if same_path_exec(self.all_paths[i].as_str(), path) {
                return;
            }
            i = i + 1;
        }
        let ghost before = views(self.all_paths@);
        assert(distinct_paths(before.push(path@))) by {
            assert forall|a: int, b: int| 0 <= a < b < before.len() + 1 implies !#[trigger] same_path(
                before.push(path@)[a],
                before.push(path@)[b],
            ) by {
                if b == before.len() {
                    assert(before.push(path@)[b] == path@);
                    assert(before.push(path@)[a] == before[a]);
                } else {
                    assert(before.push(path@)[a] == before[a]);
                    assert(before.push(path@)[b] == before[b]);
                }
            }
        }
        let mut paths = Vec::new();
        std::mem::swap(&mut paths, &mut self.all_paths);
        paths.push(to_owned_string(path));
        assert(views(paths@) =~= before.push(path@));
        self.all_paths = paths;
    }

    /// Records one more match of the many-pattern `pattern_id`.
    pub fn record_many_match(&mut self, pattern_id: &str)
        ensures
            final(self).config() == old(self).config(),
            final(self).paths() == old(self).paths(),
            final(self).many_counts() == old(self).many_counts().insert(pattern_id@),
    {
        proof {
            use_type_invariant(&*self);
        }
        let ghost before = views(self.many_matches@);
        let mut ids = Vec::new();
        std::mem::swap(&mut ids, &mut self.many_matches);
        ids.push(to_owned_string(pattern_id));
        assert(views(ids@) =~= before.push(pattern_id@));
        self.many_matches = ids;
        proof {
            before.to_multiset_ensures();
        }
    }
}

} // verus!

verus! {

fn star_part(p: &str) -> (r: bool)
    ensures
        r == is_star_part(p@),
{
    let n = p.unicode_len();
    if n == 1 && p.get_char(0) == '*' {
        assert(p@ =~= seq!['*']);
        true
    } else if n == 2 && p.get_char(0) == '*' && p.get_char(1) == '*' {
        assert(p@ =~= seq!['*', '*']);
        true
    } else {
        false
    }
}

fn has_star(p: &str) -> (r: bool)
    ensures
        r == p@.contains('*'),
{
    let n = p.unicode_len();
    for i in 0..n
        invariant
            n == p@.len(),
            forall|j: int| 0 <= j < i ==> p@[j] != '*',
    {
        if p.get_char(i) == '*' {
            return true;
        }
    }
    false
}

/// A violation with a fix suggestion.
fn fixable_violation(path: String, rule_id: &str, message: String, severity: Severity, fix: String) -> (v: Violation)
    ensures
        v@ == fixable(path@, rule_id@, message@, severity, fix@),
{
    let v = Violation {
        path,
        rule_id: to_owned_string(rule_id),
        message,
        severity,
        fix_suggestion: Some(fix),
        attempts: Vec::new(),
    };
    assert(attempts_view(v.attempts@) =~= Seq::<AttemptView>::empty());
    v
}

/// `a` followed by `b`.
fn cat(a: &str, b: &str) -> (r: String)
    ensures
        r@ == a@ + b@,
{
    let mut r = to_owned_string(a);
    r.append(b);
    r
}

impl<'a> PostValidator<'a> {
    /// Appends to `paths` the required files and directories under `node`,
    /// which sits at `current_path`.
    pub fn collect_required_paths(node: &LayoutNode, current_path: String, paths: &mut Vec<String>)
        ensures
            views(final(paths)@) == views(old(paths)@) + required_paths(*node, current_path@),
        decreases *node, 1int,
    {
        match node {
            LayoutNode::Dir { children, required, .. } => {
                let ghost before = views(paths@);
                if *required && current_path.unicode_len() > 0 {
                    paths.push(current_path.clone());
                    assert(views(paths@) =~= before.push(current_path@));
                } else {
                    assert(views(paths@) =~= before);
                }
                let ghost mid = views(paths@);
                Self::collect_required_in(children, &current_path, paths);
                assert(views(paths@) =~= before + required_paths(*node, current_path@));
            },
            LayoutNode::File { required, .. } => {
                let ghost before = views(paths@);
                if *required && current_path.unicode_len() > 0 {
                    paths.push(current_path);
                    assert(views(paths@) =~= before.push(current_path@));
                } else {
                    assert(views(paths@) =~= before);
                }
            },
            _ => {
                assert(views(paths@) =~= views(old(paths)@));
            },
        }
    }

    fn collect_required_in(m: &ChildMap, current_path: &String, paths: &mut Vec<String>)
        ensures
            views(final(paths)@) == views(old(paths)@) + required_in(*m, current_path@),
        decreases *m, 0int,
    {
        match m {
            ChildMap::Empty => {
                assert(views(paths@) =~= views(old(paths)@) + required_in(*m, current_path@));
            },
            ChildMap::Entry(name, child, rest) => {
                let ghost before = views(paths@);
                if !starts_with_char(name.as_str(), '$') {
                    let child_path = join_path(current_path.as_str(), name.as_str());
                    Self::collect_required_paths(child, child_path, paths);
                }
                Self::collect_required_in(rest, current_path, paths);
                assert(views(paths@) =~= before + required_in(*m, current_path@));
            },
        }
    }

    /// The file that `path`, matched by `source_pattern`, requires by the
    /// dependency rule leading to `target_pattern`.
    fn transform_glob_match(&self, path: &str, source_pattern: &str, target_pattern: &str) -> (r: String)
        ensures
            r@ == transform_glob(path@, source_pattern@, target_pattern@),
    {
        let source_parts = split_str(source_pattern, '/');
        let target_parts = split_str(target_pattern, '/');
        let path_parts = split_str(path, '/');
        let ghost sparts = views(source_parts@);
        let ghost tparts = views(target_parts@);
        let ghost pparts = views(path_parts@);
        proof {
            crate::text::lemma_split_on_nonempty(path@, '/');
        }
        let mut result_parts: Vec<String> = Vec::new();
        let n = target_parts.len();
        let ghost full = Seq::new(n as nat, |j: int| transform_part(j, tparts[j], sparts, pparts));
        for i in 0..n
            invariant
                n == target_parts@.len(),
                sparts == views(source_parts@),
                tparts == views(target_parts@),
                pparts == views(path_parts@),
                sparts == split_on(source_pattern@, '/'),
                tparts == split_on(target_pattern@, '/'),
                pparts == split_on(path@, '/'),
                path_parts@.len() >= 1,
                full == Seq::new(n as nat, |j: int| transform_part(j, tparts[j], sparts, pparts)),
                views(result_parts@) == full.take(i as int),
        {
            let tp = target_parts[i].as_str();
            assert(tp@ == tparts[i as int]);
            let piece = if star_part(tp) {
                if i < source_parts.len() && i < path_parts.len() && star_part(source_parts[i].as_str()) {
                    assert(source_parts@[i as int]@ == sparts[i as int]);
                    assert(path_parts@[i as int]@ == pparts[i as int]);
                    path_parts[i].clone()
                } else {
                    proof {
                        if i < source_parts@.len() {
                            assert(source_parts@[i as int]@ == sparts[i as int]);
                        }
                    }
                    to_owned_string(tp)
                }
            } else if has_star(tp) {
                if i < path_parts.len() {
                    let last = path_parts[path_parts.len() - 1].as_str();
                    assert(last@ == pparts.last());
                    let trimmed = trim_end_pattern_exec(last, ".ts");
                    let replacement = cat(trimmed, ".test.ts");
                    replace_all_exec(tp, "*.test.ts", replacement.as_str())
                } else {
                    to_owned_string(tp)
                }
            } else {
                to_owned_string(tp)
            };
            let ghost before = views(result_parts@);
            assert(piece@ == transform_part(i as int, tparts[i as int], sparts, pparts));
            let ghost pv = piece@;
            result_parts.push(piece);
            assert(views(result_parts@) =~= before.push(pv));
            assert(full.take(i + 1) =~= full.take(i as int).push(full[i as int]));
        }
        assert(full.take(n as int) =~= full);
        join_strings(&result_parts, "/")
    }

    /// The suffix change written in a mirror pattern `"<from> -> <to>"`;
    /// `("*", "*")` when the pattern does not hold the arrow exactly once.
    fn parse_pattern_transform(&self, pattern: &str) -> (r: (String, String))
        ensures
            (r.0@, r.1@) == pattern_transform(pattern@),
    {
        let cs = chars_of(pattern);
        let arrow = chars_of(" -> ");
        proof {
            reveal_strlit(" -> ");
        }
        assert(arrow@.len() == 4);
        let first_hit = find_from_exec(&cs, &arrow, 0);
        assert(cs@ == pattern@);
        assert(arrow@ == " -> "@);
        match first_hit {
            Some(k) => {
                assert(find_from(pattern@, " -> "@, 0) == Some(k as int));
                let len = cs.len();
                assert(k + 4 <= len);
                let after: usize = k + 4;
                if find_from_exec(&cs, &arrow, after).is_none() {
                    let first = pattern.substring_char(0, k);
                    let second = pattern.substring_char(after, cs.len());
                    assert(first@ =~= pattern@.take(k as int));
                    assert(second@ =~= pattern@.skip(k + 4));
                    return (to_owned_string(first), to_owned_string(second));
                }
            },
            None => {},
        }
        proof {
            reveal_strlit("*");
            assert("*"@ =~= seq!['*']);
        }
        (String::from_str("*"), String::from_str("*"))
    }

    /// Where the mirror of `source` should be.
    fn compute_mirror_target(
        &self,
        source: &str,
        source_pattern: &str,
        target_pattern: &str,
        from_ext: &str,
        to_ext: &str,
    ) -> (r: String)
        ensures
            r@ == mirror_target(source@, source_pattern@, target_pattern@, from_ext@, to_ext@),
    {
        let source_base = remove_char_exec(source_pattern, '*');
        let target_base = remove_char_exec(target_pattern, '*');
        let target = replace_all_exec(
            source,
            trim_char_exec(source_base.as_str(), '/'),
            trim_char_exec(target_base.as_str(), '/'),
        );
        let from_star = str_eq(from_ext, "*");
        let to_star = str_eq(to_ext, "*");
        proof {
            reveal_strlit("*");
            assert("*"@ =~= seq!['*']);
        }
        if !from_star && !to_star {
            let from_suffix = trim_start_char_exec(from_ext, '*');
            let to_suffix = trim_start_char_exec(to_ext, '*');
            if str_ends_with(target.as_str(), from_suffix) {
                let n = target.unicode_len();
                let k = from_suffix.unicode_len();
                let kept = target.as_str().substring_char(0, n - k);
                assert(kept@ =~= target@.take(target@.len() - from_suffix@.len()));
                return cat(kept, to_suffix);
            }
        }
        target
    }
}

} // verus!

verus! {

/// `out` followed by `more`.
fn append_checks(out: &mut Vec<PendingCheck>, more: Vec<PendingCheck>)
    ensures
        pending_view(final(out)@) == pending_view(old(out)@) + pending_view(more@),
{
    let ghost added = more@;
    let mut more = more;
    out.append(&mut more);
    assert(pending_view(out@) =~= pending_view(old(out)@) + pending_view(added));
}

impl<'a> PostValidator<'a> {
    /// Whether `p` is, by components, one of the recorded paths.
    fn in_recorded(&self, p: &str) -> (r: bool)
        ensures
            r == in_paths(self.paths(), p@),
    {
        let n = self.all_paths.len();
        for j in 0..n
            invariant
                n == self.all_paths@.len(),
                forall|k: int| 0 <= k < j ==> !#[trigger] same_path(self.paths()[k], p@),
        {
            assert(self.paths()[j as int] == self.all_paths@[j as int]@);
            if same_path_exec(self.all_paths[j].as_str(), p) {
                return true;
            }
        }
        false
    }

    /// Whether one recorded path, taken relative to `root`, is `target`.
    fn in_recorded_under(&self, root: &str, target: &str) -> (r: bool)
        ensures
            r == in_paths_under(self.paths(), root@, target@),
    {
        let n = self.all_paths.len();
        for j in 0..n
            invariant
                n == self.all_paths@.len(),
                forall|k: int|
                    0 <= k < j ==> !(#[trigger] strip_prefix(self.paths()[k], root@) matches Some(rp) && same_path(
                        rp,
                        target@,
                    )),
        {
            assert(self.paths()[j as int] == self.all_paths@[j as int]@);
            match strip_path_prefix(self.all_paths[j].as_str(), root) {
                Some(rp) => {
                    if same_path_exec(rp.as_str(), target) {
                        return true;
                    }
                },
                None => {},
            }
        }
        false
    }

    /// The check of the required paths of the layout.
    fn required_checks(&self, root_path: &str, severity: Severity) -> (r: Vec<PendingCheck>)
        ensures
            pending_view(r@) == required_pending(self.config(), root_path@, severity),
    {
        let mut out: Vec<PendingCheck> = Vec::new();
        match &self.config.layout {
            None => {
                assert(pending_view(out@) =~= Seq::<PendingView>::empty());
            },
            Some(layout) => {
                let mut required: Vec<String> = Vec::new();
                Self::collect_required_paths(layout, String::new(), &mut required);
                assert(views(required@) =~= required_paths(*layout, Seq::empty()));
                let ghost rq = views(required@);
                let n = required.len();
                for i in 0..n
                    invariant
                        n == required@.len(),
                        rq == views(required@),
                        pending_view(out@) == rq.take(i as int).map_values(required_check(root_path@, severity)),
                {
                    let r = required[i].as_str();
                    assert(r@ == rq[i as int]);
                    let violation = fixable_violation(
                        to_owned_string(r),
                        "required",
                        cat("required path does not exist: ", r),
                        severity,
                        cat("create the required file or directory: ", r),
                    );
                    let check = PendingCheck { violation, missing_path: join_path(root_path, r) };
                    let ghost before = pending_view(out@);
                    let ghost cv = check@;
                    out.push(check);
                    assert(pending_view(out@) =~= before.push(cv));
                    assert(rq.take(i + 1).map_values(required_check(root_path@, severity)) =~= rq.take(
                        i as int,
                    ).map_values(required_check(root_path@, severity)).push(cv));
                }
                assert(rq.take(n as int) =~= rq);
            },
        }
        out
    }

    /// The check, if any, of one recorded path under one dependency rule.
    fn dependency_item_checks(&self, path: &str, root_path: &str, sp: &str, tp: &str, severity: Severity) -> (r: Vec<
        PendingCheck,
    >)
        requires
            glob_pattern_valid(sp@),
        ensures
            pending_view(r@) == dependency_item(self.paths(), root_path@, sp@, tp@, severity)(path@),
    {
        let mut out: Vec<PendingCheck> = Vec::new();
        let rel = relative_path(path, root_path);
        let expected = self.transform_glob_match(rel.as_str(), sp, tp);
        let full = join_path(root_path, expected.as_str());
        if pattern_matches(sp, rel.as_str()) && !self.in_recorded(full.as_str()) {
            let mut message = cat("missing required dependency: ", rel.as_str());
            message.append(" requires ");
            message.append(expected.as_str());
            let violation = fixable_violation(
                rel.clone(),
                "dependency",
                message,
                severity,
                cat("create: ", expected.as_str()),
            );
            out.push(PendingCheck { violation, missing_path: full });
        }
        assert(pending_view(out@) =~= dependency_item(self.paths(), root_path@, sp@, tp@, severity)(path@));
        out
    }

    /// The checks of one dependency rule.
    fn dependency_rule_checks(&self, root_path: &str, sp: &str, tp: &str, severity: Severity) -> (r: Vec<
        PendingCheck,
    >)
        ensures
            pending_view(r@) == dependency_rule(self.paths(), root_path@, sp@, tp@, severity),
    {
        let mut out: Vec<PendingCheck> = Vec::new();
        if !pattern_valid(sp) {
            assert(pending_view(out@) =~= Seq::<PendingView>::empty());
            return out;
        }
        let ghost items = self.paths().map_values(dependency_item(self.paths(), root_path@, sp@, tp@, severity));
        let n = self.all_paths.len();
        assert(items.take(0) =~= Seq::<Seq<PendingView>>::empty());
        assert(pending_view(out@) =~= Seq::<PendingView>::empty());
        for i in 0..n
            invariant
                n == self.all_paths@.len(),
                glob_pattern_valid(sp@),
                items == self.paths().map_values(dependency_item(self.paths(), root_path@, sp@, tp@, severity)),
                pending_view(out@) == concat_all(items.take(i as int)),
        {
            assert(self.paths()[i as int] == self.all_paths@[i as int]@);
            let more = self.dependency_item_checks(self.all_paths[i].as_str(), root_path, sp, tp, severity);
            proof {
                lemma_concat_all_step(items, i as int);
            }
            append_checks(&mut out, more);
        }
        assert(items.take(n as int) =~= items);
        out
    }

    /// The checks of every dependency rule.
    fn dependency_checks(&self, root_path: &str, severity: Severity) -> (r: Vec<PendingCheck>)
        ensures
            pending_view(r@) == dependency_pending(self.config(), self.paths(), root_path@, severity),
    {
        let deps = &self.config.dependencies;
        let ghost rules = deps@.map_values(
            |d: (String, String)| dependency_rule(self.paths(), root_path@, d.0@, d.1@, severity),
        );
        let mut out: Vec<PendingCheck> = Vec::new();
        let n = deps.len();
        assert(rules.take(0) =~= Seq::<Seq<PendingView>>::empty());
        assert(pending_view(out@) =~= Seq::<PendingView>::empty());
        for i in 0..n
            invariant
                n == deps@.len(),
                deps == &self.config.dependencies,
                rules == deps@.map_values(
                    |d: (String, String)| dependency_rule(self.paths(), root_path@, d.0@, d.1@, severity),
                ),
                pending_view(out@) == concat_all(rules.take(i as int)),
        {
            let (sp, tp) = &deps[i];
            let more = self.dependency_rule_checks(root_path, sp.as_str(), tp.as_str(), severity);
            proof {
                lemma_concat_all_step(rules, i as int);
            }
            append_checks(&mut out, more);
        }
        assert(rules.take(n as int) =~= rules);
        out
    }

    /// The check, if any, of one recorded path under one mirror rule.
    fn mirror_item_checks(&self, path: &str, root_path: &str, m: &MirrorConfig, severity: Severity) -> (r: Vec<
        PendingCheck,
    >)
        requires
            glob_pattern_valid(m.source@),
        ensures
            pending_view(r@) == mirror_item(self.paths(), root_path@, *m, severity)(path@),
    {
        let mut out: Vec<PendingCheck> = Vec::new();
        let rel = relative_path(path, root_path);
        let (from_ext, to_ext) = self.parse_pattern_transform(m.pattern.as_str());
        let expected = self.compute_mirror_target(
            rel.as_str(),
            m.source.as_str(),
            m.target.as_str(),
            from_ext.as_str(),
            to_ext.as_str(),
        );
        let full = join_path(root_path, expected.as_str());
        if pattern_matches(m.source.as_str(), rel.as_str()) && !self.in_recorded(full.as_str()) {
            let mut message = cat("missing mirrored file: ", rel.as_str());
            message.append(" should have mirror at ");
            message.append(expected.as_str());
            let violation = fixable_violation(
                rel.clone(),
                "mirror",
                message,
                severity,
                cat("create mirrored file: ", expected.as_str()),
            );
            out.push(PendingCheck { violation, missing_path: full });
        }
        assert(pending_view(out@) =~= mirror_item(self.paths(), root_path@, *m, severity)(path@));
        out
    }

    /// The checks of one mirror rule.
    fn mirror_rule_checks(&self, root_path: &str, m: &MirrorConfig, severity: Severity) -> (r: Vec<PendingCheck>)
        ensures
            pending_view(r@) == mirror_rule(self.paths(), root_path@, *m, severity),
    {
        let mut out: Vec<PendingCheck> = Vec::new();
        if !pattern_valid(m.source.as_str()) {
            assert(pending_view(out@) =~= Seq::<PendingView>::empty());
            return out;
        }
        let ghost items = self.paths().map_values(mirror_item(self.paths(), root_path@, *m, severity));
        let n = self.all_paths.len();
        assert(items.take(0) =~= Seq::<Seq<PendingView>>::empty());
        assert(pending_view(out@) =~= Seq::<PendingView>::empty());
        for i in 0..n
            invariant
                n == self.all_paths@.len(),
                glob_pattern_valid(m.source@),
                items == self.paths().map_values(mirror_item(self.paths(), root_path@, *m, severity)),
                pending_view(out@) == concat_all(items.take(i as int)),
        {
            assert(self.paths()[i as int] == self.all_paths@[i as int]@);
            let more = self.mirror_item_checks(self.all_paths[i].as_str(), root_path, m, severity);
            proof {
                lemma_concat_all_step(items, i as int);
            }
            append_checks(&mut out, more);
        }
        assert(items.take(n as int) =~= items);
        out
    }

    /// The checks of every mirror rule.
    fn mirror_checks(&self, root_path: &str, severity: Severity) -> (r: Vec<PendingCheck>)
        ensures
            pending_view(r@) == mirror_pending(self.config(), self.paths(), root_path@, severity),
    {
        let mirrors = &self.config.mirror;
        let ghost rules = mirrors@.map_values(|m: MirrorConfig| mirror_rule(self.paths(), root_path@, m, severity));
        let mut out: Vec<PendingCheck> = Vec::new();
        let n = mirrors.len();
        assert(rules.take(0) =~= Seq::<Seq<PendingView>>::empty());
        assert(pending_view(out@) =~= Seq::<PendingView>::empty());
        for i in 0..n
            invariant
                n == mirrors@.len(),
                mirrors == &self.config.mirror,
                rules == mirrors@.map_values(|m: MirrorConfig| mirror_rule(self.paths(), root_path@, m, severity)),
                pending_view(out@) == concat_all(rules.take(i as int)),
        {
            let more = self.mirror_rule_checks(root_path, &mirrors[i], severity);
            proof {
                lemma_concat_all_step(rules, i as int);
            }
            append_checks(&mut out, more);
        }
        assert(rules.take(n as int) =~= rules);
        out
    }
}

} // verus!

verus! {

impl<'a> PostValidator<'a> {
    /// The check, if any, of one file required beside a trigger file.
    fn when_file_checks(
        &self,
        root_path: &str,
        rel: &str,
        parent: &str,
        trigger: &str,
        required_file: &str,
        severity: Severity,
    ) -> (r: Vec<PendingCheck>)
        ensures
            pending_view(r@) == when_file(self.paths(), root_path@, rel@, parent@, trigger@, severity)(required_file@),
    {
        let mut out: Vec<PendingCheck> = Vec::new();
        let required_path = join_path(parent, required_file);
        if !self.in_recorded_under(root_path, required_path.as_str()) {
            let mut message = cat(trigger, " requires ");
            message.append(required_file);
            message.append(" to exist in the same directory");
            let violation = fixable_violation(
                to_owned_string(rel),
                "when",
                message,
                severity,
                cat("create: ", required_path.as_str()),
            );
            let missing_path = join_path(root_path, required_path.as_str());
            out.push(PendingCheck { violation, missing_path });
        }
        assert(pending_view(out@) =~= when_file(self.paths(), root_path@, rel@, parent@, trigger@, severity)(
            required_file@,
        ));
        out
    }

    /// The checks of one recorded path under one `when` rule.
    fn when_item_checks(
        &self,
        path: &str,
        root_path: &str,
        trigger: &str,
        requirement: &WhenRequirement,
        severity: Severity,
    ) -> (r: Vec<PendingCheck>)
        ensures
            pending_view(r@) == when_item(self.paths(), root_path@, trigger@, views(requirement.requires@), severity)(
                path@,
            ),
    {
        let mut out: Vec<PendingCheck> = Vec::new();
        let rel = relative_path(path, root_path);
        let comps = crate::text::components_of(rel.as_str());
        let k = comps.len();
        let mut is_trigger = false;
        if k > 0 {
            assert(views(comps@).last() == comps@[k - 1]@);
            let last = comps[k - 1].as_str();
            if !str_eq(last, "/") && !str_eq(last, ".") && !str_eq(last, "..") && str_eq(last, trigger) {
                is_trigger = true;
            }
            proof {
                reveal_strlit("/");
                reveal_strlit(".");
                reveal_strlit("..");
                assert("/"@ =~= seq!['/']);
                assert("."@ =~= seq!['.']);
                assert(".."@ =~= seq!['.', '.']);
            }
        }
        assert(is_trigger == (file_name(rel@) == Some(trigger@)));
        if !is_trigger {
            assert(pending_view(out@) =~= Seq::<PendingView>::empty());
            return out;
        }
        let parent = match parent_of(rel.as_str()) {
            Some(p) => p,
            None => String::new(),
        };
        let needed = &requirement.requires;
        let ghost nv = views(needed@);
        let ghost items = nv.map_values(
            when_file(self.paths(), root_path@, rel@, parent@, trigger@, severity),
        );
        let n = needed.len();
        assert(items.take(0) =~= Seq::<Seq<PendingView>>::empty());
        assert(pending_view(out@) =~= Seq::<PendingView>::empty());
        for i in 0..n
            invariant
                n == needed@.len(),
                nv == views(needed@),
                items == nv.map_values(when_file(self.paths(), root_path@, rel@, parent@, trigger@, severity)),
                pending_view(out@) == concat_all(items.take(i as int)),
        {
            assert(nv[i as int] == needed@[i as int]@);
            let more = self.when_file_checks(root_path, rel.as_str(), parent.as_str(), trigger, needed[i].as_str(), severity);
            proof {
                lemma_concat_all_step(items, i as int);
            }
            append_checks(&mut out, more);
        }
        assert(items.take(n as int) =~= items);
        out
    }

    /// The checks of one `when` rule over every recorded path.
    fn when_rule_checks(&self, root_path: &str, trigger: &str, requirement: &WhenRequirement, severity: Severity) -> (r:
        Vec<PendingCheck>)
        ensures
            pending_view(r@) == concat_all(
                self.paths().map_values(
                    when_item(self.paths(), root_path@, trigger@, views(requirement.requires@), severity),
                ),
            ),
    {
        let ghost items = self.paths().map_values(
            when_item(self.paths(), root_path@, trigger@, views(requirement.requires@), severity),
        );
        let mut out: Vec<PendingCheck> = Vec::new();
        let n = self.all_paths.len();
        assert(items.take(0) =~= Seq::<Seq<PendingView>>::empty());
        assert(pending_view(out@) =~= Seq::<PendingView>::empty());
        for i in 0..n
            invariant
                n == self.all_paths@.len(),
                items == self.paths().map_values(
                    when_item(self.paths(), root_path@, trigger@, views(requirement.requires@), severity),
                ),
                pending_view(out@) == concat_all(items.take(i as int)),
        {
            assert(self.paths()[i as int] == self.all_paths@[i as int]@);
            let more = self.when_item_checks(self.all_paths[i].as_str(), root_path, trigger, requirement, severity);
            proof {
                lemma_concat_all_step(items, i as int);
            }
            append_checks(&mut out, more);
        }
        assert(items.take(n as int) =~= items);
        out
    }

    /// The checks of every `when` rule.
    fn when_checks(&self, root_path: &str, severity: Severity) -> (r: Vec<PendingCheck>)
        ensures
            pending_view(r@) == when_pending(self.config(), self.paths(), root_path@, severity),
    {
        let rules_list = &self.config.when;
        let ghost rules = rules_list@.map_values(
            |w: (String, WhenRequirement)|
                concat_all(self.paths().map_values(when_item(self.paths(), root_path@, w.0@, views(w.1.requires@), severity))),
        );
        let mut out: Vec<PendingCheck> = Vec::new();
        let n = rules_list.len();
        assert(rules.take(0) =~= Seq::<Seq<PendingView>>::empty());
        assert(pending_view(out@) =~= Seq::<PendingView>::empty());
        for i in 0..n
            invariant
                n == rules_list@.len(),
                rules_list == &self.config.when,
                rules == rules_list@.map_values(
                    |w: (String, WhenRequirement)|
                        concat_all(
                            self.paths().map_values(
                                when_item(self.paths(), root_path@, w.0@, views(w.1.requires@), severity),
                            ),
                        ),
                ),
                pending_view(out@) == concat_all(rules.take(i as int)),
        {
            let (trigger, requirement) = &rules_list[i];
            let more = self.when_rule_checks(root_path, trigger.as_str(), requirement, severity);
            proof {
                lemma_concat_all_step(rules, i as int);
            }
            append_checks(&mut out, more);
        }
        assert(rules.take(n as int) =~= rules);
        out
    }

    /// Every check that stands once the disk says its path is missing, in
    /// order: required paths, dependencies, mirrors, then `when` rules.
    pub fn pending_checks(&self, root_path: &str, severity: Severity) -> (r: Vec<PendingCheck>)
        ensures
            pending_view(r@) == all_pending(self.config(), self.paths(), root_path@, severity),
    {
        let mut out = self.required_checks(root_path, severity);
        append_checks(&mut out, self.dependency_checks(root_path, severity));
        append_checks(&mut out, self.mirror_checks(root_path, severity));
        append_checks(&mut out, self.when_checks(root_path, severity));
        out
    }

    /// The violations after the post-walk checks: each pending check whose
    /// path was not found on disk. What the disk answers is not known here,
    /// so the result is stated for the answers it gave.
    pub fn validate(&self, root_path: &str, severity: Severity) -> (r: Vec<Violation>)
        ensures
            exists|present: Seq<bool>|
                present.len() == all_pending(self.config(), self.paths(), root_path@, severity).len()
                    && violations_view(r@) == confirmed(
                    all_pending(self.config(), self.paths(), root_path@, severity),
                    present,
                ),
    {
        let pending = self.pending_checks(root_path, severity);
        let mut present: Vec<bool> = Vec::new();
        let n = pending.len();
        for i in 0..n
            invariant
                n == pending@.len(),
                present@.len() == i,
        {
            present.push(path_exists(pending[i].missing_path.as_str()));
        }
        let r = confirm_missing(&pending, &present);
        assert(present@.len() == all_pending(self.config(), self.paths(), root_path@, severity).len());
        r
    }
}

/// The violations of the pending checks whose path is not present:
/// `present[i]` says whether the `i`-th check's path exists.
pub fn confirm_missing(pending: &Vec<PendingCheck>, present: &Vec<bool>) -> (r: Vec<Violation>)
    requires
        present@.len() == pending@.len(),
    ensures
        violations_view(r@) == confirmed(pending_view(pending@), present@),
{
    let ghost pv = pending_view(pending@);
    let mut out: Vec<Violation> = Vec::new();
    let n = pending.len();
    assert(violations_view(out@) =~= confirmed(pv.take(0), present@.take(0)));
    for i in 0..n
        invariant
            n == pending@.len(),
            n == present@.len(),
            pv == pending_view(pending@),
            violations_view(out@) == confirmed(pv.take(i as int), present@.take(i as int)),
    {
        let ghost before = violations_view(out@);
        assert(pv.take(i + 1).drop_last() =~= pv.take(i as int));
        assert(present@.take(i + 1).take(i as int) =~= present@.take(i as int));
        assert(pv[i as int] == pending@[i as int]@);
        if !present[i] {
            out.push(pending[i].violation.clone());
            assert(violations_view(out@) =~= before.push(pv[i as int].violation));
        }
    }
    assert(pv.take(n as int) =~= pv);
    assert(present@.take(n as int) =~= present@);
    out
}

} // verus!
