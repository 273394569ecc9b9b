//! What the check command decides: which walked paths are in scope, the
//! violations of a workspace, their paths inside a monorepo, the summary
//! across workspaces and the exit code.

use vstd::prelude::*;

use crate::config::{ConfigIR, Mode};
use crate::engine::matcher::{file_check_spec, severity_of, violations_view, FileMatcher, Severity, Violation, ViolationView};
use crate::engine::post_validator::{all_pending, confirmed, in_paths, PostValidator};
use crate::engine::rules::compiled_view;
use crate::output::count_of;
use crate::output::count_severity;
use crate::text::{decimal, decimal_string, is_prefix, str_eq, str_starts_with, to_owned_string, trim_end_char, trim_end_char_exec};

verus! {

/// The scope written as a directory prefix: with a closing `/`.
pub open spec fn scope_prefix_of(scope: Seq<char>) -> Seq<char> {
    if scope.len() > 0 && scope.last() == '/' {
        scope
    } else {
        scope.push('/')
    }
}

/// The scope as a directory prefix.
pub fn scope_prefix(scope: &Option<String>) -> (r: Option<String>)
    ensures
        match scope {
            Some(s) => r matches Some(p) && p@ == scope_prefix_of(s@),
            None => r is None,
        },
{
    match scope {
        Some(s) => {
            let mut p = s.clone();
            let n = p.unicode_len();
            if !(n > 0 && p.as_str().get_char(n - 1) == '/') {
                p.append("/");
                proof {
                    reveal_strlit("/");
                }
                assert(p@ =~= s@.push('/'));
            }
            Some(p)
        },
        None => None,
    }
}

/// Whether a path is checked under a scope prefix: every path without a
/// scope; else a path the prefix begins, or the scope directory itself.
pub open spec fn in_scope_of(path: Seq<char>, prefix: Option<Seq<char>>) -> bool {
    match prefix {
        Some(p) => is_prefix(p, path) || path == trim_end_char(p, '/'),
        None => true,
    }
}

/// The prefix as plain characters.
pub open spec fn prefix_view(prefix: Option<String>) -> Option<Seq<char>> {
    match prefix {
        Some(p) => Some(p@),
        None => None,
    }
}

/// Whether `path` is checked under `prefix`.
pub fn in_scope(path: &str, prefix: &Option<String>) -> (r: bool)
    ensures
        r == in_scope_of(path@, prefix_view(*prefix)),
{
    match prefix {
        Some(p) => str_starts_with(path, p.as_str()) || str_eq(path, trim_end_char_exec(p.as_str(), '/')),
        None => true,
    }
}

/// The severity of a workspace's findings: errors in strict mode, else
/// warnings.
pub fn severity_for(mode: Mode) -> (s: Severity)
    ensures
        s == severity_of(mode == Mode::Strict),
{
    if mode == Mode::Strict {
        Severity::Error
    } else {
        Severity::Warning
    }
}

/// The violations of the in-scope paths, path after path; the workspace's
/// own configuration file is not held to the layout.
pub open spec fn checked_paths(
    config: ConfigIR,
    paths: Seq<Seq<char>>,
    prefix: Option<Seq<char>>,
) -> Seq<ViolationView>
    decreases paths.len(),
{
    if paths.len() == 0 {
        Seq::empty()
    } else {
        let before = checked_paths(config, paths.drop_last(), prefix);
        let p = paths.last();
        if in_scope_of(p, prefix) && p != crate::config::discovery::config_file_name() {
            before + file_check_spec(config.layout, compiled_view(config.rules), config.mode == Mode::Strict, p)
        } else {
            before
        }
    }
}

/// The paths in the order first recorded, each path once by components.
pub open spec fn recorded(paths: Seq<Seq<char>>) -> Seq<Seq<char>>
    decreases paths.len(),
{
    if paths.len() == 0 {
        Seq::empty()
    } else {
        let before = recorded(paths.drop_last());
        if in_paths(before, paths.last()) {
            before
        } else {
            before.push(paths.last())
        }
    }
}

/// The strings as plain characters.
pub open spec fn strings_view(v: Seq<String>) -> Seq<Seq<char>> {
    v.map_values(|s: String| s@)
}

/// The post-walk checks of a workspace over its walked paths.
pub open spec fn workspace_pending(config: ConfigIR, paths: Seq<Seq<char>>, root: Seq<char>) -> Seq<
    crate::engine::post_validator::PendingView,
> {
    all_pending(config, recorded(paths), root, severity_of(config.mode == Mode::Strict))
}

/// The scope as plain characters.
pub open spec fn scope_view(scope: Option<String>) -> Option<Seq<char>> {
    match scope {
        Some(s) => Some(s@),
        None => None,
    }
}

/// The violations of a workspace, for the answers `present` that the disk
/// gave to its post-walk checks.
pub open spec fn workspace_violations(
    config: ConfigIR,
    paths: Seq<Seq<char>>,
    root: Seq<char>,
    scope: Option<Seq<char>>,
    present: Seq<bool>,
) -> Seq<ViolationView> {
    checked_paths(
        config,
        paths,
        match scope {
            Some(s) => Some(scope_prefix_of(s)),
            None => None,
        },
    ) + confirmed(workspace_pending(config, paths, root), present)
}

/// The violations of a workspace: those of each walked path in scope (but
/// the workspace's own `repo-lint.config.ts`), in walk order, then those of the post-walk checks over every walked path,
/// which report the paths that the disk says are missing. What the disk
/// answers is not known here, so the result is stated for the answers it
/// gave.
pub fn check_workspace(config: &ConfigIR, paths: &Vec<String>, root: &str, scope: &Option<String>) -> (r: Result<
    Vec<Violation>,
    globset::Error,
>)
    ensures
        r matches Ok(vs) && exists|present: Seq<bool>|
            present.len() == workspace_pending(*config, strings_view(paths@), root@).len() && violations_view(vs@)
                == #[trigger] workspace_violations(
                *config,
                strings_view(paths@),
                root@,
                scope_view(*scope),
                present,
            ),
{
    let matcher = match FileMatcher::new(config) {
        Ok(m) => m,
        Err(e) => {
            return Err(e);
        },
    };
    let prefix = scope_prefix(scope);
    let ghost pv = strings_view(paths@);
    let ghost pre = prefix_view(prefix);
    let mut violations: Vec<Violation> = Vec::new();
    let mut validator = PostValidator::new(config);
    let n = paths.len();
    assert(pv.take(0) =~= Seq::<Seq<char>>::empty());
    for i in 0..n
        invariant
            n == paths@.len(),
            pv == strings_view(paths@),
            pre == prefix_view(prefix),
            matcher.layout() == config.layout,
            matcher.rules() == compiled_view(config.rules),
            matcher.strict() == (config.mode == Mode::Strict),
            validator.config() == *config,
            validator.paths() == recorded(pv.take(i as int)),
            violations_view(violations@) == checked_paths(*config, pv.take(i as int), pre),
    {
        let p = paths[i].as_str();
        assert(pv.take(i + 1).drop_last() =~= pv.take(i as int));
        assert(pv.take(i + 1).last() == p@);
        validator.record_path(p);
        if in_scope(p, &prefix) && !crate::text::str_eq(p, "repo-lint.config.ts") {
            let ghost before = violations_view(violations@);
            let mut found = matcher.check_path(p);
            let ghost more = violations_view(found@);
            violations.append(&mut found);
            assert(violations_view(violations@) =~= before + more);
        }
    }
    assert(pv.take(n as int) =~= pv);
    let severity = severity_for(config.mode);
    let ghost before = violations_view(violations@);
    let mut post = validator.validate(root, severity);
    let ghost more = violations_view(post@);
    let ghost pending = all_pending(*config, recorded(pv), root@, severity);
    assert(pending == workspace_pending(*config, pv, root@));
    let ghost present = choose|present: Seq<bool>|
        present.len() == pending.len() && more == confirmed(pending, present);
    violations.append(&mut post);
    assert(violations_view(violations@) =~= before + more);
    assert(pre == match scope_view(*scope) {
        Some(s) => Some(scope_prefix_of(s)),
        None => None::<Seq<char>>,
    });
    assert(violations_view(violations@) == workspace_violations(*config, pv, root@, scope_view(*scope), present));
    Ok(violations)
}

/// The path of a violation inside a monorepo: under the workspace's name,
/// where it has one.
pub open spec fn prefixed(v: ViolationView, prefix: Seq<char>) -> ViolationView {
    if prefix.len() == 0 {
        v
    } else {
        ViolationView { path: prefix + "/"@ + v.path, ..v }
    }
}

/// The violations with their paths under the workspace's name.
pub fn prefix_paths(violations: Vec<Violation>, prefix: &str) -> (r: Vec<Violation>)
    ensures
        violations_view(r@) == violations_view(violations@).map_values(|v: ViolationView| prefixed(v, prefix@)),
{
    let ghost vv = violations_view(violations@);
    let mut out: Vec<Violation> = Vec::new();
    let items = violations;
    let n = items.len();
    let mut i: usize = 0;
    let has_prefix = prefix.unicode_len() > 0;
    proof {
        reveal_strlit("/");
    }
    while i < n
        invariant
            n == items@.len(),
            vv == violations_view(items@),
            i <= n,
            has_prefix == (prefix@.len() > 0),
            violations_view(out@) == vv.take(i as int).map_values(|v: ViolationView| prefixed(v, prefix@)),
        decreases n - i,
    {
        let mut v = items[i].clone();
        assert(vv[i as int] == items@[i as int]@);
        if has_prefix {
            let mut p = to_owned_string(prefix);
            p.append("/");
            p.append(v.path.as_str());
            v.path = p;
        }
        assert(v@ == prefixed(vv[i as int], prefix@));
        let ghost before = violations_view(out@);
        let ghost vw = v@;
        out.push(v);
        assert(violations_view(out@) =~= before.push(vw));
        assert(violations_view(out@) =~= vv.take(i + 1).map_values(|v: ViolationView| prefixed(v, prefix@)));
        i = i + 1;
    }
    assert(vv.take(n as int) =~= vv);
    out
}

/// The exit code of a check: 1 where any violation is an error, else 0.
pub fn exit_code(violations: &Vec<Violation>) -> (r: i32)
    ensures
        r == (if count_severity(violations_view(violations@), Severity::Error) > 0 {
            1i32
        } else {
            0i32
        }),
{
    if count_of(violations, Severity::Error) > 0 {
        1
    } else {
        0
    }
}

/// The name a workspace is reported under: its relative path, or `.` for
/// the root.
pub fn workspace_label(relative: &str) -> (r: String)
    ensures
        r@ == (if relative@.len() == 0 {
            "."@
        } else {
            relative@
        }),
{
    if relative.unicode_len() == 0 {
        String::from_str(".")
    } else {
        to_owned_string(relative)
    }
}

/// The outcome of checking one workspace.
pub struct WorkspaceResult {
    pub workspace: String,
    pub config_path: String,
    pub violations: Vec<Violation>,
}

/// The violations of each workspace.
pub open spec fn result_violations(rs: Seq<WorkspaceResult>) -> Seq<Seq<ViolationView>> {
    rs.map_values(|r: WorkspaceResult| violations_view(r.violations@))
}

/// The number of violations of a severity over all workspaces.
pub open spec fn total_severity(vss: Seq<Seq<ViolationView>>, s: Severity) -> nat
    decreases vss.len(),
{
    if vss.len() == 0 {
        0
    } else {
        total_severity(vss.drop_last(), s) + count_severity(vss.last(), s)
    }
}

/// The number of workspaces with a violation.
pub open spec fn with_violations(vss: Seq<Seq<ViolationView>>) -> nat
    decreases vss.len(),
{
    if vss.len() == 0 {
        0
    } else {
        with_violations(vss.drop_last()) + (if vss.last().len() > 0 {
            1nat
        } else {
            0nat
        })
    }
}

/// The closing line of a check across workspaces.
pub open spec fn workspaces_summary_text(vss: Seq<Seq<ViolationView>>) -> Seq<char> {
    let errors = total_severity(vss, Severity::Error);
    let warnings = total_severity(vss, Severity::Warning);
    if errors > 0 || warnings > 0 {
        "\nSummary: "@ + decimal(errors) + " error(s) and "@ + decimal(warnings) + " warning(s) across "@ + decimal(
            with_violations(vss),
        ) + " workspace(s)"@
    } else {
        "\nNo violations found across "@ + decimal(vss.len()) + " workspace(s)."@
    }
}

/// The counts over the workspaces: errors, warnings and workspaces with a
/// violation.
fn workspace_counts(results: &Vec<WorkspaceResult>) -> (r: (usize, usize, usize))
    requires
        total_violations(result_violations(results@)) <= usize::MAX,
    ensures
        r.0 == total_severity(result_violations(results@), Severity::Error),
        r.1 == total_severity(result_violations(results@), Severity::Warning),
        r.2 == with_violations(result_violations(results@)),
{
    let ghost vss = result_violations(results@);
    let mut errors: usize = 0;
    let mut warnings: usize = 0;
    let mut with: usize = 0;
    let n = results.len();
    for i in 0..n
        invariant
            n == results@.len(),
            vss == result_violations(results@),
            errors == total_severity(vss.take(i as int), Severity::Error),
            warnings == total_severity(vss.take(i as int), Severity::Warning),
            with == with_violations(vss.take(i as int)),
            with <= i,
            errors + warnings == total_violations(vss.take(i as int)),
            total_violations(vss.take(i as int)) <= total_violations(vss),
            total_violations(vss) <= usize::MAX,
    {
        assert(vss.take(i + 1).drop_last() =~= vss.take(i as int));
        assert(vss.take(i + 1).last() == violations_view(results@[i as int].violations@));
        let vs = &results[i].violations;
        let e = count_of(vs, Severity::Error);
        let w = count_of(vs, Severity::Warning);
        proof {
            crate::output::lemma_counts_add_up(violations_view(vs@));
            lemma_total_prefix(vss, i + 1);
        }
        errors = errors + e;
        warnings = warnings + w;
        if vs.len() > 0 {
            with = with + 1;
        }
    }
    assert(vss.take(n as int) =~= vss);
    (errors, warnings, with)
}

/// The number of violations over all workspaces.
pub open spec fn total_violations(vss: Seq<Seq<ViolationView>>) -> nat
    decreases vss.len(),
{
    if vss.len() == 0 {
        0
    } else {
        total_violations(vss.drop_last()) + vss.last().len()
    }
}

proof fn lemma_total_prefix(vss: Seq<Seq<ViolationView>>, k: int)
    requires
        0 <= k <= vss.len(),
    ensures
        total_violations(vss.take(k)) <= total_violations(vss),
    decreases vss.len() - k,
{
    if k < vss.len() {
        lemma_total_prefix(vss, k + 1);
        assert(vss.take(k + 1).drop_last() =~= vss.take(k));
    } else {
        assert(vss.take(k) =~= vss);
    }
}

/// The closing line of a check across workspaces.
pub fn workspaces_summary(results: &Vec<WorkspaceResult>) -> (r: String)
    requires
        total_violations(result_violations(results@)) <= usize::MAX,
    ensures
        r@ == workspaces_summary_text(result_violations(results@)),
{
    let (errors, warnings, with) = workspace_counts(results);
    proof {
        reveal_strlit("\nSummary: ");
        reveal_strlit(" error(s) and ");
        reveal_strlit(" warning(s) across ");
        reveal_strlit(" workspace(s)");
        reveal_strlit("\nNo violations found across ");
        reveal_strlit(" workspace(s).");
    }
    if errors > 0 || warnings > 0 {
        let mut s = String::from_str("\nSummary: ");
        s.append(decimal_string(errors).as_str());
        s.append(" error(s) and ");
        s.append(decimal_string(warnings).as_str());
        s.append(" warning(s) across ");
        s.append(decimal_string(with).as_str());
        s.append(" workspace(s)");
        s
    } else {
        let mut s = String::from_str("\nNo violations found across ");
        s.append(decimal_string(results.len()).as_str());
        s.append(" workspace(s).");
        s
    }
}

/// The exit code across workspaces: 1 where any workspace has an error.
pub fn workspaces_exit_code(results: &Vec<WorkspaceResult>) -> (r: i32)
    ensures
        r == (if total_severity(result_violations(results@), Severity::Error) > 0 {
            1i32
        } else {
            0i32
        }),
{
    let ghost vss = result_violations(results@);
    let n = results.len();
    let mut any = false;
    for i in 0..n
        invariant
            n == results@.len(),
            vss == result_violations(results@),
            any == (total_severity(vss.take(i as int), Severity::Error) > 0),
    {
        assert(vss.take(i + 1).drop_last() =~= vss.take(i as int));
        assert(vss.take(i + 1).last() == violations_view(results@[i as int].violations@));
        if count_of(&results[i].violations, Severity::Error) > 0 {
            any = true;
        }
    }
    assert(vss.take(n as int) =~= vss);
    if any {
        1
    } else {
        0
    }
}

} // verus!
