//! Finding configuration files in a repository: which walked paths are
//! configuration files, the workspace each one governs, their order, and
//! the filter that picks workspaces by name or pattern.

use vstd::prelude::*;

use crate::cli::inspect::{key_before, none_used, sorted_order, sorted_positions};
use crate::engine::post_validator::{glob_pattern_matches, glob_pattern_valid, pattern_matches, pattern_valid};
use crate::engine::rules::{file_name, file_name_of};
use crate::paths::{
    join_path, parent_of, parent_path, path_exists, path_join, same_path, same_path_exec, strip_path_prefix,
    strip_prefix,
};
use crate::text::{is_prefix, replace_all, replace_all_exec, str_eq, str_starts_with, to_owned_string};

verus! {

/// The file name of a configuration file.
pub open spec fn config_file_name() -> Seq<char> {
    "repo-lint.config.ts"@
}

fn config_name() -> (r: &'static str)
    ensures
        r@ == config_file_name(),
{
    "repo-lint.config.ts"
}

/// A configuration file and the workspace it governs.
pub struct DiscoveredConfig {
    pub config_path: String,
    pub workspace_root: String,
    pub relative_path: String,
}

/// A discovered configuration as plain values.
pub struct DiscoveredView {
    pub config_path: Seq<char>,
    pub workspace_root: Seq<char>,
    pub relative_path: Seq<char>,
}

impl View for DiscoveredConfig {
    type V = DiscoveredView;

    open spec fn view(&self) -> DiscoveredView {
        DiscoveredView {
            config_path: self.config_path@,
            workspace_root: self.workspace_root@,
            relative_path: self.relative_path@,
        }
    }
}

impl Clone for DiscoveredConfig {
    fn clone(&self) -> (r: Self)
        ensures
            r@ == self@,
    {
        DiscoveredConfig {
            config_path: self.config_path.clone(),
            workspace_root: self.workspace_root.clone(),
            relative_path: self.relative_path.clone(),
        }
    }
}

/// The discovered configurations as plain values.
pub open spec fn discovered_view(v: Seq<DiscoveredConfig>) -> Seq<DiscoveredView> {
    v.map_values(|c: DiscoveredConfig| c@)
}

/// The configuration at `path` found under `root`: its workspace is the
/// file's directory (or the path itself where there is none), named by
/// that directory relative to `root` with `\` written as `/`, or by the
/// empty name where `root` does not begin it.
pub open spec fn discovered_at(root: Seq<char>, path: Seq<char>) -> DiscoveredView {
    let ws = match parent_path(path) {
        Some(p) => p,
        None => path,
    };
    DiscoveredView {
        config_path: path,
        workspace_root: ws,
        relative_path: match strip_prefix(ws, root) {
            Some(r) => replace_all(r, "\\"@, "/"@),
            None => Seq::empty(),
        },
    }
}

/// Whether a walked path is a configuration file.
pub open spec fn is_config_path(path: Seq<char>) -> bool {
    file_name(path) == Some(config_file_name())
}

/// The configurations found among `paths`, in the order walked.
pub open spec fn found_configs(root: Seq<char>, paths: Seq<Seq<char>>) -> Seq<DiscoveredView>
    decreases paths.len(),
{
    if paths.len() == 0 {
        Seq::empty()
    } else {
        let before = found_configs(root, paths.drop_last());
        if is_config_path(paths.last()) {
            before.push(discovered_at(root, paths.last()))
        } else {
            before
        }
    }
}

/// The configurations sorted by workspace name; configurations with equal
/// names keep their order.
pub open spec fn by_workspace_name(cs: Seq<DiscoveredView>) -> Seq<DiscoveredView> {
    let keys = cs.map_values(|c: DiscoveredView| c.relative_path);
    sorted_order(keys, none_used(cs.len()), cs.len()).map_values(|i: int| cs[i])
}

/// The configuration at the root of the workspace `root`.
pub open spec fn root_discovered(root: Seq<char>) -> DiscoveredView {
    DiscoveredView { config_path: path_join(root, config_file_name()), workspace_root: root, relative_path: Seq::empty() }
}

/// The configurations after adding the matches of workspace patterns, in
/// order, each one whose file is not the same path as one already there.
pub open spec fn add_matches(root: Seq<char>, cs: Seq<DiscoveredView>, matches: Seq<Seq<char>>) -> Seq<DiscoveredView>
    decreases matches.len(),
{
    if matches.len() == 0 {
        cs
    } else {
        let before = add_matches(root, cs, matches.drop_last());
        let m = matches.last();
        if exists|i: int| 0 <= i < before.len() && same_path(#[trigger] before[i].config_path, m) {
            before
        } else {
            before.push(discovered_at(root, m))
        }
    }
}

/// The glob that finds the configuration files of the workspaces that
/// `pattern` names under `root`.
pub open spec fn workspace_glob(root: Seq<char>, pattern: Seq<char>) -> Seq<char> {
    path_join(root, pattern + "/"@ + config_file_name())
}

/// Whether a configuration is kept by a workspace filter: with a `*` in the
/// filter and a pattern that `glob` accepts, a file that the pattern
/// matches; else the workspace named by the filter and those inside it.
/// The root configuration is always kept.
pub open spec fn kept_by_filter(root: Seq<char>, filter: Seq<char>, c: DiscoveredView) -> bool {
    let pattern = workspace_glob(root, filter);
    if filter.contains('*') && glob_pattern_valid(pattern) {
        glob_pattern_matches(pattern, c.config_path) || c.relative_path.len() == 0
    } else {
        c.relative_path == filter || c.relative_path.len() == 0 || is_prefix(filter + "/"@, c.relative_path)
    }
}

/// The configurations a workspace filter keeps, in order.
pub open spec fn filtered(root: Seq<char>, filter: Seq<char>, cs: Seq<DiscoveredView>) -> Seq<DiscoveredView> {
    cs.filter(|c: DiscoveredView| kept_by_filter(root, filter, c))
}

/// Finds the configuration files of a repository.
pub struct ConfigDiscovery {
    root: String,
    respect_gitignore: bool,
}

impl ConfigDiscovery {
    /// The directory searched.
    pub closed spec fn root_dir(&self) -> Seq<char> {
        self.root@
    }

    /// Whether the walk leaves out what `.gitignore` files name.
    pub closed spec fn gitignore(&self) -> bool {
        self.respect_gitignore
    }

    /// A search of `root` that respects `.gitignore`.
    pub fn new(root: &str) -> (d: Self)
        ensures
            d.root_dir() == root@,
            d.gitignore(),
    {
        ConfigDiscovery { root: to_owned_string(root), respect_gitignore: true }
    }

    /// The search, respecting `.gitignore` or not.
    pub fn respect_gitignore(self, respect: bool) -> (d: Self)
        ensures
            d.root_dir() == self.root_dir(),
            d.gitignore() == respect,
    {
        ConfigDiscovery { root: self.root, respect_gitignore: respect }
    }

    /// The directory searched.
    pub fn root(&self) -> (r: &str)
        ensures
            r@ == self.root_dir(),
    {
        self.root.as_str()
    }

    /// Whether `.gitignore` is respected.
    pub fn respects_gitignore(&self) -> (r: bool)
        ensures
            r == self.gitignore(),
    {
        self.respect_gitignore
    }

    /// The configuration at `path`.
    fn discovered(&self, path: &str) -> (r: DiscoveredConfig)
        ensures
            r@ == discovered_at(self.root_dir(), path@),
    {
        let ws = match parent_of(path) {
            Some(p) => p,
            None => to_owned_string(path),
        };
        let relative = match strip_path_prefix(ws.as_str(), self.root.as_str()) {
            Some(r) => replace_all_exec(r.as_str(), "\\", "/"),
            None => String::new(),
        };
        DiscoveredConfig { config_path: to_owned_string(path), workspace_root: ws, relative_path: relative }
    }

    /// The configurations among the walked `paths`, sorted by workspace
    /// name.
    pub fn discover_in(&self, paths: &Vec<String>) -> (r: Vec<DiscoveredConfig>)
        ensures
            discovered_view(r@) == by_workspace_name(
                found_configs(self.root_dir(), paths@.map_values(|p: String| p@)),
            ),
    {
        let ghost pv = paths@.map_values(|p: String| p@);
        let mut found: Vec<DiscoveredConfig> = Vec::new();
        let n = paths.len();
        assert(pv.take(0) =~= Seq::<Seq<char>>::empty());
        for i in 0..n
            invariant
                n == paths@.len(),
                pv == paths@.map_values(|p: String| p@),
                discovered_view(found@) == found_configs(self.root_dir(), pv.take(i as int)),
        {
            assert(pv.take(i + 1).drop_last() =~= pv.take(i as int));
            assert(pv.take(i + 1).last() == paths@[i as int]@);
            let p = paths[i].as_str();
            let ghost before = discovered_view(found@);
            let is_config = match file_name_of(p) {
                Some(name) => str_eq(name.as_str(), config_name()),
                None => false,
            };
            if is_config {
                let c = self.discovered(p);
                found.push(c);
                assert(discovered_view(found@) =~= before.push(discovered_at(self.root_dir(), p@)));
            }
        }
        assert(pv.take(n as int) =~= pv);
        sort_by_workspace(&found)
    }

    /// The file the root configuration would be in.
    pub fn root_config_path(&self) -> (r: String)
        ensures
            r@ == root_discovered(self.root_dir()).config_path,
    {
        join_path(self.root.as_str(), config_name())
    }

    /// The root configuration where its file is `present`, else none.
    pub fn root_config_if(&self, present: bool) -> (r: Option<DiscoveredConfig>)
        ensures
            match r {
                Some(c) => present && c@ == root_discovered(self.root_dir()),
                None => !present,
            },
    {
        if present {
            Some(
                DiscoveredConfig {
                    config_path: self.root_config_path(),
                    workspace_root: self.root.clone(),
                    relative_path: String::new(),
                },
            )
        } else {
            None
        }
    }

    /// The configuration at the root, where its file is on disk. What the
    /// disk answers is not known here: the result is that configuration or
    /// nothing.
    pub fn find_root_config(&self) -> (r: Option<DiscoveredConfig>)
        ensures
            r matches Some(c) ==> c@ == root_discovered(self.root_dir()),
    {
        let config_path = self.root_config_path();
        self.root_config_if(path_exists(config_path.as_str()))
    }

    /// The glob that finds the configuration files of the workspaces that
    /// `pattern` names.
    pub fn workspace_glob(&self, pattern: &str) -> (r: String)
        ensures
            r@ == workspace_glob(self.root_dir(), pattern@),
    {
        let mut p = to_owned_string(pattern);
        p.append("/");
        p.append(config_name());
        join_path(self.root.as_str(), p.as_str())
    }

    /// The root configuration, if any, then the configurations that the
    /// workspace globs matched, each file once, sorted by workspace name.
    pub fn collect_workspaces(&self, root_config: Option<DiscoveredConfig>, matches: &Vec<String>) -> (r: Vec<
        DiscoveredConfig,
    >)
        ensures
            discovered_view(r@) == by_workspace_name(
                add_matches(
                    self.root_dir(),
                    match root_config {
                        Some(c) => seq![c@],
                        None => Seq::empty(),
                    },
                    matches@.map_values(|p: String| p@),
                ),
            ),
    {
        let ghost mv = matches@.map_values(|p: String| p@);
        let mut found: Vec<DiscoveredConfig> = Vec::new();
        match root_config {
            Some(c) => {
                found.push(c);
            },
            None => {},
        }
        let ghost start = discovered_view(found@);
        assert(start =~= match root_config {
            Some(c) => seq![c@],
            None => Seq::<DiscoveredView>::empty(),
        });
        let n = matches.len();
        assert(mv.take(0) =~= Seq::<Seq<char>>::empty());
        for i in 0..n
            invariant
                n == matches@.len(),
                mv == matches@.map_values(|p: String| p@),
                discovered_view(found@) == add_matches(self.root_dir(), start, mv.take(i as int)),
        {
            assert(mv.take(i + 1).drop_last() =~= mv.take(i as int));
            assert(mv.take(i + 1).last() == matches@[i as int]@);
            let m = matches[i].as_str();
            let ghost before = discovered_view(found@);
            let mut seen = false;
            let mut j: usize = 0;
            while j < found.len()
                invariant
                    before == discovered_view(found@),
                    j <= found@.len(),
                    seen <==> exists|k: int| 0 <= k < j && same_path(#[trigger] before[k].config_path, m@),
                decreases found@.len() - j,
            {
                assert(before[j as int].config_path == found@[j as int].config_path@);
                if same_path_exec(found[j].config_path.as_str(), m) {
                    seen = true;
                }
                j = j + 1;
            }
            if !seen {
                let c = self.discovered(m);
                found.push(c);
                assert(discovered_view(found@) =~= before.push(discovered_at(self.root_dir(), m@)));
            }
        }
        assert(mv.take(n as int) =~= mv);
        sort_by_workspace(&found)
    }

    /// The configurations that a workspace filter keeps, in order.
    pub fn filter_by_workspace(&self, configs: Vec<DiscoveredConfig>, workspace_filter: &str) -> (r: Vec<
        DiscoveredConfig,
    >)
        ensures
            discovered_view(r@) == filtered(self.root_dir(), workspace_filter@, discovered_view(configs@)),
    {
        let ghost cv = discovered_view(configs@);
        let ghost kept = |c: DiscoveredView| kept_by_filter(self.root_dir(), workspace_filter@, c);
        let pattern = self.workspace_glob(workspace_filter);
        let by_glob = has_star(workspace_filter) && pattern_valid(pattern.as_str());
        let mut prefix = to_owned_string(workspace_filter);
        prefix.append("/");
        proof {
            reveal_strlit("/");
        }
        let mut out: Vec<DiscoveredConfig> = Vec::new();
        let n = configs.len();
        assert(cv.take(0).filter(kept) =~= Seq::<DiscoveredView>::empty());
        for i in 0..n
            invariant
                n == configs@.len(),
                cv == discovered_view(configs@),
                kept == (|c: DiscoveredView| kept_by_filter(self.root_dir(), workspace_filter@, c)),
                pattern@ == workspace_glob(self.root_dir(), workspace_filter@),
                by_glob == (workspace_filter@.contains('*') && glob_pattern_valid(pattern@)),
                prefix@ == workspace_filter@ + "/"@,
                discovered_view(out@) == cv.take(i as int).filter(kept),
        {
            let c = &configs[i];
            let keep = if by_glob {
                pattern_matches(pattern.as_str(), c.config_path.as_str()) || c.relative_path.unicode_len() == 0
            } else {
                str_eq(c.relative_path.as_str(), workspace_filter) || c.relative_path.unicode_len() == 0
                    || str_starts_with(c.relative_path.as_str(), prefix.as_str())
            };
            assert(cv[i as int] == c@);
            assert(keep == kept(cv[i as int]));
            let ghost before = discovered_view(out@);
            assert(cv.take(i + 1).drop_last() =~= cv.take(i as int));
            proof {
                reveal(Seq::filter);
            }
            if keep {
                out.push(c.clone());
                assert(discovered_view(out@) =~= before.push(c@));
            }
            assert(cv.take(i + 1).last() == cv[i as int]);
            assert(cv.take(i + 1).filter(kept) =~= if keep {
                before.push(cv[i as int])
            } else {
                before
            });
        }
        assert(cv.take(n as int) =~= cv);
        out
    }
}

/// Whether the text holds a `*`.
fn has_star(s: &str) -> (r: bool)
    ensures
        r == s@.contains('*'),
{
    let n = s.unicode_len();
    let mut i: usize = 0;
    while i < n
        invariant
            n == s@.len(),
            i <= n,
            forall|j: int| 0 <= j < i ==> s@[j] != '*',
        decreases n - i,
    {
        if s.get_char(i) == '*' {
            return true;
        }
        i = i + 1;
    }
    false
}

/// The configurations sorted by workspace name, equal names in order.
fn sort_by_workspace(cs: &Vec<DiscoveredConfig>) -> (r: Vec<DiscoveredConfig>)
    ensures
        discovered_view(r@) == by_workspace_name(discovered_view(cs@)),
{
    let ghost cv = discovered_view(cs@);
    let mut keys: Vec<&String> = Vec::new();
    let n = cs.len();
    for i in 0..n
        invariant
            n == cs@.len(),
            keys@.len() == i,
            forall|j: int| 0 <= j < i ==> (#[trigger] keys@[j])@ == cs@[j].relative_path@,
    {
        keys.push(&cs[i].relative_path);
    }
    let ghost kv = cv.map_values(|c: DiscoveredView| c.relative_path);
    assert(keys@.map_values(|k: &String| k@) =~= kv);
    let order = sorted_positions(&keys);
    let ghost ord = order@.map_values(|x: usize| x as int);
    let mut out: Vec<DiscoveredConfig> = Vec::new();
    let m = order.len();
    for i in 0..m
        invariant
            m == order@.len(),
            n == cs@.len(),
            cv == discovered_view(cs@),
            forall|j: int| 0 <= j < m ==> #[trigger] order@[j] < n,
            ord == order@.map_values(|x: usize| x as int),
            discovered_view(out@) == ord.take(i as int).map_values(|k: int| cv[k]),
    {
        let ghost before = discovered_view(out@);
        let k = order[i];
        assert(ord[i as int] == k as int);
        out.push(cs[k].clone());
        assert(discovered_view(out@) =~= before.push(cv[k as int]));
        assert(discovered_view(out@) =~= ord.take(i + 1).map_values(|k: int| cv[k]));
    }
    assert(ord.take(m as int) =~= ord);
    assert(keys@.len() == cv.len());
    out
}

/// A workspace filter never drops the root configuration, whatever it names.
pub proof fn lemma_filter_keeps_root(root: Seq<char>, filter: Seq<char>, cs: Seq<DiscoveredView>, i: int)
    requires
        0 <= i < cs.len(),
        cs[i].relative_path.len() == 0,
    ensures
        filtered(root, filter, cs).contains(cs[i]),
{
    let kept = |c: DiscoveredView| kept_by_filter(root, filter, c);
    assert(kept(cs[i]));
    cs.lemma_filter_contains(kept, i);
}

/// Sorting by workspace name keeps every configuration once, and no
/// configuration's name sorts before that of one listed ahead of it.
pub proof fn lemma_by_workspace_name(cs: Seq<DiscoveredView>)
    ensures
        by_workspace_name(cs).len() == cs.len(),
        forall|i: int, j: int|
            0 <= i < j < cs.len() ==> !key_before(
                #[trigger] by_workspace_name(cs)[j].relative_path,
                #[trigger] by_workspace_name(cs)[i].relative_path,
            ),
        exists|order: Seq<int>|
            order.len() == cs.len() && (forall|i: int| 0 <= i < cs.len() ==> 0 <= #[trigger] order[i] < cs.len())
                && (forall|i: int, j: int| 0 <= i < j < cs.len() ==> #[trigger] order[i] != #[trigger] order[j])
                && (forall|i: int| 0 <= i < cs.len() ==> #[trigger] by_workspace_name(cs)[i] == cs[order[i]]),
{
    let keys = cs.map_values(|c: DiscoveredView| c.relative_path);
    crate::cli::inspect::lemma_sorted_order(keys);
    let order = sorted_order(keys, none_used(cs.len()), cs.len());
    let out = by_workspace_name(cs);
    assert forall|i: int, j: int| 0 <= i < j < cs.len() implies !key_before(
        #[trigger] out[j].relative_path,
        #[trigger] out[i].relative_path,
    ) by {
        assert(out[i] == cs[order[i]] && out[j] == cs[order[j]]);
        assert(keys[order[i]] == cs[order[i]].relative_path);
        assert(keys[order[j]] == cs[order[j]].relative_path);
    }
    assert forall|i: int, j: int| 0 <= i < j < cs.len() implies #[trigger] order[i] != #[trigger] order[j] by {
    }
}

} // verus!
