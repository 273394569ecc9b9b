//! The settings of a walk over a repository, and the entries it yields:
//! each walked path relative to the root, the root itself left out.

use vstd::prelude::*;

use crate::paths::{join_path, path_join, strip_path_prefix, strip_prefix};
use crate::text::{lines_of, text_lines, to_owned_string, views};

verus! {

/// A walked path.
pub struct FileEntry {
    pub path: String,
    pub relative_path: String,
    pub is_dir: bool,
}

/// A walked path as plain values.
pub struct EntryView {
    pub path: Seq<char>,
    pub relative_path: Seq<char>,
    pub is_dir: bool,
}

impl View for FileEntry {
    type V = EntryView;

    open spec fn view(&self) -> EntryView {
        EntryView { path: self.path@, relative_path: self.relative_path@, is_dir: self.is_dir }
    }
}

impl Clone for FileEntry {
    fn clone(&self) -> (r: Self)
        ensures
            r@ == self@,
    {
        FileEntry { path: self.path.clone(), relative_path: self.relative_path.clone(), is_dir: self.is_dir }
    }
}

/// The entry for a walked path under `root`: none where `root` does not
/// begin it or where it is `root` itself.
pub open spec fn walked_entry(root: Seq<char>, path: Seq<char>, is_dir: bool) -> Option<EntryView> {
    match strip_prefix(path, root) {
        Some(rel) => if rel.len() == 0 {
            None
        } else {
            Some(EntryView { path, relative_path: rel, is_dir })
        },
        None => None,
    }
}

/// The non-empty lines of a listing of changed files.
pub open spec fn changed_lines(listing: Seq<char>) -> Seq<Seq<char>> {
    text_lines(listing).filter(|l: Seq<char>| l.len() > 0)
}

/// How a repository is walked: from which root, whether `.gitignore` is
/// respected, which further ignore files are read, and how deep.
pub struct Walker {
    root: String,
    respect_gitignore: bool,
    custom_ignores: Vec<String>,
    max_depth: Option<usize>,
}

/// The settings of a walk as plain values.
pub struct WalkerView {
    pub root: Seq<char>,
    pub respect_gitignore: bool,
    pub custom_ignores: Seq<Seq<char>>,
    pub max_depth: Option<usize>,
}

impl View for Walker {
    type V = WalkerView;

    closed spec fn view(&self) -> WalkerView {
        WalkerView {
            root: self.root@,
            respect_gitignore: self.respect_gitignore,
            custom_ignores: views(self.custom_ignores@),
            max_depth: self.max_depth,
        }
    }
}

impl Walker {
    /// A walk of `root` that respects `.gitignore`, reads no further ignore
    /// files and has no depth limit.
    pub fn new(root: &str) -> (w: Self)
        ensures
            w@.root == root@,
            w@.respect_gitignore,
            w@.custom_ignores.len() == 0,
            w@.max_depth is None,
    {
        let w = Walker { root: to_owned_string(root), respect_gitignore: true, custom_ignores: Vec::new(), max_depth: None };
        assert(views(w.custom_ignores@) =~= Seq::<Seq<char>>::empty());
        w
    }

    /// The walk, respecting `.gitignore` or not.
    pub fn respect_gitignore(self, respect: bool) -> (w: Self)
        ensures
            w@ == (WalkerView { respect_gitignore: respect, ..self@ }),
    {
        Walker { respect_gitignore: respect, ..self }
    }

    /// The walk, also reading ignore files named `pattern`.
    pub fn add_ignore(self, pattern: &str) -> (w: Self)
        ensures
            w@ == (WalkerView { custom_ignores: self@.custom_ignores.push(pattern@), ..self@ }),
    {
        let mut w = self;
        let ghost before = views(w.custom_ignores@);
        w.custom_ignores.push(to_owned_string(pattern));
        assert(views(w.custom_ignores@) =~= before.push(pattern@));
        w
    }

    /// The walk, going at most `depth` levels below the root.
    pub fn max_depth(self, depth: usize) -> (w: Self)
        ensures
            w@ == (WalkerView { max_depth: Some(depth), ..self@ }),
    {
        Walker { max_depth: Some(depth), ..self }
    }

    /// The root walked.
    pub fn root(&self) -> (r: &str)
        ensures
            r@ == self@.root,
    {
        self.root.as_str()
    }

    /// Whether `.gitignore` is respected.
    pub fn respects_gitignore(&self) -> (r: bool)
        ensures
            r == self@.respect_gitignore,
    {
        self.respect_gitignore
    }

    /// The further ignore file names, in the order added.
    pub fn custom_ignores(&self) -> (r: &Vec<String>)
        ensures
            views(r@) == self@.custom_ignores,
    {
        &self.custom_ignores
    }

    /// The depth limit, if any.
    pub fn depth_limit(&self) -> (r: Option<usize>)
        ensures
            r == self@.max_depth,
    {
        self.max_depth
    }

    /// The entry for a walked path.
    pub fn entry_for(&self, path: &str, is_dir: bool) -> (r: Option<FileEntry>)
        ensures
            match walked_entry(self@.root, path@, is_dir) {
                Some(e) => r matches Some(x) && x@ == e,
                None => r is None,
            },
    {
        match strip_path_prefix(path, self.root.as_str()) {
            Some(rel) => {
                if rel.unicode_len() == 0 {
                    None
                } else {
                    Some(FileEntry { path: to_owned_string(path), relative_path: rel, is_dir })
                }
            },
            None => None,
        }
    }

    /// The entry for a changed file named relative to the root.
    pub fn changed_entry(&self, relative: &str, is_dir: bool) -> (r: FileEntry)
        ensures
            r@ == (EntryView { path: path_join(self@.root, relative@), relative_path: relative@, is_dir }),
    {
        FileEntry { path: join_path(self.root.as_str(), relative), relative_path: to_owned_string(relative), is_dir }
    }
}

/// The changed files that a listing names, one per non-empty line.
pub fn changed_paths(listing: &str) -> (r: Vec<String>)
    ensures
        views(r@) == changed_lines(listing@),
{
    let lines = lines_of(listing);
    let ghost lv = views(lines@);
    let ghost keep = |l: Seq<char>| l.len() > 0;
    let mut out: Vec<String> = Vec::new();
    let n = lines.len();
    assert(lv.take(0).filter(keep) =~= Seq::<Seq<char>>::empty());
    for i in 0..n
        invariant
            n == lines@.len(),
            lv == views(lines@),
            keep == (|l: Seq<char>| l.len() > 0),
            views(out@) == lv.take(i as int).filter(keep),
    {
        let ghost before = views(out@);
        assert(lv.take(i + 1).drop_last() =~= lv.take(i as int));
        assert(lv.take(i + 1).last() == lines@[i as int]@);
        proof {
            reveal(Seq::filter);
        }
        if lines[i].unicode_len() > 0 {
            out.push(lines[i].clone());
            assert(views(out@) =~= before.push(lines@[i as int]@));
        }
    }
    assert(lv.take(n as int) =~= lv);
    out
}

/// Of two settings of whether `.gitignore` is respected, the last one
/// wins, and nothing else of the walk changes.
pub proof fn lemma_last_gitignore_setting_wins(v: WalkerView, first: bool, last: bool)
    ensures
        (WalkerView { respect_gitignore: last, ..WalkerView { respect_gitignore: first, ..v } }) == (WalkerView {
            respect_gitignore: last,
            ..v
        }),
{
}

} // verus!
