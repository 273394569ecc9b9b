//! Workspace packages: the package named by an import specifier, and the
//! name a `package.json` text declares.

use vstd::prelude::*;

use crate::paths::{join_path, path_join};
use crate::text::{chars_of, find_from, find_from_exec, split_on, split_str, str_eq, to_owned_string, views};

verus! {

/// Whether a character is white space in Unicode's sense, as
/// `char::is_whitespace` reads it.
pub open spec fn is_white_space(c: char) -> bool {
    ('\u{9}' <= c && c <= '\u{d}') || c == ' ' || c == '\u{85}' || c == '\u{a0}' || c == '\u{1680}' || (
    '\u{2000}' <= c && c <= '\u{200a}') || c == '\u{2028}' || c == '\u{2029}' || c == '\u{202f}' || c == '\u{205f}'
        || c == '\u{3000}'
}

/// The first position at or after `i` that is not white space, or the end.
pub open spec fn skip_white_space(s: Seq<char>, i: int) -> int
    decreases s.len() - i,
{
    if i < 0 || i >= s.len() {
        s.len() as int
    } else if is_white_space(s[i]) {
        skip_white_space(s, i + 1)
    } else {
        i
    }
}

/// The name a `package.json` text declares, read as a plain search does:
/// after the first `"name"`, the first `:`, then white space, a string in
/// double quotes up to the next `"`.
pub open spec fn package_name_in(c: Seq<char>) -> Option<Seq<char>> {
    match find_from(c, seq!['"', 'n', 'a', 'm', 'e', '"'], 0) {
        None => None,
        Some(start) => match find_from(c, seq![':'], start) {
            None => None,
            Some(colon) => {
                let v = skip_white_space(c, colon + 1);
                if v < c.len() && c[v] == '"' {
                    match find_from(c, seq!['"'], v + 1) {
                        Some(e) => Some(c.subrange(v + 1, e)),
                        None => None,
                    }
                } else {
                    None
                }
            },
        },
    }
}

fn is_white_space_exec(c: char) -> (r: bool)
    ensures
        r == is_white_space(c),
{
    ('\u{9}' <= c && c <= '\u{d}') || c == ' ' || c == '\u{85}' || c == '\u{a0}' || c == '\u{1680}' || (
    '\u{2000}' <= c && c <= '\u{200a}') || c == '\u{2028}' || c == '\u{2029}' || c == '\u{202f}' || c == '\u{205f}'
        || c == '\u{3000}'
}

fn skip_white_space_exec(s: &Vec<char>, i: usize) -> (r: usize)
    requires
        i <= s@.len(),
    ensures
        r == skip_white_space(s@, i as int),
        i <= r <= s@.len(),
{
    let mut j = i;
    while j < s.len() && is_white_space_exec(s[j])
        invariant
            i <= j <= s@.len(),
            skip_white_space(s@, i as int) == skip_white_space(s@, j as int),
        decreases s@.len() - j,
    {
        j = j + 1;
    }
    j
}

fn quoted_name_pattern() -> (r: Vec<char>)
    ensures
        r@ == seq!['"', 'n', 'a', 'm', 'e', '"'],
{
    let mut v: Vec<char> = Vec::new();
    v.push('"');
    v.push('n');
    v.push('a');
    v.push('m');
    v.push('e');
    v.push('"');
    assert(v@ =~= seq!['"', 'n', 'a', 'm', 'e', '"']);
    v
}

fn one_char(c: char) -> (r: Vec<char>)
    ensures
        r@ == seq![c],
{
    let mut v: Vec<char> = Vec::new();
    v.push(c);
    assert(v@ =~= seq![c]);
    v
}

/// The name a `package.json` text declares.
pub fn extract_package_name(content: &str) -> (r: Option<String>)
    ensures
        match package_name_in(content@) {
            Some(n) => r matches Some(x) && x@ == n,
            None => r is None,
        },
{
    let c = chars_of(content);
    let start = match find_from_exec(&c, &quoted_name_pattern(), 0) {
        Some(s) => s,
        None => {
            return None;
        },
    };
    let colon = match find_from_exec(&c, &one_char(':'), start) {
        Some(k) => k,
        None => {
            return None;
        },
    };
    let n = c.len();
    assert(colon < n);
    let v = skip_white_space_exec(&c, colon + 1);
    if !(v < c.len() && c[v] == '"') {
        return None;
    }
    let end = match find_from_exec(&c, &one_char('"'), v + 1) {
        Some(e) => e,
        None => {
            return None;
        },
    };
    let name = content.substring_char(v + 1, end);
    Some(to_owned_string(name))
}

/// The package an import specifier names, and the path inside it: the
/// first two `/`-separated parts make the package, the rest (or nothing)
/// the path; none where there is no `/`.
pub open spec fn package_of_specifier(spec: Seq<char>) -> Option<(Seq<char>, Seq<char>)> {
    let parts = split_on(spec, '/');
    if parts.len() < 2 {
        None
    } else {
        let rest = if parts.len() > 2 {
            crate::text::join_with(parts.skip(2), seq!['/'])
        } else {
            Seq::empty()
        };
        Some((parts[0] + seq!['/'] + parts[1], rest))
    }
}

/// Splits a scoped import specifier into its package and the path inside.
pub fn split_package_specifier(specifier: &str) -> (r: Option<(String, String)>)
    ensures
        match package_of_specifier(specifier@) {
            Some((p, s)) => r matches Some(x) && x.0@ == p && x.1@ == s,
            None => r is None,
        },
{
    let parts = split_str(specifier, '/');
    let ghost pv = split_on(specifier@, '/');
    let n = parts.len();
    if n < 2 {
        return None;
    }
    assert(parts@[0]@ == pv[0] && parts@[1]@ == pv[1]);
    let mut package = parts[0].clone();
    package.append("/");
    package.append(parts[1].as_str());
    proof {
        reveal_strlit("/");
        assert("/"@ =~= seq!['/']);
    }
    let mut rest = String::new();
    if n > 2 {
        rest = parts[2].clone();
        let ghost tail = pv.skip(2);
        assert(tail.take(1) =~= seq![pv[2]]);
        assert(parts@[2]@ == pv[2]);
        for i in 3..n
            invariant
                n == parts@.len(),
                n > 2,
                views(parts@) == pv,
                tail == pv.skip(2),
                "/"@ == seq!['/'],
                rest@ == crate::text::join_with(tail.take(i - 2), seq!['/']),
        {
            assert(tail.take(i - 1).drop_last() =~= tail.take(i - 2));
            assert(tail.take(i - 1).last() == parts@[i as int]@);
            rest.append("/");
            rest.append(parts[i].as_str());
        }
        assert(tail.take(n - 2) =~= tail);
    } else {
        assert(rest@ =~= Seq::<char>::empty());
    }
    Some((package, rest))
}


/// The directories that the search for a workspace package does not enter:
/// dependencies, version control, build output and caches.
pub open spec fn skipped_package_dir(name: Seq<char>) -> bool {
    ||| name == "node_modules"@
    ||| name == ".git"@
    ||| name == ".hg"@
    ||| name == ".svn"@
    ||| name == ".next"@
    ||| name == ".turbo"@
    ||| name == ".submodules"@
    ||| name == "dist"@
    ||| name == "build"@
    ||| name == "out"@
    ||| name == "target"@
    ||| name == "coverage"@
    ||| name == "test-results"@
    ||| name == ".cache"@
    ||| name == ".vercel"@
}

/// Whether the search for a workspace package skips a directory of this name.
pub fn skips_package_dir(name: &str) -> (r: bool)
    ensures
        r == skipped_package_dir(name@),
{
    str_eq(name, "node_modules") || str_eq(name, ".git") || str_eq(name, ".hg") || str_eq(name, ".svn")
        || str_eq(name, ".next") || str_eq(name, ".turbo") || str_eq(name, ".submodules") || str_eq(name, "dist")
        || str_eq(name, "build") || str_eq(name, "out") || str_eq(name, "target") || str_eq(name, "coverage")
        || str_eq(name, "test-results") || str_eq(name, ".cache") || str_eq(name, ".vercel")
}

/// The key `"workspaces"`, quotes included.
pub open spec fn workspaces_key() -> Seq<char> {
    seq!['"', 'w', 'o', 'r', 'k', 's', 'p', 'a', 'c', 'e', 's', '"']
}

/// Whether a `package.json` text marks the root of a workspace: the key
/// `"workspaces"` occurs in it.
pub open spec fn marks_workspace_root(content: Seq<char>) -> bool {
    find_from(content, workspaces_key(), 0) is Some
}

/// Whether a `package.json` text marks the root of a workspace.
pub fn is_workspace_root_manifest(content: &str) -> (r: bool)
    ensures
        r == marks_workspace_root(content@),
{
    let c = chars_of(content);
    let mut key: Vec<char> = Vec::new();
    key.push('"');
    key.push('w');
    key.push('o');
    key.push('r');
    key.push('k');
    key.push('s');
    key.push('p');
    key.push('a');
    key.push('c');
    key.push('e');
    key.push('s');
    key.push('"');
    assert(key@ =~= workspaces_key());
    find_from_exec(&c, &key, 0).is_some()
}

/// The directories under a workspace root searched for packages, in order.
pub open spec fn package_search_dirs(root: Seq<char>) -> Seq<Seq<char>> {
    seq![path_join(root, "packages"@), path_join(root, "apps"@), path_join(root, "libs"@)]
}

/// The directories under `root` searched for packages, in order.
pub fn package_search_dirs_of(root: &str) -> (r: Vec<String>)
    ensures
        views(r@) == package_search_dirs(root@),
{
    let mut v: Vec<String> = Vec::new();
    v.push(join_path(root, "packages"));
    v.push(join_path(root, "apps"));
    v.push(join_path(root, "libs"));
    assert(views(v@) =~= package_search_dirs(root@));
    v
}

/// Where an import of a workspace package found in `dir` leads: the path
/// inside the package, or its `src` directory where there is none.
pub open spec fn package_target(dir: Seq<char>, subpath: Seq<char>) -> Seq<char> {
    if subpath.len() == 0 {
        path_join(dir, "src"@)
    } else {
        path_join(dir, subpath)
    }
}

/// Where an import of the workspace package found in `dir` leads.
pub fn package_target_path(dir: &str, subpath: &str) -> (r: String)
    ensures
        r@ == package_target(dir@, subpath@),
{
    if subpath.unicode_len() == 0 {
        join_path(dir, "src")
    } else {
        join_path(dir, subpath)
    }
}

} // verus!
