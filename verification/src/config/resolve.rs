//! Where an import of a configuration module is looked for: the files a
//! path may stand for, the directories above a file, and the order in
//! which the places an import specifier names are tried.

use vstd::prelude::*;

use crate::engine::rules::{file_name, file_name_of};
use crate::paths::{join_path, parent_of, parent_path, path_exists, path_join};
use crate::text::{begins_with, chars_of, components_of, last_index_of, path_components, str_starts_with, to_owned_string};

verus! {

/// Calls `std::path::Path::is_file`. What it answers depends on the disk
/// at the moment of the call, so nothing is stated of it.
#[verifier::external_body]
fn path_is_file(path: &str) -> (r: bool) {
    std::path::Path::new(path).is_file()
}

/// A file name has an extension when it holds a `.` after its first
/// character, as `Path::extension` reads it.
pub open spec fn has_extension(name: Seq<char>) -> bool {
    last_index_of(name, '.') matches Some(k) && k > 0
}

/// The path without the separators and `.` components that close it, up
/// to the end of its last name.
pub open spec fn trim_path_tail(s: Seq<char>) -> Seq<char>
    decreases s.len(),
{
    if s.len() > 0 && s.last() == '/' {
        trim_path_tail(s.drop_last())
    } else if s.len() >= 2 && s.last() == '.' && s[s.len() - 2] == '/' {
        trim_path_tail(s.drop_last())
    } else {
        s
    }
}

/// The files a path may stand for, in the order they are tried: the path
/// itself; with `.ts` added where its name has no extension; and, as a
/// directory, its `index.ts`, then its `repo-lint.config.ts`.
pub open spec fn path_candidates(p: Seq<char>) -> Seq<Seq<char>> {
    let with_ext = match file_name(p) {
        Some(n) => if !has_extension(n) {
            seq![trim_path_tail(p) + ".ts"@]
        } else {
            Seq::empty()
        },
        None => Seq::empty(),
    };
    seq![p] + with_ext + seq![path_join(p, "index.ts"@), path_join(p, "repo-lint.config.ts"@)]
}

/// The first candidate that is present.
pub open spec fn first_present_spec(candidates: Seq<Seq<char>>, present: Seq<bool>, i: int) -> Option<Seq<char>>
    decreases candidates.len() - i,
{
    if i < 0 || i >= candidates.len() || i >= present.len() {
        None
    } else if present[i] {
        Some(candidates[i])
    } else {
        first_present_spec(candidates, present, i + 1)
    }
}

/// The directories from `p` up, each the parent of the one before, at
/// most `fuel` of them.
pub open spec fn ancestors(p: Seq<char>, fuel: nat) -> Seq<Seq<char>>
    decreases fuel,
{
    if fuel == 0 {
        Seq::empty()
    } else {
        seq![p] + match parent_path(p) {
            Some(q) => ancestors(q, (fuel - 1) as nat),
            None => Seq::empty(),
        }
    }
}

/// The directories above (and including) `dir` that are looked at.
pub open spec fn dirs_above(dir: Seq<char>) -> Seq<Seq<char>> {
    ancestors(dir, path_components(dir).len() + 1)
}

/// The files that the candidates of each base may give, in order.
pub open spec fn candidates_of_all(bases: Seq<Seq<char>>) -> Seq<Seq<char>>
    decreases bases.len(),
{
    if bases.len() == 0 {
        Seq::empty()
    } else {
        path_candidates(bases[0]) + candidates_of_all(bases.drop_first())
    }
}

/// Every file an import may resolve to, seen from a file in `dir`: under
/// each directory above for a `@/` specifier, beside the file for a
/// relative one, the workspace package's file for a scoped one, and under
/// each `node_modules` above.
pub open spec fn import_candidates(dir: Seq<char>, specifier: Seq<char>, package_target: Option<Seq<char>>) -> Seq<
    Seq<char>,
> {
    let above = dirs_above(dir);
    let rooted = if specifier.len() >= 2 && specifier[0] == '@' && specifier[1] == '/' {
        candidates_of_all(above.map_values(|a: Seq<char>| path_join(a, specifier.skip(2))))
    } else {
        Seq::empty()
    };
    let relative = if begins_with(specifier, '.') {
        path_candidates(path_join(dir, specifier))
    } else {
        Seq::empty()
    };
    let package = match package_target {
        Some(t) => seq![t],
        None => Seq::empty(),
    };
    let modules = candidates_of_all(
        above.map_values(|a: Seq<char>| path_join(path_join(a, "node_modules"@), specifier)),
    );
    rooted + relative + package + modules
}

/// The files a path may stand for.
pub fn path_candidates_exec(p: &str) -> (r: Vec<String>)
    ensures
        r@.map_values(|s: String| s@) == path_candidates(p@),
{
    let mut out: Vec<String> = Vec::new();
    out.push(to_owned_string(p));
    let ghost first = seq![p@];
    assert(out@.map_values(|s: String| s@) =~= first);
    let ghost with_ext: Seq<Seq<char>>;
    match file_name_of(p) {
        Some(n) => {
            if !name_has_extension(n.as_str()) {
                let base = trim_path_tail_exec(p);
                let mut c = to_owned_string(base);
                c.append(".ts");
                out.push(c);
                proof {
                    with_ext = seq![trim_path_tail(p@) + ".ts"@];
                }
            } else {
                proof {
                    with_ext = Seq::empty();
                }
            }
        },
        None => {
            proof {
                with_ext = Seq::empty();
            }
        },
    }
    assert(out@.map_values(|s: String| s@) =~= first + with_ext);
    let ghost before = out@.map_values(|s: String| s@);
    out.push(join_path(p, "index.ts"));
    out.push(join_path(p, "repo-lint.config.ts"));
    assert(out@.map_values(|s: String| s@) =~= before + seq![
        path_join(p@, "index.ts"@),
        path_join(p@, "repo-lint.config.ts"@),
    ]);
    out
}

fn name_has_extension(name: &str) -> (r: bool)
    ensures
        r == has_extension(name@),
{
    let cs = chars_of(name);
    let mut i = cs.len();
    assert(name@.take(i as int) =~= name@);
    while i > 0
        invariant
            cs@ == name@,
            i <= cs@.len(),
            last_index_of(name@, '.') == last_index_of(name@.take(i as int), '.'),
        decreases i,
    {
        assert(name@.take(i as int).drop_last() =~= name@.take(i - 1));
        if cs[i - 1] == '.' {
            return i - 1 > 0;
        }
        i = i - 1;
    }
    false
}

fn trim_path_tail_exec(s: &str) -> (r: &str)
    ensures
        r@ == trim_path_tail(s@),
{
    let cs = chars_of(s);
    let mut e = cs.len();
    assert(s@.take(e as int) =~= s@);
    while e > 0 && (cs[e - 1] == '/' || (e >= 2 && cs[e - 1] == '.' && cs[e - 2] == '/'))
        invariant
            cs@ == s@,
            e <= cs@.len(),
            trim_path_tail(s@) == trim_path_tail(s@.take(e as int)),
        decreases e,
    {
        assert(s@.take(e as int).drop_last() =~= s@.take(e - 1));
        e = e - 1;
    }
    assert(s@.subrange(0, e as int) =~= s@.take(e as int));
    s.substring_char(0, e)
}

/// The first candidate whose answer is `true`.
pub fn first_present(candidates: &Vec<String>, present: &Vec<bool>) -> (r: Option<String>)
    ensures
        match first_present_spec(candidates@.map_values(|s: String| s@), present@, 0) {
            Some(c) => r matches Some(x) && x@ == c,
            None => r is None,
        },
{
    let ghost cv = candidates@.map_values(|s: String| s@);
    let mut i: usize = 0;
    while i < candidates.len() && i < present.len()
        invariant
            cv == candidates@.map_values(|s: String| s@),
            i <= candidates@.len(),
            first_present_spec(cv, present@, 0) == first_present_spec(cv, present@, i as int),
        decreases candidates@.len() - i,
    {
        if present[i] {
            return Some(candidates[i].clone());
        }
        i = i + 1;
    }
    None
}

/// An optional string as plain characters.
pub open spec fn opt_chars(o: Option<String>) -> Option<Seq<char>> {
    match o {
        Some(s) => Some(s@),
        None => None,
    }
}

/// The file a path stands for on disk: the first of its candidates that
/// is a file. What the disk answers is not known here, so the result is
/// stated for the answers it gave, one per candidate in order.
pub fn resolve_path(p: &str) -> (r: Option<String>)
    ensures
        exists|present: Seq<bool>|
            present.len() == path_candidates(p@).len() && opt_chars(r) == #[trigger] first_present_spec(
                path_candidates(p@),
                present,
                0,
            ),
        r matches Some(x) ==> path_candidates(p@).contains(x@),
{
    let cands = path_candidates_exec(p);
    let mut present: Vec<bool> = Vec::new();
    for i in 0..cands.len()
        invariant
            present@.len() == i,
    {
        present.push(path_is_file(cands[i].as_str()));
    }
    let r = first_present(&cands, &present);
    proof {
        lemma_first_present_member(cands@.map_values(|s: String| s@), present@, 0);
        assert(opt_chars(r) == first_present_spec(path_candidates(p@), present@, 0));
    }
    r
}

proof fn lemma_first_present_member(c: Seq<Seq<char>>, present: Seq<bool>, i: int)
    ensures
        first_present_spec(c, present, i) matches Some(x) ==> c.contains(x),
    decreases c.len() - i,
{
    if !(i < 0 || i >= c.len() || i >= present.len()) {
        if present[i] {
            assert(c[i] == c[i]);
        } else {
            lemma_first_present_member(c, present, i + 1);
        }
    }
}

/// The directories from `dir` up.
pub fn dirs_above_exec(dir: &str) -> (r: Vec<String>)
    ensures
        r@.map_values(|s: String| s@) == dirs_above(dir@),
{
    let fuel: u128 = components_of(dir).len() as u128 + 1;
    let mut out: Vec<String> = Vec::new();
    let mut cur: Option<String> = Some(to_owned_string(dir));
    let mut k: u128 = 0;
    let ghost total = (path_components(dir@).len() + 1) as nat;
    assert(fuel == total);
    while k < fuel
        invariant
            k <= fuel,
            fuel == total,
            match cur {
                Some(c) => out@.map_values(|s: String| s@) + ancestors(c@, (fuel - k) as nat) == ancestors(
                    dir@,
                    total,
                ),
                None => out@.map_values(|s: String| s@) == ancestors(dir@, total),
            },
        decreases fuel - k,
    {
        match cur {
            Some(c) => {
                let ghost before = out@.map_values(|s: String| s@);
                let next = parent_of(c.as_str());
                proof {
                    let f = (fuel - k) as nat;
                    assert(ancestors(c@, f) == seq![c@] + match parent_path(c@) {
                        Some(q) => ancestors(q, (f - 1) as nat),
                        None => Seq::<Seq<char>>::empty(),
                    });
                }
                out.push(c);
                assert(out@.map_values(|s: String| s@) =~= before.push(c@));
                proof {
                    let f = (fuel - k) as nat;
                    match &next {
                        Some(q) => {
                            assert(before + ancestors(c@, f) =~= out@.map_values(|s: String| s@) + ancestors(
                                q@,
                                (f - 1) as nat,
                            ));
                        },
                        None => {
                            assert(before + ancestors(c@, f) =~= out@.map_values(|s: String| s@));
                        },
                    }
                }
                cur = next;
            },
            None => {},
        }
        k = k + 1;
    }
    proof {
        if let Some(c) = cur {
            assert(ancestors(c@, 0) =~= Seq::<Seq<char>>::empty());
            assert(out@.map_values(|s: String| s@) + ancestors(c@, 0) =~= out@.map_values(|s: String| s@));
        }
    }
    out
}

proof fn lemma_candidates_of_all_member(bases: Seq<Seq<char>>, j: int, x: Seq<char>)
    requires
        0 <= j < bases.len(),
        path_candidates(bases[j]).contains(x),
    ensures
        candidates_of_all(bases).contains(x),
    decreases bases.len(),
{
    let first = path_candidates(bases[0]);
    let rest = candidates_of_all(bases.drop_first());
    if j == 0 {
        let k = choose|k: int| 0 <= k < first.len() && first[k] == x;
        assert((first + rest)[k] == x);
    } else {
        assert(bases.drop_first()[j - 1] == bases[j]);
        lemma_candidates_of_all_member(bases.drop_first(), j - 1, x);
        let k = choose|k: int| 0 <= k < rest.len() && rest[k] == x;
        assert((first + rest)[first.len() + k] == x);
    }
}

/// A scoped package specifier (`@scope/..`, not `@/..`) seen from a file
/// with a directory, with the file found for it in the workspace.
pub open spec fn scoped_with_target(current_file: Seq<char>, specifier: Seq<char>, package_target: Option<String>) -> bool {
    &&& parent_path(current_file) is Some
    &&& specifier.len() > 0
    &&& specifier[0] == '@'
    &&& !(specifier.len() >= 2 && specifier[1] == '/')
    &&& package_target is Some
}

/// The file an import specifier names, seen from `current_file`: for a
/// `@/` specifier, under the topmost directory above that holds a
/// configuration file (or the file's own directory); for a relative one,
/// beside the file; for a scoped package, `package_target`, the file found
/// in the workspace's packages; else under the nearest `node_modules`
/// above that has it. What the disk answers is not known here, so the
/// result is one of the files those places may give, or nothing; nothing
/// for a file without a directory. A scoped specifier with a package target
/// gives that target, which is not looked up on disk.
pub fn resolve_import(current_file: &str, specifier: &str, package_target: Option<String>) -> (r: Option<String>)
    ensures
        scoped_with_target(current_file@, specifier@, package_target) ==> r == package_target,
        r matches Some(x) ==> parent_path(current_file@) matches Some(dir) && import_candidates(
            dir,
            specifier@,
            match package_target {
                Some(t) => Some(t@),
                None => None,
            },
        ).contains(x@),
{
    let dir = match parent_of(current_file) {
        Some(d) => d,
        None => {
            return None;
        },
    };
    let ghost pt = match &package_target {
        Some(t) => Some(t@),
        None => None::<Seq<char>>,
    };
    let ghost all = import_candidates(dir@, specifier@, pt);
    let above = dirs_above_exec(dir.as_str());
    let ghost av = above@.map_values(|s: String| s@);
    let ghost spec_v = specifier@;
    let n = specifier.unicode_len();
    let rooted = n >= 2 && specifier.get_char(0) == '@' && specifier.get_char(1) == '/';
    let ghost rooted_part = if rooted {
        candidates_of_all(av.map_values(|a: Seq<char>| path_join(a, spec_v.skip(2))))
    } else {
        Seq::<Seq<char>>::empty()
    };
    let ghost relative_part = if begins_with(spec_v, '.') {
        path_candidates(path_join(dir@, spec_v))
    } else {
        Seq::<Seq<char>>::empty()
    };
    let ghost package_part = match pt {
        Some(t) => seq![t],
        None => Seq::<Seq<char>>::empty(),
    };
    let ghost modules_part = candidates_of_all(
        av.map_values(|a: Seq<char>| path_join(path_join(a, "node_modules"@), spec_v)),
    );
    assert(all == rooted_part + relative_part + package_part + modules_part);
    if rooted {
        let stripped = specifier.substring_char(2, n);
        assert(stripped@ =~= spec_v.skip(2));
        let mut root = dir.clone();
        let mut root_index: usize = 0;
        let m = above.len();
        assert(m >= 1) by {
            assert(dirs_above(dir@).len() >= 1);
        }
        assert(av[0] == dir@);
        for i in 0..m
            invariant
                m == above@.len(),
                m >= 1,
                av == above@.map_values(|s: String| s@),
                root_index < m,
                root@ == av[root_index as int],
        {
            let cfg = join_path(above[i].as_str(), "repo-lint.config.ts");
            if path_exists(cfg.as_str()) {
                root = above[i].clone();
                root_index = i;
            }
        }
        let base = join_path(root.as_str(), stripped);
        match resolve_path(base.as_str()) {
            Some(p) => {
                proof {
                    let bases = av.map_values(|a: Seq<char>| path_join(a, spec_v.skip(2)));
                    assert(bases[root_index as int] == base@);
                    lemma_candidates_of_all_member(bases, root_index as int, p@);
                    lemma_contains_in_concat(rooted_part, relative_part + package_part + modules_part, p@);
                    assert(all =~= rooted_part + (relative_part + package_part + modules_part));
                }
                return Some(p);
            },
            None => {},
        }
    }
    if n > 0 && specifier.get_char(0) == '.' {
        let base = join_path(dir.as_str(), specifier);
        match resolve_path(base.as_str()) {
            Some(p) => {
                proof {
                    assert(begins_with(spec_v, '.'));
                    lemma_contains_in_concat2(rooted_part, relative_part, package_part + modules_part, p@);
                    assert(all =~= rooted_part + relative_part + (package_part + modules_part));
                }
                return Some(p);
            },
            None => {},
        }
    }
    if n > 0 && specifier.get_char(0) == '@' && !rooted {
        match package_target {
            Some(t) => {
                proof {
                    assert(package_part[0] == t@);
                    lemma_contains_in_concat2(rooted_part + relative_part, package_part, modules_part, t@);
                }
                return Some(t);
            },
            None => {},
        }
    }
    assert(!scoped_with_target(current_file@, specifier@, package_target));
    let m = above.len();
    for i in 0..m
        invariant
            !scoped_with_target(current_file@, specifier@, package_target),
            m == above@.len(),
            av == above@.map_values(|s: String| s@),
            spec_v == specifier@,
            parent_path(current_file@) == Some(dir@),
            pt == (match &package_target {
                Some(t) => Some(t@),
                None => None::<Seq<char>>,
            }),
            all == import_candidates(dir@, specifier@, pt),
            all == rooted_part + relative_part + package_part + modules_part,
            modules_part == candidates_of_all(
                av.map_values(|a: Seq<char>| path_join(path_join(a, "node_modules"@), spec_v)),
            ),
    {
        assert(av[i as int] == above@[i as int]@);
        let nm = join_path(above[i].as_str(), "node_modules");
        if path_exists(nm.as_str()) {
            let base = join_path(nm.as_str(), specifier);
            match resolve_path(base.as_str()) {
                Some(p) => {
                    proof {
                        let bases = av.map_values(|a: Seq<char>| path_join(path_join(a, "node_modules"@), spec_v));
                        assert(bases[i as int] == base@);
                        lemma_candidates_of_all_member(bases, i as int, p@);
                        lemma_contains_in_concat(rooted_part + relative_part + package_part, modules_part, p@);
                    }
                    return Some(p);
                },
                None => {},
            }
        }
    }
    None
}

proof fn lemma_contains_in_concat(a: Seq<Seq<char>>, b: Seq<Seq<char>>, x: Seq<char>)
    ensures
        a.contains(x) ==> (a + b).contains(x),
        b.contains(x) ==> (a + b).contains(x),
{
    if a.contains(x) {
        let k = choose|k: int| 0 <= k < a.len() && a[k] == x;
        assert((a + b)[k] == x);
    }
    if b.contains(x) {
        let k = choose|k: int| 0 <= k < b.len() && b[k] == x;
        assert((a + b)[a.len() + k] == x);
    }
}

proof fn lemma_contains_in_concat2(a: Seq<Seq<char>>, b: Seq<Seq<char>>, c: Seq<Seq<char>>, x: Seq<char>)
    requires
        b.contains(x),
    ensures
        (a + b + c).contains(x),
{
    lemma_contains_in_concat(a, b, x);
    lemma_contains_in_concat(a + b, c, x);
}

} // verus!
