//! Paths as strings, with the meaning that Unix `Path` gives them: joining,
//! taking a prefix off, the parent, and equality by components.

use vstd::prelude::*;

use crate::text::{components_of, join_strings, join_with, path_components, str_eq, to_owned_string, views};

verus! {

/// `b` appended to `a` as `PathBuf::push` does on Unix: an absolute `b`
/// replaces `a`; a separator is added when `a` is not empty and does not end
/// with one.
pub open spec fn path_join(a: Seq<char>, b: Seq<char>) -> Seq<char> {
    if b.len() > 0 && b[0] == '/' {
        b
    } else if a.len() > 0 && a.last() != '/' {
        a + seq!['/'] + b
    } else {
        a + b
    }
}

/// Joins two paths.
pub fn join_path(a: &str, b: &str) -> (r: String)
    ensures
        r@ == path_join(a@, b@),
{
    let nb = b.unicode_len();
    if nb > 0 && b.get_char(0) == '/' {
        return to_owned_string(b);
    }
    let na = a.unicode_len();
    let mut r = to_owned_string(a);
    if na > 0 && a.get_char(na - 1) != '/' {
        r.append("/");
        proof {
            reveal_strlit("/");
        }
    }
    r.append(b);
    r
}

/// The path that a list of components spells: a leading root component is
/// written as `/`, the rest are joined with `/`.
pub open spec fn components_path(comps: Seq<Seq<char>>) -> Seq<char> {
    if comps.len() > 0 && comps[0] == seq!['/'] {
        seq!['/'] + join_with(comps.drop_first(), seq!['/'])
    } else {
        join_with(comps, seq!['/'])
    }
}

/// Two paths are the same path when their components are equal.
pub open spec fn same_path(a: Seq<char>, b: Seq<char>) -> bool {
    path_components(a) == path_components(b)
}

/// `path` without the leading components of `root`, when `root`'s
/// components begin `path`'s.
pub open spec fn strip_prefix(path: Seq<char>, root: Seq<char>) -> Option<Seq<char>> {
    let pc = path_components(path);
    let rc = path_components(root);
    if rc.len() <= pc.len() && pc.take(rc.len() as int) == rc {
        Some(components_path(pc.skip(rc.len() as int)))
    } else {
        None
    }
}

/// `path` relative to `root`, or `path` itself when `root` does not begin it.
pub open spec fn relative_to(path: Seq<char>, root: Seq<char>) -> Seq<char> {
    match strip_prefix(path, root) {
        Some(r) => r,
        None => path,
    }
}

/// The path without its last component; none for the empty path and for
/// a path that ends at the root.
pub open spec fn parent_path(path: Seq<char>) -> Option<Seq<char>> {
    let pc = path_components(path);
    if pc.len() == 0 || pc.last() == seq!['/'] {
        None
    } else {
        Some(components_path(pc.drop_last()))
    }
}

fn is_root_piece(s: &str) -> (r: bool)
    ensures
        r == (s@ == seq!['/']),
{
    if s.unicode_len() == 1 && s.get_char(0) == '/' {
        assert(s@ =~= seq!['/']);
        true
    } else {
        false
    }
}

/// Writes components as a path.
fn spell_components(comps: &Vec<String>, from: usize, to: usize) -> (r: String)
    requires
        from <= to <= comps@.len(),
    ensures
        r@ == components_path(views(comps@).subrange(from as int, to as int)),
{
    let ghost cv = views(comps@).subrange(from as int, to as int);
    let mut parts: Vec<String> = Vec::new();
    let mut start = from;
    let rooted = from < to && is_root_piece(comps[from].as_str());
    if rooted {
        start = from + 1;
    }
    let mut i = start;
    while i < to
        invariant
            from <= start <= i <= to <= comps@.len(),
            views(parts@) == views(comps@).subrange(start as int, i as int),
        decreases to - i,
    {
        let ghost before = views(parts@);
        let c = comps[i].clone();
        assert(c@ == views(comps@)[i as int]);
        parts.push(c);
        assert(views(parts@) =~= before.push(views(comps@)[i as int]));
        assert(views(comps@).subrange(start as int, i + 1) =~= before.push(views(comps@)[i as int]));
        i = i + 1;
    }
    let joined = join_strings(&parts, "/");
    proof {
        reveal_strlit("/");
        assert("/"@ =~= seq!['/']);
    }
    if rooted {
        assert(cv.len() > 0 && cv[0] == comps@[from as int]@);
        assert(cv.drop_first() =~= views(comps@).subrange(start as int, to as int));
        let mut r = String::from_str("/");
        r.append(joined.as_str());
        r
    } else {
        assert(cv =~= views(comps@).subrange(start as int, to as int));
        joined
    }
}

/// Whether the first components of `pc` are `rc`.
fn components_begin_with(pc: &Vec<String>, rc: &Vec<String>) -> (r: bool)
    ensures
        r == (rc@.len() <= pc@.len() && views(pc@).take(rc@.len() as int) == views(rc@)),
{
    if rc.len() > pc.len() {
        return false;
    }
    let n = rc.len();
    for i in 0..n
        invariant
            n == rc@.len(),
            n <= pc@.len(),
            forall|j: int| 0 <= j < i ==> pc@[j]@ == rc@[j]@,
    {
        if !str_eq(pc[i].as_str(), rc[i].as_str()) {
            assert(views(pc@).take(n as int)[i as int] != views(rc@)[i as int]);
            return false;
        }
    }
    assert(views(pc@).take(n as int) =~= views(rc@));
    true
}

/// Takes the components of `root` off the front of `path`.
pub fn strip_path_prefix(path: &str, root: &str) -> (r: Option<String>)
    ensures
        match strip_prefix(path@, root@) {
            Some(s) => r matches Some(x) && x@ == s,
            None => r is None,
        },
{
    let pc = components_of(path);
    let rc = components_of(root);
    if components_begin_with(&pc, &rc) {
        let r = spell_components(&pc, rc.len(), pc.len());
        assert(views(pc@).subrange(rc@.len() as int, pc@.len() as int) =~= views(pc@).skip(rc@.len() as int));
        Some(r)
    } else {
        None
    }
}

/// `path` relative to `root`, or `path` itself.
pub fn relative_path(path: &str, root: &str) -> (r: String)
    ensures
        r@ == relative_to(path@, root@),
{
    match strip_path_prefix(path, root) {
        Some(r) => r,
        None => to_owned_string(path),
    }
}

/// The parent of a path.
pub fn parent_of(path: &str) -> (r: Option<String>)
    ensures
        match parent_path(path@) {
            Some(s) => r matches Some(x) && x@ == s,
            None => r is None,
        },
{
    let pc = components_of(path);
    let n = pc.len();
    if n == 0 {
        return None;
    }
    assert(views(pc@).last() == pc@[n - 1]@);
    if is_root_piece(pc[n - 1].as_str()) {
        return None;
    }
    let r = spell_components(&pc, 0, n - 1);
    assert(views(pc@).subrange(0, n - 1) =~= views(pc@).drop_last());
    Some(r)
}

/// Whether two paths have the same components.
pub fn same_path_exec(a: &str, b: &str) -> (r: bool)
    ensures
        r == same_path(a@, b@),
{
    let ac = components_of(a);
    let bc = components_of(b);
    if ac.len() != bc.len() {
        assert(views(ac@).len() != views(bc@).len());
        return false;
    }
    let r = components_begin_with(&ac, &bc);
    proof {
        if r {
            assert(views(ac@).take(bc@.len() as int) =~= views(ac@));
        } else {
            if views(ac@) == views(bc@) {
                assert(views(ac@).take(bc@.len() as int) =~= views(ac@));
            }
        }
    }
    r
}

/// Calls `std::path::Path::exists`. What it answers depends on the disk at
/// the moment of the call, so nothing is stated of it.
#[verifier::external_body]
pub(crate) fn path_exists(path: &str) -> (r: bool) {
    std::path::Path::new(path).exists()
}

} // verus!
