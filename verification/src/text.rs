//! Character-level helpers shared by the matcher, the rules and the reports.

use vstd::prelude::*;

verus! {

/// ASCII lowercase letter.
pub open spec fn is_lower(c: char) -> bool {
    'a' <= c && c <= 'z'
}

/// ASCII uppercase letter.
pub open spec fn is_upper(c: char) -> bool {
    'A' <= c && c <= 'Z'
}

/// ASCII decimal digit.
pub open spec fn is_digit(c: char) -> bool {
    '0' <= c && c <= '9'
}

/// ASCII letter or digit.
pub open spec fn is_alnum(c: char) -> bool {
    is_lower(c) || is_upper(c) || is_digit(c)
}

/// The characters of a string slice, in order.
pub fn chars_of(s: &str) -> (v: Vec<char>)
    ensures
        v@ == s@,
{
    let n = s.unicode_len();
    let mut v: Vec<char> = Vec::new();
    for i in 0..n
        invariant
            n == s@.len(),
            v@ == s@.subrange(0, i as int),
    {
        v.push(s.get_char(i));
        assert(v@ =~= s@.subrange(0, i + 1));
    }
    assert(v@ =~= s@);
    v
}

} // verus!

verus! {

/// Whether two strings hold the same characters.
pub fn str_eq(a: &str, b: &str) -> (r: bool)
    ensures
        r == (a@ == b@),
{
    let x = chars_of(a);
    let y = chars_of(b);
    if x.len() != y.len() {
        return false;
    }
    let mut i: usize = 0;
    while i < x.len()
        invariant
            x@ == a@,
            y@ == b@,
            x@.len() == y@.len(),
            i <= x@.len(),
            forall|j: int| 0 <= j < i ==> x@[j] == y@[j],
        decreases x.len() - i,
    {
        if x[i] != y[i] {
            return false;
        }
        i = i + 1;
    }
    assert(x@ =~= y@);
    true
}

/// Whether `s` begins with the character `c`.
pub open spec fn begins_with(s: Seq<char>, c: char) -> bool {
    s.len() > 0 && s[0] == c
}

/// Checks whether `s` begins with the character `c`.
pub fn starts_with_char(s: &str, c: char) -> (r: bool)
    ensures
        r == begins_with(s@, c),
{
    let n = s.unicode_len();
    n > 0 && s.get_char(0) == c
}

/// A copy of `s` as an owned string.
pub fn to_owned_string(s: &str) -> (r: String)
    ensures
        r@ == s@,
{
    String::from_str(s)
}

} // verus!

verus! {

/// The pieces of `s` between occurrences of `sep`; an empty string is one empty piece.
pub open spec fn split_on(s: Seq<char>, sep: char) -> Seq<Seq<char>>
    decreases s.len(),
{
    if s.len() == 0 {
        seq![Seq::<char>::empty()]
    } else {
        let rest = split_on(s.drop_last(), sep);
        if s.last() == sep {
            rest.push(Seq::<char>::empty())
        } else {
            rest.update(rest.len() - 1, rest.last().push(s.last()))
        }
    }
}

pub proof fn lemma_split_on_nonempty(s: Seq<char>, sep: char)
    ensures
        split_on(s, sep).len() >= 1,
    decreases s.len(),
{
    if s.len() > 0 {
        lemma_split_on_nonempty(s.drop_last(), sep);
    }
}

/// The characters of each string, in order.
pub open spec fn views(v: Seq<String>) -> Seq<Seq<char>> {
    v.map_values(|x: String| x@)
}

/// Splits `s` at every occurrence of `sep`.
pub fn split_str(s: &str, sep: char) -> (r: Vec<String>)
    ensures
        views(r@) == split_on(s@, sep),
{
    let cs = chars_of(s);
    let mut done: Vec<String> = Vec::new();
    let mut start: usize = 0;
    let n = cs.len();
    assert(s@.take(0) =~= Seq::<char>::empty());
    assert(views(done@) + seq![s@.subrange(0, 0)] =~= split_on(s@.take(0), sep));
    for i in 0..n
        invariant
            n == s@.len(),
            cs@ == s@,
            start <= i,
            views(done@) + seq![s@.subrange(start as int, i as int)] == split_on(s@.take(i as int), sep),
    {
        proof {
            lemma_split_on_nonempty(s@.take(i as int), sep);
            assert(s@.take(i + 1).drop_last() =~= s@.take(i as int));
            assert(s@.take(i + 1).last() == s@[i as int]);
        }
        if cs[i] == sep {
            let ghost prev = split_on(s@.take(i as int), sep);
            assert(split_on(s@.take(i + 1), sep) == prev.push(Seq::<char>::empty()));
            let piece = to_owned_string(s.substring_char(start, i));
            let ghost before = views(done@);
            assert(prev =~= before.push(s@.subrange(start as int, i as int)));
            done.push(piece);
            assert(views(done@) =~= before.push(s@.subrange(start as int, i as int)));
            start = i + 1;
            assert(s@.subrange(start as int, (i + 1) as int) =~= Seq::<char>::empty());
            assert(views(done@) + seq![s@.subrange(start as int, (i + 1) as int)] =~= split_on(s@.take(i + 1), sep));
        } else {
            let ghost prev = split_on(s@.take(i as int), sep);
            assert(split_on(s@.take(i + 1), sep) == prev.update(prev.len() - 1, prev.last().push(s@[i as int])));
            assert(prev.len() - 1 == views(done@).len());
            assert(prev.last() == s@.subrange(start as int, i as int));
            assert(s@.subrange(start as int, i + 1) =~= s@.subrange(start as int, i as int).push(s@[i as int]));
            assert(views(done@) + seq![s@.subrange(start as int, (i + 1) as int)] =~= split_on(s@.take(i + 1), sep));
        }
    }
    let piece = to_owned_string(s.substring_char(start, n));
    let ghost before = views(done@);
    done.push(piece);
    assert(s@.take(n as int) =~= s@);
    assert(views(done@) =~= before.push(s@.subrange(start as int, n as int)));
    done
}

/// The path components of `s` as a Unix `Path` yields them: a leading `/` is
/// the root component, repeated separators and a trailing separator add
/// nothing, and `.` pieces are dropped except a leading one.
pub open spec fn path_components(s: Seq<char>) -> Seq<Seq<char>> {
    let pieces = split_on(s, '/');
    let rooted = s.len() > 0 && s[0] == '/';
    let lead = if rooted {
        seq![seq!['/']]
    } else if pieces[0] == seq!['.'] {
        seq![seq!['.']]
    } else {
        Seq::<Seq<char>>::empty()
    };
    lead + normal_pieces(pieces)
}

/// The pieces that are neither empty nor `.`, in order.
pub open spec fn normal_pieces(pieces: Seq<Seq<char>>) -> Seq<Seq<char>>
    decreases pieces.len(),
{
    if pieces.len() == 0 {
        Seq::empty()
    } else {
        let rest = normal_pieces(pieces.drop_last());
        let p = pieces.last();
        if p.len() > 0 && p != seq!['.'] {
            rest.push(p)
        } else {
            rest
        }
    }
}


fn is_dot_piece(p: &str) -> (r: bool)
    ensures
        r == (p@ == seq!['.']),
{
    if p.unicode_len() == 1 && p.get_char(0) == '.' {
        assert(p@ =~= seq!['.']);
        true
    } else {
        false
    }
}

/// The components of a path, as `path_components` describes them.
pub fn components_of(path: &str) -> (r: Vec<String>)
    ensures
        views(r@) == path_components(path@),
{
    let pieces = split_str(path, '/');
    proof {
        lemma_split_on_nonempty(path@, '/');
    }
    let ghost pv = split_on(path@, '/');
    assert(pieces@.len() == pv.len());
    assert(pieces@[0]@ == pv[0]);
    let rooted = starts_with_char(path, '/');
    let mut out: Vec<String> = Vec::new();
    let ghost lead: Seq<Seq<char>>;
    if rooted {
        out.push(String::from_str("/"));
        proof {
            reveal_strlit("/");
            assert("/"@ =~= seq!['/']);
            lead = seq![seq!['/']];
            assert(views(out@) =~= lead);
        }
    } else if is_dot_piece(pieces[0].as_str()) {
        out.push(String::from_str("."));
        proof {
            reveal_strlit(".");
            assert("."@ =~= seq!['.']);
            lead = seq![seq!['.']];
            assert(views(out@) =~= lead);
        }
    } else {
        proof {
            lead = Seq::<Seq<char>>::empty();
            assert(views(out@) =~= lead);
        }
    }
    let n = pieces.len();
    assert(pv.take(0) =~= Seq::<Seq<char>>::empty());
    for i in 0..n
        invariant
            n == pieces@.len(),
            n == pv.len(),
            forall|j: int| 0 <= j < n ==> #[trigger] pieces@[j]@ == pv[j],
            views(out@) == lead + normal_pieces(pv.take(i as int)),
    {
        assert(pv.take(i + 1).drop_last() =~= pv.take(i as int));
        assert(pv.take(i + 1).last() == pv[i as int]);
        let p = pieces[i].as_str();
        let ghost before = views(out@);
        if p.unicode_len() > 0 && !is_dot_piece(p) {
            out.push(pieces[i].clone());
            assert(views(out@) =~= before.push(pv[i as int]));
        }
    }
    assert(pv.take(n as int) =~= pv);
    out
}

/// The parts joined with `sep` between neighbours.
pub open spec fn join_with(parts: Seq<Seq<char>>, sep: Seq<char>) -> Seq<char>
    decreases parts.len(),
{
    if parts.len() == 0 {
        Seq::empty()
    } else if parts.len() == 1 {
        parts[0]
    } else {
        join_with(parts.drop_last(), sep) + sep + parts.last()
    }
}

/// Joins the strings with `sep` between neighbours.
pub fn join_strings(parts: &Vec<String>, sep: &str) -> (r: String)
    ensures
        r@ == join_with(views(parts@), sep@),
{
    let n = parts.len();
    if n == 0 {
        let r = String::new();
        assert(views(parts@) =~= Seq::<Seq<char>>::empty());
        return r;
    }
    let mut r = parts[0].clone();
    assert(views(parts@).take(1) =~= seq![parts@[0]@]);
    for i in 1..n
        invariant
            n == parts@.len(),
            r@ == join_with(views(parts@).take(i as int), sep@),
    {
        assert(views(parts@).take(i + 1).drop_last() =~= views(parts@).take(i as int));
        r.append(sep);
        r.append(parts[i].as_str());
    }
    assert(views(parts@).take(n as int) =~= views(parts@));
    r
}

/// The decimal digit for `d`.
pub open spec fn digit_char(d: nat) -> char {
    if d == 0 {
        '0'
    } else if d == 1 {
        '1'
    } else if d == 2 {
        '2'
    } else if d == 3 {
        '3'
    } else if d == 4 {
        '4'
    } else if d == 5 {
        '5'
    } else if d == 6 {
        '6'
    } else if d == 7 {
        '7'
    } else if d == 8 {
        '8'
    } else {
        '9'
    }
}

/// `n` written in decimal, without leading zeros.
pub open spec fn decimal(n: nat) -> Seq<char>
    decreases n,
{
    if n < 10 {
        seq![digit_char(n)]
    } else {
        decimal(n / 10).push(digit_char(n % 10))
    }
}

fn digit_str(d: usize) -> (r: &'static str)
    requires
        d < 10,
    ensures
        r@ == seq![digit_char(d as nat)],
{
    proof {
        reveal_strlit("0");
        reveal_strlit("1");
        reveal_strlit("2");
        reveal_strlit("3");
        reveal_strlit("4");
        reveal_strlit("5");
        reveal_strlit("6");
        reveal_strlit("7");
        reveal_strlit("8");
        reveal_strlit("9");
    }
    let r = if d == 0 {
        "0"
    } else if d == 1 {
        "1"
    } else if d == 2 {
        "2"
    } else if d == 3 {
        "3"
    } else if d == 4 {
        "4"
    } else if d == 5 {
        "5"
    } else if d == 6 {
        "6"
    } else if d == 7 {
        "7"
    } else if d == 8 {
        "8"
    } else {
        "9"
    };
    assert(r@ =~= seq![digit_char(d as nat)]);
    r
}

/// `n` written in decimal.
pub fn decimal_string(n: usize) -> (r: String)
    ensures
        r@ == decimal(n as nat),
    decreases n,
{
    if n < 10 {
        String::from_str(digit_str(n))
    } else {
        let mut r = decimal_string(n / 10);
        r.append(digit_str(n % 10));
        r
    }
}

/// `p` is a prefix of `s`.
pub open spec fn is_prefix(p: Seq<char>, s: Seq<char>) -> bool {
    p.len() <= s.len() && s.take(p.len() as int) == p
}

/// `p` is a suffix of `s`.
pub open spec fn is_suffix(p: Seq<char>, s: Seq<char>) -> bool {
    p.len() <= s.len() && s.skip(s.len() - p.len()) == p
}

/// Checks whether `s` begins with `p`.
pub fn str_starts_with(s: &str, p: &str) -> (r: bool)
    ensures
        r == is_prefix(p@, s@),
{
    let a = chars_of(s);
    let b = chars_of(p);
    if b.len() > a.len() {
        return false;
    }
    let mut i: usize = 0;
    while i < b.len()
        invariant
            a@ == s@,
            b@ == p@,
            b@.len() <= a@.len(),
            i <= b@.len(),
            forall|j: int| 0 <= j < i ==> a@[j] == b@[j],
        decreases b.len() - i,
    {
        if a[i] != b[i] {
            assert(s@.take(p@.len() as int)[i as int] != p@[i as int]);
            return false;
        }
        i = i + 1;
    }
    assert(s@.take(p@.len() as int) =~= p@);
    true
}

/// Checks whether `s` ends with `p`.
pub fn str_ends_with(s: &str, p: &str) -> (r: bool)
    ensures
        r == is_suffix(p@, s@),
{
    let a = chars_of(s);
    let b = chars_of(p);
    if b.len() > a.len() {
        return false;
    }
    let alen = a.len();
    let off = alen - b.len();
    let mut i: usize = 0;
    while i < b.len()
        invariant
            a@ == s@,
            b@ == p@,
            alen == a@.len(),
            off + b@.len() == alen,
            i <= b@.len(),
            forall|j: int| 0 <= j < i ==> a@[off + j] == b@[j],
        decreases b.len() - i,
    {
        if a[off + i] != b[i] {
            assert(s@.skip(off as int)[i as int] != p@[i as int]);
            return false;
        }
        i = i + 1;
    }
    assert(s@.skip(off as int) =~= p@);
    true
}

/// The position of the last `c` in `s`.
pub open spec fn last_index_of(s: Seq<char>, c: char) -> Option<int>
    decreases s.len(),
{
    if s.len() == 0 {
        None
    } else if s.last() == c {
        Some(s.len() - 1)
    } else {
        last_index_of(s.drop_last(), c)
    }
}

pub proof fn lemma_last_index_of(s: Seq<char>, c: char)
    ensures
        last_index_of(s, c) matches Some(k) ==> 0 <= k < s.len() && s[k] == c,
    decreases s.len(),
{
    if s.len() > 0 && s.last() != c {
        lemma_last_index_of(s.drop_last(), c);
    }
}

/// `s` without its last `.` and what follows it.
pub open spec fn stem(s: Seq<char>) -> Seq<char> {
    match last_index_of(s, '.') {
        Some(k) => s.take(k),
        None => s,
    }
}

proof fn lemma_last_dot(a: Seq<char>, b: Seq<char>)
    requires
        forall|i: int| 0 <= i < b.len() ==> b[i] != '.',
    ensures
        last_index_of(a + seq!['.'] + b, '.') == Some(a.len() as int),
    decreases b.len(),
{
    let s = a + seq!['.'] + b;
    if b.len() > 0 {
        assert(s.last() == b.last());
        assert(s.drop_last() =~= a + seq!['.'] + b.drop_last());
        lemma_last_dot(a, b.drop_last());
    } else {
        assert(s.last() == '.');
    }
}

proof fn lemma_no_dot(s: Seq<char>)
    requires
        forall|i: int| 0 <= i < s.len() ==> s[i] != '.',
    ensures
        last_index_of(s, '.') is None,
    decreases s.len(),
{
    if s.len() > 0 {
        assert(s.last() == s[s.len() - 1]);
        lemma_no_dot(s.drop_last());
    }
}

/// The stem of a name is what comes before its last `.`: for `a.b` where
/// `b` holds no `.`, the stem is `a`, with every `.` that `a` holds
/// (`Button.test.tsx` has the stem `Button.test`); a name without a `.` is
/// its own stem.
pub proof fn lemma_stem_cuts_last_dot(a: Seq<char>, b: Seq<char>, s: Seq<char>)
    requires
        forall|i: int| 0 <= i < b.len() ==> b[i] != '.',
    ensures
        stem(a + seq!['.'] + b) == a,
        (forall|i: int| 0 <= i < s.len() ==> s[i] != '.') ==> stem(s) == s,
{
    lemma_last_dot(a, b);
    assert((a + seq!['.'] + b).take(a.len() as int) =~= a);
    if forall|i: int| 0 <= i < s.len() ==> s[i] != '.' {
        lemma_no_dot(s);
    }
}

/// The part of `s` before its last `.`, or all of `s`.
pub fn stem_of(s: &str) -> (r: &str)
    ensures
        r@ == stem(s@),
{
    let cs = chars_of(s);
    let mut i = cs.len();
    assert(s@.take(i as int) =~= s@);
    while i > 0
        invariant
            cs@ == s@,
            i <= cs@.len(),
            last_index_of(s@, '.') == last_index_of(s@.take(i as int), '.'),
        decreases i,
    {
        assert(s@.take(i as int).drop_last() =~= s@.take(i - 1));
        if cs[i - 1] == '.' {
            return s.substring_char(0, i - 1);
        }
        i = i - 1;
    }
    assert(s@.take(0) =~= Seq::<char>::empty());
    assert(s@.subrange(0, s@.len() as int) =~= s@);
    s.substring_char(0, cs.len())
}

/// A name pattern with exactly one `*` matches, as a glob does, the names
/// that are its prefix, then anything, then its suffix (so at least as long
/// as both together); any other pattern matches only itself.
pub open spec fn simple_pattern_matches(name: Seq<char>, pattern: Seq<char>) -> bool {
    let parts = split_on(pattern, '*');
    if parts.len() == 2 {
        parts[0].len() + parts[1].len() <= name.len() && is_prefix(parts[0], name) && is_suffix(parts[1], name)
    } else {
        name == pattern
    }
}

/// Checks `name` against a pattern with at most one `*`.
pub fn simple_pattern_match(name: &str, pattern: &str) -> (r: bool)
    ensures
        r == simple_pattern_matches(name@, pattern@),
{
    let parts = split_str(pattern, '*');
    if parts.len() == 2 {
        assert(parts@[0]@ == views(parts@)[0]);
        assert(parts@[1]@ == views(parts@)[1]);
        let long_enough = parts[0].unicode_len() <= name.unicode_len() && parts[1].unicode_len() <= name.unicode_len()
            - parts[0].unicode_len();
        long_enough && str_starts_with(name, parts[0].as_str()) && str_ends_with(name, parts[1].as_str())
    } else {
        str_eq(name, pattern)
    }
}

} // verus!

verus! {

// ---------------------------------------------------------------------------
// Searching and replacing
// ---------------------------------------------------------------------------

/// Whether `pat` occurs in `s` at position `i`.
pub open spec fn occurs_at(s: Seq<char>, pat: Seq<char>, i: int) -> bool {
    0 <= i && i + pat.len() <= s.len() && s.subrange(i, i + pat.len()) == pat
}

/// The first position, from `i` on, where `pat` occurs in `s`.
pub open spec fn find_from(s: Seq<char>, pat: Seq<char>, i: int) -> Option<int>
    decreases s.len() + 1 - i,
{
    if i < 0 || i + pat.len() > s.len() {
        None
    } else if occurs_at(s, pat, i) {
        Some(i)
    } else {
        find_from(s, pat, i + 1)
    }
}

/// `to` after every character of `s`.
pub open spec fn interleave(s: Seq<char>, to: Seq<char>) -> Seq<char>
    decreases s.len(),
{
    if s.len() == 0 {
        Seq::empty()
    } else {
        seq![s[0]] + to + interleave(s.drop_first(), to)
    }
}

/// `s` with the occurrences of a non-empty `from`, found from the left
/// without overlapping, replaced by `to`; an empty `from` puts `to` before
/// every character and at the end.
pub open spec fn replace_all(s: Seq<char>, from: Seq<char>, to: Seq<char>) -> Seq<char>
    decreases s.len(),
{
    if from.len() == 0 {
        to + interleave(s, to)
    } else if s.len() == 0 {
        s
    } else if occurs_at(s, from, 0) {
        to + replace_all(s.skip(from.len() as int), from, to)
    } else {
        seq![s[0]] + replace_all(s.drop_first(), from, to)
    }
}

/// Whether a character is not `c`.
pub open spec fn not_char(c: char) -> spec_fn(char) -> bool {
    |x: char| x != c
}

/// `s` with every `c` removed.
pub open spec fn remove_char(s: Seq<char>, c: char) -> Seq<char> {
    s.filter(not_char(c))
}

/// `s` with copies of `pat` taken off its end as long as it ends with one.
pub open spec fn trim_end_pattern(s: Seq<char>, pat: Seq<char>) -> Seq<char>
    decreases s.len(),
{
    if pat.len() > 0 && pat.len() <= s.len() && s.skip(s.len() - pat.len()) == pat {
        trim_end_pattern(s.take(s.len() - pat.len()), pat)
    } else {
        s
    }
}

/// `s` without its leading `c`s.
pub open spec fn trim_start_char(s: Seq<char>, c: char) -> Seq<char>
    decreases s.len(),
{
    if s.len() > 0 && s[0] == c {
        trim_start_char(s.drop_first(), c)
    } else {
        s
    }
}

/// `s` without its trailing `c`s.
pub open spec fn trim_end_char(s: Seq<char>, c: char) -> Seq<char>
    decreases s.len(),
{
    if s.len() > 0 && s.last() == c {
        trim_end_char(s.drop_last(), c)
    } else {
        s
    }
}

/// `s` without its leading and trailing `c`s.
pub open spec fn trim_char(s: Seq<char>, c: char) -> Seq<char> {
    trim_end_char(trim_start_char(s, c), c)
}

proof fn lemma_skip_one(s: Seq<char>, i: int)
    requires
        0 <= i < s.len(),
    ensures
        s.skip(i).len() > 0,
        s.skip(i)[0] == s[i],
        s.skip(i).drop_first() == s.skip(i + 1),
{
    assert(s.skip(i).drop_first() =~= s.skip(i + 1));
}

/// Whether `pat` occurs in `s` at position `i`.
pub fn occurs_at_exec(s: &Vec<char>, pat: &Vec<char>, i: usize) -> (r: bool)
    ensures
        r == occurs_at(s@, pat@, i as int),
{
    if i > s.len() || pat.len() > s.len() - i {
        return false;
    }
    let n = pat.len();
    let len = s.len();
    assert(i + n <= len);
    for j in 0..n
        invariant
            n == pat@.len(),
            len == s@.len(),
            i + n <= len,
            forall|k: int| 0 <= k < j ==> s@[i + k] == pat@[k],
    {
        let at: usize = i + j;
        if s[at] != pat[j] {
            assert(s@.subrange(i as int, i + n)[j as int] != pat@[j as int]);
            return false;
        }
    }
    assert(s@.subrange(i as int, i + n) =~= pat@);
    true
}

/// The first position, from `i` on, where `pat` occurs in `s`.
pub fn find_from_exec(s: &Vec<char>, pat: &Vec<char>, i: usize) -> (r: Option<usize>)
    ensures
        match find_from(s@, pat@, i as int) {
            Some(k) => r matches Some(x) && x == k && i <= k && k + pat@.len() <= s@.len(),
            None => r is None,
        },
{
    proof {
        lemma_find_from(s@, pat@, i as int);
    }
    let mut j = i;
    while j <= s.len() && pat.len() <= s.len() - j
        invariant
            i <= j,
            find_from(s@, pat@, i as int) == find_from(s@, pat@, j as int),
        decreases s.len() + 1 - j,
    {
        if occurs_at_exec(s, pat, j) {
            return Some(j);
        }
        assert(j < s@.len()) by {
            if j == s@.len() {
                assert(s@.subrange(j as int, j as int) =~= pat@);
            }
        }
        j = j + 1;
    }
    None
}

/// `s` with the occurrences of `from` replaced by `to`, as `str::replace` does.
pub fn replace_all_exec(s: &str, from: &str, to: &str) -> (r: String)
    ensures
        r@ == replace_all(s@, from@, to@),
{
    let cs = chars_of(s);
    let fs = chars_of(from);
    let n = cs.len();
    let mut r = String::new();
    if fs.len() == 0 {
        r.append(to);
        let mut i: usize = 0;
        assert(s@.skip(0) =~= s@);
        while i < n
            invariant
                n == s@.len(),
                cs@ == s@,
                i <= n,
                from@.len() == 0,
                r@ + interleave(s@.skip(i as int), to@) == to@ + interleave(s@, to@),
            decreases n - i,
        {
            proof {
                lemma_skip_one(s@, i as int);
            }
            let piece = s.substring_char(i, i + 1);
            assert(piece@ =~= seq![s@[i as int]]);
            let ghost before = r@;
            r.append(piece);
            r.append(to);
            assert(r@ + interleave(s@.skip(i + 1), to@) =~= before + interleave(s@.skip(i as int), to@));
            i = i + 1;
        }
        assert(s@.skip(n as int) =~= Seq::<char>::empty());
        assert(r@ =~= r@ + interleave(s@.skip(n as int), to@));
        return r;
    }
    let mut seg: usize = 0;
    let mut i: usize = 0;
    assert(s@.skip(0) =~= s@);
    assert(r@ + s@.subrange(0, 0) =~= Seq::<char>::empty());
    while i < n
        invariant
            n == s@.len(),
            cs@ == s@,
            fs@ == from@,
            from@.len() > 0,
            seg <= i <= n,
            r@ + s@.subrange(seg as int, i as int) + replace_all(s@.skip(i as int), from@, to@) == replace_all(
                s@,
                from@,
                to@,
            ),
        decreases n - i,
    {
        proof {
            lemma_skip_one(s@, i as int);
        }
        let ghost rest = s@.skip(i as int);
        if occurs_at_exec(&cs, &fs, i) {
            assert(occurs_at(rest, from@, 0)) by {
                assert(rest.subrange(0, from@.len() as int) =~= s@.subrange(i as int, i + from@.len()));
            }
            assert(rest.skip(from@.len() as int) =~= s@.skip(i + fs@.len()));
            let piece = s.substring_char(seg, i);
            r.append(piece);
            r.append(to);
            i = i + fs.len();
            seg = i;
            assert(s@.subrange(seg as int, i as int) =~= Seq::<char>::empty());
            assert(r@ + s@.subrange(seg as int, i as int) + replace_all(s@.skip(i as int), from@, to@) =~= replace_all(
                s@,
                from@,
                to@,
            ));
        } else {
            assert(!occurs_at(rest, from@, 0)) by {
                if occurs_at(rest, from@, 0) {
                    assert(rest.subrange(0, from@.len() as int) =~= s@.subrange(i as int, i + from@.len()));
                }
            }
            assert(s@.subrange(seg as int, i + 1) =~= s@.subrange(seg as int, i as int).push(s@[i as int]));
            i = i + 1;
            assert(r@ + s@.subrange(seg as int, i as int) + replace_all(s@.skip(i as int), from@, to@) =~= replace_all(
                s@,
                from@,
                to@,
            ));
        }
    }
    assert(s@.skip(n as int) =~= Seq::<char>::empty());
    let piece = s.substring_char(seg, n);
    r.append(piece);
    assert(r@ =~= replace_all(s@, from@, to@));
    r
}

/// `s` with every `c` removed.
pub fn remove_char_exec(s: &str, c: char) -> (r: String)
    ensures
        r@ == remove_char(s@, c),
{
    let ghost pred = not_char(c);
    let n = s.unicode_len();
    let mut r = String::new();
    assert(s@.take(0).filter(pred) =~= Seq::<char>::empty()) by {
        reveal(Seq::filter);
    }
    for i in 0..n
        invariant
            n == s@.len(),
            pred == not_char(c),
            r@ == s@.take(i as int).filter(pred),
    {
        let x = s.get_char(i);
        assert(s@.take(i + 1) =~= s@.take(i as int).push(x));
        proof {
            s@.take(i as int).lemma_filter_push(x, pred);
        }
        if x != c {
            let piece = s.substring_char(i, i + 1);
            assert(piece@ =~= seq![x]);
            r.append(piece);
        }
    }
    assert(s@.take(n as int) =~= s@);
    r
}

/// `s` with copies of `pat` taken off its end while it ends with one.
pub fn trim_end_pattern_exec<'a>(s: &'a str, pat: &str) -> (r: &'a str)
    ensures
        r@ == trim_end_pattern(s@, pat@),
{
    let cs = chars_of(s);
    let ps = chars_of(pat);
    let m = ps.len();
    let mut end = cs.len();
    assert(s@.take(end as int) =~= s@);
    while m > 0 && m <= end && occurs_at_exec(&cs, &ps, end - m)
        invariant
            cs@ == s@,
            ps@ == pat@,
            m == pat@.len(),
            end <= s@.len(),
            trim_end_pattern(s@, pat@) == trim_end_pattern(s@.take(end as int), pat@),
        decreases end,
    {
        let ghost t = s@.take(end as int);
        assert(t.skip(t.len() - m) =~= s@.subrange(end - m, end as int));
        assert(t.take(t.len() - m) =~= s@.take(end - m));
        end = end - m;
    }
    proof {
        let t = s@.take(end as int);
        if m > 0 && m <= end {
            assert(t.skip(t.len() - m) =~= s@.subrange(end - m, end as int));
        }
    }
    s.substring_char(0, end)
}

/// `s` without its leading and trailing `c`s.
pub fn trim_char_exec(s: &str, c: char) -> (r: &str)
    ensures
        r@ == trim_char(s@, c),
{
    let n = s.unicode_len();
    let mut a: usize = 0;
    assert(s@.skip(0) =~= s@);
    while a < n && s.get_char(a) == c
        invariant
            n == s@.len(),
            a <= n,
            trim_start_char(s@, c) == trim_start_char(s@.skip(a as int), c),
        decreases n - a,
    {
        proof {
            lemma_skip_one(s@, a as int);
        }
        a = a + 1;
    }
    let ghost t = s@.skip(a as int);
    proof {
        if a < n {
            lemma_skip_one(s@, a as int);
        }
    }
    assert(trim_start_char(s@, c) == t);
    let mut b = n;
    assert(t.take(t.len() as int) =~= t);
    assert(s@.subrange(a as int, b as int) =~= t);
    while b > a && s.get_char(b - 1) == c
        invariant
            n == s@.len(),
            a <= b <= n,
            t == s@.skip(a as int),
            trim_end_char(t, c) == trim_end_char(s@.subrange(a as int, b as int), c),
        decreases b,
    {
        assert(s@.subrange(a as int, b as int).drop_last() =~= s@.subrange(a as int, b - 1));
        b = b - 1;
    }
    s.substring_char(a, b)
}

/// `s` without its leading `c`s.
pub fn trim_start_char_exec(s: &str, c: char) -> (r: &str)
    ensures
        r@ == trim_start_char(s@, c),
{
    let n = s.unicode_len();
    let mut a: usize = 0;
    assert(s@.skip(0) =~= s@);
    while a < n && s.get_char(a) == c
        invariant
            n == s@.len(),
            a <= n,
            trim_start_char(s@, c) == trim_start_char(s@.skip(a as int), c),
        decreases n - a,
    {
        proof {
            lemma_skip_one(s@, a as int);
        }
        a = a + 1;
    }
    proof {
        if a < n {
            lemma_skip_one(s@, a as int);
        }
    }
    assert(s@.subrange(a as int, n as int) =~= s@.skip(a as int));
    s.substring_char(a, n)
}

} // verus!

verus! {

pub proof fn lemma_find_from(s: Seq<char>, pat: Seq<char>, i: int)
    ensures
        find_from(s, pat, i) matches Some(k) ==> i <= k && k + pat.len() <= s.len() && occurs_at(s, pat, k),
    decreases s.len() + 1 - i,
{
    if !(i < 0 || i + pat.len() > s.len()) && !occurs_at(s, pat, i) {
        lemma_find_from(s, pat, i + 1);
    }
}

} // verus!

verus! {

/// A piece without the `\r` that ends it, if one does.
pub open spec fn strip_cr(p: Seq<char>) -> Seq<char> {
    if p.len() > 0 && p.last() == '\r' {
        p.drop_last()
    } else {
        p
    }
}

/// The lines of `s` as `str::lines` yields them: split at each `\n`, with a
/// `\r` just before a `\n` dropped, and no empty line after a closing `\n`.
pub open spec fn text_lines(s: Seq<char>) -> Seq<Seq<char>> {
    let pieces = split_on(s, '\n');
    let inner = Seq::new((pieces.len() - 1) as nat, |i: int| strip_cr(pieces[i]));
    if pieces.last().len() == 0 {
        inner
    } else {
        inner.push(pieces.last())
    }
}

fn strip_cr_exec(p: &str) -> (r: String)
    ensures
        r@ == strip_cr(p@),
{
    let n = p.unicode_len();
    if n > 0 && p.get_char(n - 1) == '\r' {
        let r = to_owned_string(p.substring_char(0, n - 1));
        assert(r@ =~= p@.drop_last());
        r
    } else {
        to_owned_string(p)
    }
}

/// The lines of a text.
pub fn lines_of(s: &str) -> (r: Vec<String>)
    ensures
        views(r@) == text_lines(s@),
{
    let pieces = split_str(s, '\n');
    proof {
        lemma_split_on_nonempty(s@, '\n');
    }
    let ghost pv = split_on(s@, '\n');
    let n = pieces.len();
    let mut out: Vec<String> = Vec::new();
    for i in 0..n - 1
        invariant
            n == pv.len(),
            n >= 1,
            views(pieces@) == pv,
            views(out@) == Seq::new(i as nat, |j: int| strip_cr(pv[j])),
    {
        let ghost before = views(out@);
        assert(pieces@[i as int]@ == pv[i as int]);
        let line = strip_cr_exec(pieces[i].as_str());
        out.push(line);
        assert(views(out@) =~= before.push(strip_cr(pv[i as int])));
        assert(views(out@) =~= Seq::new((i + 1) as nat, |j: int| strip_cr(pv[j])));
    }
    assert(pieces@[n - 1]@ == pv.last());
    if pieces[n - 1].unicode_len() > 0 {
        let ghost before = views(out@);
        out.push(pieces[n - 1].clone());
        assert(views(out@) =~= before.push(pv.last()));
    }
    out
}


/// A copy of a list of strings.
pub fn copy_strings(v: &Vec<String>) -> (r: Vec<String>)
    ensures
        views(r@) == views(v@),
        r@.len() == v@.len(),
{
    let mut r: Vec<String> = Vec::new();
    let n = v.len();
    for i in 0..n
        invariant
            n == v@.len(),
            views(r@) == views(v@).take(i as int),
    {
        let ghost before = views(r@);
        let s = v[i].clone();
        r.push(s);
        assert(views(r@) =~= before.push(v@[i as int]@));
        assert(views(v@).take(i + 1) =~= views(v@).take(i as int).push(v@[i as int]@));
    }
    assert(views(v@).take(n as int) =~= views(v@));
    r
}

} // verus!

verus! {

/// Splitting at a separator splits the parts on either side of it.
pub proof fn lemma_split_concat(a: Seq<char>, b: Seq<char>, sep: char)
    ensures
        split_on(a + seq![sep] + b, sep) == split_on(a, sep) + split_on(b, sep),
    decreases b.len(),
{
    let s = a + seq![sep] + b;
    if b.len() == 0 {
        assert(s.drop_last() =~= a);
        assert(split_on(b, sep) =~= seq![Seq::<char>::empty()]);
        assert(split_on(s, sep) =~= split_on(a, sep) + split_on(b, sep));
    } else {
        lemma_split_concat(a, b.drop_last(), sep);
        lemma_split_on_nonempty(b.drop_last(), sep);
        lemma_split_on_nonempty(a, sep);
        assert(s.drop_last() =~= a + seq![sep] + b.drop_last());
        assert(s.last() == b.last());
        let x = split_on(a, sep);
        let y = split_on(b.drop_last(), sep);
        if b.last() == sep {
            assert(split_on(s, sep) =~= x + split_on(b, sep));
        } else {
            assert((x + y).last() == y.last());
            assert(split_on(s, sep) =~= x + split_on(b, sep));
        }
    }
}

/// A string without the separator is one piece.
pub proof fn lemma_split_none(a: Seq<char>, sep: char)
    requires
        !a.contains(sep),
    ensures
        split_on(a, sep) == seq![a],
    decreases a.len(),
{
    if a.len() > 0 {
        assert(!a.drop_last().contains(sep)) by {
            if a.drop_last().contains(sep) {
                let i = choose|i: int| 0 <= i < a.drop_last().len() && a.drop_last()[i] == sep;
                assert(a[i] == sep);
            }
        }
        lemma_split_none(a.drop_last(), sep);
        assert(a.last() != sep) by {
            assert(a[a.len() - 1] == a.last());
        }
        assert(a.drop_last().push(a.last()) =~= a);
    } else {
        assert(a =~= Seq::<char>::empty());
    }
}

/// Splitting what was joined with a separator that none of the parts
/// holds gives the parts back.
pub proof fn lemma_split_join(parts: Seq<Seq<char>>, sep: char)
    requires
        parts.len() >= 1,
        forall|i: int| 0 <= i < parts.len() ==> !(#[trigger] parts[i]).contains(sep),
    ensures
        split_on(join_with(parts, seq![sep]), sep) == parts,
    decreases parts.len(),
{
    if parts.len() == 1 {
        lemma_split_none(parts[0], sep);
        assert(seq![parts[0]] =~= parts);
    } else {
        let d = parts.drop_last();
        assert forall|i: int| 0 <= i < d.len() implies !(#[trigger] d[i]).contains(sep) by {
            assert(d[i] == parts[i]);
        }
        lemma_split_join(d, sep);
        lemma_split_concat(join_with(d, seq![sep]), parts.last(), sep);
        lemma_split_none(parts.last(), sep);
        assert(d + seq![parts.last()] =~= parts);
    }
}

} // verus!

verus! {

/// `s` without its trailing `c`s.
pub fn trim_end_char_exec(s: &str, c: char) -> (r: &str)
    ensures
        r@ == trim_end_char(s@, c),
{
    let n = s.unicode_len();
    let mut b = n;
    assert(s@.subrange(0, n as int) =~= s@);
    while b > 0 && s.get_char(b - 1) == c
        invariant
            n == s@.len(),
            b <= n,
            trim_end_char(s@, c) == trim_end_char(s@.subrange(0, b as int), c),
        decreases b,
    {
        assert(s@.subrange(0, b as int).drop_last() =~= s@.subrange(0, b - 1));
        b = b - 1;
    }
    s.substring_char(0, b)
}

} // verus!
