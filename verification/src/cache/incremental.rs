//! A cache of the violations found per file, keyed by path and checked by
//! the hash of the file's content, and the text it is kept in on disk.

use vstd::prelude::*;

use crate::numbers::{lemma_parse_decimal, parse_u64, parsed_u64, u64_decimal};
use crate::paths::{join_path, path_join, same_path, same_path_exec};
use crate::text::{
    copy_strings, decimal, join_strings, join_with, lines_of, split_on, split_str, strip_cr, text_lines,
    to_owned_string, views,
};

verus! {

/// The XXH3 64-bit hash of a byte string.
pub uninterp spec fn xxh3_digest(data: Seq<u8>) -> u64;

/// `xxhash_rust::xxh3::xxh3_64`: the 64-bit XXH3 hash of `data`, which
/// depends on the bytes alone.
#[verifier::external_body]
fn content_hash(data: &[u8]) -> (h: u64)
    ensures
        h == xxh3_digest(data@),
{
    xxhash_rust::xxh3::xxh3_64(data)
}

#[verifier::external_type_specification]
#[verifier::external_body]
pub struct ExSystemTime(std::time::SystemTime);

#[verifier::external_type_specification]
#[verifier::external_body]
pub struct ExSystemTimeError(std::time::SystemTimeError);

/// `std::time::SystemTime::now`: what the system clock reads. Nothing is
/// stated of it.
#[verifier::external_body]
fn clock_now() -> std::time::SystemTime {
    std::time::SystemTime::now()
}

/// `std::time::SystemTime::duration_since` with `UNIX_EPOCH` as the earlier
/// time: the time elapsed since the epoch, or an error where `t` is earlier.
/// Nothing is stated of either.
#[verifier::external_body]
fn since_unix_epoch(t: &std::time::SystemTime) -> Result<std::time::Duration, std::time::SystemTimeError> {
    t.duration_since(std::time::UNIX_EPOCH)
}

/// `std::time::Duration::as_secs`: the whole seconds of `d`. A duration is
/// opaque here, so nothing is stated of the number.
#[verifier::external_body]
fn whole_seconds(d: &std::time::Duration) -> u64 {
    d.as_secs()
}

/// The clock in whole seconds since the Unix epoch, or 0 where it reads
/// earlier than the epoch.
fn unix_seconds_now() -> u64 {
    let now = clock_now();
    match since_unix_epoch(&now) {
        Ok(d) => whole_seconds(&d),
        Err(_) => 0,
    }
}

/// What is remembered of one file.
pub struct CacheEntry {
    pub path: String,
    pub content_hash: u64,
    pub mtime: u64,
    pub violations: Vec<String>,
}

/// A cache entry as plain values.
pub struct EntryView {
    pub path: Seq<char>,
    pub content_hash: u64,
    pub mtime: u64,
    pub violations: Seq<Seq<char>>,
}

impl View for CacheEntry {
    type V = EntryView;

    open spec fn view(&self) -> EntryView {
        EntryView {
            path: self.path@,
            content_hash: self.content_hash,
            mtime: self.mtime,
            violations: views(self.violations@),
        }
    }
}

impl Clone for CacheEntry {
    fn clone(&self) -> (r: Self)
        ensures
            r@ == self@,
    {
        CacheEntry {
            path: self.path.clone(),
            content_hash: self.content_hash,
            mtime: self.mtime,
            violations: copy_strings(&self.violations),
        }
    }
}

/// An entry made of its parts.
pub open spec fn made_entry(path: Seq<char>, content_hash: u64, mtime: u64, violations: Seq<Seq<char>>) -> EntryView {
    EntryView { path, content_hash, mtime, violations }
}

/// The entries of a cache: each key with its entry, in the order they came.
pub type Entries = Seq<(Seq<char>, EntryView)>;

/// The position of the entry whose key is the same path as `p`, looking
/// from the last entry back.
pub open spec fn find_key(es: Entries, p: Seq<char>) -> Option<int>
    decreases es.len(),
{
    if es.len() == 0 {
        None
    } else if same_path(es.last().0, p) {
        Some(es.len() - 1)
    } else {
        find_key(es.drop_last(), p)
    }
}

/// The entry kept for path `p`.
pub open spec fn lookup(es: Entries, p: Seq<char>) -> Option<EntryView> {
    match find_key(es, p) {
        Some(i) => Some(es[i].1),
        None => None,
    }
}

/// No two keys are the same path.
pub open spec fn keys_distinct(es: Entries) -> bool {
    forall|i: int, j: int| 0 <= i < j < es.len() ==> !same_path(#[trigger] es[i].0, #[trigger] es[j].0)
}

/// `e` kept under `k`, as a map insert does: where a key is already the
/// same path, its entry is replaced and the key stays; else `k` is added.
pub open spec fn put(es: Entries, k: Seq<char>, e: EntryView) -> Entries {
    match find_key(es, k) {
        Some(i) => es.update(i, (es[i].0, e)),
        None => es.push((k, e)),
    }
}

/// The entries without the one whose key is the same path as `k`.
pub open spec fn drop_key(es: Entries, k: Seq<char>) -> Entries {
    match find_key(es, k) {
        Some(i) => es.remove(i),
        None => es,
    }
}

/// What a cache holds: its entries and the file it is kept in.
pub struct CacheView {
    pub entries: Entries,
    pub cache_file: Seq<char>,
}

// ---------------------------------------------------------------------------
// The cache file's text
// ---------------------------------------------------------------------------

/// The entry a line of the cache file gives: the path, the content hash,
/// the time and the violations, separated by tabs; none where there are
/// fewer than three fields or a number does not parse.
pub open spec fn line_entry(line: Seq<char>) -> Option<EntryView> {
    let f = split_on(line, '\t');
    if f.len() >= 3 && parsed_u64(f[1]) is Some && parsed_u64(f[2]) is Some {
        Some(
            EntryView {
                path: f[0],
                content_hash: parsed_u64(f[1])->0,
                mtime: parsed_u64(f[2])->0,
                violations: f.skip(3),
            },
        )
    } else {
        None
    }
}

/// The entries after reading `lines` in order into `es`; a line that gives
/// no entry is passed over.
pub open spec fn load_lines(es: Entries, lines: Seq<Seq<char>>) -> Entries
    decreases lines.len(),
{
    if lines.len() == 0 {
        es
    } else {
        let before = load_lines(es, lines.drop_last());
        match line_entry(lines.last()) {
            Some(e) => put(before, e.path, e),
            None => before,
        }
    }
}

/// The line an entry is written as, without its line break: key, hash,
/// time and the violations joined by tabs.
pub open spec fn entry_line(k: Seq<char>, e: EntryView) -> Seq<char> {
    k + "\t"@ + decimal(e.content_hash as nat) + "\t"@ + decimal(e.mtime as nat) + "\t"@ + join_with(
        e.violations,
        "\t"@,
    )
}

/// The text of the cache file: one line per entry, each ended by `\n`.
pub open spec fn saved_text(es: Entries) -> Seq<char>
    decreases es.len(),
{
    if es.len() == 0 {
        Seq::empty()
    } else {
        saved_text(es.drop_last()) + entry_line(es.last().0, es.last().1) + "\n"@
    }
}

// ---------------------------------------------------------------------------
// The cache
// ---------------------------------------------------------------------------

/// Violations per file, valid while the file's content hash is unchanged.
pub struct IncrementalCache {
    entries: Vec<(String, CacheEntry)>,
    cache_file: String,
}

/// The entries of a list of keyed cache entries, as plain values.
pub open spec fn entries_view(v: Seq<(String, CacheEntry)>) -> Entries {
    v.map_values(|p: (String, CacheEntry)| (p.0@, p.1@))
}

impl View for IncrementalCache {
    type V = CacheView;

    closed spec fn view(&self) -> CacheView {
        CacheView { entries: entries_view(self.entries@), cache_file: self.cache_file@ }
    }
}

impl IncrementalCache {
    #[verifier::type_invariant]
    spec fn distinct_keys(self) -> bool {
        keys_distinct(entries_view(self.entries@))
    }

    /// An empty cache kept in `.repo-lint-cache` inside `cache_dir`.
    pub fn new(cache_dir: &str) -> (c: Self)
        ensures
            c@.entries.len() == 0,
            c@.cache_file == path_join(cache_dir@, ".repo-lint-cache"@),
    {
        let c = IncrementalCache { entries: Vec::new(), cache_file: join_path(cache_dir, ".repo-lint-cache") };
        assert(entries_view(c.entries@) =~= Seq::<(Seq<char>, EntryView)>::empty());
        c
    }

    /// The file the cache is kept in.
    pub fn cache_file(&self) -> (r: &str)
        ensures
            r@ == self@.cache_file,
    {
        self.cache_file.as_str()
    }

    /// The entries, in order.
    pub fn entry_list(&self) -> (r: Vec<(String, CacheEntry)>)
        ensures
            entries_view(r@) == self@.entries,
    {
        let n = self.entries.len();
        let mut r: Vec<(String, CacheEntry)> = Vec::new();
        for i in 0..n
            invariant
                n == self.entries@.len(),
                entries_view(r@) == entries_view(self.entries@).take(i as int),
        {
            let ghost before = entries_view(r@);
            let k = self.entries[i].0.clone();
            let e = self.entries[i].1.clone();
            r.push((k, e));
            assert(entries_view(r@) =~= before.push((self.entries@[i as int].0@, self.entries@[i as int].1@)));
            assert(entries_view(r@) =~= entries_view(self.entries@).take(i + 1));
        }
        assert(entries_view(self.entries@).take(n as int) =~= entries_view(self.entries@));
        r
    }

    /// The position of the entry kept for `path`.
    fn position(&self, path: &str) -> (r: Option<usize>)
        ensures
            self@.entries.len() == self.entries@.len(),
            match r {
                Some(i) => find_key(self@.entries, path@) == Some(i as int) && i < self.entries@.len(),
                None => find_key(self@.entries, path@) is None,
            },
    {
        let ghost es = self@.entries;
        let mut cur = self.entries.len();
        assert(es.take(cur as int) =~= es);
        while cur > 0
            invariant
                cur <= self.entries@.len(),
                es == entries_view(self.entries@),
                find_key(es, path@) == find_key(es.take(cur as int), path@),
            decreases cur,
        {
            let ghost t = es.take(cur as int);
            assert(t.drop_last() =~= es.take(cur - 1));
            assert(t.last() == es[cur - 1]);
            if same_path_exec(self.entries[cur - 1].0.as_str(), path) {
                return Some(cur - 1);
            }
            cur = cur - 1;
        }
        None
    }

    /// Whether the entry for `path` was made from content with the same
    /// hash as `content`.
    pub fn is_valid(&self, path: &str, content: &[u8]) -> (r: bool)
        ensures
            r == (lookup(self@.entries, path@) matches Some(e) && e.content_hash == xxh3_digest(content@)),
    {
        match self.position(path) {
            Some(i) => {
                let h = content_hash(content);
                self.entries[i].1.content_hash == h
            },
            None => false,
        }
    }

    /// The violations remembered for `path`.
    pub fn get_cached_violations(&self, path: &str) -> (r: Option<&[String]>)
        ensures
            match r {
                Some(s) => lookup(self@.entries, path@) matches Some(e) && e.violations == views(s@),
                None => lookup(self@.entries, path@) is None,
            },
    {
        match self.position(path) {
            Some(i) => Some(self.entries[i].1.violations.as_slice()),
            None => None,
        }
    }

    /// Keeps `entry` under `key`.
    fn put_entry(&mut self, key: String, entry: CacheEntry)
        ensures
            final(self)@.entries == put(old(self)@.entries, key@, entry@),
            final(self)@.cache_file == old(self)@.cache_file,
    {
        proof {
            use_type_invariant(&*self);
        }
        let pos = self.position(key.as_str());
        let ghost es = self@.entries;
        let mut v: Vec<(String, CacheEntry)> = Vec::new();
        std::mem::swap(&mut v, &mut self.entries);
        assert(entries_view(v@) == es);
        match pos {
            Some(i) => {
                let old_key = v[i].0.clone();
                v.set(i, (old_key, entry));
                assert(entries_view(v@) =~= es.update(i as int, (es[i as int].0, entry@)));
                proof {
                    lemma_put_keeps_distinct(es, key@, entry@);
                }
            },
            None => {
                v.push((key, entry));
                assert(entries_view(v@) =~= es.push((key@, entry@)));
                proof {
                    lemma_put_keeps_distinct(es, key@, entry@);
                }
            },
        }
        self.entries = v;
    }

    /// Remembers `violations` for `path`, with the hash of `content` and
    /// the time `mtime`.
    pub fn update_at(&mut self, path: String, content: &[u8], violations: Vec<String>, mtime: u64)
        ensures
            final(self)@.entries == put(
                old(self)@.entries,
                path@,
                made_entry(path@, xxh3_digest(content@), mtime, views(violations@)),
            ),
            final(self)@.cache_file == old(self)@.cache_file,
            lookup(final(self)@.entries, path@) == Some(
                made_entry(path@, xxh3_digest(content@), mtime, views(violations@)),
            ),
            forall|q: Seq<char>|
                !same_path(path@, q) ==> #[trigger] lookup(final(self)@.entries, q) == lookup(old(self)@.entries, q),
    {
        proof {
            use_type_invariant(&*self);
            let es0 = self@.entries;
            let e = made_entry(path@, xxh3_digest(content@), mtime, views(violations@));
            lemma_lookup_put(es0, path@, e, path@);
            assert forall|q: Seq<char>| !same_path(path@, q) implies #[trigger] lookup(put(es0, path@, e), q)
                == lookup(es0, q) by {
                lemma_lookup_put(es0, path@, e, q);
            }
        }
        let hash = content_hash(content);
        let key = path.clone();
        self.put_entry(key, CacheEntry { path, content_hash: hash, mtime, violations });
    }

    /// Remembers `violations` for `path`, with the hash of `content` and
    /// the time now.
    pub fn update(&mut self, path: String, content: &[u8], violations: Vec<String>)
        ensures
            exists|t: u64|
                final(self)@.entries == put(
                    old(self)@.entries,
                    path@,
                    #[trigger] made_entry(path@, xxh3_digest(content@), t, views(violations@)),
                ) && lookup(final(self)@.entries, path@) == Some(
                    made_entry(path@, xxh3_digest(content@), t, views(violations@)),
                ),
            final(self)@.cache_file == old(self)@.cache_file,
            forall|q: Seq<char>|
                !same_path(path@, q) ==> #[trigger] lookup(final(self)@.entries, q) == lookup(old(self)@.entries, q),
    {
        let t = unix_seconds_now();
        self.update_at(path, content, violations, t);
    }

    /// Forgets the entry for `path`.
    pub fn invalidate(&mut self, path: &str)
        ensures
            final(self)@.entries == drop_key(old(self)@.entries, path@),
            final(self)@.cache_file == old(self)@.cache_file,
            lookup(final(self)@.entries, path@) is None,
            forall|q: Seq<char>|
                !same_path(path@, q) ==> #[trigger] lookup(final(self)@.entries, q) == lookup(old(self)@.entries, q),
    {
        proof {
            use_type_invariant(&*self);
        }
        let ghost es0 = self@.entries;
        proof {
            lemma_lookup_drop(es0, path@, path@);
            assert forall|q: Seq<char>| !same_path(path@, q) implies #[trigger] lookup(drop_key(es0, path@), q)
                == lookup(es0, q) by {
                lemma_lookup_drop(es0, path@, q);
            }
        }
        let pos = self.position(path);
        match pos {
            Some(i) => {
                let ghost es = self@.entries;
                let mut v: Vec<(String, CacheEntry)> = Vec::new();
                std::mem::swap(&mut v, &mut self.entries);
                assert(entries_view(v@) == es);
                v.remove(i);
                assert(entries_view(v@) =~= es.remove(i as int));
                proof {
                    lemma_drop_keeps_distinct(es, path@);
                }
                self.entries = v;
            },
            None => {},
        }
    }

    /// Forgets every entry.
    pub fn clear(&mut self)
        ensures
            final(self)@.entries.len() == 0,
            final(self)@.cache_file == old(self)@.cache_file,
    {
        self.entries = Vec::new();
        assert(entries_view(self.entries@) =~= Seq::<(Seq<char>, EntryView)>::empty());
    }

    /// Reads the entries that the lines of `content` give, each replacing
    /// the entry kept for the same path.
    pub fn load_text(&mut self, content: &str)
        ensures
            final(self)@.entries == load_lines(old(self)@.entries, text_lines(content@)),
            final(self)@.cache_file == old(self)@.cache_file,
    {
        let lines = lines_of(content);
        let ghost lv = views(lines@);
        let ghost start = self@.entries;
        let n = lines.len();
        for i in 0..n
            invariant
                n == lines@.len(),
                lv == views(lines@),
                self@.entries == load_lines(start, lv.take(i as int)),
                self@.cache_file == old(self)@.cache_file,
        {
            assert(lv.take(i + 1).drop_last() =~= lv.take(i as int));
            assert(lv.take(i + 1).last() == lines@[i as int]@);
            match parse_line(lines[i].as_str()) {
                Some(e) => {
                    let key = e.path.clone();
                    self.put_entry(key, e);
                },
                None => {},
            }
        }
        assert(lv.take(n as int) =~= lv);
    }

    /// The text the cache is kept as: one line per entry.
    pub fn to_text(&self) -> (r: String)
        ensures
            r@ == saved_text(self@.entries),
    {
        let ghost es = self@.entries;
        let n = self.entries.len();
        let mut out = String::new();
        assert(es.take(0) =~= Seq::<(Seq<char>, EntryView)>::empty());
        for i in 0..n
            invariant
                n == self.entries@.len(),
                es == entries_view(self.entries@),
                out@ == saved_text(es.take(i as int)),
        {
            let (k, e) = (&self.entries[i].0, &self.entries[i].1);
            assert(es.take(i + 1).drop_last() =~= es.take(i as int));
            assert(es.take(i + 1).last() == es[i as int]);
            out.append(k.as_str());
            out.append("\t");
            out.append(u64_decimal(e.content_hash).as_str());
            out.append("\t");
            out.append(u64_decimal(e.mtime).as_str());
            out.append("\t");
            out.append(join_strings(&e.violations, "\t").as_str());
            out.append("\n");
        }
        assert(es.take(n as int) =~= es);
        out
    }
}

/// The entry a line of the cache file gives.
pub fn parse_line(line: &str) -> (r: Option<CacheEntry>)
    ensures
        match r {
            Some(e) => line_entry(line@) == Some(e@),
            None => line_entry(line@) is None,
        },
{
    let f = split_str(line, '\t');
    let ghost fv = split_on(line@, '\t');
    assert(fv.len() == f@.len());
    if f.len() < 3 {
        return None;
    }
    assert(f@[1]@ == fv[1] && f@[2]@ == fv[2] && f@[0]@ == fv[0]);
    let hash = match parse_u64(f[1].as_str()) {
        Some(h) => h,
        None => {
            return None;
        },
    };
    let mtime = match parse_u64(f[2].as_str()) {
        Some(m) => m,
        None => {
            return None;
        },
    };
    let mut violations: Vec<String> = Vec::new();
    let n = f.len();
    for i in 3..n
        invariant
            n == f@.len(),
            views(f@) == fv,
            views(violations@) == fv.subrange(3, i as int),
    {
        let ghost before = views(violations@);
        assert(f@[i as int]@ == fv[i as int]);
        violations.push(f[i].clone());
        assert(views(violations@) =~= before.push(fv[i as int]));
        assert(views(violations@) =~= fv.subrange(3, i + 1));
    }
    assert(fv.subrange(3, n as int) =~= fv.skip(3));
    Some(CacheEntry { path: f[0].clone(), content_hash: hash, mtime, violations })
}

// ---------------------------------------------------------------------------
// Laws
// ---------------------------------------------------------------------------

/// With distinct keys, the entry found for `p` is the one whose key is the
/// same path as `p`.
pub proof fn lemma_find_key_distinct(es: Entries, p: Seq<char>, i: int)
    requires
        keys_distinct(es),
        0 <= i < es.len(),
        same_path(es[i].0, p),
    ensures
        find_key(es, p) == Some(i),
    decreases es.len(),
{
    if i < es.len() - 1 {
        assert(!same_path(es.last().0, p)) by {
            assert(!same_path(es[i].0, es[es.len() - 1].0));
        }
        assert(keys_distinct(es.drop_last())) by {
            assert forall|a: int, b: int| 0 <= a < b < es.drop_last().len() implies !same_path(
                #[trigger] es.drop_last()[a].0,
                #[trigger] es.drop_last()[b].0,
            ) by {
                assert(es.drop_last()[a] == es[a] && es.drop_last()[b] == es[b]);
            }
        }
        lemma_find_key_distinct(es.drop_last(), p, i);
    }
}

/// What `find_key` returns is a key that is the same path; none means no
/// key is.
pub proof fn lemma_find_key(es: Entries, p: Seq<char>)
    ensures
        match find_key(es, p) {
            Some(i) => 0 <= i < es.len() && same_path(es[i].0, p),
            None => forall|j: int| 0 <= j < es.len() ==> !same_path(#[trigger] es[j].0, p),
        },
    decreases es.len(),
{
    if es.len() > 0 && !same_path(es.last().0, p) {
        lemma_find_key(es.drop_last(), p);
        let d = es.drop_last();
        match find_key(d, p) {
            Some(i) => {
                assert(d[i] == es[i]);
            },
            None => {
                assert forall|j: int| 0 <= j < es.len() implies !same_path(#[trigger] es[j].0, p) by {
                    if j < es.len() - 1 {
                        assert(d[j] == es[j]);
                    }
                }
            },
        }
    }
}

/// Keeping an entry keeps the keys distinct.
pub proof fn lemma_put_keeps_distinct(es: Entries, k: Seq<char>, e: EntryView)
    requires
        keys_distinct(es),
    ensures
        keys_distinct(put(es, k, e)),
{
    lemma_find_key(es, k);
    let r = put(es, k, e);
    match find_key(es, k) {
        Some(i) => {
            assert forall|a: int, b: int| 0 <= a < b < r.len() implies !same_path(#[trigger] r[a].0, #[trigger] r[b].0) by {
                assert(r[a].0 == es[a].0 && r[b].0 == es[b].0);
            }
        },
        None => {
            assert forall|a: int, b: int| 0 <= a < b < r.len() implies !same_path(#[trigger] r[a].0, #[trigger] r[b].0) by {
                if b == es.len() {
                    assert(r[a].0 == es[a].0);
                    assert(r[b].0 == k);
                    assert(!same_path(es[a].0, k));
                } else {
                    assert(r[a].0 == es[a].0 && r[b].0 == es[b].0);
                }
            }
        },
    }
}

/// Dropping an entry keeps the keys distinct.
pub proof fn lemma_drop_keeps_distinct(es: Entries, k: Seq<char>)
    requires
        keys_distinct(es),
    ensures
        keys_distinct(drop_key(es, k)),
{
    lemma_find_key(es, k);
    let r = drop_key(es, k);
    match find_key(es, k) {
        Some(i) => {
            assert forall|a: int, b: int| 0 <= a < b < r.len() implies !same_path(#[trigger] r[a].0, #[trigger] r[b].0) by {
                let a2 = if a < i { a } else { a + 1 };
                let b2 = if b < i { b } else { b + 1 };
                assert(r[a] == es[a2] && r[b] == es[b2]);
            }
        },
        None => {},
    }
}

/// What is kept for a path is then found for it, and what is found for a
/// different path is unchanged.
pub proof fn lemma_lookup_put(es: Entries, k: Seq<char>, e: EntryView, q: Seq<char>)
    requires
        keys_distinct(es),
    ensures
        lookup(put(es, k, e), k) == Some(e),
        !same_path(k, q) ==> lookup(put(es, k, e), q) == lookup(es, q),
{
    lemma_find_key(es, k);
    lemma_find_key(es, q);
    lemma_put_keeps_distinct(es, k, e);
    let r = put(es, k, e);
    match find_key(es, k) {
        Some(i) => {
            assert(r[i].0 == es[i].0);
            lemma_find_key_distinct(r, k, i);
            if !same_path(k, q) {
                match find_key(es, q) {
                    Some(j) => {
                        assert(j != i);
                        assert(r[j] == es[j]);
                        lemma_find_key_distinct(r, q, j);
                    },
                    None => {
                        lemma_find_key(r, q);
                        if find_key(r, q) is Some {
                            let j = find_key(r, q)->0;
                            if j != i {
                                assert(r[j] == es[j]);
                            }
                        }
                    },
                }
            }
        },
        None => {
            assert(r.last().0 == k);
            assert(same_path(k, k));
            if !same_path(k, q) {
                assert(r.drop_last() =~= es);
            }
        },
    }
}

/// After an entry is dropped, nothing is found for its path, and what is
/// found for a different path is unchanged.
pub proof fn lemma_lookup_drop(es: Entries, k: Seq<char>, q: Seq<char>)
    requires
        keys_distinct(es),
    ensures
        lookup(drop_key(es, k), k) is None,
        !same_path(k, q) ==> lookup(drop_key(es, k), q) == lookup(es, q),
{
    lemma_find_key(es, k);
    lemma_find_key(es, q);
    lemma_drop_keeps_distinct(es, k);
    let r = drop_key(es, k);
    lemma_find_key(r, k);
    lemma_find_key(r, q);
    match find_key(es, k) {
        Some(i) => {
            if find_key(r, k) is Some {
                let j = find_key(r, k)->0;
                let j2 = if j < i { j } else { j + 1 };
                assert(r[j] == es[j2]);
                assert(!same_path(es[i].0, es[j2].0) || i == j2);
            }
            if !same_path(k, q) {
                match find_key(es, q) {
                    Some(j) => {
                        assert(j != i);
                        let j1 = if j < i { j } else { j - 1 };
                        assert(r[j1] == es[j]);
                        lemma_find_key_distinct(r, q, j1);
                    },
                    None => {
                        if find_key(r, q) is Some {
                            let j = find_key(r, q)->0;
                            let j2 = if j < i { j } else { j + 1 };
                            assert(r[j] == es[j2]);
                        }
                    },
                }
            }
        },
        None => {},
    }
}

/// An entry whose line keeps its contents: at least one violation, no tab
/// or line break in the key or a violation, and no carriage return closing
/// the last violation.
pub open spec fn line_keeps(k: Seq<char>, e: EntryView) -> bool {
    &&& !k.contains('\t') && !k.contains('\n')
    &&& e.violations.len() >= 1
    &&& forall|i: int| 0 <= i < e.violations.len()
        ==> !(#[trigger] e.violations[i]).contains('\t') && !e.violations[i].contains('\n')
    &&& !(e.violations.last().len() > 0 && e.violations.last().last() == '\r')
}

/// An entry that its line gives back: kept under its own path, with at
/// least one violation, no tab or line break in the path or a violation,
/// and no carriage return closing the last violation.
pub open spec fn writes_back(k: Seq<char>, e: EntryView) -> bool {
    &&& e.path == k
    &&& !k.contains('\t') && !k.contains('\n')
    &&& e.violations.len() >= 1
    &&& forall|i: int| 0 <= i < e.violations.len()
        ==> !(#[trigger] e.violations[i]).contains('\t') && !e.violations[i].contains('\n')
    &&& !(e.violations.last().len() > 0 && e.violations.last().last() == '\r')
}

/// The lines of the entries, in order.
pub open spec fn entry_lines(es: Entries) -> Seq<Seq<char>> {
    Seq::new(es.len(), |i: int| entry_line(es[i].0, es[i].1))
}

proof fn lemma_no_tab_in_decimal(n: nat)
    ensures
        !decimal(n).contains('\t'),
        !decimal(n).contains('\n'),
{
    crate::numbers::lemma_decimal_value(n);
    let d = decimal(n);
    assert forall|i: int| 0 <= i < d.len() implies d[i] != '\t' && d[i] != '\n' by {
        assert(crate::text::is_digit(d[i]));
    }
}

/// A line that an entry was written as gives the entry back.
proof fn lemma_line_entry(k: Seq<char>, e: EntryView)
    requires
        writes_back(k, e),
    ensures
        line_entry(entry_line(k, e)) == Some(e),
        !entry_line(k, e).contains('\n'),
        !(entry_line(k, e).len() > 0 && entry_line(k, e).last() == '\r'),
{
    reveal_strlit("\t");
    let dh = decimal(e.content_hash as nat);
    let dm = decimal(e.mtime as nat);
    let j = join_with(e.violations, seq!['\t']);
    assert("\t"@ =~= seq!['\t']);
    let line = entry_line(k, e);
    assert(line =~= k + seq!['\t'] + (dh + seq!['\t'] + (dm + seq!['\t'] + j)));
    lemma_no_tab_in_decimal(e.content_hash as nat);
    lemma_no_tab_in_decimal(e.mtime as nat);
    crate::text::lemma_split_join(e.violations, '\t');
    crate::text::lemma_split_concat(dm, j, '\t');
    crate::text::lemma_split_concat(dh, dm + seq!['\t'] + j, '\t');
    crate::text::lemma_split_concat(k, dh + seq!['\t'] + (dm + seq!['\t'] + j), '\t');
    crate::text::lemma_split_none(k, '\t');
    crate::text::lemma_split_none(dh, '\t');
    crate::text::lemma_split_none(dm, '\t');
    let f = split_on(line, '\t');
    assert(f =~= seq![k, dh, dm] + e.violations);
    lemma_parse_decimal(e.content_hash);
    lemma_parse_decimal(e.mtime);
    assert(f.skip(3) =~= e.violations);
    lemma_no_break_in_join(e.violations);
    assert(!line.contains('\n')) by {
        if line.contains('\n') {
            let i = choose|i: int| 0 <= i < line.len() && line[i] == '\n';
            let pre = k + seq!['\t'] + dh + seq!['\t'] + dm + seq!['\t'];
            assert(line =~= pre + j);
            if i < k.len() {
                assert(k[i] == '\n');
            } else if i < k.len() + 1 + dh.len() + 1 + dm.len() + 1 {
                let i2 = i - k.len() - 1;
                if i2 >= 0 && i2 < dh.len() {
                    assert(dh[i2] == '\n');
                } else if i2 > dh.len() && i2 - dh.len() - 1 < dm.len() {
                    assert(dm[i2 - dh.len() - 1] == '\n');
                }
            } else {
                assert(j[i - pre.len()] == '\n');
            }
        }
    }
    lemma_join_ends(e.violations);
    let pre = k + seq!['\t'] + dh + seq!['\t'] + dm + seq!['\t'];
    assert(line =~= pre + j);
}

/// No line break in a tab-joined list of strings without one.
proof fn lemma_no_break_in_join(v: Seq<Seq<char>>)
    requires
        forall|i: int| 0 <= i < v.len() ==> !(#[trigger] v[i]).contains('\n'),
    ensures
        !join_with(v, seq!['\t']).contains('\n'),
    decreases v.len(),
{
    if v.len() > 1 {
        let d = v.drop_last();
        assert forall|i: int| 0 <= i < d.len() implies !(#[trigger] d[i]).contains('\n') by {
            assert(d[i] == v[i]);
        }
        lemma_no_break_in_join(d);
        let a = join_with(d, seq!['\t']);
        let b = v.last();
        assert(!b.contains('\n')) by {
            assert(v[v.len() - 1] == b);
        }
        let j = join_with(v, seq!['\t']);
        assert(j =~= a + seq!['\t'] + b);
        if j.contains('\n') {
            let i = choose|i: int| 0 <= i < j.len() && j[i] == '\n';
            if i < a.len() {
                assert(a[i] == '\n');
            } else if i > a.len() {
                assert(b[i - a.len() - 1] == '\n');
            }
        }
    } else if v.len() == 1 {
        assert(!v[0].contains('\n'));
    }
}

/// A tab-joined non-empty list ends with its last string, after a tab where
/// that string is empty and not alone.
proof fn lemma_join_ends(v: Seq<Seq<char>>)
    requires
        v.len() >= 1,
    ensures
        v.len() == 1 ==> join_with(v, seq!['\t']) == v[0],
        v.len() > 1 ==> join_with(v, seq!['\t']) == join_with(v.drop_last(), seq!['\t']) + seq!['\t'] + v.last(),
{
}

/// The saved text is the entry lines joined by line breaks, with a closing
/// line break.
proof fn lemma_saved_text(es: Entries)
    requires
        es.len() >= 1,
    ensures
        saved_text(es) == join_with(entry_lines(es), "\n"@) + "\n"@,
    decreases es.len(),
{
    let d = es.drop_last();
    assert(entry_lines(es).drop_last() =~= entry_lines(d));
    if es.len() == 1 {
        assert(saved_text(d) =~= Seq::<char>::empty());
        assert(saved_text(es) =~= entry_line(es.last().0, es.last().1) + "\n"@);
    } else {
        lemma_saved_text(d);
        assert(entry_lines(es).last() == entry_line(es.last().0, es.last().1));
    }
}

/// Reading the lines of distinct entries into an empty cache gives the
/// entries.
proof fn lemma_load_entry_lines(es: Entries)
    requires
        keys_distinct(es),
        forall|i: int| 0 <= i < es.len() ==> writes_back(#[trigger] es[i].0, es[i].1),
    ensures
        load_lines(Seq::empty(), entry_lines(es)) == es,
    decreases es.len(),
{
    if es.len() == 0 {
        assert(entry_lines(es) =~= Seq::<Seq<char>>::empty());
        assert(es =~= Seq::<(Seq<char>, EntryView)>::empty());
    } else {
        let d = es.drop_last();
        assert(keys_distinct(d)) by {
            assert forall|a: int, b: int| 0 <= a < b < d.len() implies !same_path(#[trigger] d[a].0, #[trigger] d[b].0) by {
                assert(d[a] == es[a] && d[b] == es[b]);
            }
        }
        assert forall|i: int| 0 <= i < d.len() implies writes_back(#[trigger] d[i].0, d[i].1) by {
            assert(d[i] == es[i]);
        }
        lemma_load_entry_lines(d);
        let ls = entry_lines(es);
        assert(ls.drop_last() =~= entry_lines(d));
        let (k, e) = es.last();
        assert(writes_back(es[es.len() - 1].0, es[es.len() - 1].1));
        lemma_line_entry(k, e);
        lemma_find_key(d, k);
        if find_key(d, k) is Some {
            let j = find_key(d, k)->0;
            assert(d[j] == es[j]);
            assert(same_path(es[j].0, k));
            assert(!same_path(es[j].0, es[es.len() - 1].0));
        }
        assert(d.push((k, e)) =~= es);
    }
}

/// Writing a cache's entries out and reading the text into an empty cache
/// gives the same entries, in the same order, for entries that their lines
/// give back.
pub proof fn lemma_save_load(es: Entries)
    requires
        keys_distinct(es),
        forall|i: int| 0 <= i < es.len() ==> writes_back(#[trigger] es[i].0, es[i].1),
    ensures
        load_lines(Seq::empty(), text_lines(saved_text(es))) == es,
{
    if es.len() == 0 {
        assert(saved_text(es) =~= Seq::<char>::empty());
        assert(split_on(Seq::<char>::empty(), '\n') =~= seq![Seq::<char>::empty()]);
        assert(text_lines(saved_text(es)) =~= Seq::<Seq<char>>::empty());
        assert(es =~= Seq::<(Seq<char>, EntryView)>::empty());
    } else {
        reveal_strlit("\n");
        assert("\n"@ =~= seq!['\n']);
        lemma_saved_text(es);
        let ls = entry_lines(es);
        assert forall|i: int| 0 <= i < ls.len() implies !(#[trigger] ls[i]).contains('\n')
            && !(ls[i].len() > 0 && ls[i].last() == '\r') by {
            assert(writes_back(es[i].0, es[i].1));
            lemma_line_entry(es[i].0, es[i].1);
        }
        crate::text::lemma_split_join(ls, '\n');
        let j = join_with(ls, seq!['\n']);
        let t = saved_text(es);
        assert(t =~= j.push('\n'));
        assert(t.drop_last() =~= j);
        assert(split_on(t, '\n') =~= ls.push(Seq::<char>::empty()));
        assert(text_lines(t) =~= ls);
        lemma_load_entry_lines(es);
    }
}


/// The entries with each one's path set to the key it is kept under.
pub open spec fn rekeyed(es: Entries) -> Entries {
    es.map_values(|p: (Seq<char>, EntryView)| (p.0, EntryView { path: p.0, ..p.1 }))
}

proof fn lemma_saved_text_rekeyed(es: Entries)
    ensures
        saved_text(rekeyed(es)) == saved_text(es),
    decreases es.len(),
{
    if es.len() > 0 {
        assert(rekeyed(es).drop_last() =~= rekeyed(es.drop_last()));
        lemma_saved_text_rekeyed(es.drop_last());
    }
}

proof fn lemma_find_key_rekeyed(es: Entries, q: Seq<char>)
    ensures
        find_key(rekeyed(es), q) == find_key(es, q),
    decreases es.len(),
{
    if es.len() > 0 {
        assert(rekeyed(es).drop_last() =~= rekeyed(es.drop_last()));
        lemma_find_key_rekeyed(es.drop_last(), q);
    }
}

/// Writing a cache's entries out and reading the text into an empty cache
/// keeps what every lookup finds, for entries whose lines keep their
/// contents: an entry exactly for the paths that had one, with the same
/// hash, time and violations; its path becomes the key it was kept under.
pub proof fn lemma_save_load_lookups(es: Entries, q: Seq<char>)
    requires
        keys_distinct(es),
        forall|i: int| 0 <= i < es.len() ==> line_keeps(#[trigger] es[i].0, es[i].1),
    ensures
        (lookup(load_lines(Seq::empty(), text_lines(saved_text(es))), q) is Some) == (lookup(es, q) is Some),
        lookup(es, q) matches Some(e) ==> (lookup(load_lines(Seq::empty(), text_lines(saved_text(es))), q) matches Some(
            f,
        ) && f.content_hash == e.content_hash && f.mtime == e.mtime && f.violations == e.violations),
{
    let r = rekeyed(es);
    assert(keys_distinct(r)) by {
        assert forall|a: int, b: int| 0 <= a < b < r.len() implies !same_path(#[trigger] r[a].0, #[trigger] r[b].0) by {
            assert(r[a].0 == es[a].0 && r[b].0 == es[b].0);
        }
    }
    assert forall|i: int| 0 <= i < r.len() implies writes_back(#[trigger] r[i].0, r[i].1) by {
        assert(line_keeps(es[i].0, es[i].1));
    }
    lemma_save_load(r);
    lemma_saved_text_rekeyed(es);
    lemma_find_key_rekeyed(es, q);
    lemma_find_key(es, q);
}

} // verus!
