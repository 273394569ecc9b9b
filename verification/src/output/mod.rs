//! Reports of violations: the order they are listed in, and what each
//! output format holds.

pub mod console;
pub mod json;
pub mod sarif;

pub use console::ConsoleReporter;
pub use json::{JsonOutput, JsonReporter, JsonSummary, JsonViolation};
pub use sarif::{SarifContent, SarifReporter, SarifResultInfo, SarifRuleInfo};

use vstd::prelude::*;

use crate::cli::inspect::key_before;
use crate::engine::matcher::{violations_view, Severity, Violation, ViolationView};
use crate::engine::rules::unicode_lowercase;

verus! {

/// The format a report is written in.
#[derive(Debug, Clone, Copy, PartialEq, Eq, Structural)]
pub enum OutputFormat {
    Console,
    Json,
    Sarif,
}

/// The format a name selects, ignoring case: `console` or `text`, `json`,
/// `sarif`.
pub open spec fn format_named(lower: Seq<char>) -> Option<OutputFormat> {
    if lower == "console"@ || lower == "text"@ {
        Some(OutputFormat::Console)
    } else if lower == "json"@ {
        Some(OutputFormat::Json)
    } else if lower == "sarif"@ {
        Some(OutputFormat::Sarif)
    } else {
        None
    }
}

/// Reads an output format name, ignoring case.
pub fn parse_output_format(s: &str) -> (r: Result<OutputFormat, String>)
    ensures
        match format_named(unicode_lowercase(s@)) {
            Some(f) => r == Ok::<OutputFormat, String>(f),
            None => r matches Err(m) && m@ == "Unknown output format: "@ + s@,
        },
{
    let lower = crate::engine::rules::lowercase(s);
    let l = lower.as_str();
    if crate::text::str_eq(l, "console") || crate::text::str_eq(l, "text") {
        Ok(OutputFormat::Console)
    } else if crate::text::str_eq(l, "json") {
        Ok(OutputFormat::Json)
    } else if crate::text::str_eq(l, "sarif") {
        Ok(OutputFormat::Sarif)
    } else {
        let mut m = String::from_str("Unknown output format: ");
        m.append(s);
        Err(m)
    }
}

impl std::str::FromStr for OutputFormat {
    type Err = String;

    fn from_str(s: &str) -> (r: Result<Self, Self::Err>)
        ensures
            match format_named(unicode_lowercase(s@)) {
                Some(f) => r == Ok::<OutputFormat, String>(f),
                None => r matches Err(m) && m@ == "Unknown output format: "@ + s@,
            },
    {
        parse_output_format(s)
    }
}

/// Two names that lowercase alike select the same format.
pub proof fn lemma_format_ignores_case(a: Seq<char>, b: Seq<char>)
    requires
        unicode_lowercase(a) == unicode_lowercase(b),
    ensures
        format_named(unicode_lowercase(a)) == format_named(unicode_lowercase(b)),
{
}

// ---------------------------------------------------------------------------
// The order violations are listed in
// ---------------------------------------------------------------------------

/// Whether violation `a` is listed before `b`: by path, then by rule.
pub open spec fn listed_before(a: ViolationView, b: ViolationView) -> bool {
    key_before(a.path, b.path) || (a.path == b.path && key_before(a.rule_id, b.rule_id))
}

/// The first of the unused violations that no other unused one is listed
/// before, looking from position `i` with `best` the one found so far.
pub open spec fn first_unused_least(vs: Seq<ViolationView>, used: Seq<bool>, i: int, best: Option<int>) -> Option<int>
    decreases vs.len() - i,
{
    if i < 0 || i >= vs.len() {
        best
    } else if used[i] {
        first_unused_least(vs, used, i + 1, best)
    } else {
        match best {
            None => first_unused_least(vs, used, i + 1, Some(i)),
            Some(b) => if listed_before(vs[i], vs[b]) {
                first_unused_least(vs, used, i + 1, Some(i))
            } else {
                first_unused_least(vs, used, i + 1, best)
            },
        }
    }
}

/// The positions of `k` more violations in listing order, leaving out the
/// `used` ones; violations with the same path and rule keep their order.
pub open spec fn listing_order(vs: Seq<ViolationView>, used: Seq<bool>, k: nat) -> Seq<int>
    decreases k,
{
    if k == 0 {
        Seq::empty()
    } else {
        match first_unused_least(vs, used, 0, None) {
            Some(m) => seq![m] + listing_order(vs, used.update(m, true), (k - 1) as nat),
            None => Seq::empty(),
        }
    }
}

/// The violations in listing order.
pub open spec fn sorted_violations(vs: Seq<ViolationView>) -> Seq<ViolationView> {
    listing_order(vs, Seq::new(vs.len(), |i: int| false), vs.len()).map_values(|i: int| vs[i])
}

/// Whether `a` comes before `b` in listing order.
fn violation_before(a: &Violation, b: &Violation) -> (r: bool)
    ensures
        r == listed_before(a@, b@),
{
    if crate::cli::inspect::key_less(a.path.as_str(), b.path.as_str()) {
        return true;
    }
    if crate::text::str_eq(a.path.as_str(), b.path.as_str()) {
        return crate::cli::inspect::key_less(a.rule_id.as_str(), b.rule_id.as_str());
    }
    false
}

/// The violations sorted by path, then by rule; the sort is stable.
pub fn sort_violations(violations: &Vec<Violation>) -> (r: Vec<Violation>)
    ensures
        violations_view(r@) == sorted_violations(violations_view(violations@)),
{
    let ghost vv = violations_view(violations@);
    let n = violations.len();
    let mut used: Vec<bool> = Vec::new();
    for i in 0..n
        invariant
            n == violations@.len(),
            used@ == Seq::new(i as nat, |j: int| false),
    {
        used.push(false);
        assert(used@ =~= Seq::new((i + 1) as nat, |j: int| false));
    }
    let mut order: Vec<usize> = Vec::new();
    let mut out: Vec<Violation> = Vec::new();
    let mut k: usize = n;
    while k > 0
        invariant
            n == violations@.len(),
            vv == violations_view(violations@),
            used@.len() == n,
            k <= n,
            forall|j: int| 0 <= j < order@.len() ==> #[trigger] order@[j] < n,
            violations_view(out@) == order@.map_values(|x: usize| x as int).map_values(|i: int| vv[i]),
            order@.map_values(|x: usize| x as int) + listing_order(vv, used@, k as nat) == listing_order(
                vv,
                Seq::new(n as nat, |j: int| false),
                n as nat,
            ),
        decreases k,
    {
        let mut best: Option<usize> = None;
        let mut j: usize = 0;
        while j < n
            invariant
                n == violations@.len(),
                vv == violations_view(violations@),
                used@.len() == n,
                j <= n,
                best matches Some(b) ==> b < n,
                first_unused_least(vv, used@, 0, None) == first_unused_least(
                    vv,
                    used@,
                    j as int,
                    match best {
                        Some(b) => Some(b as int),
                        None => None,
                    },
                ),
            decreases n - j,
        {
            if !used[j] {
                match best {
                    None => {
                        best = Some(j);
                    },
                    Some(b) => {
                        assert(vv[j as int] == violations@[j as int]@);
                        assert(vv[b as int] == violations@[b as int]@);
                        if violation_before(&violations[j], &violations[b]) {
                            best = Some(j);
                        }
                    },
                }
            }
            j = j + 1;
        }
        let ghost before = order@.map_values(|x: usize| x as int);
        let ghost out_before = violations_view(out@);
        match best {
            Some(m) => {
                order.push(m);
                let c = violations[m].clone();
                assert(c@ == vv[m as int]);
                out.push(c);
                let ghost old_used = used@;
                used.set(m, true);
                assert(order@.map_values(|x: usize| x as int) =~= before.push(m as int));
                assert(violations_view(out@) =~= out_before.push(vv[m as int]));
                assert(order@.map_values(|x: usize| x as int).map_values(|i: int| vv[i]) =~= before.map_values(
                    |i: int| vv[i],
                ).push(vv[m as int]));
                assert(listing_order(vv, old_used, k as nat) == seq![m as int] + listing_order(
                    vv,
                    old_used.update(m as int, true),
                    (k - 1) as nat,
                ));
                k = k - 1;
            },
            None => {
                assert(listing_order(vv, used@, k as nat) == Seq::<int>::empty());
                k = 0;
            },
        }
    }
    assert(order@.map_values(|x: usize| x as int) == listing_order(vv, Seq::new(n as nat, |j: int| false), n as nat));
    out
}

/// The number of violations of the given severity.
pub open spec fn count_severity(vs: Seq<ViolationView>, s: Severity) -> nat
    decreases vs.len(),
{
    if vs.len() == 0 {
        0
    } else {
        count_severity(vs.drop_last(), s) + (if vs.last().severity == s {
            1nat
        } else {
            0nat
        })
    }
}

/// Counts the violations of a severity.
pub fn count_of(violations: &Vec<Violation>, s: Severity) -> (r: usize)
    ensures
        r == count_severity(violations_view(violations@), s),
{
    let ghost vv = violations_view(violations@);
    let mut c: usize = 0;
    let n = violations.len();
    for i in 0..n
        invariant
            n == violations@.len(),
            vv == violations_view(violations@),
            c == count_severity(vv.take(i as int), s),
            c <= i,
    {
        assert(vv.take(i + 1).drop_last() =~= vv.take(i as int));
        assert(vv[i as int] == violations@[i as int]@);
        if violations[i].severity == s {
            c = c + 1;
        }
    }
    assert(vv.take(n as int) =~= vv);
    c
}

/// Every violation is an error or a warning.
pub proof fn lemma_counts_add_up(vs: Seq<ViolationView>)
    ensures
        count_severity(vs, Severity::Error) + count_severity(vs, Severity::Warning) == vs.len(),
    decreases vs.len(),
{
    if vs.len() > 0 {
        lemma_counts_add_up(vs.drop_last());
    }
}

} // verus!

verus! {

// ---------------------------------------------------------------------------
// The listing order is a sorted permutation
// ---------------------------------------------------------------------------

/// Being listed before is transitive.
pub proof fn lemma_listed_before_transitive(a: ViolationView, b: ViolationView, c: ViolationView)
    requires
        listed_before(a, b),
        listed_before(b, c),
    ensures
        listed_before(a, c),
{
    if key_before(a.path, b.path) && key_before(b.path, c.path) {
        crate::cli::inspect::lemma_key_before_transitive(a.path, b.path, c.path);
    } else if a.path == b.path && b.path == c.path {
        crate::cli::inspect::lemma_key_before_transitive(a.rule_id, b.rule_id, c.rule_id);
    }
}

/// The violation chosen next is unused, and no unused violation is listed
/// before it; where one is unused, one is chosen.
proof fn lemma_first_unused_least(vs: Seq<ViolationView>, used: Seq<bool>, i: int, best: Option<int>)
    requires
        used.len() == vs.len(),
        0 <= i <= vs.len(),
        best matches Some(b) ==> 0 <= b < i && !used[b] && forall|j: int|
            0 <= j < i && !used[j] ==> !listed_before(#[trigger] vs[j], vs[b]),
        best is None ==> forall|j: int| 0 <= j < i ==> used[j],
    ensures
        match first_unused_least(vs, used, i, best) {
            Some(m) => 0 <= m < vs.len() && !used[m] && forall|j: int|
                0 <= j < vs.len() && !used[j] ==> !listed_before(#[trigger] vs[j], vs[m]),
            None => forall|j: int| 0 <= j < vs.len() ==> used[j],
        },
    decreases vs.len() - i,
{
    if i < vs.len() {
        if used[i] {
            lemma_first_unused_least(vs, used, i + 1, best);
        } else {
            match best {
                None => {
                    lemma_listed_before_irreflexive(vs[i]);
                    lemma_first_unused_least(vs, used, i + 1, Some(i));
                },
                Some(b) => {
                    if listed_before(vs[i], vs[b]) {
                        assert forall|j: int| 0 <= j < i + 1 && !used[j] implies !listed_before(
                            #[trigger] vs[j],
                            vs[i],
                        ) by {
                            if j < i && listed_before(vs[j], vs[i]) {
                                lemma_listed_before_transitive(vs[j], vs[i], vs[b]);
                            }
                            if j == i {
                                lemma_listed_before_irreflexive(vs[i]);
                            }
                        }
                        lemma_first_unused_least(vs, used, i + 1, Some(i));
                    } else {
                        lemma_first_unused_least(vs, used, i + 1, best);
                    }
                },
            }
        }
    }
}

/// No violation is listed before itself.
pub proof fn lemma_listed_before_irreflexive(a: ViolationView)
    ensures
        !listed_before(a, a),
{
    crate::cli::inspect::lemma_key_before_irreflexive(a.path);
    crate::cli::inspect::lemma_key_before_irreflexive(a.rule_id);
}

/// The positions chosen are unused, different, as many as asked for while
/// some are unused, and each is listed no later than every one after it.
proof fn lemma_listing_order(vs: Seq<ViolationView>, used: Seq<bool>, k: nat)
    requires
        used.len() == vs.len(),
        k <= crate::cli::inspect::free_count(used),
    ensures
        listing_order(vs, used, k).len() == k,
        forall|p: int|
            0 <= p < k ==> 0 <= #[trigger] listing_order(vs, used, k)[p] < vs.len() && !used[listing_order(
                vs,
                used,
                k,
            )[p]],
        forall|p: int, q: int|
            0 <= p < q < k ==> listing_order(vs, used, k)[p] != listing_order(vs, used, k)[q] && !listed_before(
                vs[#[trigger] listing_order(vs, used, k)[q]],
                vs[#[trigger] listing_order(vs, used, k)[p]],
            ),
    decreases k,
{
    if k > 0 {
        crate::cli::inspect::lemma_free_count_some(used);
        lemma_first_unused_least(vs, used, 0, None);
        let m = first_unused_least(vs, used, 0, None)->0;
        let u = used.update(m, true);
        crate::cli::inspect::lemma_free_count_use(used, m);
        lemma_listing_order(vs, u, (k - 1) as nat);
        let rest = listing_order(vs, u, (k - 1) as nat);
        let all = listing_order(vs, used, k);
        assert(all == seq![m] + rest);
        assert forall|p: int| 0 <= p < k implies 0 <= #[trigger] all[p] < vs.len() && !used[all[p]] by {
            if p > 0 {
                assert(all[p] == rest[p - 1]);
                assert(!u[rest[p - 1]]);
            }
        }
        assert forall|p: int, q: int| 0 <= p < q < k implies all[p] != all[q] && !listed_before(
            vs[#[trigger] all[q]],
            vs[#[trigger] all[p]],
        ) by {
            assert(all[q] == rest[q - 1]);
            assert(!u[rest[q - 1]]);
            if p > 0 {
                assert(all[p] == rest[p - 1]);
            } else {
                assert(all[p] == m);
                assert(!used[all[q]]);
            }
        }
    }
}

/// The violations in listing order are all of them, each once, and no
/// violation is listed before one that comes ahead of it: they are sorted
/// by path, then by rule.
pub proof fn lemma_sorted_violations(vs: Seq<ViolationView>)
    ensures
        sorted_violations(vs).len() == vs.len(),
        forall|i: int, j: int|
            0 <= i < j < vs.len() ==> !listed_before(
                #[trigger] sorted_violations(vs)[j],
                #[trigger] sorted_violations(vs)[i],
            ),
        exists|order: Seq<int>|
            order.len() == vs.len() && (forall|i: int| 0 <= i < vs.len() ==> 0 <= #[trigger] order[i] < vs.len())
                && (forall|i: int, j: int| 0 <= i < j < vs.len() ==> #[trigger] order[i] != #[trigger] order[j])
                && (forall|i: int| 0 <= i < vs.len() ==> #[trigger] sorted_violations(vs)[i] == vs[order[i]]),
{
    let none = Seq::new(vs.len(), |i: int| false);
    crate::cli::inspect::lemma_free_count_none(vs.len());
    assert(none =~= crate::cli::inspect::none_used(vs.len()));
    lemma_listing_order(vs, none, vs.len());
    let order = listing_order(vs, none, vs.len());
    let out = sorted_violations(vs);
    assert(out == order.map_values(|i: int| vs[i]));
    assert forall|i: int, j: int| 0 <= i < j < vs.len() implies !listed_before(
        #[trigger] out[j],
        #[trigger] out[i],
    ) by {
        assert(out[i] == vs[order[i]] && out[j] == vs[order[j]]);
    }
    assert forall|i: int, j: int| 0 <= i < j < vs.len() implies #[trigger] order[i] != #[trigger] order[j] by {
    }
}

} // verus!
