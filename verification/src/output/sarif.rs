//! What the SARIF report holds.

use vstd::prelude::*;

use super::{sort_violations, sorted_violations};
use crate::cli::inspect::{
    key_before, lemma_key_before_irreflexive, lemma_key_before_transitive, lemma_sorted_order, none_used, sorted_order,
};
use crate::engine::matcher::{severity_word, violations_view, Violation, ViolationView};
use crate::text::views;

verus! {

/// One rule listed in the SARIF report.
#[derive(Debug)]
pub struct SarifRuleInfo {
    pub id: String,
    pub short_description: String,
}

/// One result of the SARIF report.
#[derive(Debug)]
pub struct SarifResultInfo {
    pub rule_id: String,
    pub level: String,
    pub message: String,
    pub uri: String,
}

/// What the SARIF report lists: the format's schema and version, the tool,
/// each rule broken, once, in sorted order, and the violations sorted by
/// path then rule.
#[derive(Debug)]
pub struct SarifContent {
    pub schema: String,
    pub version: String,
    pub tool_name: String,
    pub tool_version: String,
    pub information_uri: String,
    pub rules: Vec<SarifRuleInfo>,
    pub results: Vec<SarifResultInfo>,
}

/// A rule entry, as plain values.
pub struct RuleEntryView {
    pub id: Seq<char>,
    pub short_description: Seq<char>,
}

/// A result, as plain values.
pub struct ResultView {
    pub rule_id: Seq<char>,
    pub level: Seq<char>,
    pub message: Seq<char>,
    pub uri: Seq<char>,
}

pub open spec fn rule_entry_view(r: SarifRuleInfo) -> RuleEntryView {
    RuleEntryView { id: r.id@, short_description: r.short_description@ }
}

pub open spec fn result_view(r: SarifResultInfo) -> ResultView {
    ResultView { rule_id: r.rule_id@, level: r.level@, message: r.message@, uri: r.uri@ }
}

/// How a violation is reported as a result.
pub open spec fn sarif_result(v: ViolationView) -> ResultView {
    ResultView { rule_id: v.rule_id, level: severity_word(v.severity), message: v.message, uri: v.path }
}

/// How a rule is described.
pub open spec fn sarif_rule(id: Seq<char>) -> RuleEntryView {
    RuleEntryView { id, short_description: "repo-lint "@ + id + " rule"@ }
}

/// The items that differ from the one before them.
pub open spec fn dedup(s: Seq<Seq<char>>) -> Seq<Seq<char>>
    decreases s.len(),
{
    if s.len() == 0 {
        s
    } else if s.len() >= 2 && s[s.len() - 1] == s[s.len() - 2] {
        dedup(s.drop_last())
    } else {
        dedup(s.drop_last()).push(s.last())
    }
}

/// The rule ids, sorted, each once.
pub open spec fn distinct_rules(vs: Seq<ViolationView>) -> Seq<Seq<char>> {
    let ids = vs.map_values(|v: ViolationView| v.rule_id);
    dedup(sorted_order(ids, none_used(ids.len()), ids.len()).map_values(|i: int| ids[i]))
}

/// Writes violations as SARIF.
pub struct SarifReporter;

impl SarifReporter {
    /// A SARIF reporter.
    pub fn new() -> (r: Self) {
        SarifReporter
    }

    /// What the report holds: SARIF 2.1.0 with its schema, the tool
    /// `repo-lint` at version 0.1.0 and its home page, the rules broken,
    /// sorted and each once, and a result per violation, sorted by path then
    /// rule.
    pub fn build(&self, violations: &Vec<Violation>) -> (r: SarifContent)
        ensures
            r.schema@ == "https://raw.githubusercontent.com/oasis-tcs/sarif-spec/master/Schemata/sarif-schema-2.1.0.json"@,
            r.version@ == "2.1.0"@,
            r.tool_name@ == "repo-lint"@,
            r.tool_version@ == "0.1.0"@,
            r.information_uri@ == "https://github.com/rika-labs/repo-lint"@,
            r.rules@.map_values(|x: SarifRuleInfo| rule_entry_view(x)) == distinct_rules(
                violations_view(violations@),
            ).map_values(|id: Seq<char>| sarif_rule(id)),
            r.results@.map_values(|x: SarifResultInfo| result_view(x)) == sorted_violations(
                violations_view(violations@),
            ).map_values(|v: ViolationView| sarif_result(v)),
    {
        let sorted = sort_violations(violations);
        let ghost sv = violations_view(sorted@);
        let mut results: Vec<SarifResultInfo> = Vec::new();
        let n = sorted.len();
        for i in 0..n
            invariant
                n == sorted@.len(),
                sv == violations_view(sorted@),
                results@.map_values(|x: SarifResultInfo| result_view(x)) == sv.take(i as int).map_values(
                    |v: ViolationView| sarif_result(v),
                ),
        {
            let v = &sorted[i];
            let x = SarifResultInfo {
                rule_id: v.rule_id.clone(),
                level: v.severity.to_string(),
                message: v.message.clone(),
                uri: v.path.clone(),
            };
            let ghost before = results@.map_values(|x: SarifResultInfo| result_view(x));
            let ghost xv = result_view(x);
            assert(sv[i as int] == v@);
            assert(xv == sarif_result(sv[i as int]));
            results.push(x);
            assert(results@.map_values(|x: SarifResultInfo| result_view(x)) =~= before.push(xv));
            assert(sv.take(i + 1).map_values(|v: ViolationView| sarif_result(v)) =~= sv.take(i as int).map_values(
                |v: ViolationView| sarif_result(v),
            ).push(xv));
        }
        assert(sv.take(n as int) =~= sv);
        let rules = rule_entries(violations);
        SarifContent {
            schema: String::from_str(
                "https://raw.githubusercontent.com/oasis-tcs/sarif-spec/master/Schemata/sarif-schema-2.1.0.json",
            ),
            version: String::from_str("2.1.0"),
            tool_name: String::from_str("repo-lint"),
            tool_version: String::from_str("0.1.0"),
            information_uri: String::from_str("https://github.com/rika-labs/repo-lint"),
            rules,
            results,
        }
    }
}

fn rule_entries(violations: &Vec<Violation>) -> (r: Vec<SarifRuleInfo>)
    ensures
        r@.map_values(|x: SarifRuleInfo| rule_entry_view(x)) == distinct_rules(violations_view(violations@)).map_values(
            |id: Seq<char>| sarif_rule(id),
        ),
{
    let ghost vv = violations_view(violations@);
    let ghost ids = vv.map_values(|v: ViolationView| v.rule_id);
    let mut keys: Vec<&String> = Vec::new();
    let n = violations.len();
    for i in 0..n
        invariant
            n == violations@.len(),
            vv == violations_view(violations@),
            ids == vv.map_values(|v: ViolationView| v.rule_id),
            keys@.len() == i,
            forall|j: int| 0 <= j < i ==> (#[trigger] keys@[j])@ == ids[j],
    {
        keys.push(&violations[i].rule_id);
        assert(vv[i as int] == violations@[i as int]@);
    }
    assert(keys@.map_values(|k: &String| k@) =~= ids);
    let order = crate::cli::inspect::sorted_positions(&keys);
    let ghost ord = order@.map_values(|x: usize| x as int);
    let ghost sorted_ids = ord.map_values(|i: int| ids[i]);
    let mut out: Vec<SarifRuleInfo> = Vec::new();
    let mut last: Option<&String> = None;
    let m = order.len();
    assert(sorted_ids.take(0) =~= Seq::<Seq<char>>::empty());
    for i in 0..m
        invariant
            m == order@.len(),
            n == keys@.len(),
            forall|j: int| 0 <= j < m ==> #[trigger] order@[j] < n,
            forall|j: int| 0 <= j < n ==> (#[trigger] keys@[j])@ == ids[j],
            ord == order@.map_values(|x: usize| x as int),
            sorted_ids == ord.map_values(|i: int| ids[i]),
            out@.map_values(|x: SarifRuleInfo| rule_entry_view(x)) == dedup(sorted_ids.take(i as int)).map_values(
                |id: Seq<char>| sarif_rule(id),
            ),
            i == 0 <==> last is None,
            last matches Some(l) ==> i > 0 && l@ == sorted_ids[i - 1],
    {
        let id = keys[order[i]];
        assert(id@ == sorted_ids[i as int]);
        let ghost before = out@.map_values(|x: SarifRuleInfo| rule_entry_view(x));
        assert(sorted_ids.take(i + 1).drop_last() =~= sorted_ids.take(i as int));
        let same = match last {
            Some(l) => crate::text::str_eq(l.as_str(), id.as_str()),
            None => false,
        };
        if !same {
            let mut d = String::from_str("repo-lint ");
            d.append(id.as_str());
            d.append(" rule");
            let x = SarifRuleInfo { id: id.clone(), short_description: d };
            let ghost xv = rule_entry_view(x);
            out.push(x);
            assert(out@.map_values(|x: SarifRuleInfo| rule_entry_view(x)) =~= before.push(xv));
            assert(dedup(sorted_ids.take(i + 1)) == dedup(sorted_ids.take(i as int)).push(id@));
            assert(dedup(sorted_ids.take(i as int)).push(id@).map_values(|id: Seq<char>| sarif_rule(id)) =~= dedup(
                sorted_ids.take(i as int),
            ).map_values(|id: Seq<char>| sarif_rule(id)).push(sarif_rule(id@)));
        } else {
            assert(dedup(sorted_ids.take(i + 1)) == dedup(sorted_ids.take(i as int)));
        }
        last = Some(id);
    }
    assert(sorted_ids.take(m as int) =~= sorted_ids);
    out
}

proof fn lemma_key_before_total(a: Seq<char>, b: Seq<char>)
    ensures
        a != b ==> key_before(a, b) || key_before(b, a),
    decreases a.len(),
{
    if a.len() == 0 {
        if b.len() == 0 {
            assert(a =~= b);
        }
    } else if b.len() == 0 {
    } else if a[0] != b[0] {
        if (a[0] as u32) == (b[0] as u32) {
            vstd::utf8::char_u32_cast(a[0], a[0] as u32);
            vstd::utf8::char_u32_cast(b[0], b[0] as u32);
        }
    } else {
        lemma_key_before_total(a.drop_first(), b.drop_first());
        if a.drop_first() == b.drop_first() {
            assert(a =~= seq![a[0]] + a.drop_first());
            assert(b =~= seq![b[0]] + b.drop_first());
        }
    }
}

/// No item of `s` sorts before one ahead of it.
pub open spec fn keys_sorted(s: Seq<Seq<char>>) -> bool {
    forall|p: int, q: int| 0 <= p < q < s.len() ==> !key_before(#[trigger] s[q], #[trigger] s[p])
}

proof fn lemma_dedup_sorted(s: Seq<Seq<char>>)
    requires
        keys_sorted(s),
    ensures
        forall|i: int, j: int|
            0 <= i < j < dedup(s).len() ==> key_before(#[trigger] dedup(s)[i], #[trigger] dedup(s)[j]),
        forall|i: int| 0 <= i < dedup(s).len() ==> s.contains(#[trigger] dedup(s)[i]),
        forall|p: int| 0 <= p < s.len() ==> dedup(s).contains(#[trigger] s[p]),
        s.len() > 0 ==> dedup(s).len() > 0 && dedup(s).last() == s.last(),
    decreases s.len(),
{
    if s.len() > 0 {
        let t = s.drop_last();
        assert(keys_sorted(t)) by {
            assert forall|p: int, q: int| 0 <= p < q < t.len() implies !key_before(#[trigger] t[q], #[trigger] t[p]) by {
                assert(t[q] == s[q] && t[p] == s[p]);
            }
        }
        lemma_dedup_sorted(t);
        let dt = dedup(t);
        let d = dedup(s);
        if s.len() >= 2 && s[s.len() - 1] == s[s.len() - 2] {
            assert(d == dt);
            assert forall|i: int| 0 <= i < d.len() implies s.contains(#[trigger] d[i]) by {
                let p = choose|p: int| 0 <= p < t.len() && t[p] == d[i];
                assert(s[p] == t[p]);
            }
            assert forall|p: int| 0 <= p < s.len() implies d.contains(#[trigger] s[p]) by {
                if p < t.len() {
                    assert(t[p] == s[p]);
                } else {
                    assert(s[p] == t.last());
                    assert(d[d.len() - 1] == s[p]);
                }
            }
        } else {
            assert(d == dt.push(s.last()));
            if t.len() > 0 {
                lemma_key_before_total(s[s.len() - 2], s.last());
                assert(!key_before(s[s.len() - 1], s[s.len() - 2]));
                assert(key_before(t.last(), s.last()));
            }
            assert forall|i: int, j: int| 0 <= i < j < d.len() implies key_before(#[trigger] d[i], #[trigger] d[j]) by {
                if j < dt.len() {
                    assert(d[i] == dt[i] && d[j] == dt[j]);
                } else {
                    assert(d[j] == s.last());
                    assert(d[i] == dt[i]);
                    if i < dt.len() - 1 {
                        assert(key_before(dt[i], dt[dt.len() - 1]));
                        lemma_key_before_transitive(dt[i], t.last(), s.last());
                    }
                }
            }
            assert forall|i: int| 0 <= i < d.len() implies s.contains(#[trigger] d[i]) by {
                if i < dt.len() {
                    assert(d[i] == dt[i]);
                    let p = choose|p: int| 0 <= p < t.len() && t[p] == dt[i];
                    assert(s[p] == t[p]);
                } else {
                    assert(s[s.len() - 1] == d[i]);
                }
            }
            assert forall|p: int| 0 <= p < s.len() implies d.contains(#[trigger] s[p]) by {
                if p < t.len() {
                    assert(t[p] == s[p]);
                    let k = choose|k: int| 0 <= k < dt.len() && dt[k] == t[p];
                    assert(d[k] == dt[k]);
                } else {
                    assert(d[d.len() - 1] == s[p]);
                }
            }
        }
    }
}

/// The rules a SARIF report lists are the rules the violations break, each
/// once: no id is listed twice, every violation's rule is listed, and every
/// listed rule is one that some violation breaks.
pub proof fn lemma_distinct_rules(vs: Seq<ViolationView>)
    ensures
        forall|i: int, j: int|
            0 <= i < j < distinct_rules(vs).len() ==> #[trigger] distinct_rules(vs)[i] != #[trigger] distinct_rules(
                vs,
            )[j],
        forall|k: int| 0 <= k < vs.len() ==> distinct_rules(vs).contains(#[trigger] vs[k].rule_id),
        forall|i: int|
            0 <= i < distinct_rules(vs).len() ==> exists|k: int|
                0 <= k < vs.len() && vs[k].rule_id == #[trigger] distinct_rules(vs)[i],
{
    let ids = vs.map_values(|v: ViolationView| v.rule_id);
    let n = ids.len();
    let ord = sorted_order(ids, none_used(n), n);
    let s = ord.map_values(|i: int| ids[i]);
    let d = distinct_rules(vs);
    assert(d == dedup(s));
    lemma_sorted_order(ids);
    assert(keys_sorted(s)) by {
        assert forall|p: int, q: int| 0 <= p < q < s.len() implies !key_before(#[trigger] s[q], #[trigger] s[p]) by {
            assert(s[q] == ids[ord[q]] && s[p] == ids[ord[p]]);
        }
    }
    lemma_dedup_sorted(s);
    assert forall|i: int, j: int| 0 <= i < j < d.len() implies #[trigger] d[i] != #[trigger] d[j] by {
        assert(key_before(d[i], d[j]));
        lemma_key_before_irreflexive(d[i]);
    }
    // Every position appears in the sorted order.
    assert(ord.no_duplicates()) by {
        assert forall|p: int, q: int| 0 <= p < ord.len() && 0 <= q < ord.len() && p != q implies ord[p] != ord[q] by {
            if p < q {
                assert(ord[p] != ord[q]);
            } else {
                assert(ord[q] != ord[p]);
            }
        }
    }
    ord.unique_seq_to_set();
    vstd::seq_lib::seq_to_set_is_finite(ord);
    vstd::set_lib::lemma_int_range(0, n as int);
    let range = vstd::set_lib::set_int_range(0, n as int);
    assert(ord.to_set().subset_of(range)) by {
        assert forall|x: int| ord.to_set().contains(x) implies range.contains(x) by {
            let p = choose|p: int| 0 <= p < ord.len() && ord[p] == x;
            assert(0 <= ord[p] < n);
        }
    }
    vstd::set_lib::lemma_subset_equality(ord.to_set(), range);
    assert forall|k: int| 0 <= k < vs.len() implies d.contains(#[trigger] vs[k].rule_id) by {
        assert(range.contains(k));
        assert(ord.to_set().contains(k));
        let p = choose|p: int| 0 <= p < ord.len() && ord[p] == k;
        assert(s[p] == ids[k]);
        assert(ids[k] == vs[k].rule_id);
    }
    assert forall|i: int| 0 <= i < d.len() implies exists|k: int|
        0 <= k < vs.len() && vs[k].rule_id == #[trigger] d[i] by {
        let p = choose|p: int| 0 <= p < s.len() && s[p] == d[i];
        let k = ord[p];
        assert(0 <= k < n);
        assert(vs[k].rule_id == ids[k]);
    }
}

} // verus!
