//! What the `inspect` command shows: a rule's description, and the layout
//! drawn as a tree.

use vstd::prelude::*;

use crate::config::{CaseStyle, ChildMap, LayoutNode, NodeList};
use crate::text::{decimal, decimal_string, join_with, to_owned_string};

verus! {

/// What to inspect.
pub enum InspectType {
    Layout,
    Path { path: String },
    Rule { rule_id: String },
    Deps { path: String },
}

/// The arguments of the `inspect` command.
pub struct InspectArgs {
    pub inspect_type: InspectType,
}

/// The `inspect` command.
pub struct InspectCommand;

/// What is known of a rule.
#[derive(Debug)]
pub struct RuleInfo {
    pub id: String,
    pub description: String,
    pub auto_fix: bool,
    pub examples: Vec<String>,
}

/// A rule's description, as plain values.
pub struct RuleInfoView {
    pub id: Seq<char>,
    pub description: Seq<char>,
    pub auto_fix: bool,
    pub examples: Seq<Seq<char>>,
}

impl View for RuleInfo {
    type V = RuleInfoView;

    open spec fn view(&self) -> RuleInfoView {
        RuleInfoView {
            id: self.id@,
            description: self.description@,
            auto_fix: self.auto_fix,
            examples: crate::text::views(self.examples@),
        }
    }
}

/// The description of the rule `rule_id`: the three known rules are
/// described, any other is an unknown rule without auto-fix or examples.
pub open spec fn rule_info_spec(rule_id: Seq<char>) -> RuleInfoView {
    if rule_id == "layout"@ {
        RuleInfoView {
            id: "layout"@,
            description: "Enforces filesystem structure matches the defined layout"@,
            auto_fix: true,
            examples: seq![
                "Files must exist in paths defined by dir/file DSL"@,
                "Param constraints (e.g., kebab-case) must be satisfied"@,
            ],
        }
    } else if rule_id == "forbidPaths"@ {
        RuleInfoView {
            id: "forbidPaths"@,
            description: "Forbids files/directories matching specified glob patterns"@,
            auto_fix: false,
            examples: seq!["**/utils/** - forbid utils directories"@, "**/*.bak - forbid backup files"@],
        }
    } else if rule_id == "forbidNames"@ {
        RuleInfoView {
            id: "forbidNames"@,
            description: "Forbids files/directories with specific names"@,
            auto_fix: true,
            examples: seq!["temp - forbid 'temp' named files/dirs"@, "new - forbid 'new' named files/dirs"@],
        }
    } else {
        RuleInfoView { id: rule_id, description: "Unknown rule"@, auto_fix: false, examples: Seq::empty() }
    }
}

fn two_strings(a: &str, b: &str) -> (r: Vec<String>)
    ensures
        crate::text::views(r@) == seq![a@, b@],
{
    let r = vec![to_owned_string(a), to_owned_string(b)];
    assert(crate::text::views(r@) =~= seq![a@, b@]);
    r
}

impl InspectCommand {
    /// The description of the rule `rule_id`.
    pub fn get_rule_info(rule_id: &str) -> (r: RuleInfo)
        ensures
            r@ == rule_info_spec(rule_id@),
    {
        if crate::text::str_eq(rule_id, "layout") {
            RuleInfo {
                id: String::from_str("layout"),
                description: String::from_str("Enforces filesystem structure matches the defined layout"),
                auto_fix: true,
                examples: two_strings(
                    "Files must exist in paths defined by dir/file DSL",
                    "Param constraints (e.g., kebab-case) must be satisfied",
                ),
            }
        } else if crate::text::str_eq(rule_id, "forbidPaths") {
            RuleInfo {
                id: String::from_str("forbidPaths"),
                description: String::from_str("Forbids files/directories matching specified glob patterns"),
                auto_fix: false,
                examples: two_strings("**/utils/** - forbid utils directories", "**/*.bak - forbid backup files"),
            }
        } else if crate::text::str_eq(rule_id, "forbidNames") {
            RuleInfo {
                id: String::from_str("forbidNames"),
                description: String::from_str("Forbids files/directories with specific names"),
                auto_fix: true,
                examples: two_strings("temp - forbid 'temp' named files/dirs", "new - forbid 'new' named files/dirs"),
            }
        } else {
            let examples: Vec<String> = Vec::new();
            assert(crate::text::views(examples@) =~= Seq::<Seq<char>>::empty());
            RuleInfo {
                id: to_owned_string(rule_id),
                description: String::from_str("Unknown rule"),
                auto_fix: false,
                examples,
            }
        }
    }
}

} // verus!

verus! {

// ---------------------------------------------------------------------------
// The layout as a tree
// ---------------------------------------------------------------------------

/// The name Rust's `Debug` gives a case style.
pub open spec fn case_debug(c: CaseStyle) -> Seq<char> {
    match c {
        CaseStyle::Kebab => "Kebab"@,
        CaseStyle::Snake => "Snake"@,
        CaseStyle::Camel => "Camel"@,
        CaseStyle::Pascal => "Pascal"@,
        CaseStyle::Any => "Any"@,
    }
}

fn case_debug_str(c: CaseStyle) -> (r: &'static str)
    ensures
        r@ == case_debug(c),
{
    match c {
        CaseStyle::Kebab => "Kebab",
        CaseStyle::Snake => "Snake",
        CaseStyle::Camel => "Camel",
        CaseStyle::Pascal => "Pascal",
        CaseStyle::Any => "Any",
    }
}

/// Whether `a` sorts before `b`: the byte order of their UTF-8 encodings,
/// which is the order of their characters' code points.
pub open spec fn key_before(a: Seq<char>, b: Seq<char>) -> bool
    decreases a.len(),
{
    if a.len() == 0 {
        b.len() > 0
    } else if b.len() == 0 {
        false
    } else if a[0] != b[0] {
        (a[0] as u32) < (b[0] as u32)
    } else {
        key_before(a.drop_first(), b.drop_first())
    }
}

/// The first of the unused keys that no other unused key sorts before,
/// looking from position `i` with `best` the one found so far.
pub open spec fn first_unused_min(keys: Seq<Seq<char>>, used: Seq<bool>, i: int, best: Option<int>) -> Option<int>
    decreases keys.len() - i,
{
    if i < 0 || i >= keys.len() {
        best
    } else if used[i] {
        first_unused_min(keys, used, i + 1, best)
    } else {
        match best {
            None => first_unused_min(keys, used, i + 1, Some(i)),
            Some(b) => if key_before(keys[i], keys[b]) {
                first_unused_min(keys, used, i + 1, Some(i))
            } else {
                first_unused_min(keys, used, i + 1, best)
            },
        }
    }
}

/// The positions of `k` more keys in sorted order (equal keys in the
/// order given), leaving out the `used` ones.
pub open spec fn sorted_order(keys: Seq<Seq<char>>, used: Seq<bool>, k: nat) -> Seq<int>
    decreases k,
{
    if k == 0 {
        Seq::empty()
    } else {
        match first_unused_min(keys, used, 0, None) {
            Some(m) => seq![m] + sorted_order(keys, used.update(m, true), (k - 1) as nat),
            None => Seq::empty(),
        }
    }
}

/// The flags written after a node: ` (a, b)`, or nothing.
pub open spec fn flag_text(flags: Seq<Seq<char>>) -> Seq<char> {
    if flags.len() == 0 {
        Seq::empty()
    } else {
        " ("@ + join_with(flags, ", "@) + ")"@
    }
}

/// `s` followed by `x` when `b`.
pub open spec fn push_if(s: Seq<Seq<char>>, b: bool, x: Seq<char>) -> Seq<Seq<char>> {
    if b {
        s.push(x)
    } else {
        s
    }
}

/// The line a file node ends with.
pub open spec fn file_line(pattern: Option<String>, optional: bool, required: bool, case: Option<CaseStyle>) -> Seq<char> {
    let flags = push_if(push_if(Seq::empty(), optional, "opt"@), required, "req"@);
    let flags = match case {
        Some(c) => flags.push("case: "@ + case_debug(c)),
        None => flags,
    };
    let pat = match pattern {
        Some(p) => " ["@ + p@ + "]"@,
        None => Seq::empty(),
    };
    pat + flag_text(flags) + "\n"@
}

/// What a directory node writes after its name, unless it is the root
/// (empty prefix): the `[dir]` label and its flags.
pub open spec fn dir_line(prefix: Seq<char>, optional: bool, required: bool, strict: bool) -> Seq<char> {
    if prefix.len() == 0 {
        Seq::empty()
    } else {
        let flags = push_if(push_if(push_if(Seq::empty(), optional, "opt"@), required, "req"@), strict, "strict"@);
        " [dir]"@ + flag_text(flags) + "\n"@
    }
}

/// The branch drawn before an entry.
pub open spec fn connector(last: bool) -> Seq<char> {
    if last {
        "└── "@
    } else {
        "├── "@
    }
}

/// What an entry's subtree is indented by.
pub open spec fn extension(last: bool) -> Seq<char> {
    if last {
        "    "@
    } else {
        "│   "@
    }
}

/// The keys of a directory's entries.
pub open spec fn entry_keys(m: ChildMap) -> Seq<Seq<char>> {
    m.entries().map_values(|e: (Seq<char>, LayoutNode)| e.0)
}

/// No key used yet.
pub open spec fn none_used(n: nat) -> Seq<bool> {
    Seq::new(n, |i: int| false)
}

/// The text the layout tree prints for `node` under `prefix`, drawing at
/// most `fuel` nested levels: a directory's entries sorted by name, each on
/// a branch with its subtree; a file's pattern and flags; a parameter, a
/// repeated segment, a recursive shape or a choice with its details and
/// its child (or variants) indented by four spaces.
pub open spec fn tree_text(node: LayoutNode, prefix: Seq<char>, fuel: nat) -> Seq<char>
    decreases fuel, 0int,
{
    if fuel == 0 {
        Seq::empty()
    } else {
        match node {
            LayoutNode::Dir { children, optional, required, strict, .. } => {
                let n = children.entries().len();
                dir_line(prefix, optional, required, strict) + entries_text(
                    children.entries(),
                    sorted_order(entry_keys(children), none_used(n), n),
                    0,
                    prefix,
                    (fuel - 1) as nat,
                )
            },
            LayoutNode::File { pattern, optional, required, case } => file_line(pattern, optional, required, case),
            LayoutNode::Param { name, case, child } => " [param: "@ + name@ + ", case: "@ + case_debug(case) + "]\n"@
                + tree_text(*child, prefix + "    "@, (fuel - 1) as nat),
            LayoutNode::Many { case, child, max } => {
                let case_part = match case {
                    Some(c) => ", case: "@ + case_debug(c),
                    None => Seq::empty(),
                };
                let max_part = match max {
                    Some(m) => ", max: "@ + decimal(m as nat),
                    None => Seq::empty(),
                };
                " [many"@ + case_part + max_part + "]\n"@ + tree_text(*child, prefix + "    "@, (fuel - 1) as nat)
            },
            LayoutNode::Recursive { max_depth, child } => " [recursive, max_depth: "@ + decimal(max_depth as nat)
                + "]\n"@ + tree_text(*child, prefix + "    "@, (fuel - 1) as nat),
            LayoutNode::Either { variants } => " [either, "@ + decimal(variants.to_seq().len()) + " variants]\n"@
                + variants_text(variants.to_seq(), 0, prefix + "    "@, (fuel - 1) as nat),
        }
    }
}

/// The entries at the positions `order[i..]`, each on its branch.
pub open spec fn entries_text(
    es: Seq<(Seq<char>, LayoutNode)>,
    order: Seq<int>,
    i: int,
    prefix: Seq<char>,
    fuel: nat,
) -> Seq<char>
    decreases fuel, order.len() - i + 1,
{
    if i < 0 || i >= order.len() {
        Seq::empty()
    } else {
        let last = i == order.len() - 1;
        let e = es[order[i]];
        prefix + connector(last) + e.0 + tree_text(e.1, prefix + extension(last), fuel) + entries_text(
            es,
            order,
            i + 1,
            prefix,
            fuel,
        )
    }
}

/// The variants from position `i` on, each under `prefix`.
pub open spec fn variants_text(vs: Seq<LayoutNode>, i: int, prefix: Seq<char>, fuel: nat) -> Seq<char>
    decreases fuel, vs.len() - i + 1,
{
    if i < 0 || i >= vs.len() {
        Seq::empty()
    } else {
        tree_text(vs[i], prefix, fuel) + variants_text(vs, i + 1, prefix, fuel)
    }
}

/// The number of nested levels of a layout tree.
pub open spec fn height(n: LayoutNode) -> nat
    decreases n, 1int,
{
    match n {
        LayoutNode::Dir { children, .. } => 1 + map_height(children),
        LayoutNode::File { .. } => 1,
        LayoutNode::Param { child, .. } => 1 + height(*child),
        LayoutNode::Many { child, .. } => 1 + height(*child),
        LayoutNode::Recursive { child, .. } => 1 + height(*child),
        LayoutNode::Either { variants } => 1 + list_height(variants),
    }
}

/// The greatest height among a directory's entries.
pub open spec fn map_height(m: ChildMap) -> nat
    decreases m, 0int,
{
    match m {
        ChildMap::Empty => 0,
        ChildMap::Entry(_, n, rest) => {
            let a = height(*n);
            let b = map_height(*rest);
            if a >= b {
                a
            } else {
                b
            }
        },
    }
}

/// The greatest height among the variants.
pub open spec fn list_height(l: NodeList) -> nat
    decreases l, 0int,
{
    match l {
        NodeList::Nil => 0,
        NodeList::Cons(n, rest) => {
            let a = height(*n);
            let b = list_height(*rest);
            if a >= b {
                a
            } else {
                b
            }
        },
    }
}

/// The height, or the largest `usize` if it is larger.
pub open spec fn capped(h: nat) -> nat {
    if h > usize::MAX {
        usize::MAX as nat
    } else {
        h
    }
}

} // verus!

verus! {

fn sat_inc(h: usize) -> (r: usize)
    ensures
        r == capped((h + 1) as nat),
{
    if h == usize::MAX {
        h
    } else {
        h + 1
    }
}

fn node_height(n: &LayoutNode) -> (r: usize)
    ensures
        r == capped(height(*n)),
    decreases *n, 1int,
{
    match n {
        LayoutNode::Dir { children, .. } => sat_inc(map_height_of(children)),
        LayoutNode::File { .. } => 1,
        LayoutNode::Param { child, .. } => sat_inc(node_height(child)),
        LayoutNode::Many { child, .. } => sat_inc(node_height(child)),
        LayoutNode::Recursive { child, .. } => sat_inc(node_height(child)),
        LayoutNode::Either { variants } => sat_inc(list_height_of(variants)),
    }
}

fn map_height_of(m: &ChildMap) -> (r: usize)
    ensures
        r == capped(map_height(*m)),
    decreases *m, 0int,
{
    match m {
        ChildMap::Empty => 0,
        ChildMap::Entry(_, n, rest) => {
            let a = node_height(n);
            let b = map_height_of(rest);
            if a >= b {
                a
            } else {
                b
            }
        },
    }
}

fn list_height_of(l: &NodeList) -> (r: usize)
    ensures
        r == capped(list_height(*l)),
    decreases *l, 0int,
{
    match l {
        NodeList::Nil => 0,
        NodeList::Cons(n, rest) => {
            let a = node_height(n);
            let b = list_height_of(rest);
            if a >= b {
                a
            } else {
                b
            }
        },
    }
}

/// Whether `a` sorts before `b`.
pub fn key_less(a: &str, b: &str) -> (r: bool)
    ensures
        r == key_before(a@, b@),
{
    let x = crate::text::chars_of(a);
    let y = crate::text::chars_of(b);
    let mut i: usize = 0;
    assert(a@.skip(0) =~= a@);
    assert(b@.skip(0) =~= b@);
    while i < x.len() && i < y.len() && x[i] == y[i]
        invariant
            x@ == a@,
            y@ == b@,
            i <= x@.len(),
            i <= y@.len(),
            key_before(a@, b@) == key_before(a@.skip(i as int), b@.skip(i as int)),
        decreases x.len() - i,
    {
        assert(a@.skip(i as int).drop_first() =~= a@.skip(i + 1));
        assert(b@.skip(i as int).drop_first() =~= b@.skip(i + 1));
        i = i + 1;
    }
    if i == x.len() {
        assert(a@.skip(i as int).len() == 0);
        return i < y.len();
    }
    if i == y.len() {
        assert(b@.skip(i as int).len() == 0);
        return false;
    }
    assert(a@.skip(i as int)[0] == x@[i as int]);
    assert(b@.skip(i as int)[0] == y@[i as int]);
    (x[i] as u32) < (y[i] as u32)
}

/// The entries of a directory, in order.
fn entry_refs<'a>(m: &'a ChildMap) -> (r: Vec<(&'a String, &'a LayoutNode)>)
    ensures
        r@.len() == m.entries().len(),
        forall|i: int| 0 <= i < r@.len() ==> (r@[i].0@, *r@[i].1) == #[trigger] m.entries()[i],
    decreases m,
{
    match m {
        ChildMap::Empty => Vec::new(),
        ChildMap::Entry(k, n, rest) => {
            let mut r: Vec<(&'a String, &'a LayoutNode)> = Vec::new();
            r.push((k, &**n));
            let mut tail = entry_refs(rest);
            let ghost tv = tail@;
            r.append(&mut tail);
            assert forall|i: int| 0 <= i < r@.len() implies (r@[i].0@, *r@[i].1) == #[trigger] m.entries()[i] by {
                if i > 0 {
                    assert(r@[i] == tv[i - 1]);
                    assert(m.entries()[i] == rest.entries()[i - 1]);
                }
            }
            r
        },
    }
}

/// The variants, in order.
fn variant_refs<'a>(l: &'a NodeList) -> (r: Vec<&'a LayoutNode>)
    ensures
        r@.len() == l.to_seq().len(),
        forall|i: int| 0 <= i < r@.len() ==> *r@[i] == #[trigger] l.to_seq()[i],
    decreases l,
{
    match l {
        NodeList::Nil => Vec::new(),
        NodeList::Cons(n, rest) => {
            let mut r: Vec<&'a LayoutNode> = Vec::new();
            r.push(&**n);
            let mut tail = variant_refs(rest);
            let ghost tv = tail@;
            r.append(&mut tail);
            assert forall|i: int| 0 <= i < r@.len() implies *r@[i] == #[trigger] l.to_seq()[i] by {
                if i > 0 {
                    assert(r@[i] == tv[i - 1]);
                    assert(l.to_seq()[i] == rest.to_seq()[i - 1]);
                }
            }
            r
        },
    }
}

/// The positions of the keys in sorted order.
pub fn sorted_positions(keys: &Vec<&String>) -> (r: Vec<usize>)
    ensures
        r@.map_values(|x: usize| x as int) == sorted_order(
            keys@.map_values(|k: &String| k@),
            none_used(keys@.len()),
            keys@.len(),
        ),
        forall|j: int| 0 <= j < r@.len() ==> #[trigger] r@[j] < keys@.len(),
{
    let ghost kv = keys@.map_values(|k: &String| k@);
    let n = keys.len();
    let mut used: Vec<bool> = Vec::new();
    for i in 0..n
        invariant
            n == keys@.len(),
            used@ == none_used(i as nat),
    {
        used.push(false);
        assert(used@ =~= none_used((i + 1) as nat));
    }
    let mut order: Vec<usize> = Vec::new();
    let mut k: usize = n;
    while k > 0
        invariant
            n == keys@.len(),
            kv == keys@.map_values(|k: &String| k@),
            used@.len() == n,
            k <= n,
            forall|j: int| 0 <= j < order@.len() ==> #[trigger] order@[j] < n,
            order@.map_values(|x: usize| x as int) + sorted_order(kv, used@, k as nat) == sorted_order(
                kv,
                none_used(n as nat),
                n as nat,
            ),
        decreases k,
    {
        let mut best: Option<usize> = None;
        let mut j: usize = 0;
        while j < n
            invariant
                n == keys@.len(),
                kv == keys@.map_values(|k: &String| k@),
                used@.len() == n,
                j <= n,
                best matches Some(b) ==> b < n,
                first_unused_min(kv, used@, 0, None) == first_unused_min(
                    kv,
                    used@,
                    j as int,
                    match best {
                        Some(b) => Some(b as int),
                        None => None,
                    },
                ),
            decreases n - j,
        {
            if !used[j] {
                match best {
                    None => {
                        best = Some(j);
                    },
                    Some(b) => {
                        assert(kv[j as int] == keys@[j as int]@);
                        assert(kv[b as int] == keys@[b as int]@);
                        if key_less(keys[j].as_str(), keys[b].as_str()) {
                            best = Some(j);
                        }
                    },
                }
            }
            j = j + 1;
        }
        let ghost before = order@.map_values(|x: usize| x as int);
        match best {
            Some(m) => {
                order.push(m);
                let ghost old_used = used@;
                used.set(m, true);
                assert(order@.map_values(|x: usize| x as int) =~= before.push(m as int));
                assert(sorted_order(kv, old_used, k as nat) == seq![m as int] + sorted_order(
                    kv,
                    old_used.update(m as int, true),
                    (k - 1) as nat,
                ));
                k = k - 1;
            },
            None => {
                assert(sorted_order(kv, used@, k as nat) == Seq::<int>::empty());
                k = 0;
            },
        }
    }
    order
}

fn flags_suffix(flags: &Vec<String>) -> (r: String)
    ensures
        r@ == flag_text(crate::text::views(flags@)),
{
    if flags.len() == 0 {
        return String::new();
    }
    let mut r = String::from_str(" (");
    let joined = crate::text::join_strings(flags, ", ");
    r.append(joined.as_str());
    r.append(")");
    r
}

fn push_flag(flags: &mut Vec<String>, b: bool, x: &str)
    ensures
        crate::text::views(final(flags)@) == push_if(crate::text::views(old(flags)@), b, x@),
{
    if b {
        let ghost before = crate::text::views(flags@);
        flags.push(to_owned_string(x));
        assert(crate::text::views(flags@) =~= before.push(x@));
    }
}

fn tree_text_exec(node: &LayoutNode, prefix: &str, fuel: usize) -> (r: String)
    ensures
        r@ == tree_text(*node, prefix@, fuel as nat),
    decreases fuel, 0int,
{
    if fuel == 0 {
        return String::new();
    }
    match node {
        LayoutNode::Dir { children, optional, required, strict, .. } => {
            let mut out = String::new();
            if prefix.unicode_len() > 0 {
                let mut flags: Vec<String> = Vec::new();
                assert(crate::text::views(flags@) =~= Seq::<Seq<char>>::empty());
                push_flag(&mut flags, *optional, "opt");
                push_flag(&mut flags, *required, "req");
                push_flag(&mut flags, *strict, "strict");
                out.append(" [dir]");
                out.append(flags_suffix(&flags).as_str());
                out.append("\n");
            }
            let entries = entry_refs(children);
            let mut keys: Vec<&String> = Vec::new();
            let n = entries.len();
            for i in 0..n
                invariant
                    n == entries@.len(),
                    keys@.len() == i,
                    forall|j: int| 0 <= j < i ==> *keys@[j] == *entries@[j].0,
            {
                keys.push(entries[i].0);
            }
            let order = sorted_positions(&keys);
            assert(keys@.map_values(|k: &String| k@) =~= entry_keys(*children)) by {
                assert forall|j: int| 0 <= j < keys@.len() implies keys@.map_values(|k: &String| k@)[j] == entry_keys(
                    *children,
                )[j] by {
                    assert((entries@[j].0@, *entries@[j].1) == children.entries()[j]);
                }
            }
            let body = entries_text_exec(&entries, &order, 0, prefix, fuel - 1, Ghost(children.entries()));
            out.append(body.as_str());
            out
        },
        LayoutNode::File { pattern, optional, required, case } => {
            let mut flags: Vec<String> = Vec::new();
            assert(crate::text::views(flags@) =~= Seq::<Seq<char>>::empty());
            push_flag(&mut flags, *optional, "opt");
            push_flag(&mut flags, *required, "req");
            match case {
                Some(c) => {
                    let ghost before = crate::text::views(flags@);
                    let mut f = String::from_str("case: ");
                    f.append(case_debug_str(*c));
                    flags.push(f);
                    assert(crate::text::views(flags@) =~= before.push("case: "@ + case_debug(*c)));
                },
                None => {},
            }
            let mut out = String::new();
            match pattern {
                Some(p) => {
                    out.append(" [");
                    out.append(p.as_str());
                    out.append("]");
                },
                None => {},
            }
            out.append(flags_suffix(&flags).as_str());
            out.append("\n");
            out
        },
        LayoutNode::Param { name, case, child } => {
            let mut out = String::from_str(" [param: ");
            out.append(name.as_str());
            out.append(", case: ");
            out.append(case_debug_str(*case));
            out.append("]\n");
            let mut inner = to_owned_string(prefix);
            inner.append("    ");
            out.append(tree_text_exec(child, inner.as_str(), fuel - 1).as_str());
            out
        },
        LayoutNode::Many { case, child, max } => {
            let mut out = String::from_str(" [many");
            match case {
                Some(c) => {
                    out.append(", case: ");
                    out.append(case_debug_str(*c));
                },
                None => {},
            }
            match max {
                Some(m) => {
                    out.append(", max: ");
                    out.append(decimal_string(*m).as_str());
                },
                None => {},
            }
            out.append("]\n");
            let mut inner = to_owned_string(prefix);
            inner.append("    ");
            out.append(tree_text_exec(child, inner.as_str(), fuel - 1).as_str());
            out
        },
        LayoutNode::Recursive { max_depth, child } => {
            let mut out = String::from_str(" [recursive, max_depth: ");
            out.append(decimal_string(*max_depth).as_str());
            out.append("]\n");
            let mut inner = to_owned_string(prefix);
            inner.append("    ");
            out.append(tree_text_exec(child, inner.as_str(), fuel - 1).as_str());
            out
        },
        LayoutNode::Either { variants } => {
            let vs = variant_refs(variants);
            let mut out = String::from_str(" [either, ");
            out.append(decimal_string(vs.len()).as_str());
            out.append(" variants]\n");
            let mut inner = to_owned_string(prefix);
            inner.append("    ");
            let body = variants_text_exec(&vs, 0, inner.as_str(), fuel - 1, Ghost(variants.to_seq()));
            out.append(body.as_str());
            out
        },
    }
}

fn entries_text_exec(
    entries: &Vec<(&String, &LayoutNode)>,
    order: &Vec<usize>,
    i: usize,
    prefix: &str,
    fuel: usize,
    Ghost(es): Ghost<Seq<(Seq<char>, LayoutNode)>>,
) -> (r: String)
    requires
        entries@.len() == es.len(),
        forall|j: int| 0 <= j < entries@.len() ==> (entries@[j].0@, *entries@[j].1) == #[trigger] es[j],
        forall|j: int| 0 <= j < order@.len() ==> #[trigger] order@[j] < entries@.len(),
    ensures
        r@ == entries_text(es, order@.map_values(|x: usize| x as int), i as int, prefix@, fuel as nat),
    decreases fuel, order@.len() - i + 1,
{
    let ghost ord = order@.map_values(|x: usize| x as int);
    if i >= order.len() {
        return String::new();
    }
    let last = i == order.len() - 1;
    let at = order[i];
    let (name, child) = entries[at];
    assert(es[ord[i as int]] == (name@, *child));
    let mut out = to_owned_string(prefix);
    out.append(if last {
        "└── "
    } else {
        "├── "
    });
    out.append(name.as_str());
    let mut inner = to_owned_string(prefix);
    inner.append(if last {
        "    "
    } else {
        "│   "
    });
    out.append(tree_text_exec(child, inner.as_str(), fuel).as_str());
    out.append(entries_text_exec(entries, order, i + 1, prefix, fuel, Ghost(es)).as_str());
    out
}

fn variants_text_exec(vs: &Vec<&LayoutNode>, i: usize, prefix: &str, fuel: usize, Ghost(seq): Ghost<Seq<LayoutNode>>) -> (r:
    String)
    requires
        vs@.len() == seq.len(),
        forall|j: int| 0 <= j < vs@.len() ==> *vs@[j] == #[trigger] seq[j],
    ensures
        r@ == variants_text(seq, i as int, prefix@, fuel as nat),
    decreases fuel, vs@.len() - i + 1,
{
    if i >= vs.len() {
        return String::new();
    }
    let mut out = tree_text_exec(vs[i], prefix, fuel);
    out.append(variants_text_exec(vs, i + 1, prefix, fuel, Ghost(seq)).as_str());
    out
}

impl InspectCommand {
    /// The text that drawing `node` as a tree under `prefix` prints (the
    /// root directory itself prints no line); see `tree_text`.
    pub fn layout_tree_text(node: &LayoutNode, prefix: &str, is_last: bool) -> (r: String)
        ensures
            r@ == tree_text(*node, prefix@, capped(height(*node))),
    {
        let _ = is_last;
        let fuel = node_height(node);
        tree_text_exec(node, prefix, fuel)
    }
}

} // verus!

verus! {

// ---------------------------------------------------------------------------
// Reports on a path and on a rule
// ---------------------------------------------------------------------------

use crate::engine::layout_trie::{AttemptView, MatchAttempt, MatchResult, Outcome};
use crate::engine::matcher::{quoted_list, ExpectedChildInfo, PathExplanation};

/// The lines listing the tried patterns, when there are any.
pub open spec fn attempts_lines(attempts: Seq<AttemptView>) -> Seq<char> {
    if attempts.len() == 0 {
        Seq::empty()
    } else {
        "  Tried to match:\n"@ + attempt_lines(attempts)
    }
}

/// One line per tried pattern: a mark, the pattern, and the reason.
pub open spec fn attempt_lines(attempts: Seq<AttemptView>) -> Seq<char>
    decreases attempts.len(),
{
    if attempts.len() == 0 {
        Seq::empty()
    } else {
        let a = attempts[0];
        "    "@ + (if a.matched {
            "✓"@
        } else {
            "✗"@
        }) + " "@ + a.pattern + (match a.reason {
            Some(r) => " ("@ + r + ")"@,
            None => Seq::empty(),
        }) + "\n"@ + attempt_lines(attempts.drop_first())
    }
}

/// The status lines of a verdict.
pub open spec fn status_lines(o: Outcome) -> Seq<char> {
    match o {
        Outcome::Allowed => "  Status: ALLOWED\n"@,
        Outcome::AllowedParam { name, value } => "  Status: ALLOWED (param "@ + name + "="@ + value + ")\n"@,
        Outcome::AllowedMany { values } => "  Status: ALLOWED (many: "@ + quoted_list(values) + ")\n"@,
        Outcome::Denied { reason, attempts } => "  Status: DENIED\n  Reason: "@ + reason + "\n"@ + attempts_lines(
            attempts,
        ),
        Outcome::NotInLayout { nearest_valid, attempts } => "  Status: NOT IN LAYOUT\n"@ + (match nearest_valid {
            Some(n) => "  Nearest valid parent: "@ + n + "\n"@,
            None => Seq::empty(),
        }) + attempts_lines(attempts),
        Outcome::MissingRequired { expected } => "  Status: MISSING REQUIRED CHILDREN\n  Expected: "@ + quoted_list(
            expected,
        ) + "\n"@,
    }
}

/// One line per expected child: its name, kind and marks.
pub open spec fn expected_lines(children: Seq<ExpectedChildInfo>) -> Seq<char>
    decreases children.len(),
{
    if children.len() == 0 {
        Seq::empty()
    } else {
        let c = children[0];
        "    - "@ + c.name@ + " ["@ + (if c.is_dir {
            "dir"@
        } else {
            "file"@
        }) + "]"@ + (if c.optional {
            " (optional)"@
        } else {
            Seq::empty()
        }) + (if c.is_param {
            " [param]"@
        } else {
            Seq::empty()
        }) + "\n"@ + expected_lines(children.drop_first())
    }
}

/// The report on a path: its status, the patterns tried, and the children
/// expected below it. Lists of strings are written as Rust's `Debug` writes
/// strings that need no escaping.
pub open spec fn path_report_spec(path: Seq<char>, e: PathExplanation) -> Seq<char> {
    "Path: "@ + path + "\n\n"@ + status_lines(e.match_result@) + (if e.expected_children@.len() == 0 {
        Seq::empty()
    } else {
        "\n  Expected children at this path:\n"@ + expected_lines(e.expected_children@)
    })
}

/// The report on a rule.
pub open spec fn rule_report_spec(rule_id: Seq<char>, info: RuleInfoView) -> Seq<char> {
    "Rule: "@ + rule_id + "\n\n  Description: "@ + info.description + "\n  Auto-fix: "@ + (if info.auto_fix {
        "yes"@
    } else {
        "no"@
    }) + "\n"@ + (if info.examples.len() == 0 {
        Seq::empty()
    } else {
        "\n  Examples:\n"@ + example_lines(info.examples)
    })
}

/// One line per example.
pub open spec fn example_lines(examples: Seq<Seq<char>>) -> Seq<char>
    decreases examples.len(),
{
    if examples.len() == 0 {
        Seq::empty()
    } else {
        "    - "@ + examples[0] + "\n"@ + example_lines(examples.drop_first())
    }
}

/// The note printed for the dependency inspection, which is not available yet.
pub open spec fn deps_report_spec(path: Seq<char>) -> Seq<char> {
    "Dependency inspection for '"@ + path + "' is not yet implemented.\nThis feature will be available in M4.\n"@
}

fn attempt_lines_exec(attempts: &Vec<MatchAttempt>, i: usize) -> (r: String)
    requires
        i <= attempts@.len(),
    ensures
        r@ == attempt_lines(crate::engine::layout_trie::attempts_view(attempts@).skip(i as int)),
    decreases attempts@.len() - i,
{
    let ghost av = crate::engine::layout_trie::attempts_view(attempts@);
    if i == attempts.len() {
        assert(av.skip(i as int) =~= Seq::<AttemptView>::empty());
        return String::new();
    }
    let a = &attempts[i];
    assert(av.skip(i as int)[0] == a@);
    assert(av.skip(i as int).drop_first() =~= av.skip(i + 1));
    let mut out = String::from_str("    ");
    out.append(if a.matched {
        "✓"
    } else {
        "✗"
    });
    out.append(" ");
    out.append(a.pattern.as_str());
    match &a.reason {
        Some(r) => {
            out.append(" (");
            out.append(r.as_str());
            out.append(")");
        },
        None => {},
    }
    out.append("\n");
    out.append(attempt_lines_exec(attempts, i + 1).as_str());
    out
}

fn attempts_lines_exec(attempts: &Vec<MatchAttempt>) -> (r: String)
    ensures
        r@ == attempts_lines(crate::engine::layout_trie::attempts_view(attempts@)),
{
    if attempts.len() == 0 {
        return String::new();
    }
    let mut out = String::from_str("  Tried to match:\n");
    assert(crate::engine::layout_trie::attempts_view(attempts@).skip(0) =~= crate::engine::layout_trie::attempts_view(
        attempts@,
    ));
    out.append(attempt_lines_exec(attempts, 0).as_str());
    out
}

fn expected_lines_exec(children: &Vec<ExpectedChildInfo>, i: usize) -> (r: String)
    requires
        i <= children@.len(),
    ensures
        r@ == expected_lines(children@.skip(i as int)),
    decreases children@.len() - i,
{
    if i == children.len() {
        assert(children@.skip(i as int) =~= Seq::<ExpectedChildInfo>::empty());
        return String::new();
    }
    let c = &children[i];
    assert(children@.skip(i as int)[0] == *c);
    assert(children@.skip(i as int).drop_first() =~= children@.skip(i + 1));
    let mut out = String::from_str("    - ");
    out.append(c.name.as_str());
    out.append(" [");
    out.append(if c.is_dir {
        "dir"
    } else {
        "file"
    });
    out.append("]");
    if c.optional {
        out.append(" (optional)");
    }
    if c.is_param {
        out.append(" [param]");
    }
    out.append("\n");
    out.append(expected_lines_exec(children, i + 1).as_str());
    out
}

fn example_lines_exec(examples: &Vec<String>, i: usize) -> (r: String)
    requires
        i <= examples@.len(),
    ensures
        r@ == example_lines(crate::text::views(examples@).skip(i as int)),
    decreases examples@.len() - i,
{
    let ghost ev = crate::text::views(examples@);
    if i == examples.len() {
        assert(ev.skip(i as int) =~= Seq::<Seq<char>>::empty());
        return String::new();
    }
    assert(ev.skip(i as int)[0] == examples@[i as int]@);
    assert(ev.skip(i as int).drop_first() =~= ev.skip(i + 1));
    let mut out = String::from_str("    - ");
    out.append(examples[i].as_str());
    out.append("\n");
    out.append(example_lines_exec(examples, i + 1).as_str());
    out
}

impl InspectCommand {
    /// The report printed for `inspect path`.
    pub fn path_report(path: &str, e: &PathExplanation) -> (r: String)
        ensures
            r@ == path_report_spec(path@, *e),
    {
        let mut out = String::from_str("Path: ");
        out.append(path);
        out.append("\n\n");
        match &e.match_result {
            MatchResult::Allowed => {
                out.append("  Status: ALLOWED\n");
            },
            MatchResult::AllowedParam { name, value } => {
                out.append("  Status: ALLOWED (param ");
                out.append(name.as_str());
                out.append("=");
                out.append(value.as_str());
                out.append(")\n");
            },
            MatchResult::AllowedMany { values } => {
                out.append("  Status: ALLOWED (many: ");
                out.append(crate::engine::matcher::quote_list(values).as_str());
                out.append(")\n");
            },
            MatchResult::Denied { reason, attempts } => {
                out.append("  Status: DENIED\n  Reason: ");
                out.append(reason.as_str());
                out.append("\n");
                out.append(attempts_lines_exec(attempts).as_str());
            },
            MatchResult::NotInLayout { nearest_valid, attempts } => {
                out.append("  Status: NOT IN LAYOUT\n");
                match nearest_valid {
                    Some(n) => {
                        out.append("  Nearest valid parent: ");
                        out.append(n.as_str());
                        out.append("\n");
                    },
                    None => {},
                }
                out.append(attempts_lines_exec(attempts).as_str());
            },
            MatchResult::MissingRequired { expected } => {
                out.append("  Status: MISSING REQUIRED CHILDREN\n  Expected: ");
                out.append(crate::engine::matcher::quote_list(expected).as_str());
                out.append("\n");
            },
        }
        if e.expected_children.len() > 0 {
            out.append("\n  Expected children at this path:\n");
            assert(e.expected_children@.skip(0) =~= e.expected_children@);
            out.append(expected_lines_exec(&e.expected_children, 0).as_str());
        }
        out
    }

    /// The report printed for `inspect rule`.
    pub fn rule_report(rule_id: &str, info: &RuleInfo) -> (r: String)
        ensures
            r@ == rule_report_spec(rule_id@, info@),
    {
        let mut out = String::from_str("Rule: ");
        out.append(rule_id);
        out.append("\n\n  Description: ");
        out.append(info.description.as_str());
        out.append("\n  Auto-fix: ");
        out.append(if info.auto_fix {
            "yes"
        } else {
            "no"
        });
        out.append("\n");
        if info.examples.len() > 0 {
            out.append("\n  Examples:\n");
            assert(crate::text::views(info.examples@).skip(0) =~= crate::text::views(info.examples@));
            out.append(example_lines_exec(&info.examples, 0).as_str());
        }
        out
    }

    /// The note printed for `inspect deps`.
    pub fn deps_report(path: &str) -> (r: String)
        ensures
            r@ == deps_report_spec(path@),
    {
        let mut out = String::from_str("Dependency inspection for '");
        out.append(path);
        out.append("' is not yet implemented.\nThis feature will be available in M4.\n");
        out
    }
}

} // verus!

verus! {

/// No key sorts before itself.
pub proof fn lemma_key_before_irreflexive(a: Seq<char>)
    ensures
        !key_before(a, a),
    decreases a.len(),
{
    if a.len() > 0 {
        lemma_key_before_irreflexive(a.drop_first());
    }
}

/// Sorting before is transitive.
pub proof fn lemma_key_before_transitive(a: Seq<char>, b: Seq<char>, c: Seq<char>)
    requires
        key_before(a, b),
        key_before(b, c),
    ensures
        key_before(a, c),
    decreases a.len(),
{
    if a.len() > 0 && b.len() > 0 && c.len() > 0 && a[0] == b[0] && b[0] == c[0] {
        lemma_key_before_transitive(a.drop_first(), b.drop_first(), c.drop_first());
    }
}

} // verus!

verus! {

/// The number of positions not yet used.
pub open spec fn free_count(used: Seq<bool>) -> nat
    decreases used.len(),
{
    if used.len() == 0 {
        0
    } else {
        free_count(used.drop_last()) + (if used.last() {
            0nat
        } else {
            1nat
        })
    }
}

pub(crate) proof fn lemma_free_count_use(used: Seq<bool>, m: int)
    requires
        0 <= m < used.len(),
        !used[m],
    ensures
        free_count(used.update(m, true)) + 1 == free_count(used),
    decreases used.len(),
{
    let u = used.update(m, true);
    if m < used.len() - 1 {
        assert(u.drop_last() =~= used.drop_last().update(m, true));
        lemma_free_count_use(used.drop_last(), m);
    } else {
        assert(u.drop_last() =~= used.drop_last());
    }
}

pub(crate) proof fn lemma_free_count_some(used: Seq<bool>)
    requires
        free_count(used) > 0,
    ensures
        exists|j: int| 0 <= j < used.len() && !used[j],
    decreases used.len(),
{
    if !used.last() {
        assert(!used[used.len() - 1]);
    } else {
        lemma_free_count_some(used.drop_last());
        let j = choose|j: int| 0 <= j < used.drop_last().len() && !used.drop_last()[j];
        assert(!used[j]);
    }
}

pub(crate) proof fn lemma_free_count_none(n: nat)
    ensures
        free_count(none_used(n)) == n,
    decreases n,
{
    if n > 0 {
        assert(none_used(n).drop_last() =~= none_used((n - 1) as nat));
        lemma_free_count_none((n - 1) as nat);
    }
}

proof fn lemma_first_unused_min(keys: Seq<Seq<char>>, used: Seq<bool>, i: int, best: Option<int>)
    requires
        used.len() == keys.len(),
        0 <= i <= keys.len(),
        best matches Some(b) ==> 0 <= b < i && !used[b] && forall|j: int|
            0 <= j < i && !used[j] ==> !key_before(#[trigger] keys[j], keys[b]),
        best is None ==> forall|j: int| 0 <= j < i ==> used[j],
    ensures
        match first_unused_min(keys, used, i, best) {
            Some(m) => 0 <= m < keys.len() && !used[m] && forall|j: int|
                0 <= j < keys.len() && !used[j] ==> !key_before(#[trigger] keys[j], keys[m]),
            None => forall|j: int| 0 <= j < keys.len() ==> used[j],
        },
    decreases keys.len() - i,
{
    if i < keys.len() {
        if used[i] {
            lemma_first_unused_min(keys, used, i + 1, best);
        } else {
            match best {
                None => {
                    lemma_key_before_irreflexive(keys[i]);
                    lemma_first_unused_min(keys, used, i + 1, Some(i));
                },
                Some(b) => {
                    if key_before(keys[i], keys[b]) {
                        assert forall|j: int| 0 <= j < i + 1 && !used[j] implies !key_before(
                            #[trigger] keys[j],
                            keys[i],
                        ) by {
                            if j < i && key_before(keys[j], keys[i]) {
                                lemma_key_before_transitive(keys[j], keys[i], keys[b]);
                            }
                            if j == i {
                                lemma_key_before_irreflexive(keys[i]);
                            }
                        }
                        lemma_first_unused_min(keys, used, i + 1, Some(i));
                    } else {
                        lemma_first_unused_min(keys, used, i + 1, best);
                    }
                },
            }
        }
    }
}

proof fn lemma_sorted_order_steps(keys: Seq<Seq<char>>, used: Seq<bool>, k: nat)
    requires
        used.len() == keys.len(),
        k <= free_count(used),
    ensures
        sorted_order(keys, used, k).len() == k,
        forall|p: int|
            0 <= p < k ==> 0 <= #[trigger] sorted_order(keys, used, k)[p] < keys.len() && !used[sorted_order(
                keys,
                used,
                k,
            )[p]],
        forall|p: int, q: int|
            0 <= p < q < k ==> sorted_order(keys, used, k)[p] != sorted_order(keys, used, k)[q] && !key_before(
                keys[#[trigger] sorted_order(keys, used, k)[q]],
                keys[#[trigger] sorted_order(keys, used, k)[p]],
            ),
    decreases k,
{
    if k > 0 {
        lemma_free_count_some(used);
        lemma_first_unused_min(keys, used, 0, None);
        let m = first_unused_min(keys, used, 0, None)->0;
        let u = used.update(m, true);
        lemma_free_count_use(used, m);
        lemma_sorted_order_steps(keys, u, (k - 1) as nat);
        let rest = sorted_order(keys, u, (k - 1) as nat);
        let all = sorted_order(keys, used, k);
        assert(all == seq![m] + rest);
        assert forall|p: int| 0 <= p < k implies 0 <= #[trigger] all[p] < keys.len() && !used[all[p]] by {
            if p > 0 {
                assert(all[p] == rest[p - 1]);
                assert(!u[rest[p - 1]]);
            }
        }
        assert forall|p: int, q: int| 0 <= p < q < k implies all[p] != all[q] && !key_before(
            keys[#[trigger] all[q]],
            keys[#[trigger] all[p]],
        ) by {
            assert(all[q] == rest[q - 1]);
            assert(!u[rest[q - 1]]);
            if p > 0 {
                assert(all[p] == rest[p - 1]);
            } else {
                assert(all[p] == m);
                assert(!used[all[q]]);
            }
        }
    }
}

/// Sorting keys gives each position once, and no key sorts before one
/// that comes ahead of it.
pub proof fn lemma_sorted_order(keys: Seq<Seq<char>>)
    ensures
        sorted_order(keys, none_used(keys.len()), keys.len()).len() == keys.len(),
        forall|p: int|
            0 <= p < keys.len() ==> 0 <= #[trigger] sorted_order(keys, none_used(keys.len()), keys.len())[p]
                < keys.len(),
        forall|p: int, q: int|
            0 <= p < q < keys.len() ==> sorted_order(keys, none_used(keys.len()), keys.len())[p] != sorted_order(
                keys,
                none_used(keys.len()),
                keys.len(),
            )[q] && !key_before(
                keys[#[trigger] sorted_order(keys, none_used(keys.len()), keys.len())[q]],
                keys[#[trigger] sorted_order(keys, none_used(keys.len()), keys.len())[p]],
            ),
{
    lemma_free_count_none(keys.len());
    lemma_sorted_order_steps(keys, none_used(keys.len()), keys.len());
}

} // verus!
