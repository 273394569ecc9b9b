//! Reading a whole configuration from a module: `defineConfig({...})`,
//! the Next.js preset, the sections of the configuration object, named
//! exports of imported modules, and `extends`.

use vstd::prelude::*;

use super::expr::{
    bool_of, cat, expect_bool, expect_string, find_last, get_prop_name, lookup_last, not_array, not_object, prop_name,
    same_str, string_of, unsupported, unsupported_at, ConfigExpr, ConfigModule, ConfigProp, ExprList, SourceItem,
    ParseError, ParseErrorView, PropKey, PropList,
};
use super::ir::{
    children_view, layout_view, BoundariesConfig, CaseStyle, ChildMap, ConfigIR, DepsAllowRule, DepsConfig, LayoutNode,
    LayoutView, MirrorConfig, Mode, RulesConfig, WhenRequirement,
};
use super::layout_eval::{
    agrees, case_style_of, circular, eval_case_style, eval_layout, eval_layout_node, layout_pairs, layout_result,
    lemma_lookup_pairs_view, lookup_view, pairs_view,
};
use crate::text::{copy_strings, to_owned_string, views};

verus! {

// ---------------------------------------------------------------------------
// Plain-value views of the configuration
// ---------------------------------------------------------------------------

/// Path and name rules, as plain values.
pub struct RulesConfigView {
    pub forbid_paths: Seq<Seq<char>>,
    pub forbid_names: Seq<Seq<char>>,
    pub ignore_paths: Seq<Seq<char>>,
}

/// Module boundaries, as plain values.
pub struct BoundariesView {
    pub modules: Seq<char>,
    pub public_api: Seq<char>,
    pub forbid_deep_imports: bool,
}

/// One import permission, as plain values.
pub struct AllowView {
    pub from: Seq<char>,
    pub to: Seq<Seq<char>>,
}

/// One mirror rule, as plain values.
pub struct MirrorView {
    pub source: Seq<char>,
    pub target: Seq<char>,
    pub pattern: Seq<char>,
}

/// A whole configuration, as plain values.
pub struct ConfigView {
    pub mode: Mode,
    pub layout: Option<LayoutView>,
    pub rules: RulesConfigView,
    pub boundaries: Option<BoundariesView>,
    pub deps: Option<Seq<AllowView>>,
    pub ignore: Seq<Seq<char>>,
    pub use_gitignore: bool,
    pub workspaces: Seq<Seq<char>>,
    pub dependencies: Seq<(Seq<char>, Seq<char>)>,
    pub mirror: Seq<MirrorView>,
    pub when: Seq<(Seq<char>, Seq<Seq<char>>)>,
    pub extends: Option<Seq<char>>,
}

pub open spec fn rules_config_view(r: RulesConfig) -> RulesConfigView {
    RulesConfigView {
        forbid_paths: views(r.forbid_paths@),
        forbid_names: views(r.forbid_names@),
        ignore_paths: views(r.ignore_paths@),
    }
}

pub open spec fn allow_view(a: DepsAllowRule) -> AllowView {
    AllowView { from: a.from@, to: views(a.to@) }
}

pub open spec fn mirror_view(m: MirrorConfig) -> MirrorView {
    MirrorView { source: m.source@, target: m.target@, pattern: m.pattern@ }
}

pub open spec fn mirrors_view(v: Seq<MirrorConfig>) -> Seq<MirrorView> {
    v.map_values(|m: MirrorConfig| mirror_view(m))
}

pub open spec fn when_view(v: Seq<(String, WhenRequirement)>) -> Seq<(Seq<char>, Seq<Seq<char>>)> {
    pairs_view(v, |w: WhenRequirement| views(w.requires@))
}

pub open spec fn string_pairs_view(v: Seq<(String, String)>) -> Seq<(Seq<char>, Seq<char>)> {
    pairs_view(v, |s: String| s@)
}

/// A configuration with its strings taken by their characters.
pub open spec fn config_view(c: ConfigIR) -> ConfigView {
    ConfigView {
        mode: c.mode,
        layout: match c.layout {
            Some(l) => Some(layout_view(l)),
            None => None,
        },
        rules: rules_config_view(c.rules),
        boundaries: match c.boundaries {
            Some(b) => Some(
                BoundariesView {
                    modules: b.modules@,
                    public_api: b.public_api@,
                    forbid_deep_imports: b.forbid_deep_imports,
                },
            ),
            None => None,
        },
        deps: match c.deps {
            Some(d) => Some(d.allow@.map_values(|a: DepsAllowRule| allow_view(a))),
            None => None,
        },
        ignore: views(c.ignore@),
        use_gitignore: c.use_gitignore,
        workspaces: views(c.workspaces@),
        dependencies: string_pairs_view(c.dependencies@),
        mirror: mirrors_view(c.mirror@),
        when: when_view(c.when@),
        extends: match c.extends {
            Some(s) => Some(s@),
            None => None,
        },
    }
}

/// What a module makes available by name, as plain values.
pub struct ImportsView {
    pub layouts: Seq<(Seq<char>, LayoutView)>,
    pub when: Seq<(Seq<char>, Seq<(Seq<char>, Seq<Seq<char>>)>)>,
    pub arrays: Seq<(Seq<char>, Seq<Seq<char>>)>,
    pub rules: Seq<(Seq<char>, RulesConfigView)>,
    pub mirrors: Seq<(Seq<char>, Seq<MirrorView>)>,
}

/// Values available by name: what a module exports, or what a module
/// imported. A later binding of a name hides an earlier one.
#[derive(Debug)]
pub struct ModuleExports {
    pub layouts: Vec<(String, LayoutNode)>,
    pub when: Vec<(String, Vec<(String, WhenRequirement)>)>,
    pub string_arrays: Vec<(String, Vec<String>)>,
    pub rules: Vec<(String, RulesConfig)>,
    pub mirrors: Vec<(String, Vec<MirrorConfig>)>,
}

impl View for ModuleExports {
    type V = ImportsView;

    open spec fn view(&self) -> ImportsView {
        ImportsView {
            layouts: layout_pairs(self.layouts@),
            when: pairs_view(self.when@, |w: Vec<(String, WhenRequirement)>| when_view(w@)),
            arrays: pairs_view(self.string_arrays@, |a: Vec<String>| views(a@)),
            rules: pairs_view(self.rules@, |r: RulesConfig| rules_config_view(r)),
            mirrors: pairs_view(self.mirrors@, |m: Vec<MirrorConfig>| mirrors_view(m@)),
        }
    }
}

// ---------------------------------------------------------------------------
// Keyed insertion, as a map with keys kept in first-insertion order
// ---------------------------------------------------------------------------

/// The pairs after storing `v` under `k`: the first pair with key `k` takes
/// the new value in place, or the pair is added at the end.
pub open spec fn assoc_insert<V>(s: Seq<(Seq<char>, V)>, k: Seq<char>, v: V) -> Seq<(Seq<char>, V)>
    decreases s.len(),
{
    if s.len() == 0 {
        seq![(k, v)]
    } else if s[0].0 == k {
        seq![(k, v)] + s.drop_first()
    } else {
        seq![s[0]] + assoc_insert(s.drop_first(), k, v)
    }
}

proof fn lemma_assoc_insert_at<V>(s: Seq<(Seq<char>, V)>, k: Seq<char>, v: V, i: int)
    requires
        0 <= i < s.len(),
        s[i].0 == k,
        forall|j: int| 0 <= j < i ==> s[j].0 != k,
    ensures
        assoc_insert(s, k, v) == s.update(i, (k, v)),
    decreases i,
{
    if i == 0 {
        assert(seq![(k, v)] + s.drop_first() =~= s.update(0, (k, v)));
    } else {
        lemma_assoc_insert_at(s.drop_first(), k, v, i - 1);
        assert(seq![s[0]] + s.drop_first().update(i - 1, (k, v)) =~= s.update(i, (k, v)));
    }
}

proof fn lemma_assoc_insert_new<V>(s: Seq<(Seq<char>, V)>, k: Seq<char>, v: V)
    requires
        forall|j: int| 0 <= j < s.len() ==> s[j].0 != k,
    ensures
        assoc_insert(s, k, v) == s.push((k, v)),
    decreases s.len(),
{
    if s.len() > 0 {
        lemma_assoc_insert_new(s.drop_first(), k, v);
        assert(seq![s[0]] + s.drop_first().push((k, v)) =~= s.push((k, v)));
    }
}

/// The position of the first pair whose key is `k`.
fn first_key<V>(v: &Vec<(String, V)>, k: &str) -> (r: Option<usize>)
    ensures
        match r {
            Some(i) => i < v@.len() && v@[i as int].0@ == k@ && forall|j: int| 0 <= j < i ==> v@[j].0@ != k@,
            None => forall|j: int| 0 <= j < v@.len() ==> v@[j].0@ != k@,
        },
{
    let n = v.len();
    for i in 0..n
        invariant
            n == v@.len(),
            forall|j: int| 0 <= j < i ==> v@[j].0@ != k@,
    {
        if same_str(v[i].0.as_str(), k) {
            return Some(i);
        }
    }
    None
}

/// Stores a `when` requirement under the trigger file `k`.
fn set_when(v: &mut Vec<(String, WhenRequirement)>, k: String, w: WhenRequirement)
    ensures
        when_view(final(v)@) == assoc_insert(when_view(old(v)@), k@, views(w.requires@)),
{
    let ghost before = when_view(v@);
    let ghost wv = views(w.requires@);
    match first_key(v, k.as_str()) {
        Some(i) => {
            let key = v[i].0.clone();
            v.set(i, (key, w));
            proof {
                lemma_assoc_insert_at(before, k@, wv, i as int);
            }
            assert(when_view(v@) =~= before.update(i as int, (k@, wv)));
        },
        None => {
            proof {
                lemma_assoc_insert_new(before, k@, wv);
            }
            v.push((k, w));
            assert(when_view(v@) =~= before.push((k@, wv)));
        },
    }
}

/// Stores a target pattern under the source pattern `k`.
fn set_string_pair(v: &mut Vec<(String, String)>, k: String, x: String)
    ensures
        string_pairs_view(final(v)@) == assoc_insert(string_pairs_view(old(v)@), k@, x@),
{
    let ghost before = string_pairs_view(v@);
    let ghost xv = x@;
    match first_key(v, k.as_str()) {
        Some(i) => {
            let key = v[i].0.clone();
            v.set(i, (key, x));
            proof {
                lemma_assoc_insert_at(before, k@, xv, i as int);
            }
            assert(string_pairs_view(v@) =~= before.update(i as int, (k@, xv)));
        },
        None => {
            proof {
                lemma_assoc_insert_new(before, k@, xv);
            }
            v.push((k, x));
            assert(string_pairs_view(v@) =~= before.push((k@, xv)));
        },
    }
}

} // verus!

verus! {

// ---------------------------------------------------------------------------
// What the sections of a configuration mean
// ---------------------------------------------------------------------------

/// The strings of a list of expressions; the first non-string stops.
pub open spec fn eval_string_list(l: ExprList) -> Result<Seq<Seq<char>>, ParseErrorView>
    decreases l,
{
    match l {
        ExprList::Nil => Ok(Seq::empty()),
        ExprList::Cons(e, rest) => match expect_string(*e) {
            Ok(s) => match eval_string_list(*rest) {
                Ok(t) => Ok(seq![s] + t),
                Err(er) => Err(er),
            },
            Err(er) => Err(er),
        },
    }
}

/// The strings of an array literal.
pub open spec fn eval_string_array(e: ConfigExpr) -> Result<Seq<Seq<char>>, ParseErrorView> {
    match e {
        ConfigExpr::Array { elems } => eval_string_list(elems),
        _ => Err(not_array(e)),
    }
}

/// The mode an expression names: `strict` or `warn`.
pub open spec fn eval_mode(e: ConfigExpr) -> Result<Mode, ParseErrorView> {
    match expect_string(e) {
        Ok(s) => if s == "strict"@ {
            Ok(Mode::Strict)
        } else if s == "warn"@ {
            Ok(Mode::Warn)
        } else {
            Err(
                ParseErrorView::Invalid {
                    field: "mode"@,
                    message: "expected 'strict' or 'warn', got '"@ + s + "'"@,
                },
            )
        },
        Err(er) => Err(er),
    }
}

pub open spec fn empty_rules() -> RulesConfigView {
    RulesConfigView { forbid_paths: Seq::empty(), forbid_names: Seq::empty(), ignore_paths: Seq::empty() }
}

/// The rule lists read from the properties.
pub open spec fn rules_props(props: PropList, acc: RulesConfigView) -> Result<RulesConfigView, ParseErrorView>
    decreases props,
{
    match props {
        PropList::Nil => Ok(acc),
        PropList::Cons(p, rest) => match *p {
            ConfigProp::KeyValue { key, value } => if prop_name(key) == "forbidPaths"@ {
                match eval_string_array(value) {
                    Ok(a) => rules_props(*rest, RulesConfigView { forbid_paths: a, ..acc }),
                    Err(er) => Err(er),
                }
            } else if prop_name(key) == "forbidNames"@ {
                match eval_string_array(value) {
                    Ok(a) => rules_props(*rest, RulesConfigView { forbid_names: a, ..acc }),
                    Err(er) => Err(er),
                }
            } else if prop_name(key) == "ignorePaths"@ {
                match eval_string_array(value) {
                    Ok(a) => rules_props(*rest, RulesConfigView { ignore_paths: a, ..acc }),
                    Err(er) => Err(er),
                }
            } else {
                rules_props(*rest, acc)
            },
            _ => rules_props(*rest, acc),
        },
    }
}

/// The rules an expression gives: a variable is followed, else it must be
/// an object literal.
pub open spec fn eval_rules(e: ConfigExpr, vars: Seq<(String, ConfigExpr)>, fuel: nat) -> Result<
    RulesConfigView,
    ParseErrorView,
>
    decreases fuel,
{
    match e {
        ConfigExpr::Ident { name } => match lookup_last(vars, name@) {
            Some(v) => if fuel > 0 {
                eval_rules(v, vars, (fuel - 1) as nat)
            } else {
                Err(circular(name@))
            },
            None => Err(not_object(e)),
        },
        ConfigExpr::Object { props, .. } => rules_props(props, empty_rules()),
        _ => Err(not_object(e)),
    }
}

/// The boundaries read from the properties.
pub open spec fn boundaries_props(props: PropList, acc: BoundariesView) -> Result<BoundariesView, ParseErrorView>
    decreases props,
{
    match props {
        PropList::Nil => Ok(acc),
        PropList::Cons(p, rest) => match *p {
            ConfigProp::KeyValue { key, value } => if prop_name(key) == "modules"@ {
                match expect_string(value) {
                    Ok(s) => boundaries_props(*rest, BoundariesView { modules: s, ..acc }),
                    Err(er) => Err(er),
                }
            } else if prop_name(key) == "publicApi"@ {
                match expect_string(value) {
                    Ok(s) => boundaries_props(*rest, BoundariesView { public_api: s, ..acc }),
                    Err(er) => Err(er),
                }
            } else if prop_name(key) == "forbidDeepImports"@ {
                match expect_bool(value) {
                    Ok(b) => boundaries_props(*rest, BoundariesView { forbid_deep_imports: b, ..acc }),
                    Err(er) => Err(er),
                }
            } else {
                boundaries_props(*rest, acc)
            },
            _ => boundaries_props(*rest, acc),
        },
    }
}

/// The boundaries an expression gives.
pub open spec fn eval_boundaries(e: ConfigExpr, vars: Seq<(String, ConfigExpr)>, fuel: nat) -> Result<
    BoundariesView,
    ParseErrorView,
>
    decreases fuel,
{
    match e {
        ConfigExpr::Ident { name } => match lookup_last(vars, name@) {
            Some(v) => if fuel > 0 {
                eval_boundaries(v, vars, (fuel - 1) as nat)
            } else {
                Err(circular(name@))
            },
            None => Err(not_object(e)),
        },
        ConfigExpr::Object { props, .. } => boundaries_props(
            props,
            BoundariesView { modules: Seq::empty(), public_api: Seq::empty(), forbid_deep_imports: false },
        ),
        _ => Err(not_object(e)),
    }
}

/// One import permission read from the properties.
pub open spec fn allow_props(props: PropList, acc: AllowView) -> Result<AllowView, ParseErrorView>
    decreases props,
{
    match props {
        PropList::Nil => Ok(acc),
        PropList::Cons(p, rest) => match *p {
            ConfigProp::KeyValue { key, value } => if prop_name(key) == "from"@ {
                match expect_string(value) {
                    Ok(s) => allow_props(*rest, AllowView { from: s, ..acc }),
                    Err(er) => Err(er),
                }
            } else if prop_name(key) == "to"@ {
                match eval_string_array(value) {
                    Ok(a) => allow_props(*rest, AllowView { to: a, ..acc }),
                    Err(er) => Err(er),
                }
            } else {
                allow_props(*rest, acc)
            },
            _ => allow_props(*rest, acc),
        },
    }
}

/// The import permissions of a list of object literals.
pub open spec fn allow_list(l: ExprList) -> Result<Seq<AllowView>, ParseErrorView>
    decreases l,
{
    match l {
        ExprList::Nil => Ok(Seq::empty()),
        ExprList::Cons(e, rest) => match *e {
            ConfigExpr::Object { props, .. } => match allow_props(
                props,
                AllowView { from: Seq::empty(), to: Seq::empty() },
            ) {
                Ok(a) => match allow_list(*rest) {
                    Ok(t) => Ok(seq![a] + t),
                    Err(er) => Err(er),
                },
                Err(er) => Err(er),
            },
            _ => Err(not_object(*e)),
        },
    }
}

/// The import permissions of an array literal.
pub open spec fn eval_deps_allow(e: ConfigExpr) -> Result<Seq<AllowView>, ParseErrorView> {
    match e {
        ConfigExpr::Array { elems } => allow_list(elems),
        _ => Err(not_array(e)),
    }
}

/// The permissions read from the properties of a `deps` object.
pub open spec fn deps_props(props: PropList, acc: Seq<AllowView>) -> Result<Seq<AllowView>, ParseErrorView>
    decreases props,
{
    match props {
        PropList::Nil => Ok(acc),
        PropList::Cons(p, rest) => match *p {
            ConfigProp::KeyValue { key, value } => if prop_name(key) == "allow"@ {
                match eval_deps_allow(value) {
                    Ok(a) => deps_props(*rest, a),
                    Err(er) => Err(er),
                }
            } else {
                deps_props(*rest, acc)
            },
            _ => deps_props(*rest, acc),
        },
    }
}

/// The import permissions an expression gives.
pub open spec fn eval_deps(e: ConfigExpr, vars: Seq<(String, ConfigExpr)>, fuel: nat) -> Result<
    Seq<AllowView>,
    ParseErrorView,
>
    decreases fuel,
{
    match e {
        ConfigExpr::Ident { name } => match lookup_last(vars, name@) {
            Some(v) => if fuel > 0 {
                eval_deps(v, vars, (fuel - 1) as nat)
            } else {
                Err(circular(name@))
            },
            None => Err(not_object(e)),
        },
        ConfigExpr::Object { props, .. } => deps_props(props, Seq::empty()),
        _ => Err(not_object(e)),
    }
}

/// One mirror rule read from the properties.
pub open spec fn mirror_props(props: PropList, acc: MirrorView) -> Result<MirrorView, ParseErrorView>
    decreases props,
{
    match props {
        PropList::Nil => Ok(acc),
        PropList::Cons(p, rest) => match *p {
            ConfigProp::KeyValue { key, value } => if prop_name(key) == "source"@ {
                match expect_string(value) {
                    Ok(s) => mirror_props(*rest, MirrorView { source: s, ..acc }),
                    Err(er) => Err(er),
                }
            } else if prop_name(key) == "target"@ {
                match expect_string(value) {
                    Ok(s) => mirror_props(*rest, MirrorView { target: s, ..acc }),
                    Err(er) => Err(er),
                }
            } else if prop_name(key) == "pattern"@ {
                match expect_string(value) {
                    Ok(s) => mirror_props(*rest, MirrorView { pattern: s, ..acc }),
                    Err(er) => Err(er),
                }
            } else {
                mirror_props(*rest, acc)
            },
            _ => mirror_props(*rest, acc),
        },
    }
}

/// The mirror rules of a list of object literals.
pub open spec fn mirror_list(l: ExprList) -> Result<Seq<MirrorView>, ParseErrorView>
    decreases l,
{
    match l {
        ExprList::Nil => Ok(Seq::empty()),
        ExprList::Cons(e, rest) => match *e {
            ConfigExpr::Object { props, .. } => match mirror_props(
                props,
                MirrorView { source: Seq::empty(), target: Seq::empty(), pattern: Seq::empty() },
            ) {
                Ok(m) => match mirror_list(*rest) {
                    Ok(t) => Ok(seq![m] + t),
                    Err(er) => Err(er),
                },
                Err(er) => Err(er),
            },
            _ => Err(not_object(*e)),
        },
    }
}

/// The mirror rules an expression gives.
pub open spec fn eval_mirror(e: ConfigExpr, vars: Seq<(String, ConfigExpr)>, fuel: nat) -> Result<
    Seq<MirrorView>,
    ParseErrorView,
>
    decreases fuel,
{
    match e {
        ConfigExpr::Ident { name } => match lookup_last(vars, name@) {
            Some(v) => if fuel > 0 {
                eval_mirror(v, vars, (fuel - 1) as nat)
            } else {
                Err(circular(name@))
            },
            None => Err(not_array(e)),
        },
        ConfigExpr::Array { elems } => mirror_list(elems),
        _ => Err(not_array(e)),
    }
}

/// The `requires` list read from the properties of one `when` entry.
pub open spec fn requires_props(props: PropList, acc: Seq<Seq<char>>) -> Result<Seq<Seq<char>>, ParseErrorView>
    decreases props,
{
    match props {
        PropList::Nil => Ok(acc),
        PropList::Cons(p, rest) => match *p {
            ConfigProp::KeyValue { key, value } => if prop_name(key) == "requires"@ {
                match eval_string_array(value) {
                    Ok(a) => requires_props(*rest, a),
                    Err(er) => Err(er),
                }
            } else {
                requires_props(*rest, acc)
            },
            _ => requires_props(*rest, acc),
        },
    }
}

/// The `when` entries read from the properties: each key names a trigger
/// file and its value must be an object literal.
pub open spec fn when_props(props: PropList, acc: Seq<(Seq<char>, Seq<Seq<char>>)>) -> Result<
    Seq<(Seq<char>, Seq<Seq<char>>)>,
    ParseErrorView,
>
    decreases props,
{
    match props {
        PropList::Nil => Ok(acc),
        PropList::Cons(p, rest) => match *p {
            ConfigProp::KeyValue { key, value } => match value {
                ConfigExpr::Object { props: req, .. } => match requires_props(req, Seq::empty()) {
                    Ok(r) => when_props(*rest, assoc_insert(acc, prop_name(key), r)),
                    Err(er) => Err(er),
                },
                _ => Err(not_object(value)),
            },
            _ => when_props(*rest, acc),
        },
    }
}

/// The `when` rules an expression gives: an imported name, a variable, or
/// an object literal.
pub open spec fn eval_when(
    e: ConfigExpr,
    vars: Seq<(String, ConfigExpr)>,
    imported: Seq<(Seq<char>, Seq<(Seq<char>, Seq<Seq<char>>)>)>,
    fuel: nat,
) -> Result<Seq<(Seq<char>, Seq<Seq<char>>)>, ParseErrorView>
    decreases fuel,
{
    match e {
        ConfigExpr::Ident { name } => match lookup_view(imported, name@) {
            Some(w) => Ok(w),
            None => match lookup_last(vars, name@) {
                Some(v) => if fuel > 0 {
                    eval_when(v, vars, imported, (fuel - 1) as nat)
                } else {
                    Err(circular(name@))
                },
                None => Err(not_object(e)),
            },
        },
        ConfigExpr::Object { props, .. } => when_props(props, Seq::empty()),
        _ => Err(not_object(e)),
    }
}

/// The dependency pairs read from the properties: each key maps to a string.
pub open spec fn dependencies_props(props: PropList, acc: Seq<(Seq<char>, Seq<char>)>) -> Result<
    Seq<(Seq<char>, Seq<char>)>,
    ParseErrorView,
>
    decreases props,
{
    match props {
        PropList::Nil => Ok(acc),
        PropList::Cons(p, rest) => match *p {
            ConfigProp::KeyValue { key, value } => match expect_string(value) {
                Ok(s) => dependencies_props(*rest, assoc_insert(acc, prop_name(key), s)),
                Err(er) => Err(er),
            },
            _ => dependencies_props(*rest, acc),
        },
    }
}

/// The dependency pairs an object literal gives.
pub open spec fn eval_dependencies(e: ConfigExpr) -> Result<Seq<(Seq<char>, Seq<char>)>, ParseErrorView> {
    match e {
        ConfigExpr::Object { props, .. } => dependencies_props(props, Seq::empty()),
        _ => Err(not_object(e)),
    }
}

/// A string list, taken from an imported name or a variable when the
/// expression names one.
pub open spec fn eval_strings_with_imports(
    e: ConfigExpr,
    vars: Seq<(String, ConfigExpr)>,
    imported: Seq<(Seq<char>, Seq<Seq<char>>)>,
) -> Result<Seq<Seq<char>>, ParseErrorView> {
    match e {
        ConfigExpr::Ident { name } => match lookup_view(imported, name@) {
            Some(a) => Ok(a),
            None => match lookup_last(vars, name@) {
                Some(v) => eval_string_array(v),
                None => eval_string_array(e),
            },
        },
        _ => eval_string_array(e),
    }
}

/// Rules, taken from an imported name or a variable when the expression
/// names one.
pub open spec fn eval_rules_with_imports(
    e: ConfigExpr,
    vars: Seq<(String, ConfigExpr)>,
    imported: Seq<(Seq<char>, RulesConfigView)>,
    fuel: nat,
) -> Result<RulesConfigView, ParseErrorView> {
    match e {
        ConfigExpr::Ident { name } => match lookup_view(imported, name@) {
            Some(r) => Ok(r),
            None => match lookup_last(vars, name@) {
                Some(v) => if fuel > 0 {
                    eval_rules(v, vars, (fuel - 1) as nat)
                } else {
                    Err(circular(name@))
                },
                None => eval_rules(e, vars, fuel),
            },
        },
        _ => eval_rules(e, vars, fuel),
    }
}

/// Mirror rules, taken from an imported name or a variable when the
/// expression names one.
pub open spec fn eval_mirror_with_imports(
    e: ConfigExpr,
    vars: Seq<(String, ConfigExpr)>,
    imported: Seq<(Seq<char>, Seq<MirrorView>)>,
    fuel: nat,
) -> Result<Seq<MirrorView>, ParseErrorView> {
    match e {
        ConfigExpr::Ident { name } => match lookup_view(imported, name@) {
            Some(m) => Ok(m),
            None => match lookup_last(vars, name@) {
                Some(v) => if fuel > 0 {
                    eval_mirror(v, vars, (fuel - 1) as nat)
                } else {
                    Err(circular(name@))
                },
                None => eval_mirror(e, vars, fuel),
            },
        },
        _ => eval_mirror(e, vars, fuel),
    }
}

} // verus!

verus! {

// ---------------------------------------------------------------------------
// Reading the sections
// ---------------------------------------------------------------------------

fn read_string_list(l: &ExprList) -> (r: Result<Vec<String>, ParseError>)
    ensures
        agrees(r, eval_string_list(*l), |v: Vec<String>| views(v@)),
    decreases l,
{
    match l {
        ExprList::Nil => {
            let v: Vec<String> = Vec::new();
            assert(views(v@) =~= Seq::<Seq<char>>::empty());
            Ok(v)
        },
        ExprList::Cons(e, rest) => match string_of(e) {
            Ok(s) => match read_string_list(rest) {
                Ok(t) => {
                    let ghost tv = views(t@);
                    let mut v = vec![s];
                    let mut t = t;
                    v.append(&mut t);
                    assert(views(v@) =~= seq![v@[0]@] + tv);
                    Ok(v)
                },
                Err(er) => Err(er),
            },
            Err(er) => Err(er),
        },
    }
}

fn read_string_array(e: &ConfigExpr) -> (r: Result<Vec<String>, ParseError>)
    ensures
        agrees(r, eval_string_array(*e), |v: Vec<String>| views(v@)),
{
    match e {
        ConfigExpr::Array { elems } => read_string_list(elems),
        _ => Err(unsupported(e, String::from_str("Expected array literal"))),
    }
}

fn read_mode(e: &ConfigExpr) -> (r: Result<Mode, ParseError>)
    ensures
        agrees(r, eval_mode(*e), |m: Mode| m),
{
    let s = match string_of(e) {
        Ok(s) => s,
        Err(er) => {
            return Err(er);
        },
    };
    if same_str(s.as_str(), "strict") {
        Ok(Mode::Strict)
    } else if same_str(s.as_str(), "warn") {
        Ok(Mode::Warn)
    } else {
        let mut message = cat("expected 'strict' or 'warn', got '", s.as_str());
        message.append("'");
        Err(ParseError::InvalidValue { field: String::from_str("mode"), message })
    }
}

fn read_rules_props(props: &PropList, acc: RulesConfig) -> (r: Result<RulesConfig, ParseError>)
    ensures
        agrees(r, rules_props(*props, rules_config_view(acc)), |c: RulesConfig| rules_config_view(c)),
    decreases props,
{
    match props {
        PropList::Nil => Ok(acc),
        PropList::Cons(p, rest) => match &**p {
            ConfigProp::KeyValue { key, value } => {
                let k = get_prop_name(key);
                let mut acc = acc;
                if same_str(k.as_str(), "forbidPaths") {
                    match read_string_array(value) {
                        Ok(a) => {
                            acc.forbid_paths = a;
                        },
                        Err(er) => {
                            return Err(er);
                        },
                    }
                } else if same_str(k.as_str(), "forbidNames") {
                    match read_string_array(value) {
                        Ok(a) => {
                            acc.forbid_names = a;
                        },
                        Err(er) => {
                            return Err(er);
                        },
                    }
                } else if same_str(k.as_str(), "ignorePaths") {
                    match read_string_array(value) {
                        Ok(a) => {
                            acc.ignore_paths = a;
                        },
                        Err(er) => {
                            return Err(er);
                        },
                    }
                }
                read_rules_props(rest, acc)
            },
            _ => read_rules_props(rest, acc),
        },
    }
}

fn empty_rules_config() -> (r: RulesConfig)
    ensures
        rules_config_view(r) == empty_rules(),
{
    let r = RulesConfig { forbid_paths: Vec::new(), forbid_names: Vec::new(), ignore_paths: Vec::new() };
    assert(views(r.forbid_paths@) =~= Seq::<Seq<char>>::empty());
    assert(views(r.forbid_names@) =~= Seq::<Seq<char>>::empty());
    assert(views(r.ignore_paths@) =~= Seq::<Seq<char>>::empty());
    r
}

fn read_rules(e: &ConfigExpr, vars: &Vec<(String, ConfigExpr)>, fuel: usize) -> (r: Result<RulesConfig, ParseError>)
    ensures
        agrees(r, eval_rules(*e, vars@, fuel as nat), |c: RulesConfig| rules_config_view(c)),
    decreases fuel,
{
    match e {
        ConfigExpr::Ident { name } => match find_last(vars, name.as_str()) {
            Some(v) => {
                if fuel > 0 {
                    read_rules(v, vars, fuel - 1)
                } else {
                    Err(circular_error(name.as_str()))
                }
            },
            None => Err(unsupported(e, String::from_str("Expected object literal"))),
        },
        ConfigExpr::Object { props, .. } => read_rules_props(props, empty_rules_config()),
        _ => Err(unsupported(e, String::from_str("Expected object literal"))),
    }
}

fn circular_error(name: &str) -> (r: ParseError)
    ensures
        r@ == circular(name@),
{
    ParseError::UnsupportedExpression { line: 0, col: 0, message: cat("Circular variable reference: ", name) }
}

pub open spec fn boundaries_view(b: BoundariesConfig) -> BoundariesView {
    BoundariesView { modules: b.modules@, public_api: b.public_api@, forbid_deep_imports: b.forbid_deep_imports }
}

fn read_boundaries_props(props: &PropList, acc: BoundariesConfig) -> (r: Result<BoundariesConfig, ParseError>)
    ensures
        agrees(r, boundaries_props(*props, boundaries_view(acc)), |b: BoundariesConfig| boundaries_view(b)),
    decreases props,
{
    match props {
        PropList::Nil => Ok(acc),
        PropList::Cons(p, rest) => match &**p {
            ConfigProp::KeyValue { key, value } => {
                let k = get_prop_name(key);
                let mut acc = acc;
                if same_str(k.as_str(), "modules") {
                    match string_of(value) {
                        Ok(s) => {
                            acc.modules = s;
                        },
                        Err(er) => {
                            return Err(er);
                        },
                    }
                } else if same_str(k.as_str(), "publicApi") {
                    match string_of(value) {
                        Ok(s) => {
                            acc.public_api = s;
                        },
                        Err(er) => {
                            return Err(er);
                        },
                    }
                } else if same_str(k.as_str(), "forbidDeepImports") {
                    match bool_of(value) {
                        Ok(b) => {
                            acc.forbid_deep_imports = b;
                        },
                        Err(er) => {
                            return Err(er);
                        },
                    }
                }
                read_boundaries_props(rest, acc)
            },
            _ => read_boundaries_props(rest, acc),
        },
    }
}

fn read_boundaries(e: &ConfigExpr, vars: &Vec<(String, ConfigExpr)>, fuel: usize) -> (r: Result<
    BoundariesConfig,
    ParseError,
>)
    ensures
        agrees(r, eval_boundaries(*e, vars@, fuel as nat), |b: BoundariesConfig| boundaries_view(b)),
    decreases fuel,
{
    match e {
        ConfigExpr::Ident { name } => match find_last(vars, name.as_str()) {
            Some(v) => {
                if fuel > 0 {
                    read_boundaries(v, vars, fuel - 1)
                } else {
                    Err(circular_error(name.as_str()))
                }
            },
            None => Err(unsupported(e, String::from_str("Expected object literal"))),
        },
        ConfigExpr::Object { props, .. } => {
            let acc = BoundariesConfig { modules: String::new(), public_api: String::new(), forbid_deep_imports: false };
            read_boundaries_props(props, acc)
        },
        _ => Err(unsupported(e, String::from_str("Expected object literal"))),
    }
}

fn read_allow_props(props: &PropList, acc: DepsAllowRule) -> (r: Result<DepsAllowRule, ParseError>)
    ensures
        agrees(r, allow_props(*props, allow_view(acc)), |a: DepsAllowRule| allow_view(a)),
    decreases props,
{
    match props {
        PropList::Nil => Ok(acc),
        PropList::Cons(p, rest) => match &**p {
            ConfigProp::KeyValue { key, value } => {
                let k = get_prop_name(key);
                let mut acc = acc;
                if same_str(k.as_str(), "from") {
                    match string_of(value) {
                        Ok(s) => {
                            acc.from = s;
                        },
                        Err(er) => {
                            return Err(er);
                        },
                    }
                } else if same_str(k.as_str(), "to") {
                    match read_string_array(value) {
                        Ok(a) => {
                            acc.to = a;
                        },
                        Err(er) => {
                            return Err(er);
                        },
                    }
                }
                read_allow_props(rest, acc)
            },
            _ => read_allow_props(rest, acc),
        },
    }
}

pub open spec fn allows_view(v: Seq<DepsAllowRule>) -> Seq<AllowView> {
    v.map_values(|a: DepsAllowRule| allow_view(a))
}

fn read_allow_list(l: &ExprList) -> (r: Result<Vec<DepsAllowRule>, ParseError>)
    ensures
        agrees(r, allow_list(*l), |v: Vec<DepsAllowRule>| allows_view(v@)),
    decreases l,
{
    match l {
        ExprList::Nil => {
            let v: Vec<DepsAllowRule> = Vec::new();
            assert(allows_view(v@) =~= Seq::<AllowView>::empty());
            Ok(v)
        },
        ExprList::Cons(e, rest) => match &**e {
            ConfigExpr::Object { props, .. } => {
                let acc = DepsAllowRule { from: String::new(), to: Vec::new() };
                assert(views(acc.to@) =~= Seq::<Seq<char>>::empty());
                match read_allow_props(props, acc) {
                    Ok(a) => match read_allow_list(rest) {
                        Ok(t) => {
                            let ghost tv = allows_view(t@);
                            let ghost av = allow_view(a);
                            let mut v = vec![a];
                            let mut t = t;
                            v.append(&mut t);
                            assert(allows_view(v@) =~= seq![av] + tv);
                            Ok(v)
                        },
                        Err(er) => Err(er),
                    },
                    Err(er) => Err(er),
                }
            },
            _ => Err(unsupported(e, String::from_str("Expected object literal"))),
        },
    }
}

fn read_deps_allow(e: &ConfigExpr) -> (r: Result<Vec<DepsAllowRule>, ParseError>)
    ensures
        agrees(r, eval_deps_allow(*e), |v: Vec<DepsAllowRule>| allows_view(v@)),
{
    match e {
        ConfigExpr::Array { elems } => read_allow_list(elems),
        _ => Err(unsupported(e, String::from_str("Expected array literal"))),
    }
}

fn read_deps_props(props: &PropList, acc: Vec<DepsAllowRule>) -> (r: Result<Vec<DepsAllowRule>, ParseError>)
    ensures
        agrees(r, deps_props(*props, allows_view(acc@)), |v: Vec<DepsAllowRule>| allows_view(v@)),
    decreases props,
{
    match props {
        PropList::Nil => Ok(acc),
        PropList::Cons(p, rest) => match &**p {
            ConfigProp::KeyValue { key, value } => {
                let k = get_prop_name(key);
                if same_str(k.as_str(), "allow") {
                    match read_deps_allow(value) {
                        Ok(a) => read_deps_props(rest, a),
                        Err(er) => Err(er),
                    }
                } else {
                    read_deps_props(rest, acc)
                }
            },
            _ => read_deps_props(rest, acc),
        },
    }
}

fn read_deps(e: &ConfigExpr, vars: &Vec<(String, ConfigExpr)>, fuel: usize) -> (r: Result<DepsConfig, ParseError>)
    ensures
        agrees(r, eval_deps(*e, vars@, fuel as nat), |d: DepsConfig| allows_view(d.allow@)),
    decreases fuel,
{
    match e {
        ConfigExpr::Ident { name } => match find_last(vars, name.as_str()) {
            Some(v) => {
                if fuel > 0 {
                    read_deps(v, vars, fuel - 1)
                } else {
                    Err(circular_error(name.as_str()))
                }
            },
            None => Err(unsupported(e, String::from_str("Expected object literal"))),
        },
        ConfigExpr::Object { props, .. } => {
            let acc: Vec<DepsAllowRule> = Vec::new();
            assert(allows_view(acc@) =~= Seq::<AllowView>::empty());
            match read_deps_props(props, acc) {
                Ok(allow) => Ok(DepsConfig { allow }),
                Err(er) => Err(er),
            }
        },
        _ => Err(unsupported(e, String::from_str("Expected object literal"))),
    }
}

fn read_mirror_props(props: &PropList, acc: MirrorConfig) -> (r: Result<MirrorConfig, ParseError>)
    ensures
        agrees(r, mirror_props(*props, mirror_view(acc)), |m: MirrorConfig| mirror_view(m)),
    decreases props,
{
    match props {
        PropList::Nil => Ok(acc),
        PropList::Cons(p, rest) => match &**p {
            ConfigProp::KeyValue { key, value } => {
                let k = get_prop_name(key);
                let mut acc = acc;
                if same_str(k.as_str(), "source") {
                    match string_of(value) {
                        Ok(s) => {
                            acc.source = s;
                        },
                        Err(er) => {
                            return Err(er);
                        },
                    }
                } else if same_str(k.as_str(), "target") {
                    match string_of(value) {
                        Ok(s) => {
                            acc.target = s;
                        },
                        Err(er) => {
                            return Err(er);
                        },
                    }
                } else if same_str(k.as_str(), "pattern") {
                    match string_of(value) {
                        Ok(s) => {
                            acc.pattern = s;
                        },
                        Err(er) => {
                            return Err(er);
                        },
                    }
                }
                read_mirror_props(rest, acc)
            },
            _ => read_mirror_props(rest, acc),
        },
    }
}

fn read_mirror_list(l: &ExprList) -> (r: Result<Vec<MirrorConfig>, ParseError>)
    ensures
        agrees(r, mirror_list(*l), |v: Vec<MirrorConfig>| mirrors_view(v@)),
    decreases l,
{
    match l {
        ExprList::Nil => {
            let v: Vec<MirrorConfig> = Vec::new();
            assert(mirrors_view(v@) =~= Seq::<MirrorView>::empty());
            Ok(v)
        },
        ExprList::Cons(e, rest) => match &**e {
            ConfigExpr::Object { props, .. } => {
                let acc = MirrorConfig { source: String::new(), target: String::new(), pattern: String::new() };
                match read_mirror_props(props, acc) {
                    Ok(m) => match read_mirror_list(rest) {
                        Ok(t) => {
                            let ghost tv = mirrors_view(t@);
                            let ghost mv = mirror_view(m);
                            let mut v = vec![m];
                            let mut t = t;
                            v.append(&mut t);
                            assert(mirrors_view(v@) =~= seq![mv] + tv);
                            Ok(v)
                        },
                        Err(er) => Err(er),
                    },
                    Err(er) => Err(er),
                }
            },
            _ => Err(unsupported(e, String::from_str("Expected object literal"))),
        },
    }
}

fn read_mirror(e: &ConfigExpr, vars: &Vec<(String, ConfigExpr)>, fuel: usize) -> (r: Result<
    Vec<MirrorConfig>,
    ParseError,
>)
    ensures
        agrees(r, eval_mirror(*e, vars@, fuel as nat), |v: Vec<MirrorConfig>| mirrors_view(v@)),
    decreases fuel,
{
    match e {
        ConfigExpr::Ident { name } => match find_last(vars, name.as_str()) {
            Some(v) => {
                if fuel > 0 {
                    read_mirror(v, vars, fuel - 1)
                } else {
                    Err(circular_error(name.as_str()))
                }
            },
            None => Err(unsupported(e, String::from_str("Expected array literal"))),
        },
        ConfigExpr::Array { elems } => read_mirror_list(elems),
        _ => Err(unsupported(e, String::from_str("Expected array literal"))),
    }
}

fn read_requires_props(props: &PropList, acc: Vec<String>) -> (r: Result<Vec<String>, ParseError>)
    ensures
        agrees(r, requires_props(*props, views(acc@)), |v: Vec<String>| views(v@)),
    decreases props,
{
    match props {
        PropList::Nil => Ok(acc),
        PropList::Cons(p, rest) => match &**p {
            ConfigProp::KeyValue { key, value } => {
                let k = get_prop_name(key);
                if same_str(k.as_str(), "requires") {
                    match read_string_array(value) {
                        Ok(a) => read_requires_props(rest, a),
                        Err(er) => Err(er),
                    }
                } else {
                    read_requires_props(rest, acc)
                }
            },
            _ => read_requires_props(rest, acc),
        },
    }
}

fn read_when_props(props: &PropList, acc: Vec<(String, WhenRequirement)>) -> (r: Result<
    Vec<(String, WhenRequirement)>,
    ParseError,
>)
    ensures
        agrees(r, when_props(*props, when_view(acc@)), |v: Vec<(String, WhenRequirement)>| when_view(v@)),
    decreases props,
{
    match props {
        PropList::Nil => Ok(acc),
        PropList::Cons(p, rest) => match &**p {
            ConfigProp::KeyValue { key, value } => match value {
                ConfigExpr::Object { props: req, .. } => {
                    let empty: Vec<String> = Vec::new();
                    assert(views(empty@) =~= Seq::<Seq<char>>::empty());
                    match read_requires_props(req, empty) {
                        Ok(needed) => {
                            let mut acc = acc;
                            set_when(&mut acc, get_prop_name(key), WhenRequirement { requires: needed });
                            read_when_props(rest, acc)
                        },
                        Err(er) => Err(er),
                    }
                },
                _ => Err(unsupported(value, String::from_str("Expected object literal"))),
            },
            _ => read_when_props(rest, acc),
        },
    }
}

/// A copy of a list of `when` requirements.
fn copy_when(v: &Vec<(String, WhenRequirement)>) -> (r: Vec<(String, WhenRequirement)>)
    ensures
        when_view(r@) == when_view(v@),
{
    let mut r: Vec<(String, WhenRequirement)> = Vec::new();
    let n = v.len();
    for i in 0..n
        invariant
            n == v@.len(),
            when_view(r@) == when_view(v@).take(i as int),
    {
        let ghost before = when_view(r@);
        let item = (v[i].0.clone(), WhenRequirement { requires: copy_strings(&v[i].1.requires) });
        let ghost iv = (item.0@, views(item.1.requires@));
        r.push(item);
        assert(when_view(r@) =~= before.push(iv));
        assert(when_view(v@).take(i + 1) =~= when_view(v@).take(i as int).push(iv));
    }
    assert(when_view(v@).take(n as int) =~= when_view(v@));
    r
}


/// The imported `when` rules, taken by their views.
pub open spec fn when_imports_view(s: Seq<(String, Vec<(String, WhenRequirement)>)>) -> Seq<
    (Seq<char>, Seq<(Seq<char>, Seq<Seq<char>>)>),
> {
    pairs_view(s, |w: Vec<(String, WhenRequirement)>| when_view(w@))
}

fn read_when(
    e: &ConfigExpr,
    vars: &Vec<(String, ConfigExpr)>,
    imported: &Vec<(String, Vec<(String, WhenRequirement)>)>,
    fuel: usize,
) -> (r: Result<Vec<(String, WhenRequirement)>, ParseError>)
    ensures
        agrees(r, eval_when(*e, vars@, when_imports_view(imported@), fuel as nat), |v: Vec<(String, WhenRequirement)>| when_view(v@)),
    decreases fuel,
{
    match e {
        ConfigExpr::Ident { name } => {
            proof {
                lemma_lookup_pairs_view(imported@, name@, |w: Vec<(String, WhenRequirement)>| when_view(w@));
            }
            match find_last(imported, name.as_str()) {
                Some(w) => Ok(copy_when(w)),
                None => match find_last(vars, name.as_str()) {
                    Some(v) => {
                        if fuel > 0 {
                            read_when(v, vars, imported, fuel - 1)
                        } else {
                            Err(circular_error(name.as_str()))
                        }
                    },
                    None => Err(unsupported(e, String::from_str("Expected object literal"))),
                },
            }
        },
        ConfigExpr::Object { props, .. } => {
            let acc: Vec<(String, WhenRequirement)> = Vec::new();
            assert(when_view(acc@) =~= Seq::<(Seq<char>, Seq<Seq<char>>)>::empty());
            read_when_props(props, acc)
        },
        _ => Err(unsupported(e, String::from_str("Expected object literal"))),
    }
}

fn read_dependencies_props(props: &PropList, acc: Vec<(String, String)>) -> (r: Result<
    Vec<(String, String)>,
    ParseError,
>)
    ensures
        agrees(r, dependencies_props(*props, string_pairs_view(acc@)), |v: Vec<(String, String)>| string_pairs_view(v@)),
    decreases props,
{
    match props {
        PropList::Nil => Ok(acc),
        PropList::Cons(p, rest) => match &**p {
            ConfigProp::KeyValue { key, value } => match string_of(value) {
                Ok(s) => {
                    let mut acc = acc;
                    set_string_pair(&mut acc, get_prop_name(key), s);
                    read_dependencies_props(rest, acc)
                },
                Err(er) => Err(er),
            },
            _ => read_dependencies_props(rest, acc),
        },
    }
}

fn read_dependencies(e: &ConfigExpr) -> (r: Result<Vec<(String, String)>, ParseError>)
    ensures
        agrees(r, eval_dependencies(*e), |v: Vec<(String, String)>| string_pairs_view(v@)),
{
    match e {
        ConfigExpr::Object { props, .. } => {
            let acc: Vec<(String, String)> = Vec::new();
            assert(string_pairs_view(acc@) =~= Seq::<(Seq<char>, Seq<char>)>::empty());
            read_dependencies_props(props, acc)
        },
        _ => Err(unsupported(e, String::from_str("Expected object literal"))),
    }
}

} // verus!

verus! {

// ---------------------------------------------------------------------------
// The configuration object
// ---------------------------------------------------------------------------

/// Every setting at its default.
pub open spec fn default_config() -> ConfigView {
    ConfigView {
        mode: Mode::Strict,
        layout: None,
        rules: empty_rules(),
        boundaries: None,
        deps: None,
        ignore: Seq::empty(),
        use_gitignore: true,
        workspaces: Seq::empty(),
        dependencies: Seq::empty(),
        mirror: Seq::empty(),
        when: Seq::empty(),
        extends: None,
    }
}

/// The setting a `key: value` property of the configuration object gives.
pub open spec fn config_key_value(
    k: Seq<char>,
    value: ConfigExpr,
    acc: ConfigView,
    vars: Seq<(String, ConfigExpr)>,
    imp: ImportsView,
    fuel: nat,
) -> Result<ConfigView, ParseErrorView> {
    if k == "mode"@ {
        match eval_mode(value) {
            Ok(m) => Ok(ConfigView { mode: m, ..acc }),
            Err(er) => Err(er),
        }
    } else if k == "layout"@ {
        match eval_layout(value, vars, imp.layouts, fuel) {
            Ok(l) => Ok(ConfigView { layout: Some(l), ..acc }),
            Err(er) => Err(er),
        }
    } else if k == "rules"@ {
        match eval_rules_with_imports(value, vars, imp.rules, fuel) {
            Ok(r) => Ok(ConfigView { rules: r, ..acc }),
            Err(er) => Err(er),
        }
    } else if k == "boundaries"@ {
        match eval_boundaries(value, vars, fuel) {
            Ok(b) => Ok(ConfigView { boundaries: Some(b), ..acc }),
            Err(er) => Err(er),
        }
    } else if k == "deps"@ {
        match eval_deps(value, vars, fuel) {
            Ok(d) => Ok(ConfigView { deps: Some(d), ..acc }),
            Err(er) => Err(er),
        }
    } else if k == "ignore"@ {
        match eval_strings_with_imports(value, vars, imp.arrays) {
            Ok(a) => Ok(ConfigView { ignore: a, ..acc }),
            Err(er) => Err(er),
        }
    } else if k == "useGitignore"@ {
        match expect_bool(value) {
            Ok(b) => Ok(ConfigView { use_gitignore: b, ..acc }),
            Err(er) => Err(er),
        }
    } else if k == "workspaces"@ {
        match eval_strings_with_imports(value, vars, imp.arrays) {
            Ok(a) => Ok(ConfigView { workspaces: a, ..acc }),
            Err(er) => Err(er),
        }
    } else if k == "dependencies"@ {
        match eval_dependencies(value) {
            Ok(d) => Ok(ConfigView { dependencies: d, ..acc }),
            Err(er) => Err(er),
        }
    } else if k == "mirror"@ {
        match eval_mirror_with_imports(value, vars, imp.mirrors, fuel) {
            Ok(m) => Ok(ConfigView { mirror: m, ..acc }),
            Err(er) => Err(er),
        }
    } else if k == "when"@ {
        match eval_when(value, vars, imp.when, fuel) {
            Ok(w) => Ok(ConfigView { when: w, ..acc }),
            Err(er) => Err(er),
        }
    } else if k == "extends"@ {
        match expect_string(value) {
            Ok(s) => Ok(ConfigView { extends: Some(s), ..acc }),
            Err(er) => Err(er),
        }
    } else {
        Ok(acc)
    }
}

/// The setting a shorthand property `name` of the configuration object
/// gives: an imported value of that name, else a variable's value; an
/// unknown `layout` is an error, other unknown names are ignored.
pub open spec fn config_shorthand(
    name: Seq<char>,
    obj: ConfigExpr,
    acc: ConfigView,
    vars: Seq<(String, ConfigExpr)>,
    imp: ImportsView,
    fuel: nat,
) -> Result<ConfigView, ParseErrorView> {
    if name == "layout"@ {
        match lookup_view(imp.layouts, name) {
            Some(l) => Ok(ConfigView { layout: Some(l), ..acc }),
            None => match lookup_last(vars, name) {
                Some(v) => if fuel > 0 {
                    match eval_layout(v, vars, imp.layouts, (fuel - 1) as nat) {
                        Ok(l) => Ok(ConfigView { layout: Some(l), ..acc }),
                        Err(er) => Err(er),
                    }
                } else {
                    Err(circular(name))
                },
                None => Err(unsupported_at(obj, "Unknown shorthand value for layout: "@ + name)),
            },
        }
    } else if name == "rules"@ {
        match lookup_view(imp.rules, name) {
            Some(r) => Ok(ConfigView { rules: r, ..acc }),
            None => match lookup_last(vars, name) {
                Some(v) => if fuel > 0 {
                    match eval_rules(v, vars, (fuel - 1) as nat) {
                        Ok(r) => Ok(ConfigView { rules: r, ..acc }),
                        Err(er) => Err(er),
                    }
                } else {
                    Err(circular(name))
                },
                None => Ok(acc),
            },
        }
    } else if name == "boundaries"@ {
        match lookup_last(vars, name) {
            Some(v) => if fuel > 0 {
                match eval_boundaries(v, vars, (fuel - 1) as nat) {
                    Ok(b) => Ok(ConfigView { boundaries: Some(b), ..acc }),
                    Err(er) => Err(er),
                }
            } else {
                Err(circular(name))
            },
            None => Ok(acc),
        }
    } else if name == "deps"@ {
        match lookup_last(vars, name) {
            Some(v) => if fuel > 0 {
                match eval_deps(v, vars, (fuel - 1) as nat) {
                    Ok(d) => Ok(ConfigView { deps: Some(d), ..acc }),
                    Err(er) => Err(er),
                }
            } else {
                Err(circular(name))
            },
            None => Ok(acc),
        }
    } else if name == "mirror"@ {
        match lookup_view(imp.mirrors, name) {
            Some(m) => Ok(ConfigView { mirror: m, ..acc }),
            None => match lookup_last(vars, name) {
                Some(v) => if fuel > 0 {
                    match eval_mirror(v, vars, (fuel - 1) as nat) {
                        Ok(m) => Ok(ConfigView { mirror: m, ..acc }),
                        Err(er) => Err(er),
                    }
                } else {
                    Err(circular(name))
                },
                None => Ok(acc),
            },
        }
    } else if name == "when"@ {
        match lookup_view(imp.when, name) {
            Some(w) => Ok(ConfigView { when: w, ..acc }),
            None => match lookup_last(vars, name) {
                Some(v) => if fuel > 0 {
                    match eval_when(v, vars, imp.when, (fuel - 1) as nat) {
                        Ok(w) => Ok(ConfigView { when: w, ..acc }),
                        Err(er) => Err(er),
                    }
                } else {
                    Err(circular(name))
                },
                None => Ok(acc),
            },
        }
    } else if name == "ignore"@ {
        match lookup_view(imp.arrays, name) {
            Some(a) => Ok(ConfigView { ignore: a, ..acc }),
            None => match lookup_last(vars, name) {
                Some(v) => match eval_string_array(v) {
                    Ok(a) => Ok(ConfigView { ignore: a, ..acc }),
                    Err(er) => Err(er),
                },
                None => Ok(acc),
            },
        }
    } else if name == "workspaces"@ {
        match lookup_view(imp.arrays, name) {
            Some(a) => Ok(ConfigView { workspaces: a, ..acc }),
            None => match lookup_last(vars, name) {
                Some(v) => match eval_string_array(v) {
                    Ok(a) => Ok(ConfigView { workspaces: a, ..acc }),
                    Err(er) => Err(er),
                },
                None => Ok(acc),
            },
        }
    } else {
        Ok(acc)
    }
}

/// The settings read from the properties of the configuration object `obj`.
pub open spec fn config_props(
    props: PropList,
    obj: ConfigExpr,
    acc: ConfigView,
    vars: Seq<(String, ConfigExpr)>,
    imp: ImportsView,
    fuel: nat,
) -> Result<ConfigView, ParseErrorView>
    decreases props,
{
    match props {
        PropList::Nil => Ok(acc),
        PropList::Cons(p, rest) => match *p {
            ConfigProp::KeyValue { key, value } => match config_key_value(prop_name(key), value, acc, vars, imp, fuel) {
                Ok(next) => config_props(*rest, obj, next, vars, imp, fuel),
                Err(er) => Err(er),
            },
            ConfigProp::Shorthand { name } => match config_shorthand(name@, obj, acc, vars, imp, fuel) {
                Ok(next) => config_props(*rest, obj, next, vars, imp, fuel),
                Err(er) => Err(er),
            },
            ConfigProp::Other => config_props(*rest, obj, acc, vars, imp, fuel),
        },
    }
}

/// The configuration an object literal describes.
pub open spec fn eval_config_object(
    e: ConfigExpr,
    vars: Seq<(String, ConfigExpr)>,
    imp: ImportsView,
    fuel: nat,
) -> Result<ConfigView, ParseErrorView> {
    match e {
        ConfigExpr::Object { props, .. } => config_props(props, e, default_config(), vars, imp, fuel),
        _ => Err(not_object(e)),
    }
}

/// The route case style a preset's options give.
pub open spec fn preset_props(props: PropList, case: CaseStyle) -> Result<CaseStyle, ParseErrorView>
    decreases props,
{
    match props {
        PropList::Nil => Ok(case),
        PropList::Cons(p, rest) => match *p {
            ConfigProp::KeyValue { key, value } => if prop_name(key) == "routeCase"@ {
                match eval_case_style(value) {
                    Ok(c) => preset_props(*rest, c),
                    Err(er) => Err(er),
                }
            } else {
                preset_props(*rest, case)
            },
            _ => preset_props(*rest, case),
        },
    }
}

/// The Next.js App Router layout: an `app` directory (required) whose routes
/// nest up to 10 levels, each a parameter directory of the given case with a
/// required `layout.tsx` and an optional `page.tsx`.
pub open spec fn nextjs_layout(route_case: CaseStyle) -> LayoutView {
    let route_dir = LayoutView::Dir {
        children: seq![
            ("layout.tsx"@, LayoutView::File { pattern: None, optional: false, required: true, case: None }),
            ("page.tsx"@, LayoutView::File { pattern: None, optional: true, required: false, case: None }),
        ],
        optional: false,
        required: false,
        strict: false,
        max_depth: None,
    };
    let routes = LayoutView::Recursive {
        max_depth: 10,
        child: Box::new(LayoutView::Param { name: "route"@, case: route_case, child: Box::new(route_dir) }),
    };
    let app = LayoutView::Dir {
        children: seq![("$routes"@, routes)],
        optional: false,
        required: true,
        strict: false,
        max_depth: None,
    };
    LayoutView::Dir { children: seq![("app"@, app)], optional: false, required: false, strict: false, max_depth: None }
}

/// The configuration of `nextjsPreset(...)`: the Next.js layout, with the
/// route case from an options object (kebab by default).
pub open spec fn eval_nextjs_preset(args: ExprList) -> Result<ConfigView, ParseErrorView> {
    let case = match args {
        ExprList::Cons(first, _) => match *first {
            ConfigExpr::Object { props, .. } => preset_props(props, CaseStyle::Kebab),
            _ => Ok(CaseStyle::Kebab),
        },
        ExprList::Nil => Ok(CaseStyle::Kebab),
    };
    match case {
        Ok(c) => Ok(ConfigView { layout: Some(nextjs_layout(c)), ..default_config() }),
        Err(er) => Err(er),
    }
}

/// The configuration of the default export: `defineConfig({...})`,
/// `defineConfig(nextjsPreset(...))` or `nextjsPreset(...)`.
pub open spec fn eval_define_config(
    e: ConfigExpr,
    vars: Seq<(String, ConfigExpr)>,
    imp: ImportsView,
    fuel: nat,
) -> Result<ConfigView, ParseErrorView> {
    let fail = Err(unsupported_at(e, "Expected defineConfig({...}) or nextjsPreset(...)"@));
    match e {
        ConfigExpr::Call { callee: Some(f), args, .. } => if f@ == "defineConfig"@ {
            match args {
                ExprList::Cons(first, _) => match *first {
                    ConfigExpr::Call { callee: Some(g), args: inner, .. } => if g@ == "nextjsPreset"@ {
                        eval_nextjs_preset(inner)
                    } else {
                        eval_config_object(*first, vars, imp, fuel)
                    },
                    _ => eval_config_object(*first, vars, imp, fuel),
                },
                ExprList::Nil => fail,
            }
        } else if f@ == "nextjsPreset"@ {
            eval_nextjs_preset(args)
        } else {
            fail
        },
        _ => fail,
    }
}

} // verus!

verus! {

fn copy_rules(r: &RulesConfig) -> (c: RulesConfig)
    ensures
        rules_config_view(c) == rules_config_view(*r),
{
    RulesConfig {
        forbid_paths: copy_strings(&r.forbid_paths),
        forbid_names: copy_strings(&r.forbid_names),
        ignore_paths: copy_strings(&r.ignore_paths),
    }
}

fn copy_mirrors(v: &Vec<MirrorConfig>) -> (r: Vec<MirrorConfig>)
    ensures
        mirrors_view(r@) == mirrors_view(v@),
{
    let mut r: Vec<MirrorConfig> = Vec::new();
    let n = v.len();
    for i in 0..n
        invariant
            n == v@.len(),
            mirrors_view(r@) == mirrors_view(v@).take(i as int),
    {
        let ghost before = mirrors_view(r@);
        let m = MirrorConfig { source: v[i].source.clone(), target: v[i].target.clone(), pattern: v[i].pattern.clone() };
        let ghost mv = mirror_view(m);
        r.push(m);
        assert(mirrors_view(r@) =~= before.push(mv));
        assert(mirrors_view(v@).take(i + 1) =~= mirrors_view(v@).take(i as int).push(mv));
    }
    assert(mirrors_view(v@).take(n as int) =~= mirrors_view(v@));
    r
}

fn find_rules<'a>(imp: &'a ModuleExports, name: &str) -> (r: Option<&'a RulesConfig>)
    ensures
        match lookup_view(imp@.rules, name@) {
            Some(v) => r matches Some(x) && rules_config_view(*x) == v,
            None => r is None,
        },
{
    proof {
        lemma_lookup_pairs_view(imp.rules@, name@, |r: RulesConfig| rules_config_view(r));
    }
    find_last(&imp.rules, name)
}

fn find_mirrors<'a>(imp: &'a ModuleExports, name: &str) -> (r: Option<&'a Vec<MirrorConfig>>)
    ensures
        match lookup_view(imp@.mirrors, name@) {
            Some(v) => r matches Some(x) && mirrors_view(x@) == v,
            None => r is None,
        },
{
    proof {
        lemma_lookup_pairs_view(imp.mirrors@, name@, |m: Vec<MirrorConfig>| mirrors_view(m@));
    }
    find_last(&imp.mirrors, name)
}

fn find_arrays<'a>(imp: &'a ModuleExports, name: &str) -> (r: Option<&'a Vec<String>>)
    ensures
        match lookup_view(imp@.arrays, name@) {
            Some(v) => r matches Some(x) && views(x@) == v,
            None => r is None,
        },
{
    proof {
        lemma_lookup_pairs_view(imp.string_arrays@, name@, |a: Vec<String>| views(a@));
    }
    find_last(&imp.string_arrays, name)
}

fn find_when<'a>(imp: &'a ModuleExports, name: &str) -> (r: Option<&'a Vec<(String, WhenRequirement)>>)
    ensures
        match lookup_view(imp@.when, name@) {
            Some(v) => r matches Some(x) && when_view(x@) == v,
            None => r is None,
        },
{
    proof {
        lemma_lookup_pairs_view(imp.when@, name@, |w: Vec<(String, WhenRequirement)>| when_view(w@));
    }
    find_last(&imp.when, name)
}

fn read_strings_with_imports(e: &ConfigExpr, vars: &Vec<(String, ConfigExpr)>, imp: &ModuleExports) -> (r: Result<
    Vec<String>,
    ParseError,
>)
    ensures
        agrees(r, eval_strings_with_imports(*e, vars@, imp@.arrays), |v: Vec<String>| views(v@)),
{
    match e {
        ConfigExpr::Ident { name } => match find_arrays(imp, name.as_str()) {
            Some(a) => Ok(copy_strings(a)),
            None => match find_last(vars, name.as_str()) {
                Some(v) => read_string_array(v),
                None => read_string_array(e),
            },
        },
        _ => read_string_array(e),
    }
}

fn read_rules_with_imports(e: &ConfigExpr, vars: &Vec<(String, ConfigExpr)>, imp: &ModuleExports, fuel: usize) -> (r:
    Result<RulesConfig, ParseError>)
    ensures
        agrees(r, eval_rules_with_imports(*e, vars@, imp@.rules, fuel as nat), |c: RulesConfig| rules_config_view(c)),
{
    match e {
        ConfigExpr::Ident { name } => match find_rules(imp, name.as_str()) {
            Some(r) => Ok(copy_rules(r)),
            None => match find_last(vars, name.as_str()) {
                Some(v) => {
                    if fuel > 0 {
                        read_rules(v, vars, fuel - 1)
                    } else {
                        Err(circular_error(name.as_str()))
                    }
                },
                None => read_rules(e, vars, fuel),
            },
        },
        _ => read_rules(e, vars, fuel),
    }
}

fn read_mirror_with_imports(e: &ConfigExpr, vars: &Vec<(String, ConfigExpr)>, imp: &ModuleExports, fuel: usize) -> (r:
    Result<Vec<MirrorConfig>, ParseError>)
    ensures
        agrees(r, eval_mirror_with_imports(*e, vars@, imp@.mirrors, fuel as nat), |v: Vec<MirrorConfig>| mirrors_view(v@)),
{
    match e {
        ConfigExpr::Ident { name } => match find_mirrors(imp, name.as_str()) {
            Some(m) => Ok(copy_mirrors(m)),
            None => match find_last(vars, name.as_str()) {
                Some(v) => {
                    if fuel > 0 {
                        read_mirror(v, vars, fuel - 1)
                    } else {
                        Err(circular_error(name.as_str()))
                    }
                },
                None => read_mirror(e, vars, fuel),
            },
        },
        _ => read_mirror(e, vars, fuel),
    }
}

/// A configuration with every setting at its default.
fn default_config_ir() -> (c: ConfigIR)
    ensures
        config_view(c) == default_config(),
{
    let c = ConfigIR {
        mode: Mode::Strict,
        layout: None,
        rules: empty_rules_config(),
        boundaries: None,
        deps: None,
        ignore: Vec::new(),
        use_gitignore: true,
        workspaces: Vec::new(),
        dependencies: Vec::new(),
        mirror: Vec::new(),
        when: Vec::new(),
        extends: None,
    };
    assert(views(c.ignore@) =~= Seq::<Seq<char>>::empty());
    assert(views(c.workspaces@) =~= Seq::<Seq<char>>::empty());
    assert(string_pairs_view(c.dependencies@) =~= Seq::<(Seq<char>, Seq<char>)>::empty());
    assert(mirrors_view(c.mirror@) =~= Seq::<MirrorView>::empty());
    assert(when_view(c.when@) =~= Seq::<(Seq<char>, Seq<Seq<char>>)>::empty());
    c
}

fn read_config_key_value(
    k: &str,
    value: &ConfigExpr,
    acc: ConfigIR,
    vars: &Vec<(String, ConfigExpr)>,
    imp: &ModuleExports,
    fuel: usize,
) -> (r: Result<ConfigIR, ParseError>)
    ensures
        agrees(r, config_key_value(k@, *value, config_view(acc), vars@, imp@, fuel as nat), |c: ConfigIR| config_view(c)),
{
    let mut acc = acc;
    if same_str(k, "mode") {
        match read_mode(value) {
            Ok(m) => {
                acc.mode = m;
            },
            Err(er) => {
                return Err(er);
            },
        }
    } else if same_str(k, "layout") {
        match eval_layout_node(value, vars, &imp.layouts, fuel) {
            Ok(l) => {
                acc.layout = Some(l);
            },
            Err(er) => {
                return Err(er);
            },
        }
    } else if same_str(k, "rules") {
        match read_rules_with_imports(value, vars, imp, fuel) {
            Ok(r) => {
                acc.rules = r;
            },
            Err(er) => {
                return Err(er);
            },
        }
    } else if same_str(k, "boundaries") {
        match read_boundaries(value, vars, fuel) {
            Ok(b) => {
                acc.boundaries = Some(b);
            },
            Err(er) => {
                return Err(er);
            },
        }
    } else if same_str(k, "deps") {
        match read_deps(value, vars, fuel) {
            Ok(d) => {
                acc.deps = Some(d);
            },
            Err(er) => {
                return Err(er);
            },
        }
    } else if same_str(k, "ignore") {
        match read_strings_with_imports(value, vars, imp) {
            Ok(a) => {
                acc.ignore = a;
            },
            Err(er) => {
                return Err(er);
            },
        }
    } else if same_str(k, "useGitignore") {
        match bool_of(value) {
            Ok(b) => {
                acc.use_gitignore = b;
            },
            Err(er) => {
                return Err(er);
            },
        }
    } else if same_str(k, "workspaces") {
        match read_strings_with_imports(value, vars, imp) {
            Ok(a) => {
                acc.workspaces = a;
            },
            Err(er) => {
                return Err(er);
            },
        }
    } else if same_str(k, "dependencies") {
        match read_dependencies(value) {
            Ok(d) => {
                acc.dependencies = d;
            },
            Err(er) => {
                return Err(er);
            },
        }
    } else if same_str(k, "mirror") {
        match read_mirror_with_imports(value, vars, imp, fuel) {
            Ok(m) => {
                acc.mirror = m;
            },
            Err(er) => {
                return Err(er);
            },
        }
    } else if same_str(k, "when") {
        match read_when(value, vars, &imp.when, fuel) {
            Ok(w) => {
                acc.when = w;
            },
            Err(er) => {
                return Err(er);
            },
        }
    } else if same_str(k, "extends") {
        match string_of(value) {
            Ok(s) => {
                acc.extends = Some(s);
            },
            Err(er) => {
                return Err(er);
            },
        }
    }
    Ok(acc)
}

} // verus!

verus! {

fn read_config_shorthand(
    name: &str,
    obj: &ConfigExpr,
    acc: ConfigIR,
    vars: &Vec<(String, ConfigExpr)>,
    imp: &ModuleExports,
    fuel: usize,
) -> (r: Result<ConfigIR, ParseError>)
    ensures
        agrees(r, config_shorthand(name@, *obj, config_view(acc), vars@, imp@, fuel as nat), |c: ConfigIR| config_view(c)),
{
    let mut acc = acc;
    if same_str(name, "layout") {
        match super::layout_eval::find_imported_layout(&imp.layouts, name) {
            Some(l) => {
                acc.layout = Some(l.duplicate());
            },
            None => match find_last(vars, name) {
                Some(v) => {
                    if fuel == 0 {
                        return Err(circular_error(name));
                    }
                    match eval_layout_node(v, vars, &imp.layouts, fuel - 1) {
                        Ok(l) => {
                            acc.layout = Some(l);
                        },
                        Err(er) => {
                            return Err(er);
                        },
                    }
                },
                None => {
                    return Err(unsupported(obj, cat("Unknown shorthand value for layout: ", name)));
                },
            },
        }
    } else if same_str(name, "rules") {
        match find_rules(imp, name) {
            Some(r) => {
                acc.rules = copy_rules(r);
            },
            None => match find_last(vars, name) {
                Some(v) => {
                    if fuel == 0 {
                        return Err(circular_error(name));
                    }
                    match read_rules(v, vars, fuel - 1) {
                        Ok(r) => {
                            acc.rules = r;
                        },
                        Err(er) => {
                            return Err(er);
                        },
                    }
                },
                None => {},
            },
        }
    } else if same_str(name, "boundaries") {
        match find_last(vars, name) {
            Some(v) => {
                if fuel == 0 {
                    return Err(circular_error(name));
                }
                match read_boundaries(v, vars, fuel - 1) {
                    Ok(b) => {
                        acc.boundaries = Some(b);
                    },
                    Err(er) => {
                        return Err(er);
                    },
                }
            },
            None => {},
        }
    } else if same_str(name, "deps") {
        match find_last(vars, name) {
            Some(v) => {
                if fuel == 0 {
                    return Err(circular_error(name));
                }
                match read_deps(v, vars, fuel - 1) {
                    Ok(d) => {
                        acc.deps = Some(d);
                    },
                    Err(er) => {
                        return Err(er);
                    },
                }
            },
            None => {},
        }
    } else if same_str(name, "mirror") {
        match find_mirrors(imp, name) {
            Some(m) => {
                acc.mirror = copy_mirrors(m);
            },
            None => match find_last(vars, name) {
                Some(v) => {
                    if fuel == 0 {
                        return Err(circular_error(name));
                    }
                    match read_mirror(v, vars, fuel - 1) {
                        Ok(m) => {
                            acc.mirror = m;
                        },
                        Err(er) => {
                            return Err(er);
                        },
                    }
                },
                None => {},
            },
        }
    } else if same_str(name, "when") {
        match find_when(imp, name) {
            Some(w) => {
                acc.when = copy_when(w);
            },
            None => match find_last(vars, name) {
                Some(v) => {
                    if fuel == 0 {
                        return Err(circular_error(name));
                    }
                    match read_when(v, vars, &imp.when, fuel - 1) {
                        Ok(w) => {
                            acc.when = w;
                        },
                        Err(er) => {
                            return Err(er);
                        },
                    }
                },
                None => {},
            },
        }
    } else if same_str(name, "ignore") {
        match find_arrays(imp, name) {
            Some(a) => {
                acc.ignore = copy_strings(a);
            },
            None => match find_last(vars, name) {
                Some(v) => match read_string_array(v) {
                    Ok(a) => {
                        acc.ignore = a;
                    },
                    Err(er) => {
                        return Err(er);
                    },
                },
                None => {},
            },
        }
    } else if same_str(name, "workspaces") {
        match find_arrays(imp, name) {
            Some(a) => {
                acc.workspaces = copy_strings(a);
            },
            None => match find_last(vars, name) {
                Some(v) => match read_string_array(v) {
                    Ok(a) => {
                        acc.workspaces = a;
                    },
                    Err(er) => {
                        return Err(er);
                    },
                },
                None => {},
            },
        }
    }
    Ok(acc)
}

fn read_config_props(
    props: &PropList,
    obj: &ConfigExpr,
    acc: ConfigIR,
    vars: &Vec<(String, ConfigExpr)>,
    imp: &ModuleExports,
    fuel: usize,
) -> (r: Result<ConfigIR, ParseError>)
    ensures
        agrees(r, config_props(*props, *obj, config_view(acc), vars@, imp@, fuel as nat), |c: ConfigIR| config_view(c)),
    decreases props,
{
    match props {
        PropList::Nil => Ok(acc),
        PropList::Cons(p, rest) => match &**p {
            ConfigProp::KeyValue { key, value } => {
                let k = get_prop_name(key);
                match read_config_key_value(k.as_str(), value, acc, vars, imp, fuel) {
                    Ok(next) => read_config_props(rest, obj, next, vars, imp, fuel),
                    Err(er) => Err(er),
                }
            },
            ConfigProp::Shorthand { name } => match read_config_shorthand(name.as_str(), obj, acc, vars, imp, fuel) {
                Ok(next) => read_config_props(rest, obj, next, vars, imp, fuel),
                Err(er) => Err(er),
            },
            ConfigProp::Other => read_config_props(rest, obj, acc, vars, imp, fuel),
        },
    }
}

fn read_config_object(e: &ConfigExpr, vars: &Vec<(String, ConfigExpr)>, imp: &ModuleExports, fuel: usize) -> (r: Result<
    ConfigIR,
    ParseError,
>)
    ensures
        agrees(r, eval_config_object(*e, vars@, imp@, fuel as nat), |c: ConfigIR| config_view(c)),
{
    match e {
        ConfigExpr::Object { props, .. } => read_config_props(props, e, default_config_ir(), vars, imp, fuel),
        _ => Err(unsupported(e, String::from_str("Expected object literal"))),
    }
}

fn read_preset_props(props: &PropList, case: CaseStyle) -> (r: Result<CaseStyle, ParseError>)
    ensures
        agrees(r, preset_props(*props, case), |c: CaseStyle| c),
    decreases props,
{
    match props {
        PropList::Nil => Ok(case),
        PropList::Cons(p, rest) => match &**p {
            ConfigProp::KeyValue { key, value } => {
                let k = get_prop_name(key);
                if same_str(k.as_str(), "routeCase") {
                    match case_style_of(value) {
                        Ok(c) => read_preset_props(rest, c),
                        Err(er) => Err(er),
                    }
                } else {
                    read_preset_props(rest, case)
                }
            },
            _ => read_preset_props(rest, case),
        },
    }
}

/// The Next.js App Router layout for a route case style.
pub fn nextjs_layout_node(route_case: CaseStyle) -> (n: LayoutNode)
    ensures
        layout_view(n) == nextjs_layout(route_case),
{
    let page = LayoutNode::File { pattern: None, optional: true, required: false, case: None };
    let layout = LayoutNode::File { pattern: None, optional: false, required: true, case: None };
    assert(children_view(ChildMap::Empty) =~= Seq::<(Seq<char>, LayoutView)>::empty());
    let tail = ChildMap::Entry(String::from_str("page.tsx"), Box::new(page), Box::new(ChildMap::Empty));
    let app_children = ChildMap::Entry(String::from_str("layout.tsx"), Box::new(layout), Box::new(tail));
    assert(children_view(tail) =~= seq![("page.tsx"@, layout_view(page))]);
    assert(children_view(app_children) =~= seq![("layout.tsx"@, layout_view(layout)), ("page.tsx"@, layout_view(page))]);
    let route_dir = LayoutNode::Dir {
        children: app_children,
        optional: false,
        required: false,
        strict: false,
        max_depth: None,
    };
    let param = LayoutNode::Param { name: String::from_str("route"), case: route_case, child: Box::new(route_dir) };
    assert(layout_view(param) == (LayoutView::Param {
        name: "route"@,
        case: route_case,
        child: Box::new(layout_view(route_dir)),
    }));
    let routes = LayoutNode::Recursive { max_depth: 10, child: Box::new(param) };
    let app = ChildMap::Entry(String::from_str("$routes"), Box::new(routes), Box::new(ChildMap::Empty));
    assert(children_view(app) =~= seq![("$routes"@, layout_view(routes))]);
    let app_dir = LayoutNode::Dir { children: app, optional: false, required: true, strict: false, max_depth: None };
    let root = ChildMap::Entry(String::from_str("app"), Box::new(app_dir), Box::new(ChildMap::Empty));
    assert(children_view(root) =~= seq![("app"@, layout_view(app_dir))]);
    let n = LayoutNode::Dir { children: root, optional: false, required: false, strict: false, max_depth: None };
    assert(layout_view(route_dir) == (LayoutView::Dir {
        children: seq![
            ("layout.tsx"@, LayoutView::File { pattern: None, optional: false, required: true, case: None }),
            ("page.tsx"@, LayoutView::File { pattern: None, optional: true, required: false, case: None }),
        ],
        optional: false,
        required: false,
        strict: false,
        max_depth: None,
    }));
    let ghost rd = layout_view(route_dir);
    assert(layout_view(routes) == (LayoutView::Recursive {
        max_depth: 10,
        child: Box::new(LayoutView::Param { name: "route"@, case: route_case, child: Box::new(rd) }),
    }));
    let ghost rv = layout_view(routes);
    assert(layout_view(app_dir) == (LayoutView::Dir {
        children: seq![("$routes"@, rv)],
        optional: false,
        required: true,
        strict: false,
        max_depth: None,
    }));
    let ghost av = layout_view(app_dir);
    assert(layout_view(n) == (LayoutView::Dir {
        children: seq![("app"@, av)],
        optional: false,
        required: false,
        strict: false,
        max_depth: None,
    }));
    n
}

fn read_nextjs_preset(args: &ExprList) -> (r: Result<ConfigIR, ParseError>)
    ensures
        agrees(r, eval_nextjs_preset(*args), |c: ConfigIR| config_view(c)),
{
    let case = match args {
        ExprList::Cons(first, _) => match &**first {
            ConfigExpr::Object { props, .. } => match read_preset_props(props, CaseStyle::Kebab) {
                Ok(c) => c,
                Err(er) => {
                    return Err(er);
                },
            },
            _ => CaseStyle::Kebab,
        },
        ExprList::Nil => CaseStyle::Kebab,
    };
    let mut c = default_config_ir();
    c.layout = Some(nextjs_layout_node(case));
    Ok(c)
}

/// Reads the configuration of the default export: `defineConfig({...})`,
/// `defineConfig(nextjsPreset(...))` or `nextjsPreset(...)`.
pub fn read_define_config(e: &ConfigExpr, vars: &Vec<(String, ConfigExpr)>, imp: &ModuleExports, fuel: usize) -> (r:
    Result<ConfigIR, ParseError>)
    ensures
        agrees(r, eval_define_config(*e, vars@, imp@, fuel as nat), |c: ConfigIR| config_view(c)),
{
    match e {
        ConfigExpr::Call { callee: Some(f), args, .. } => {
            if same_str(f.as_str(), "defineConfig") {
                match args {
                    ExprList::Cons(first, _) => match &**first {
                        ConfigExpr::Call { callee: Some(g), args: inner, .. } => {
                            if same_str(g.as_str(), "nextjsPreset") {
                                return read_nextjs_preset(inner);
                            }
                            read_config_object(first, vars, imp, fuel)
                        },
                        _ => read_config_object(first, vars, imp, fuel),
                    },
                    ExprList::Nil => Err(
                        unsupported(e, String::from_str("Expected defineConfig({...}) or nextjsPreset(...)")),
                    ),
                }
            } else if same_str(f.as_str(), "nextjsPreset") {
                read_nextjs_preset(args)
            } else {
                Err(unsupported(e, String::from_str("Expected defineConfig({...}) or nextjsPreset(...)")))
            }
        },
        _ => Err(unsupported(e, String::from_str("Expected defineConfig({...}) or nextjsPreset(...)"))),
    }
}

} // verus!

verus! {

// ---------------------------------------------------------------------------
// Modules: names in scope, named exports, the default export
// ---------------------------------------------------------------------------

/// The names in scope while reading a module: its variables, and what it
/// imported.
pub struct ScopeView {
    pub vars: Seq<(String, ConfigExpr)>,
    pub imp: ImportsView,
}

/// Nothing imported.
pub open spec fn no_imports() -> ImportsView {
    ImportsView {
        layouts: Seq::empty(),
        when: Seq::empty(),
        arrays: Seq::empty(),
        rules: Seq::empty(),
        mirrors: Seq::empty(),
    }
}

/// `seq` with `(k, v)` added when `v` is given.
pub open spec fn push_some<V>(s: Seq<(Seq<char>, V)>, k: Seq<char>, v: Option<V>) -> Seq<(Seq<char>, V)> {
    match v {
        Some(x) => s.push((k, x)),
        None => s,
    }
}

/// What importing `imported` as `local` from a module exporting `ex` binds;
/// with `all` every kind of value is taken, else only layouts and `when` rules.
pub open spec fn import_one(local: Seq<char>, imported: Seq<char>, ex: ImportsView, imp: ImportsView, all: bool) -> ImportsView {
    ImportsView {
        layouts: push_some(imp.layouts, local, lookup_view(ex.layouts, imported)),
        when: push_some(imp.when, local, lookup_view(ex.when, imported)),
        arrays: if all {
            push_some(imp.arrays, local, lookup_view(ex.arrays, imported))
        } else {
            imp.arrays
        },
        rules: if all {
            push_some(imp.rules, local, lookup_view(ex.rules, imported))
        } else {
            imp.rules
        },
        mirrors: if all {
            push_some(imp.mirrors, local, lookup_view(ex.mirrors, imported))
        } else {
            imp.mirrors
        },
    }
}

/// The bindings of an import's named specifiers `(local, imported)`, in order.
pub open spec fn import_all(specs: Seq<(String, String)>, ex: ImportsView, imp: ImportsView, all: bool) -> ImportsView
    decreases specs.len(),
{
    if specs.len() == 0 {
        imp
    } else {
        let prev = import_all(specs.drop_last(), ex, imp, all);
        import_one(specs.last().0@, specs.last().1@, ex, prev, all)
    }
}

/// The bindings of a re-export's specifiers `(orig, exported)`: layouts and
/// `when` rules of the source module, under the exported names.
pub open spec fn reexport_all(specs: Seq<(String, String)>, ex: ImportsView, imp: ImportsView) -> ImportsView
    decreases specs.len(),
{
    if specs.len() == 0 {
        imp
    } else {
        let prev = reexport_all(specs.drop_last(), ex, imp);
        import_one(specs.last().1@, specs.last().0@, ex, prev, false)
    }
}

/// The exports of the module at item `i`'s source, when there is one.
pub open spec fn dep_at(deps: Seq<Option<ModuleExports>>, i: int) -> Option<ImportsView> {
    if 0 <= i < deps.len() {
        match deps[i] {
            Some(x) => Some(x@),
            None => None,
        }
    } else {
        None
    }
}

/// The names one item brings into scope. For a configuration module (`all`)
/// imports bind every kind of value; for an imported module imports bind
/// layouts and `when` rules, and re-exports bind them too.
pub open spec fn gather_item(item: SourceItem, dep: Option<ImportsView>, st: ScopeView, all: bool) -> ScopeView {
    match item {
        SourceItem::VarDecl { decls, .. } => ScopeView { vars: st.vars + decls@, ..st },
        SourceItem::Import { specifiers, .. } => match dep {
            Some(ex) => ScopeView { imp: import_all(specifiers@, ex, st.imp, all), ..st },
            None => st,
        },
        SourceItem::ExportNamed { source: Some(_), specifiers } => if all {
            st
        } else {
            match dep {
                Some(ex) => ScopeView { imp: reexport_all(specifiers@, ex, st.imp), ..st },
                None => st,
            }
        },
        _ => st,
    }
}

/// The names the first `n` items bring into scope.
pub open spec fn gather_items(items: Seq<SourceItem>, deps: Seq<Option<ModuleExports>>, n: nat, all: bool) -> ScopeView
    decreases n,
{
    if n == 0 {
        ScopeView { vars: Seq::empty(), imp: no_imports() }
    } else {
        gather_item(items[n - 1], dep_at(deps, n - 1), gather_items(items, deps, (n - 1) as nat, all), all)
    }
}

/// The expression of the first default export.
pub open spec fn first_default(items: Seq<SourceItem>, i: int) -> Option<ConfigExpr>
    decreases items.len() - i,
{
    if i < 0 || i >= items.len() {
        None
    } else {
        match items[i] {
            SourceItem::ExportDefault { expr } => Some(expr),
            _ => first_default(items, i + 1),
        }
    }
}

/// The configuration a module's default export describes, with the
/// module's variables and imports in scope; `deps[i]` holds the exports of
/// the module that item `i` imports, when it could be read.
pub open spec fn extract_config_spec(items: Seq<SourceItem>, deps: Seq<Option<ModuleExports>>) -> Result<
    ConfigView,
    ParseErrorView,
> {
    let st = gather_items(items, deps, items.len(), true);
    match first_default(items, 0) {
        Some(e) => eval_define_config(e, st.vars, st.imp, st.vars.len()),
        None => Err(ParseErrorView::Missing("export default defineConfig(...)"@)),
    }
}

/// What an exported variable `name` with value `init` exports: the first
/// kind of value it reads as, trying a layout, `when` rules, a string list,
/// rules and mirror rules in turn; nothing when it reads as none.
pub open spec fn export_value(name: Seq<char>, init: ConfigExpr, st: ScopeView, ex: ImportsView) -> ImportsView {
    let fuel = st.vars.len();
    match eval_layout(init, st.vars, st.imp.layouts, fuel) {
        Ok(l) => ImportsView { layouts: ex.layouts.push((name, l)), ..ex },
        Err(_) => match eval_when(init, st.vars, st.imp.when, fuel) {
            Ok(w) => ImportsView { when: ex.when.push((name, w)), ..ex },
            Err(_) => match eval_string_array(init) {
                Ok(a) => ImportsView { arrays: ex.arrays.push((name, a)), ..ex },
                Err(_) => match eval_rules(init, st.vars, fuel) {
                    Ok(r) => ImportsView { rules: ex.rules.push((name, r)), ..ex },
                    Err(_) => match eval_mirror(init, st.vars, fuel) {
                        Ok(m) => ImportsView { mirrors: ex.mirrors.push((name, m)), ..ex },
                        Err(_) => ex,
                    },
                },
            },
        },
    }
}

/// What the declarations of an exported variable statement export.
pub open spec fn export_decls(decls: Seq<(String, ConfigExpr)>, st: ScopeView, ex: ImportsView) -> ImportsView
    decreases decls.len(),
{
    if decls.len() == 0 {
        ex
    } else {
        let prev = export_decls(decls.drop_last(), st, ex);
        export_value(decls.last().0@, decls.last().1, st, prev)
    }
}

/// What `export { orig as exported } from "..."` exports: the layouts and
/// `when` rules bound to `exported` while gathering names.
pub open spec fn reexport_names(specs: Seq<(String, String)>, st: ScopeView, ex: ImportsView) -> ImportsView
    decreases specs.len(),
{
    if specs.len() == 0 {
        ex
    } else {
        let prev = reexport_names(specs.drop_last(), st, ex);
        let exported = specs.last().1@;
        ImportsView {
            layouts: push_some(prev.layouts, exported, lookup_view(st.imp.layouts, exported)),
            when: push_some(prev.when, exported, lookup_view(st.imp.when, exported)),
            ..prev
        }
    }
}

/// What `export { orig as exported }` of a local name exports: an imported
/// layout of that name, else the variable's value read as for an exported
/// variable; an imported `when` rule of that name is exported besides.
pub open spec fn local_export(orig: Seq<char>, exported: Seq<char>, st: ScopeView, ex: ImportsView) -> ImportsView {
    let first = match lookup_view(st.imp.layouts, orig) {
        Some(l) => ImportsView { layouts: ex.layouts.push((exported, l)), ..ex },
        None => match lookup_last(st.vars, orig) {
            Some(v) => export_value(exported, v, st, ex),
            None => ex,
        },
    };
    ImportsView { when: push_some(first.when, exported, lookup_view(st.imp.when, orig)), ..first }
}

/// What the local re-export specifiers export.
pub open spec fn local_exports(specs: Seq<(String, String)>, st: ScopeView, ex: ImportsView) -> ImportsView
    decreases specs.len(),
{
    if specs.len() == 0 {
        ex
    } else {
        let prev = local_exports(specs.drop_last(), st, ex);
        local_export(specs.last().0@, specs.last().1@, st, prev)
    }
}

/// What one item exports.
pub open spec fn export_item(item: SourceItem, st: ScopeView, ex: ImportsView) -> ImportsView {
    match item {
        SourceItem::VarDecl { exported: true, decls } => export_decls(decls@, st, ex),
        SourceItem::ExportNamed { source: Some(_), specifiers } => reexport_names(specifiers@, st, ex),
        SourceItem::ExportNamed { source: None, specifiers } => local_exports(specifiers@, st, ex),
        _ => ex,
    }
}

/// What the first `n` items export.
pub open spec fn export_items(items: Seq<SourceItem>, st: ScopeView, n: nat) -> ImportsView
    decreases n,
{
    if n == 0 {
        no_imports()
    } else {
        export_item(items[n - 1], st, export_items(items, st, (n - 1) as nat))
    }
}

/// The named exports of an imported module.
pub open spec fn module_exports_spec(items: Seq<SourceItem>, deps: Seq<Option<ModuleExports>>) -> ImportsView {
    let st = gather_items(items, deps, items.len(), false);
    export_items(items, st, items.len())
}

} // verus!

verus! {

/// Nothing bound.
pub fn empty_exports() -> (r: ModuleExports)
    ensures
        r@ == no_imports(),
{
    let r = ModuleExports {
        layouts: Vec::new(),
        when: Vec::new(),
        string_arrays: Vec::new(),
        rules: Vec::new(),
        mirrors: Vec::new(),
    };
    assert(r@.layouts =~= Seq::<(Seq<char>, LayoutView)>::empty());
    assert(r@.when =~= Seq::<(Seq<char>, Seq<(Seq<char>, Seq<Seq<char>>)>)>::empty());
    assert(r@.arrays =~= Seq::<(Seq<char>, Seq<Seq<char>>)>::empty());
    assert(r@.rules =~= Seq::<(Seq<char>, RulesConfigView)>::empty());
    assert(r@.mirrors =~= Seq::<(Seq<char>, Seq<MirrorView>)>::empty());
    r
}

fn push_layout(imp: &mut ModuleExports, name: &str, l: LayoutNode)
    ensures
        final(imp)@ == (ImportsView { layouts: old(imp)@.layouts.push((name@, layout_view(l))), ..old(imp)@ }),
{
    let ghost before = imp@;
    imp.layouts.push((to_owned_string(name), l));
    assert(imp@.layouts =~= before.layouts.push((name@, layout_view(l))));
}

fn push_when(imp: &mut ModuleExports, name: &str, w: Vec<(String, WhenRequirement)>)
    ensures
        final(imp)@ == (ImportsView { when: old(imp)@.when.push((name@, when_view(w@))), ..old(imp)@ }),
{
    let ghost before = imp@;
    let ghost wv = when_view(w@);
    imp.when.push((to_owned_string(name), w));
    assert(imp@.when =~= before.when.push((name@, wv)));
}

fn push_array(imp: &mut ModuleExports, name: &str, a: Vec<String>)
    ensures
        final(imp)@ == (ImportsView { arrays: old(imp)@.arrays.push((name@, views(a@))), ..old(imp)@ }),
{
    let ghost before = imp@;
    let ghost av = views(a@);
    imp.string_arrays.push((to_owned_string(name), a));
    assert(imp@.arrays =~= before.arrays.push((name@, av)));
}

fn push_rules(imp: &mut ModuleExports, name: &str, r: RulesConfig)
    ensures
        final(imp)@ == (ImportsView { rules: old(imp)@.rules.push((name@, rules_config_view(r))), ..old(imp)@ }),
{
    let ghost before = imp@;
    let ghost rv = rules_config_view(r);
    imp.rules.push((to_owned_string(name), r));
    assert(imp@.rules =~= before.rules.push((name@, rv)));
}

fn push_mirrors(imp: &mut ModuleExports, name: &str, m: Vec<MirrorConfig>)
    ensures
        final(imp)@ == (ImportsView { mirrors: old(imp)@.mirrors.push((name@, mirrors_view(m@))), ..old(imp)@ }),
{
    let ghost before = imp@;
    let ghost mv = mirrors_view(m@);
    imp.mirrors.push((to_owned_string(name), m));
    assert(imp@.mirrors =~= before.mirrors.push((name@, mv)));
}

/// Binds `local` to what `ex` exports as `imported`.
fn bind_one(local: &str, imported: &str, ex: &ModuleExports, imp: &mut ModuleExports, all: bool)
    ensures
        final(imp)@ == import_one(local@, imported@, ex@, old(imp)@, all),
{
    match super::layout_eval::find_imported_layout(&ex.layouts, imported) {
        Some(l) => push_layout(imp, local, l.duplicate()),
        None => {},
    }
    match find_when(ex, imported) {
        Some(w) => push_when(imp, local, copy_when(w)),
        None => {},
    }
    if all {
        match find_arrays(ex, imported) {
            Some(a) => push_array(imp, local, copy_strings(a)),
            None => {},
        }
        match find_rules(ex, imported) {
            Some(r) => push_rules(imp, local, copy_rules(r)),
            None => {},
        }
        match find_mirrors(ex, imported) {
            Some(m) => push_mirrors(imp, local, copy_mirrors(m)),
            None => {},
        }
    }
}

/// Binds the named specifiers `(local, imported)` of an import.
fn bind_imports(specs: &Vec<(String, String)>, ex: &ModuleExports, imp: &mut ModuleExports, all: bool)
    ensures
        final(imp)@ == import_all(specs@, ex@, old(imp)@, all),
{
    let ghost start = imp@;
    let n = specs.len();
    assert(specs@.take(0) =~= Seq::<(String, String)>::empty());
    for j in 0..n
        invariant
            n == specs@.len(),
            imp@ == import_all(specs@.take(j as int), ex@, start, all),
    {
        assert(specs@.take(j + 1).drop_last() =~= specs@.take(j as int));
        bind_one(specs[j].0.as_str(), specs[j].1.as_str(), ex, imp, all);
    }
    assert(specs@.take(n as int) =~= specs@);
}

/// Binds the re-export specifiers `(orig, exported)` of `export { .. } from`.
fn bind_reexports(specs: &Vec<(String, String)>, ex: &ModuleExports, imp: &mut ModuleExports)
    ensures
        final(imp)@ == reexport_all(specs@, ex@, old(imp)@),
{
    let ghost start = imp@;
    let n = specs.len();
    assert(specs@.take(0) =~= Seq::<(String, String)>::empty());
    for j in 0..n
        invariant
            n == specs@.len(),
            imp@ == reexport_all(specs@.take(j as int), ex@, start),
    {
        assert(specs@.take(j + 1).drop_last() =~= specs@.take(j as int));
        bind_one(specs[j].1.as_str(), specs[j].0.as_str(), ex, imp, false);
    }
    assert(specs@.take(n as int) =~= specs@);
}

/// The names in scope after every item: variables, and what was imported.
fn gather(items: &Vec<SourceItem>, deps: &Vec<Option<ModuleExports>>, all: bool) -> (r: (
    Vec<(String, ConfigExpr)>,
    ModuleExports,
))
    ensures
        (ScopeView { vars: r.0@, imp: r.1@ }) == gather_items(items@, deps@, items@.len(), all),
{
    let mut vars: Vec<(String, ConfigExpr)> = Vec::new();
    let mut imp = empty_exports();
    let n = items.len();
    for i in 0..n
        invariant
            n == items@.len(),
            (ScopeView { vars: vars@, imp: imp@ }) == gather_items(items@, deps@, i as nat, all),
    {
        let ghost before = ScopeView { vars: vars@, imp: imp@ };
        let dep: Option<&ModuleExports> = if i < deps.len() {
            match &deps[i] {
                Some(x) => Some(x),
                None => None,
            }
        } else {
            None
        };
        assert(dep_at(deps@, i as int) == (match dep {
            Some(x) => Some(x@),
            None => None::<ImportsView>,
        }));
        match &items[i] {
            SourceItem::VarDecl { decls, .. } => {
                let m = decls.len();
                let ghost vstart = vars@;
                for j in 0..m
                    invariant
                        m == decls@.len(),
                        vars@ == vstart + decls@.take(j as int),
                {
                    let item = (decls[j].0.clone(), decls[j].1.duplicate());
                    vars.push(item);
                    assert(vars@ =~= vstart + decls@.take(j + 1));
                }
                assert(decls@.take(m as int) =~= decls@);
            },
            SourceItem::Import { specifiers, .. } => match dep {
                Some(ex) => bind_imports(specifiers, ex, &mut imp, all),
                None => {},
            },
            SourceItem::ExportNamed { source: Some(_), specifiers } => {
                if !all {
                    match dep {
                        Some(ex) => bind_reexports(specifiers, ex, &mut imp),
                        None => {},
                    }
                }
            },
            _ => {},
        }
        assert((ScopeView { vars: vars@, imp: imp@ }) == gather_item(items@[i as int], dep_at(deps@, i as int), before, all));
    }
    (vars, imp)
}

/// Reads a configuration module: the configuration its default export
/// describes, with its variables and its imports in scope. `deps[i]` holds
/// the exports of the module that item `i` imports, when that module could
/// be found and read; an import without them binds nothing.
pub fn extract_config(module: &ConfigModule, deps: &Vec<Option<ModuleExports>>) -> (r: Result<ConfigIR, ParseError>)
    ensures
        agrees(r, extract_config_spec(module.items@, deps@), |c: ConfigIR| config_view(c)),
{
    let items = &module.items;
    let (vars, imp) = gather(items, deps, true);
    let n = items.len();
    let mut i: usize = 0;
    while i < n
        invariant
            n == items@.len(),
            i <= n,
            first_default(items@, 0) == first_default(items@, i as int),
            items == &module.items,
            (ScopeView { vars: vars@, imp: imp@ }) == gather_items(items@, deps@, items@.len(), true),
        decreases n - i,
    {
        match &items[i] {
            SourceItem::ExportDefault { expr } => {
                assert(first_default(items@, i as int) == Some(*expr));
                let ghost st = gather_items(items@, deps@, items@.len(), true);
                assert(st.vars == vars@);
                assert(st.imp == imp@);
                assert(extract_config_spec(module.items@, deps@) == eval_define_config(*expr, vars@, imp@, vars@.len()));
                let r = read_define_config(expr, &vars, &imp, vars.len());
                return r;
            },
            _ => {},
        }
        i = i + 1;
    }
    Err(ParseError::MissingField(String::from_str("export default defineConfig(...)")))
}

} // verus!

verus! {

/// Adds what an exported value `init` named `name` reads as.
fn export_value_into(
    name: &str,
    init: &ConfigExpr,
    vars: &Vec<(String, ConfigExpr)>,
    scope: &ModuleExports,
    ex: &mut ModuleExports,
)
    ensures
        final(ex)@ == export_value(name@, *init, ScopeView { vars: vars@, imp: scope@ }, old(ex)@),
{
    let fuel = vars.len();
    match eval_layout_node(init, vars, &scope.layouts, fuel) {
        Ok(l) => {
            push_layout(ex, name, l);
            return;
        },
        Err(_) => {},
    }
    match read_when(init, vars, &scope.when, fuel) {
        Ok(w) => {
            push_when(ex, name, w);
            return;
        },
        Err(_) => {},
    }
    match read_string_array(init) {
        Ok(a) => {
            push_array(ex, name, a);
            return;
        },
        Err(_) => {},
    }
    match read_rules(init, vars, fuel) {
        Ok(r) => {
            push_rules(ex, name, r);
            return;
        },
        Err(_) => {},
    }
    match read_mirror(init, vars, fuel) {
        Ok(m) => {
            push_mirrors(ex, name, m);
        },
        Err(_) => {},
    }
}

fn export_item_into(item: &SourceItem, vars: &Vec<(String, ConfigExpr)>, scope: &ModuleExports, ex: &mut ModuleExports)
    ensures
        final(ex)@ == export_item(*item, ScopeView { vars: vars@, imp: scope@ }, old(ex)@),
{
    let ghost st = ScopeView { vars: vars@, imp: scope@ };
    let ghost start = ex@;
    match item {
        SourceItem::VarDecl { exported, decls } => {
            if *exported {
                let n = decls.len();
                assert(decls@.take(0) =~= Seq::<(String, ConfigExpr)>::empty());
                for j in 0..n
                    invariant
                        n == decls@.len(),
                        st == (ScopeView { vars: vars@, imp: scope@ }),
                        ex@ == export_decls(decls@.take(j as int), st, start),
                {
                    assert(decls@.take(j + 1).drop_last() =~= decls@.take(j as int));
                    export_value_into(decls[j].0.as_str(), &decls[j].1, vars, scope, ex);
                }
                assert(decls@.take(n as int) =~= decls@);
            }
        },
        SourceItem::ExportNamed { source: Some(_), specifiers } => {
            let n = specifiers.len();
            assert(specifiers@.take(0) =~= Seq::<(String, String)>::empty());
            for j in 0..n
                invariant
                    n == specifiers@.len(),
                    st == (ScopeView { vars: vars@, imp: scope@ }),
                    ex@ == reexport_names(specifiers@.take(j as int), st, start),
            {
                assert(specifiers@.take(j + 1).drop_last() =~= specifiers@.take(j as int));
                let exported = specifiers[j].1.as_str();
                match super::layout_eval::find_imported_layout(&scope.layouts, exported) {
                    Some(l) => push_layout(ex, exported, l.duplicate()),
                    None => {},
                }
                match find_when(scope, exported) {
                    Some(w) => push_when(ex, exported, copy_when(w)),
                    None => {},
                }
            }
            assert(specifiers@.take(n as int) =~= specifiers@);
        },
        SourceItem::ExportNamed { source: None, specifiers } => {
            let n = specifiers.len();
            assert(specifiers@.take(0) =~= Seq::<(String, String)>::empty());
            for j in 0..n
                invariant
                    n == specifiers@.len(),
                    st == (ScopeView { vars: vars@, imp: scope@ }),
                    ex@ == local_exports(specifiers@.take(j as int), st, start),
            {
                assert(specifiers@.take(j + 1).drop_last() =~= specifiers@.take(j as int));
                let orig = specifiers[j].0.as_str();
                let exported = specifiers[j].1.as_str();
                match super::layout_eval::find_imported_layout(&scope.layouts, orig) {
                    Some(l) => push_layout(ex, exported, l.duplicate()),
                    None => match find_last(vars, orig) {
                        Some(v) => export_value_into(exported, v, vars, scope, ex),
                        None => {},
                    },
                }
                match find_when(scope, orig) {
                    Some(w) => push_when(ex, exported, copy_when(w)),
                    None => {},
                }
            }
            assert(specifiers@.take(n as int) =~= specifiers@);
        },
        _ => {},
    }
}

/// The named exports of an imported module: layouts, `when` rules, string
/// lists, rules and mirror rules, by the names they are exported under.
/// `deps[i]` holds the exports of the module that item `i` imports or
/// re-exports from, when that module could be found and read.
pub fn module_exports(module: &ConfigModule, deps: &Vec<Option<ModuleExports>>) -> (r: ModuleExports)
    ensures
        r@ == module_exports_spec(module.items@, deps@),
{
    let items = &module.items;
    let (vars, scope) = gather(items, deps, false);
    let ghost st = ScopeView { vars: vars@, imp: scope@ };
    let mut ex = empty_exports();
    let n = items.len();
    for i in 0..n
        invariant
            n == items@.len(),
            st == (ScopeView { vars: vars@, imp: scope@ }),
            ex@ == export_items(items@, st, i as nat),
    {
        export_item_into(&items[i], &vars, &scope, &mut ex);
    }
    ex
}

} // verus!
