//! The configuration model: modes, case styles, the layout tree and the rule sets.

use vstd::prelude::*;

use crate::text::{chars_of, is_alnum, is_digit, is_lower, is_upper, str_eq, to_owned_string};

verus! {

/// A naming convention that a path segment may be held to.
#[derive(Debug, Clone, Copy, PartialEq, Eq, Structural)]
pub enum CaseStyle {
    Kebab,
    Snake,
    Camel,
    Pascal,
    Any,
}

/// Lowercase letters, digits and one separator character, the separator
/// neither first, nor last, nor doubled.
pub open spec fn separated_lower(s: Seq<char>, sep: char) -> bool {
    &&& s.len() > 0
    &&& forall|i: int| 0 <= i < s.len() ==> is_lower(#[trigger] s[i]) || is_digit(s[i]) || s[i] == sep
    &&& s[0] != sep
    &&& s[s.len() - 1] != sep
    &&& forall|i: int| 0 <= i < s.len() - 1 ==> !(#[trigger] s[i] == sep && s[i + 1] == sep)
}

/// A first character that satisfies `first`, then only ASCII letters and digits.
pub open spec fn alnum_with_first(s: Seq<char>, upper_first: bool) -> bool {
    &&& s.len() > 0
    &&& if upper_first { is_upper(s[0]) } else { is_lower(s[0]) }
    &&& forall|i: int| 0 <= i < s.len() ==> is_alnum(#[trigger] s[i])
}

/// `s` with every `from` replaced by `to`.
pub open spec fn replace_char(s: Seq<char>, from: char, to: char) -> Seq<char> {
    s.map_values(|c: char| if c == from { to } else { c })
}

/// The ASCII uppercase of a character.
pub open spec fn ascii_upper_char(c: char) -> char {
    if is_lower(c) {
        ((c as u32) - 32) as char
    } else {
        c
    }
}

/// `s` with its first character ASCII-uppercased.
pub open spec fn upper_first(s: Seq<char>) -> Seq<char> {
    if s.len() == 0 {
        s
    } else {
        s.update(0, ascii_upper_char(s[0]))
    }
}

/// Kebab case is snake case written with `-`: a name is kebab case exactly
/// when it holds no `_` and, with each `-` turned into `_`, it is snake case.
pub proof fn lemma_kebab_is_snake_with_dashes(s: Seq<char>)
    ensures
        CaseStyle::Kebab.accepts(s) <==> (!s.contains('_') && CaseStyle::Snake.accepts(replace_char(s, '-', '_'))),
{
    let t = replace_char(s, '-', '_');
    assert(t.len() == s.len());
    if CaseStyle::Kebab.accepts(s) {
        assert forall|i: int| 0 <= i < s.len() implies s[i] != '_' by {
            assert(is_lower(s[i]) || is_digit(s[i]) || s[i] == '-');
        }
        assert forall|i: int| 0 <= i < t.len() - 1 implies !(#[trigger] t[i] == '_' && t[i + 1] == '_') by {
            assert(!(s[i] == '-' && s[i + 1] == '-'));
        }
        assert forall|i: int| 0 <= i < t.len() implies is_lower(#[trigger] t[i]) || is_digit(t[i]) || t[i] == '_' by {
            assert(is_lower(s[i]) || is_digit(s[i]) || s[i] == '-');
        }
    }
    if !s.contains('_') && CaseStyle::Snake.accepts(t) {
        assert forall|i: int| 0 <= i < s.len() implies is_lower(#[trigger] s[i]) || is_digit(s[i]) || s[i] == '-' by {
            assert(is_lower(t[i]) || is_digit(t[i]) || t[i] == '_');
            assert(s[i] != '_');
        }
        assert forall|i: int| 0 <= i < s.len() - 1 implies !(#[trigger] s[i] == '-' && s[i + 1] == '-') by {
            assert(!(t[i] == '_' && t[i + 1] == '_'));
        }
        assert(s[0] != '_');
        assert(s[s.len() - 1] != '_');
    }
    if CaseStyle::Kebab.accepts(s) && s.contains('_') {
        let i = choose|i: int| 0 <= i < s.len() && s[i] == '_';
        assert(is_lower(s[i]) || is_digit(s[i]) || s[i] == '-');
    }
}

/// Camel case is Pascal case with a lowercase first letter: a name is camel
/// case exactly when it is not empty, does not begin with an uppercase
/// letter, and, with its first letter uppercased, it is Pascal case.
pub proof fn lemma_camel_is_pascal_lowered(t: Seq<char>)
    ensures
        CaseStyle::Camel.accepts(t) <==> (t.len() > 0 && !is_upper(t[0]) && CaseStyle::Pascal.accepts(upper_first(t))),
{
    let u = upper_first(t);
    if t.len() > 0 {
        assert(u.len() == t.len());
        assert forall|i: int| 1 <= i < t.len() implies u[i] == t[i] by {}
        if is_lower(t[0]) {
            let x = (t[0] as u32) - 32;
            assert(65 <= x <= 90);
            assert(is_upper(u[0]) && is_alnum(u[0]));
        } else {
            assert(u[0] == t[0]);
        }
        if CaseStyle::Camel.accepts(t) {
            assert forall|i: int| 0 <= i < u.len() implies is_alnum(#[trigger] u[i]) by {
                if i > 0 {
                    assert(is_alnum(t[i]));
                }
            }
        }
        if !is_upper(t[0]) && CaseStyle::Pascal.accepts(u) {
            assert(is_lower(t[0]));
            assert forall|i: int| 0 <= i < t.len() implies is_alnum(#[trigger] t[i]) by {
                if i > 0 {
                    assert(is_alnum(u[i]));
                }
            }
        }
    }
}

impl CaseStyle {
    /// Whether `s` follows this naming convention.
    pub open spec fn accepts(self, s: Seq<char>) -> bool {
        match self {
            CaseStyle::Kebab => separated_lower(s, '-'),
            CaseStyle::Snake => separated_lower(s, '_'),
            CaseStyle::Camel => alnum_with_first(s, false),
            CaseStyle::Pascal => alnum_with_first(s, true),
            CaseStyle::Any => true,
        }
    }

    /// Checks `s` against this naming convention.
    pub fn validate(&self, s: &str) -> (r: bool)
        ensures
            r == self.accepts(s@),
    {
        let cs = chars_of(s);
        match self {
            CaseStyle::Kebab => Self::is_kebab_case(&cs),
            CaseStyle::Snake => Self::is_snake_case(&cs),
            CaseStyle::Camel => Self::is_camel_case(&cs),
            CaseStyle::Pascal => Self::is_pascal_case(&cs),
            CaseStyle::Any => true,
        }
    }

    fn is_separated_lower(s: &Vec<char>, sep: char) -> (r: bool)
        ensures
            r == separated_lower(s@, sep),
    {
        let n = s.len();
        if n == 0 {
            return false;
        }
        if s[0] == sep || s[n - 1] == sep {
            return false;
        }
        let mut i: usize = 0;
        while i < n
            invariant
                n == s@.len(),
                n > 0,
                s@[0] != sep,
                s@[n - 1] != sep,
                i <= n,
                forall|j: int| 0 <= j < i ==> is_lower(#[trigger] s@[j]) || is_digit(s@[j]) || s@[j] == sep,
                forall|j: int| 0 <= j < i && j + 1 < n ==> !(#[trigger] s@[j] == sep && s@[j + 1] == sep),
            decreases n - i,
        {
            let c = s[i];
            if !(('a' <= c && c <= 'z') || ('0' <= c && c <= '9') || c == sep) {
                return false;
            }
            if i + 1 < n && c == sep && s[i + 1] == sep {
                return false;
            }
            i = i + 1;
        }
        true
    }

    fn is_kebab_case(s: &Vec<char>) -> (r: bool)
        ensures
            r == separated_lower(s@, '-'),
    {
        Self::is_separated_lower(s, '-')
    }

    fn is_snake_case(s: &Vec<char>) -> (r: bool)
        ensures
            r == separated_lower(s@, '_'),
    {
        Self::is_separated_lower(s, '_')
    }

    fn is_alnum_with_first(s: &Vec<char>, upper_first: bool) -> (r: bool)
        ensures
            r == alnum_with_first(s@, upper_first),
    {
        let n = s.len();
        if n == 0 {
            return false;
        }
        let first = s[0];
        let first_ok = if upper_first {
            'A' <= first && first <= 'Z'
        } else {
            'a' <= first && first <= 'z'
        };
        if !first_ok {
            return false;
        }
        let mut i: usize = 0;
        while i < n
            invariant
                n == s@.len(),
                i <= n,
                forall|j: int| 0 <= j < i ==> is_alnum(#[trigger] s@[j]),
            decreases n - i,
        {
            let c = s[i];
            if !(('a' <= c && c <= 'z') || ('A' <= c && c <= 'Z') || ('0' <= c && c <= '9')) {
                return false;
            }
            i = i + 1;
        }
        true
    }

    fn is_camel_case(s: &Vec<char>) -> (r: bool)
        ensures
            r == alnum_with_first(s@, false),
    {
        Self::is_alnum_with_first(s, false)
    }

    fn is_pascal_case(s: &Vec<char>) -> (r: bool)
        ensures
            r == alnum_with_first(s@, true),
    {
        Self::is_alnum_with_first(s, true)
    }
}

} // verus!

verus! {

/// Whether violations are errors or warnings.
#[derive(Debug, Clone, Copy, PartialEq, Eq, Structural)]
pub enum Mode {
    Strict,
    Warn,
}

impl Default for Mode {
    fn default() -> (m: Self)
        ensures
            m == Mode::Strict,
    {
        Mode::Strict
    }
}

/// One node of the expected filesystem tree.
#[derive(Debug)]
#[allow(inconsistent_fields)]
pub enum LayoutNode {
    /// A directory with named children; keys that begin with `$` are dynamic entries.
    Dir {
        children: ChildMap,
        optional: bool,
        required: bool,
        strict: bool,
        max_depth: Option<usize>,
    },
    /// A file, optionally held to a name pattern and a case style of its stem.
    File {
        pattern: Option<String>,
        optional: bool,
        required: bool,
        case: Option<CaseStyle>,
    },
    /// One dynamic segment whose name must follow a case style.
    Param { name: String, case: CaseStyle, child: Box<LayoutNode> },
    /// Any number of dynamic segments sharing one shape.
    Many { case: Option<CaseStyle>, child: Box<LayoutNode>, max: Option<usize> },
    /// The child shape repeated at up to `max_depth` nesting levels.
    Recursive { max_depth: usize, child: Box<LayoutNode> },
    /// The first of several shapes that fits.
    Either { variants: NodeList },
}

/// The children of a directory node, in insertion order; a later insert
/// under an existing key replaces that entry in place.
#[derive(Debug)]
pub enum ChildMap {
    Empty,
    Entry(String, Box<LayoutNode>, Box<ChildMap>),
}

/// An ordered list of layout nodes.
#[derive(Debug)]
pub enum NodeList {
    Nil,
    Cons(Box<LayoutNode>, Box<NodeList>),
}

impl NodeList {
    /// The nodes in order.
    pub open spec fn to_seq(self) -> Seq<LayoutNode>
        decreases self,
    {
        match self {
            NodeList::Nil => Seq::empty(),
            NodeList::Cons(n, rest) => seq![*n].add(rest.to_seq()),
        }
    }

    fn tally(&self, marks: &mut Vec<bool>)
        ensures
            final(marks)@.len() == old(marks)@.len() + self.to_seq().len(),
        decreases self,
    {
        match self {
            NodeList::Nil => {},
            NodeList::Cons(_, rest) => {
                marks.push(true);
                rest.tally(marks);
            },
        }
    }

    /// The number of nodes.
    pub fn len(&self) -> (r: usize)
        ensures
            r == self.to_seq().len(),
    {
        let mut marks: Vec<bool> = Vec::new();
        self.tally(&mut marks);
        marks.len()
    }

    /// A copy of every node.
    pub fn duplicate(&self) -> (r: Self)
        ensures
            r == *self,
        decreases self,
    {
        match self {
            NodeList::Nil => NodeList::Nil,
            NodeList::Cons(n, rest) => NodeList::Cons(Box::new((**n).duplicate()), Box::new((**rest).duplicate())),
        }
    }
}

impl ChildMap {
    /// The entries in order, keys taken by their characters.
    pub open spec fn entries(self) -> Seq<(Seq<char>, LayoutNode)>
        decreases self,
    {
        match self {
            ChildMap::Empty => Seq::empty(),
            ChildMap::Entry(k, n, rest) => seq![(k@, *n)].add(rest.entries()),
        }
    }

    /// The node stored under `k`: the first entry with that key.
    pub open spec fn lookup(self, k: Seq<char>) -> Option<LayoutNode>
        decreases self,
    {
        match self {
            ChildMap::Empty => None,
            ChildMap::Entry(key, n, rest) => if key@ == k {
                Some(*n)
            } else {
                rest.lookup(k)
            },
        }
    }

    /// The entries after storing `node` under `k`.
    pub open spec fn inserted(self, k: String, node: LayoutNode) -> ChildMap
        decreases self,
    {
        match self {
            ChildMap::Empty => ChildMap::Entry(k, Box::new(node), Box::new(ChildMap::Empty)),
            ChildMap::Entry(key, n, rest) => if key@ == k@ {
                ChildMap::Entry(key, Box::new(node), rest)
            } else {
                ChildMap::Entry(key, n, Box::new(rest.inserted(k, node)))
            },
        }
    }

    /// No children.
    pub fn new() -> (m: Self)
        ensures
            m == ChildMap::Empty,
    {
        ChildMap::Empty
    }

    /// The node stored under `key`, if any.
    pub fn get(&self, key: &str) -> (r: Option<&LayoutNode>)
        ensures
            r matches Some(n) ==> self.lookup(key@) == Some(*n),
            r is None ==> self.lookup(key@) is None,
        decreases self,
    {
        match self {
            ChildMap::Empty => None,
            ChildMap::Entry(k, n, rest) => {
                if str_eq(k.as_str(), key) {
                    Some(&**n)
                } else {
                    rest.get(key)
                }
            },
        }
    }

    fn into_inserted(self, key: String, node: LayoutNode) -> (r: Self)
        ensures
            r == self.inserted(key, node),
        decreases self,
    {
        match self {
            ChildMap::Empty => ChildMap::Entry(key, Box::new(node), Box::new(ChildMap::Empty)),
            ChildMap::Entry(k, n, rest) => {
                if str_eq(k.as_str(), key.as_str()) {
                    ChildMap::Entry(k, Box::new(node), rest)
                } else {
                    ChildMap::Entry(k, n, Box::new((*rest).into_inserted(key, node)))
                }
            },
        }
    }

    /// Stores `node` under `key`, replacing the node already stored there.
    pub fn insert(&mut self, key: String, node: LayoutNode)
        ensures
            *final(self) == old(self).inserted(key, node),
    {
        let mut current = ChildMap::Empty;
        std::mem::swap(&mut current, self);
        *self = current.into_inserted(key, node);
    }

    fn tally(&self, marks: &mut Vec<bool>)
        ensures
            final(marks)@.len() == old(marks)@.len() + self.entries().len(),
        decreases self,
    {
        match self {
            ChildMap::Empty => {},
            ChildMap::Entry(_, _, rest) => {
                marks.push(true);
                rest.tally(marks);
            },
        }
    }

    /// The number of children.
    pub fn len(&self) -> (r: usize)
        ensures
            r == self.entries().len(),
    {
        let mut marks: Vec<bool> = Vec::new();
        self.tally(&mut marks);
        marks.len()
    }

    /// A copy of every entry.
    pub fn duplicate(&self) -> (r: Self)
        ensures
            r == *self,
        decreases self,
    {
        match self {
            ChildMap::Empty => ChildMap::Empty,
            ChildMap::Entry(k, n, rest) => ChildMap::Entry(
                k.clone(),
                Box::new((**n).duplicate()),
                Box::new((**rest).duplicate()),
            ),
        }
    }
}

impl Clone for LayoutNode {
    fn clone(&self) -> (r: Self)
        ensures
            r == *self,
    {
        self.duplicate()
    }
}

impl Clone for ChildMap {
    fn clone(&self) -> (r: Self)
        ensures
            r == *self,
    {
        self.duplicate()
    }
}

impl Clone for NodeList {
    fn clone(&self) -> (r: Self)
        ensures
            r == *self,
    {
        self.duplicate()
    }
}

impl LayoutNode {
    /// A copy of the whole tree under this node.
    pub fn duplicate(&self) -> (r: Self)
        ensures
            r == *self,
        decreases self,
    {
        match self {
            LayoutNode::Dir { children, optional, required, strict, max_depth } => LayoutNode::Dir {
                children: children.duplicate(),
                optional: *optional,
                required: *required,
                strict: *strict,
                max_depth: *max_depth,
            },
            LayoutNode::File { pattern, optional, required, case } => {
                let p = match pattern {
                    Some(p) => Some(p.clone()),
                    None => None,
                };
                LayoutNode::File { pattern: p, optional: *optional, required: *required, case: *case }
            },
            LayoutNode::Param { name, case, child } => {
                LayoutNode::Param { name: name.clone(), case: *case, child: Box::new((**child).duplicate()) }
            },
            LayoutNode::Many { case, child, max } => {
                LayoutNode::Many { case: *case, child: Box::new((**child).duplicate()), max: *max }
            },
            LayoutNode::Recursive { max_depth, child } => {
                LayoutNode::Recursive { max_depth: *max_depth, child: Box::new((**child).duplicate()) }
            },
            LayoutNode::Either { variants } => LayoutNode::Either { variants: variants.duplicate() },
        }
    }

    /// Whether the node was marked optional; only directories and files carry the mark.
    pub open spec fn spec_is_optional(self) -> bool {
        match self {
            LayoutNode::Dir { optional, .. } => optional,
            LayoutNode::File { optional, .. } => optional,
            _ => false,
        }
    }

    /// A directory with the given children, no flags set.
    pub fn dir(children: ChildMap) -> (n: Self)
        ensures
            n == (LayoutNode::Dir { children, optional: false, required: false, strict: false, max_depth: None }),
    {
        LayoutNode::Dir { children, optional: false, required: false, strict: false, max_depth: None }
    }

    /// A file with any name.
    pub fn file() -> (n: Self)
        ensures
            n == (LayoutNode::File { pattern: None, optional: false, required: false, case: None }),
    {
        LayoutNode::File { pattern: None, optional: false, required: false, case: None }
    }

    /// A file whose name must match `pattern`.
    pub fn file_with_pattern(pattern: &str) -> (n: Self)
        ensures
            n matches LayoutNode::File { pattern: Some(p), optional: false, required: false, case: None }
                && p@ == pattern@,
    {
        LayoutNode::File { pattern: Some(to_owned_string(pattern)), optional: false, required: false, case: None }
    }

    /// The same node marked optional; nodes other than directories and files are returned unchanged.
    pub fn optional(self) -> (n: Self)
        ensures
            n == (match self {
                LayoutNode::Dir { children, required, strict, max_depth, .. } => LayoutNode::Dir {
                    children,
                    optional: true,
                    required,
                    strict,
                    max_depth,
                },
                LayoutNode::File { pattern, required, case, .. } => LayoutNode::File {
                    pattern,
                    optional: true,
                    required,
                    case,
                },
                other => other,
            }),
    {
        match self {
            LayoutNode::Dir { children, required, strict, max_depth, .. } => LayoutNode::Dir {
                children,
                optional: true,
                required,
                strict,
                max_depth,
            },
            LayoutNode::File { pattern, required, case, .. } => LayoutNode::File {
                pattern,
                optional: true,
                required,
                case,
            },
            other => other,
        }
    }

    /// The same node marked required; nodes other than directories and files are returned unchanged.
    pub fn required(self) -> (n: Self)
        ensures
            n == (match self {
                LayoutNode::Dir { children, optional, strict, max_depth, .. } => LayoutNode::Dir {
                    children,
                    optional,
                    required: true,
                    strict,
                    max_depth,
                },
                LayoutNode::File { pattern, optional, case, .. } => LayoutNode::File {
                    pattern,
                    optional,
                    required: true,
                    case,
                },
                other => other,
            }),
    {
        match self {
            LayoutNode::Dir { children, optional, strict, max_depth, .. } => LayoutNode::Dir {
                children,
                optional,
                required: true,
                strict,
                max_depth,
            },
            LayoutNode::File { pattern, optional, case, .. } => LayoutNode::File {
                pattern,
                optional,
                required: true,
                case,
            },
            other => other,
        }
    }

    /// A named dynamic segment held to `case`.
    pub fn param(name: &str, case: CaseStyle, child: LayoutNode) -> (n: Self)
        ensures
            n matches LayoutNode::Param { name: nm, case: c, child: ch } && nm@ == name@ && c == case
                && *ch == child,
    {
        LayoutNode::Param { name: to_owned_string(name), case, child: Box::new(child) }
    }

    /// Any number of dynamic segments of one shape.
    pub fn many(case: Option<CaseStyle>, child: LayoutNode) -> (n: Self)
        ensures
            n == (LayoutNode::Many { case, child: Box::new(child), max: None }),
    {
        LayoutNode::Many { case, child: Box::new(child), max: None }
    }

    /// The child shape nested up to the default depth of ten levels.
    pub fn recursive(child: LayoutNode) -> (n: Self)
        ensures
            n == (LayoutNode::Recursive { max_depth: 10, child: Box::new(child) }),
    {
        LayoutNode::Recursive { max_depth: 10, child: Box::new(child) }
    }

    /// The child shape nested up to `max_depth` levels.
    pub fn recursive_with_depth(max_depth: usize, child: LayoutNode) -> (n: Self)
        ensures
            n == (LayoutNode::Recursive { max_depth, child: Box::new(child) }),
    {
        LayoutNode::Recursive { max_depth, child: Box::new(child) }
    }

    /// The first of `variants` that fits, tried in the order given.
    pub fn either(variants: Vec<LayoutNode>) -> (n: Self)
        ensures
            n matches LayoutNode::Either { variants: vs } && vs.to_seq() == variants@,
    {
        let ghost all = variants@;
        let mut rest = variants;
        let mut list = NodeList::Nil;
        while rest.len() > 0
            invariant
                rest@.len() <= all.len(),
                rest@ == all.subrange(0, rest@.len() as int),
                list.to_seq() == all.subrange(rest@.len() as int, all.len() as int),
            decreases rest.len(),
        {
            let ghost before = rest@;
            let x = rest.pop().unwrap();
            assert(x == all[rest@.len() as int]);
            let ghost old_list = list.to_seq();
            list = NodeList::Cons(Box::new(x), Box::new(list));
            assert(list.to_seq() == seq![x].add(old_list));
            assert(list.to_seq() =~= all.subrange(rest@.len() as int, all.len() as int));
        }
        assert(list.to_seq() =~= all);
        LayoutNode::Either { variants: list }
    }

    /// Whether the node was marked optional.
    pub fn is_optional(&self) -> (r: bool)
        ensures
            r == self.spec_is_optional(),
    {
        match self {
            LayoutNode::Dir { optional, .. } => *optional,
            LayoutNode::File { optional, .. } => *optional,
            LayoutNode::Param { .. } => false,
            LayoutNode::Many { .. } => false,
            LayoutNode::Recursive { .. } => false,
            LayoutNode::Either { .. } => false,
        }
    }
}

} // verus!

verus! {

/// Path and name rules.
#[derive(Debug, Clone, PartialEq)]
pub struct RulesConfig {
    pub forbid_paths: Vec<String>,
    pub forbid_names: Vec<String>,
    pub ignore_paths: Vec<String>,
}

impl Default for RulesConfig {
    fn default() -> (r: Self)
        ensures
            r.forbid_paths@.len() == 0,
            r.forbid_names@.len() == 0,
            r.ignore_paths@.len() == 0,
    {
        RulesConfig { forbid_paths: Vec::new(), forbid_names: Vec::new(), ignore_paths: Vec::new() }
    }
}

/// Module boundaries.
#[derive(Debug, Clone, PartialEq)]
pub struct BoundariesConfig {
    pub modules: String,
    pub public_api: String,
    pub forbid_deep_imports: bool,
}

/// Import permissions from one glob to a list of globs.
#[derive(Debug, Clone, PartialEq)]
pub struct DepsAllowRule {
    pub from: String,
    pub to: Vec<String>,
}

/// Import permissions.
#[derive(Debug, Clone, PartialEq)]
pub struct DepsConfig {
    pub allow: Vec<DepsAllowRule>,
}

impl Default for DepsConfig {
    fn default() -> (r: Self)
        ensures
            r.allow@.len() == 0,
    {
        DepsConfig { allow: Vec::new() }
    }
}

/// Files under `source` that must have a counterpart under `target`; `pattern`
/// reads `"<from> -> <to>"` to change the file suffix on the way.
#[derive(Debug, Clone, PartialEq)]
pub struct MirrorConfig {
    pub source: String,
    pub target: String,
    pub pattern: String,
}

/// Files that must sit next to a trigger file.
#[derive(Debug, Clone, PartialEq)]
pub struct WhenRequirement {
    pub requires: Vec<String>,
}

/// A whole configuration.
#[derive(Debug, Clone)]
pub struct ConfigIR {
    pub mode: Mode,
    pub layout: Option<LayoutNode>,
    pub rules: RulesConfig,
    pub boundaries: Option<BoundariesConfig>,
    pub deps: Option<DepsConfig>,
    pub ignore: Vec<String>,
    pub use_gitignore: bool,
    pub workspaces: Vec<String>,
    /// Source glob to target glob, in the order written.
    pub dependencies: Vec<(String, String)>,
    pub mirror: Vec<MirrorConfig>,
    /// Trigger file name to the files it requires, in the order written.
    pub when: Vec<(String, WhenRequirement)>,
    pub extends: Option<String>,
}

/// `a` followed by `b`.
fn concat_strings(a: Vec<String>, b: Vec<String>) -> (r: Vec<String>)
    ensures
        r@ == a@ + b@,
{
    let mut r = a;
    let mut b = b;
    r.append(&mut b);
    r
}

impl ConfigIR {
    /// A configuration with the given layout and every other setting at its default.
    pub fn new(layout: LayoutNode) -> (c: Self)
        ensures
            c.mode == Mode::Strict,
            c.layout == Some(layout),
            c.rules.forbid_paths@.len() == 0,
            c.rules.forbid_names@.len() == 0,
            c.rules.ignore_paths@.len() == 0,
            c.boundaries is None,
            c.deps is None,
            c.ignore@.len() == 0,
            c.use_gitignore,
            c.workspaces@.len() == 0,
            c.dependencies@.len() == 0,
            c.mirror@.len() == 0,
            c.when@.len() == 0,
            c.extends is None,
    {
        ConfigIR {
            mode: Mode::default(),
            layout: Some(layout),
            rules: RulesConfig::default(),
            boundaries: None,
            deps: None,
            ignore: Vec::new(),
            use_gitignore: true,
            workspaces: Vec::new(),
            dependencies: Vec::new(),
            mirror: Vec::new(),
            when: Vec::new(),
            extends: None,
        }
    }

    /// Folds an extended (base) configuration into this one: the mode is taken
    /// from the base where this one keeps the default, the rule lists and the
    /// ignore list are the base's followed by this one's, and the layout,
    /// boundaries and deps are this one's where given, else the base's.
    pub fn merge(&mut self, base: ConfigIR)
        ensures
            final(self).mode == (if old(self).mode == Mode::Strict { base.mode } else { old(self).mode }),
            final(self).rules.forbid_paths@ == base.rules.forbid_paths@ + old(self).rules.forbid_paths@,
            final(self).rules.forbid_names@ == base.rules.forbid_names@ + old(self).rules.forbid_names@,
            final(self).rules.ignore_paths@ == base.rules.ignore_paths@ + old(self).rules.ignore_paths@,
            final(self).ignore@ == base.ignore@ + old(self).ignore@,
            final(self).layout == (if old(self).layout is Some { old(self).layout } else { base.layout }),
            final(self).boundaries == (if old(self).boundaries is Some { old(self).boundaries } else { base.boundaries }),
            final(self).deps == (if old(self).deps is Some { old(self).deps } else { base.deps }),
            final(self).use_gitignore == old(self).use_gitignore,
            final(self).workspaces == old(self).workspaces,
            final(self).dependencies == old(self).dependencies,
            final(self).mirror == old(self).mirror,
            final(self).when == old(self).when,
            final(self).extends == old(self).extends,
    {
        let ConfigIR { mode: base_mode, layout: base_layout, rules: base_rules, boundaries: base_boundaries, deps: base_deps, ignore: base_ignore, .. } = base;
        if self.mode == Mode::Strict {
            self.mode = base_mode;
        }
        let mut fp = Vec::new();
        std::mem::swap(&mut fp, &mut self.rules.forbid_paths);
        self.rules.forbid_paths = concat_strings(base_rules.forbid_paths, fp);
        let mut fnm = Vec::new();
        std::mem::swap(&mut fnm, &mut self.rules.forbid_names);
        self.rules.forbid_names = concat_strings(base_rules.forbid_names, fnm);
        let mut ip = Vec::new();
        std::mem::swap(&mut ip, &mut self.rules.ignore_paths);
        self.rules.ignore_paths = concat_strings(base_rules.ignore_paths, ip);
        let mut ig = Vec::new();
        std::mem::swap(&mut ig, &mut self.ignore);
        self.ignore = concat_strings(base_ignore, ig);
        if self.layout.is_none() {
            self.layout = base_layout;
        }
        if self.boundaries.is_none() {
            self.boundaries = base_boundaries;
        }
        if self.deps.is_none() {
            self.deps = base_deps;
        }
    }
}

} // verus!

verus! {

/// A layout tree with every string taken by its characters.
pub enum LayoutView {
    Dir {
        children: Seq<(Seq<char>, LayoutView)>,
        optional: bool,
        required: bool,
        strict: bool,
        max_depth: Option<usize>,
    },
    File { pattern: Option<Seq<char>>, optional: bool, required: bool, case: Option<CaseStyle> },
    Param { name: Seq<char>, case: CaseStyle, child: Box<LayoutView> },
    Many { case: Option<CaseStyle>, child: Box<LayoutView>, max: Option<usize> },
    Recursive { max_depth: usize, child: Box<LayoutView> },
    Either { variants: Seq<LayoutView> },
}

/// The characters of an optional string.
pub open spec fn opt_str_view(o: Option<String>) -> Option<Seq<char>> {
    match o {
        Some(s) => Some(s@),
        None => None,
    }
}

/// A layout node with its strings taken by their characters.
pub open spec fn layout_view(n: LayoutNode) -> LayoutView
    decreases n, 1int,
{
    match n {
        LayoutNode::Dir { children, optional, required, strict, max_depth } => LayoutView::Dir {
            children: children_view(children),
            optional,
            required,
            strict,
            max_depth,
        },
        LayoutNode::File { pattern, optional, required, case } => LayoutView::File {
            pattern: opt_str_view(pattern),
            optional,
            required,
            case,
        },
        LayoutNode::Param { name, case, child } => LayoutView::Param {
            name: name@,
            case,
            child: Box::new(layout_view(*child)),
        },
        LayoutNode::Many { case, child, max } => LayoutView::Many { case, child: Box::new(layout_view(*child)), max },
        LayoutNode::Recursive { max_depth, child } => LayoutView::Recursive {
            max_depth,
            child: Box::new(layout_view(*child)),
        },
        LayoutNode::Either { variants } => LayoutView::Either { variants: variants_view(variants) },
    }
}

/// The entries of a directory, keys and nodes taken by their views.
pub open spec fn children_view(m: ChildMap) -> Seq<(Seq<char>, LayoutView)>
    decreases m, 0int,
{
    match m {
        ChildMap::Empty => Seq::empty(),
        ChildMap::Entry(k, n, rest) => seq![(k@, layout_view(*n))] + children_view(*rest),
    }
}

/// The variants, taken by their views.
pub open spec fn variants_view(l: NodeList) -> Seq<LayoutView>
    decreases l, 0int,
{
    match l {
        NodeList::Nil => Seq::empty(),
        NodeList::Cons(n, rest) => seq![layout_view(*n)] + variants_view(*rest),
    }
}

/// The entries after storing `v` under `k`: the first entry with key `k`
/// takes the new node in place, or the pair is added at the end.
pub open spec fn view_insert(s: Seq<(Seq<char>, LayoutView)>, k: Seq<char>, v: LayoutView) -> Seq<(Seq<char>, LayoutView)>
    decreases s.len(),
{
    if s.len() == 0 {
        seq![(k, v)]
    } else if s[0].0 == k {
        seq![(k, v)] + s.drop_first()
    } else {
        seq![s[0]] + view_insert(s.drop_first(), k, v)
    }
}

/// Storing a node in a directory's entries is storing its view in their views.
pub proof fn lemma_inserted_view(m: ChildMap, k: String, node: LayoutNode)
    ensures
        children_view(m.inserted(k, node)) == view_insert(children_view(m), k@, layout_view(node)),
    decreases m,
{
    match m {
        ChildMap::Empty => {},
        ChildMap::Entry(key, n, rest) => {
            let cv = children_view(m);
            assert(cv.drop_first() =~= children_view(*rest));
            if key@ == k@ {
            } else {
                lemma_inserted_view(*rest, k, node);
            }
        },
    }
}

/// What is stored under a key is then found under it, and what is found
/// under any other key is unchanged.
pub proof fn lemma_insert_then_lookup(m: ChildMap, k: String, node: LayoutNode, q: Seq<char>)
    ensures
        m.inserted(k, node).lookup(k@) == Some(node),
        q != k@ ==> m.inserted(k, node).lookup(q) == m.lookup(q),
    decreases m,
{
    match m {
        ChildMap::Empty => {},
        ChildMap::Entry(key, n, rest) => {
            lemma_insert_then_lookup(*rest, k, node, q);
        },
    }
}

} // verus!
