//! Evaluating the layout language: `dir`, `file`, `opt`, `required`,
//! `param`, `many`, `recursive` and `either` calls, variables and imports.

use vstd::prelude::*;

use super::expr::{
    bool_of, cat, expect_bool, expect_number, expect_string, expr_loc, find_last, get_prop_name, lookup_last,
    not_object, number_of, prop_name, same_str, string_of, unsupported, unsupported_at, ConfigExpr, ConfigProp,
    ExprList, ParseError, ParseErrorView, PropList,
};
use super::ir::{
    children_view, layout_view, lemma_inserted_view, variants_view, view_insert, CaseStyle, ChildMap, LayoutNode,
    LayoutView, NodeList,
};
use crate::text::to_owned_string;

verus! {

/// The value bound last to `name`, among pairs keyed by characters.
pub open spec fn lookup_view<V>(s: Seq<(Seq<char>, V)>, name: Seq<char>) -> Option<V>
    decreases s.len(),
{
    if s.len() == 0 {
        None
    } else if s.last().0 == name {
        Some(s.last().1)
    } else {
        lookup_view(s.drop_last(), name)
    }
}

/// Pairs with their keys taken by their characters and their values by `f`.
pub open spec fn pairs_view<V, W>(s: Seq<(String, V)>, f: spec_fn(V) -> W) -> Seq<(Seq<char>, W)> {
    s.map_values(|p: (String, V)| (p.0@, f(p.1)))
}

/// Named layouts, taken by their views.
pub open spec fn layout_pairs(s: Seq<(String, LayoutNode)>) -> Seq<(Seq<char>, LayoutView)> {
    pairs_view(s, |n: LayoutNode| layout_view(n))
}

/// Looking a name up among views is looking it up and taking the view.
pub proof fn lemma_lookup_pairs_view<V, W>(s: Seq<(String, V)>, name: Seq<char>, f: spec_fn(V) -> W)
    ensures
        lookup_view(pairs_view(s, f), name) == (match lookup_last(s, name) {
            Some(v) => Some(f(v)),
            None => None,
        }),
    decreases s.len(),
{
    if s.len() > 0 {
        assert(pairs_view(s, f).drop_last() =~= pairs_view(s.drop_last(), f));
        lemma_lookup_pairs_view(s.drop_last(), name, f);
    }
}

/// The imported layout bound last to `name`.
pub fn find_imported_layout<'a>(imps: &'a Vec<(String, LayoutNode)>, name: &str) -> (r: Option<&'a LayoutNode>)
    ensures
        match lookup_view(layout_pairs(imps@), name@) {
            Some(v) => r matches Some(n) && layout_view(*n) == v,
            None => r is None,
        },
{
    proof {
        lemma_lookup_pairs_view(imps@, name@, |n: LayoutNode| layout_view(n));
    }
    find_last(imps, name)
}

/// The error for a variable whose value refers back to itself.
pub open spec fn circular(name: Seq<char>) -> ParseErrorView {
    ParseErrorView::Unsupported { line: 0, col: 0, message: "Circular variable reference: "@ + name }
}

fn circular_error(name: &str) -> (r: ParseError)
    ensures
        r@ == circular(name@),
{
    ParseError::UnsupportedExpression { line: 0, col: 0, message: cat("Circular variable reference: ", name) }
}

/// A case style named by a string.
pub open spec fn case_from_name(s: Seq<char>) -> Result<CaseStyle, ParseErrorView> {
    if s == "kebab"@ {
        Ok(CaseStyle::Kebab)
    } else if s == "snake"@ {
        Ok(CaseStyle::Snake)
    } else if s == "camel"@ {
        Ok(CaseStyle::Camel)
    } else if s == "pascal"@ {
        Ok(CaseStyle::Pascal)
    } else if s == "any"@ {
        Ok(CaseStyle::Any)
    } else {
        Err(
            ParseErrorView::Invalid {
                field: "case"@,
                message: "expected 'kebab', 'snake', 'camel', 'pascal', or 'any', got '"@ + s + "'"@,
            },
        )
    }
}

/// The case style an expression names.
pub open spec fn eval_case_style(e: ConfigExpr) -> Result<CaseStyle, ParseErrorView> {
    match expect_string(e) {
        Ok(s) => case_from_name(s),
        Err(er) => Err(er),
    }
}

/// Reads a case style.
pub fn case_style_of(e: &ConfigExpr) -> (r: Result<CaseStyle, ParseError>)
    ensures
        match eval_case_style(*e) {
            Ok(c) => r == Ok::<CaseStyle, ParseError>(c),
            Err(er) => r matches Err(x) && x@ == er,
        },
{
    let s = match string_of(e) {
        Ok(s) => s,
        Err(er) => {
            return Err(er);
        },
    };
    if same_str(s.as_str(), "kebab") {
        Ok(CaseStyle::Kebab)
    } else if same_str(s.as_str(), "snake") {
        Ok(CaseStyle::Snake)
    } else if same_str(s.as_str(), "camel") {
        Ok(CaseStyle::Camel)
    } else if same_str(s.as_str(), "pascal") {
        Ok(CaseStyle::Pascal)
    } else if same_str(s.as_str(), "any") {
        Ok(CaseStyle::Any)
    } else {
        let mut message = cat("expected 'kebab', 'snake', 'camel', 'pascal', or 'any', got '", s.as_str());
        message.append("'");
        Err(ParseError::InvalidValue { field: String::from_str("case"), message })
    }
}

/// A layout result, with its strings taken by their characters.
pub open spec fn layout_result(r: Result<LayoutNode, ParseError>) -> Result<LayoutView, ParseErrorView> {
    match r {
        Ok(n) => Ok(layout_view(n)),
        Err(e) => Err(e@),
    }
}

/// The view with the optional mark set, for directories and files.
pub open spec fn mark_optional(v: LayoutView) -> LayoutView {
    match v {
        LayoutView::Dir { children, required, strict, max_depth, .. } => LayoutView::Dir {
            children,
            optional: true,
            required,
            strict,
            max_depth,
        },
        LayoutView::File { pattern, required, case, .. } => LayoutView::File { pattern, optional: true, required, case },
        _ => v,
    }
}

/// The view with the required mark set, for directories and files.
pub open spec fn mark_required(v: LayoutView) -> LayoutView {
    match v {
        LayoutView::Dir { children, optional, strict, max_depth, .. } => LayoutView::Dir {
            children,
            optional,
            required: true,
            strict,
            max_depth,
        },
        LayoutView::File { pattern, optional, case, .. } => LayoutView::File { pattern, optional, required: true, case },
        _ => v,
    }
}

/// The layout an expression describes. Variables and imported layouts are
/// looked up by name; each variable followed spends one unit of `fuel`.
pub open spec fn eval_layout(
    e: ConfigExpr,
    vars: Seq<(String, ConfigExpr)>,
    imps: Seq<(Seq<char>, LayoutView)>,
    fuel: nat,
) -> Result<LayoutView, ParseErrorView>
    decreases fuel, e, 2int,
{
    match e {
        ConfigExpr::Ident { name } => match lookup_view(imps, name@) {
            Some(n) => Ok(n),
            None => match lookup_last(vars, name@) {
                Some(v) => if fuel > 0 {
                    eval_layout(v, vars, imps, (fuel - 1) as nat)
                } else {
                    Err(circular(name@))
                },
                None => Err(ParseErrorView::Unsupported { line: 0, col: 0, message: "Unknown variable: "@ + name@ }),
            },
        },
        ConfigExpr::Call { callee: Some(f), args, .. } => {
            if f@ == "dir"@ || f@ == "directory"@ {
                eval_dir(args, vars, imps, fuel)
            } else if f@ == "file"@ {
                eval_file(args)
            } else if f@ == "opt"@ || f@ == "optional"@ {
                match args {
                    ExprList::Cons(first, _) => match eval_layout(*first, vars, imps, fuel) {
                        Ok(v) => Ok(mark_optional(v)),
                        Err(er) => Err(er),
                    },
                    ExprList::Nil => Err(ParseErrorView::Missing("optional() requires an argument"@)),
                }
            } else if f@ == "required"@ {
                match args {
                    ExprList::Cons(first, _) => match eval_layout(*first, vars, imps, fuel) {
                        Ok(v) => Ok(mark_required(v)),
                        Err(er) => Err(er),
                    },
                    ExprList::Nil => Err(ParseErrorView::Missing("required() requires an argument"@)),
                }
            } else if f@ == "param"@ {
                eval_param(args, vars, imps, fuel)
            } else if f@ == "many"@ {
                eval_many(args, vars, imps, fuel)
            } else if f@ == "recursive"@ {
                eval_recursive(args, vars, imps, fuel)
            } else if f@ == "either"@ {
                match args {
                    ExprList::Nil => Err(ParseErrorView::Missing("either() requires at least one variant"@)),
                    _ => match eval_variants(args, vars, imps, fuel) {
                        Ok(vs) => Ok(LayoutView::Either { variants: vs }),
                        Err(er) => Err(er),
                    },
                }
            } else {
                Err(unsupported_at(e, "Unknown DSL function: "@ + f@))
            }
        },
        _ => Err(
            unsupported_at(e, "Expected DSL function call (directory, file, optional, required, param, many)"@),
        ),
    }
}

/// A directory: its entries from the first argument, its options from the second.
pub open spec fn eval_dir(
    args: ExprList,
    vars: Seq<(String, ConfigExpr)>,
    imps: Seq<(Seq<char>, LayoutView)>,
    fuel: nat,
) -> Result<LayoutView, ParseErrorView>
    decreases fuel, args, 1int,
{
    let entries = match args {
        ExprList::Nil => Ok(Seq::empty()),
        ExprList::Cons(first, _) => match *first {
            ConfigExpr::Object { props, .. } => dir_entries(props, *first, Seq::empty(), vars, imps, fuel),
            _ => Err(not_object(*first)),
        },
    };
    match entries {
        Err(er) => Err(er),
        Ok(children) => match dir_options(args) {
            Err(er) => Err(er),
            Ok(opts) => Ok(
                LayoutView::Dir { children, optional: false, required: false, strict: opts.0, max_depth: opts.1 },
            ),
        },
    }
}

/// The entries of a directory, added to `acc` property by property.
pub open spec fn dir_entries(
    props: PropList,
    arg: ConfigExpr,
    acc: Seq<(Seq<char>, LayoutView)>,
    vars: Seq<(String, ConfigExpr)>,
    imps: Seq<(Seq<char>, LayoutView)>,
    fuel: nat,
) -> Result<Seq<(Seq<char>, LayoutView)>, ParseErrorView>
    decreases fuel, props, 0int,
{
    match props {
        PropList::Nil => Ok(acc),
        PropList::Cons(p, rest) => match *p {
            ConfigProp::KeyValue { key, value } => match eval_layout(value, vars, imps, fuel) {
                Ok(v) => dir_entries(*rest, arg, view_insert(acc, prop_name(key), v), vars, imps, fuel),
                Err(er) => Err(er),
            },
            ConfigProp::Shorthand { name } => match lookup_view(imps, name@) {
                Some(n) => dir_entries(*rest, arg, view_insert(acc, name@, n), vars, imps, fuel),
                None => match lookup_last(vars, name@) {
                    Some(ve) => if fuel > 0 {
                        match eval_layout(ve, vars, imps, (fuel - 1) as nat) {
                            Ok(v) => dir_entries(*rest, arg, view_insert(acc, name@, v), vars, imps, fuel),
                            Err(er) => Err(er),
                        }
                    } else {
                        Err(circular(name@))
                    },
                    None => Err(unsupported_at(arg, "Unknown shorthand variable: "@ + name@)),
                },
            },
            ConfigProp::Other => dir_entries(*rest, arg, acc, vars, imps, fuel),
        },
    }
}

/// The `strict` and `maxDepth` options of a directory, from an object
/// literal second argument; any other second argument is ignored.
pub open spec fn dir_options(args: ExprList) -> Result<(bool, Option<usize>), ParseErrorView> {
    match args {
        ExprList::Cons(_, rest) => match *rest {
            ExprList::Cons(second, _) => match *second {
                ConfigExpr::Object { props, .. } => dir_option_props(props, false, None),
                _ => Ok((false, None)),
            },
            ExprList::Nil => Ok((false, None)),
        },
        ExprList::Nil => Ok((false, None)),
    }
}

/// The directory options read from the properties, starting from `strict`
/// and `max_depth`.
pub open spec fn dir_option_props(props: PropList, strict: bool, max_depth: Option<usize>) -> Result<
    (bool, Option<usize>),
    ParseErrorView,
>
    decreases props,
{
    match props {
        PropList::Nil => Ok((strict, max_depth)),
        PropList::Cons(p, rest) => match *p {
            ConfigProp::KeyValue { key, value } => if prop_name(key) == "strict"@ {
                match expect_bool(value) {
                    Ok(b) => dir_option_props(*rest, b, max_depth),
                    Err(er) => Err(er),
                }
            } else if prop_name(key) == "maxDepth"@ {
                match expect_number(value) {
                    Ok(n) => dir_option_props(*rest, strict, Some(n)),
                    Err(er) => Err(er),
                }
            } else {
                dir_option_props(*rest, strict, max_depth)
            },
            _ => dir_option_props(*rest, strict, max_depth),
        },
    }
}

/// A file: a string first argument is its pattern; an object first
/// argument gives `pattern` and `case`; anything else means no constraint.
pub open spec fn eval_file(args: ExprList) -> Result<LayoutView, ParseErrorView> {
    match args {
        ExprList::Cons(first, _) => match expect_string(*first) {
            Ok(s) => Ok(LayoutView::File { pattern: Some(s), optional: false, required: false, case: None }),
            Err(_) => match *first {
                ConfigExpr::Object { props, .. } => match file_props(props, None, None) {
                    Ok(pc) => Ok(LayoutView::File { pattern: pc.0, optional: false, required: false, case: pc.1 }),
                    Err(er) => Err(er),
                },
                _ => Ok(LayoutView::File { pattern: None, optional: false, required: false, case: None }),
            },
        },
        ExprList::Nil => Ok(LayoutView::File { pattern: None, optional: false, required: false, case: None }),
    }
}

/// The `pattern` and `case` of a file, read from the properties.
pub open spec fn file_props(props: PropList, pattern: Option<Seq<char>>, case: Option<CaseStyle>) -> Result<
    (Option<Seq<char>>, Option<CaseStyle>),
    ParseErrorView,
>
    decreases props,
{
    match props {
        PropList::Nil => Ok((pattern, case)),
        PropList::Cons(p, rest) => match *p {
            ConfigProp::KeyValue { key, value } => if prop_name(key) == "pattern"@ {
                match expect_string(value) {
                    Ok(s) => file_props(*rest, Some(s), case),
                    Err(er) => Err(er),
                }
            } else if prop_name(key) == "case"@ {
                match eval_case_style(value) {
                    Ok(c) => file_props(*rest, pattern, Some(c)),
                    Err(er) => Err(er),
                }
            } else {
                file_props(*rest, pattern, case)
            },
            _ => file_props(*rest, pattern, case),
        },
    }
}

/// The `case` and `name` options of a parameter, read from the properties.
pub open spec fn param_props(props: PropList, case: CaseStyle, name: Seq<char>) -> Result<
    (CaseStyle, Seq<char>),
    ParseErrorView,
>
    decreases props,
{
    match props {
        PropList::Nil => Ok((case, name)),
        PropList::Cons(p, rest) => match *p {
            ConfigProp::KeyValue { key, value } => if prop_name(key) == "case"@ {
                match eval_case_style(value) {
                    Ok(c) => param_props(*rest, c, name),
                    Err(er) => Err(er),
                }
            } else if prop_name(key) == "name"@ {
                match expect_string(value) {
                    Ok(s) => param_props(*rest, case, s),
                    Err(er) => Err(er),
                }
            } else {
                param_props(*rest, case, name)
            },
            _ => param_props(*rest, case, name),
        },
    }
}

/// A parameter: options (an object literal) then the child. A name left
/// empty becomes the first argument's string, or `$param`.
pub open spec fn eval_param(
    args: ExprList,
    vars: Seq<(String, ConfigExpr)>,
    imps: Seq<(Seq<char>, LayoutView)>,
    fuel: nat,
) -> Result<LayoutView, ParseErrorView>
    decreases fuel, args, 1int,
{
    match args {
        ExprList::Cons(first, rest) => match *rest {
            ExprList::Cons(second, _) => match *first {
                ConfigExpr::Object { props, .. } => match param_props(props, CaseStyle::Any, Seq::empty()) {
                    Ok(cn) => {
                        let name = if cn.1.len() == 0 {
                            match expect_string(*first) {
                                Ok(s) => s,
                                Err(_) => "$param"@,
                            }
                        } else {
                            cn.1
                        };
                        match eval_layout(*second, vars, imps, fuel) {
                            Ok(child) => Ok(LayoutView::Param { name, case: cn.0, child: Box::new(child) }),
                            Err(er) => Err(er),
                        }
                    },
                    Err(er) => Err(er),
                },
                _ => Err(not_object(*first)),
            },
            ExprList::Nil => Err(ParseErrorView::Missing("param() requires options and child arguments"@)),
        },
        ExprList::Nil => Err(ParseErrorView::Missing("param() requires options and child arguments"@)),
    }
}

/// The `case` and `max` options of a repeated segment, read from the properties.
pub open spec fn many_props(props: PropList, case: Option<CaseStyle>, max: Option<usize>) -> Result<
    (Option<CaseStyle>, Option<usize>),
    ParseErrorView,
>
    decreases props,
{
    match props {
        PropList::Nil => Ok((case, max)),
        PropList::Cons(p, rest) => match *p {
            ConfigProp::KeyValue { key, value } => if prop_name(key) == "case"@ {
                match eval_case_style(value) {
                    Ok(c) => many_props(*rest, Some(c), max),
                    Err(er) => Err(er),
                }
            } else if prop_name(key) == "max"@ {
                match expect_number(value) {
                    Ok(n) => many_props(*rest, case, Some(n)),
                    Err(er) => Err(er),
                }
            } else {
                many_props(*rest, case, max)
            },
            _ => many_props(*rest, case, max),
        },
    }
}

/// A repeated segment: with two or more arguments and an object literal
/// first, that object gives the options and the second argument is the
/// child; otherwise the first argument is the child.
pub open spec fn eval_many(
    args: ExprList,
    vars: Seq<(String, ConfigExpr)>,
    imps: Seq<(Seq<char>, LayoutView)>,
    fuel: nat,
) -> Result<LayoutView, ParseErrorView>
    decreases fuel, args, 1int,
{
    match args {
        ExprList::Cons(first, rest) => match *rest {
            ExprList::Cons(second, _) => match *first {
                ConfigExpr::Object { props, .. } => match many_props(props, None, None) {
                    Ok(cm) => match eval_layout(*second, vars, imps, fuel) {
                        Ok(child) => Ok(LayoutView::Many { case: cm.0, child: Box::new(child), max: cm.1 }),
                        Err(er) => Err(er),
                    },
                    Err(er) => Err(er),
                },
                _ => match eval_layout(*first, vars, imps, fuel) {
                    Ok(child) => Ok(LayoutView::Many { case: None, child: Box::new(child), max: None }),
                    Err(er) => Err(er),
                },
            },
            ExprList::Nil => match eval_layout(*first, vars, imps, fuel) {
                Ok(child) => Ok(LayoutView::Many { case: None, child: Box::new(child), max: None }),
                Err(er) => Err(er),
            },
        },
        ExprList::Nil => Err(ParseErrorView::Missing("many() requires a child argument"@)),
    }
}

/// The `maxDepth` option of a recursive shape, read from the properties.
pub open spec fn recursive_props(props: PropList, max_depth: usize) -> Result<usize, ParseErrorView>
    decreases props,
{
    match props {
        PropList::Nil => Ok(max_depth),
        PropList::Cons(p, rest) => match *p {
            ConfigProp::KeyValue { key, value } => if prop_name(key) == "maxDepth"@ {
                match expect_number(value) {
                    Ok(n) => recursive_props(*rest, n),
                    Err(er) => Err(er),
                }
            } else {
                recursive_props(*rest, max_depth)
            },
            _ => recursive_props(*rest, max_depth),
        },
    }
}

/// A recursive shape, of depth 10 unless an options object says otherwise;
/// arguments are read as for a repeated segment.
pub open spec fn eval_recursive(
    args: ExprList,
    vars: Seq<(String, ConfigExpr)>,
    imps: Seq<(Seq<char>, LayoutView)>,
    fuel: nat,
) -> Result<LayoutView, ParseErrorView>
    decreases fuel, args, 1int,
{
    match args {
        ExprList::Cons(first, rest) => match *rest {
            ExprList::Cons(second, _) => match *first {
                ConfigExpr::Object { props, .. } => match recursive_props(props, 10) {
                    Ok(d) => match eval_layout(*second, vars, imps, fuel) {
                        Ok(child) => Ok(LayoutView::Recursive { max_depth: d, child: Box::new(child) }),
                        Err(er) => Err(er),
                    },
                    Err(er) => Err(er),
                },
                _ => match eval_layout(*first, vars, imps, fuel) {
                    Ok(child) => Ok(LayoutView::Recursive { max_depth: 10, child: Box::new(child) }),
                    Err(er) => Err(er),
                },
            },
            ExprList::Nil => match eval_layout(*first, vars, imps, fuel) {
                Ok(child) => Ok(LayoutView::Recursive { max_depth: 10, child: Box::new(child) }),
                Err(er) => Err(er),
            },
        },
        ExprList::Nil => Err(ParseErrorView::Missing("recursive() requires a child argument"@)),
    }
}

/// Every argument as a layout, in order; the first failure stops.
pub open spec fn eval_variants(
    args: ExprList,
    vars: Seq<(String, ConfigExpr)>,
    imps: Seq<(Seq<char>, LayoutView)>,
    fuel: nat,
) -> Result<Seq<LayoutView>, ParseErrorView>
    decreases fuel, args, 0int,
{
    match args {
        ExprList::Nil => Ok(Seq::empty()),
        ExprList::Cons(first, rest) => match eval_layout(*first, vars, imps, fuel) {
            Ok(v) => match eval_variants(*rest, vars, imps, fuel) {
                Ok(vs) => Ok(seq![v] + vs),
                Err(er) => Err(er),
            },
            Err(er) => Err(er),
        },
    }
}

} // verus!

verus! {

/// Whether two results agree once the error is taken by its view.
pub open spec fn agrees<A, B>(r: Result<A, ParseError>, s: Result<B, ParseErrorView>, f: spec_fn(A) -> B) -> bool {
    match r {
        Ok(a) => s == Ok::<B, ParseErrorView>(f(a)),
        Err(e) => s == Err::<B, ParseErrorView>(e@),
    }
}

/// Reads the layout an expression describes; each variable followed spends
/// one unit of `fuel`, and a variable met with no fuel left is reported as
/// a circular reference.
pub fn eval_layout_node(
    e: &ConfigExpr,
    vars: &Vec<(String, ConfigExpr)>,
    imps: &Vec<(String, LayoutNode)>,
    fuel: usize,
) -> (r: Result<LayoutNode, ParseError>)
    ensures
        layout_result(r) == eval_layout(*e, vars@, layout_pairs(imps@), fuel as nat),
    decreases fuel, *e, 2int,
{
    match e {
        ConfigExpr::Ident { name } => match find_imported_layout(imps, name.as_str()) {
            Some(n) => Ok(n.duplicate()),
            None => match find_last(vars, name.as_str()) {
                Some(v) => {
                    if fuel > 0 {
                        eval_layout_node(v, vars, imps, fuel - 1)
                    } else {
                        Err(circular_error(name.as_str()))
                    }
                },
                None => Err(
                    ParseError::UnsupportedExpression {
                        line: 0,
                        col: 0,
                        message: cat("Unknown variable: ", name.as_str()),
                    },
                ),
            },
        },
        ConfigExpr::Call { callee: Some(f), args, .. } => {
            let f = f.as_str();
            if same_str(f, "dir") || same_str(f, "directory") {
                read_dir(args, vars, imps, fuel)
            } else if same_str(f, "file") {
                read_file(args)
            } else if same_str(f, "opt") || same_str(f, "optional") {
                match args {
                    ExprList::Cons(first, _) => match eval_layout_node(first, vars, imps, fuel) {
                        Ok(n) => Ok(n.optional()),
                        Err(er) => Err(er),
                    },
                    ExprList::Nil => Err(ParseError::MissingField(String::from_str("optional() requires an argument"))),
                }
            } else if same_str(f, "required") {
                match args {
                    ExprList::Cons(first, _) => match eval_layout_node(first, vars, imps, fuel) {
                        Ok(n) => Ok(n.required()),
                        Err(er) => Err(er),
                    },
                    ExprList::Nil => Err(ParseError::MissingField(String::from_str("required() requires an argument"))),
                }
            } else if same_str(f, "param") {
                read_param(args, vars, imps, fuel)
            } else if same_str(f, "many") {
                read_many(args, vars, imps, fuel)
            } else if same_str(f, "recursive") {
                read_recursive(args, vars, imps, fuel)
            } else if same_str(f, "either") {
                match args {
                    ExprList::Nil => Err(
                        ParseError::MissingField(String::from_str("either() requires at least one variant")),
                    ),
                    _ => match read_variants(args, vars, imps, fuel) {
                        Ok(vs) => Ok(LayoutNode::Either { variants: vs }),
                        Err(er) => Err(er),
                    },
                }
            } else {
                Err(unsupported(e, cat("Unknown DSL function: ", f)))
            }
        },
        _ => Err(
            unsupported(
                e,
                String::from_str("Expected DSL function call (directory, file, optional, required, param, many)"),
            ),
        ),
    }
}

fn read_dir(
    args: &ExprList,
    vars: &Vec<(String, ConfigExpr)>,
    imps: &Vec<(String, LayoutNode)>,
    fuel: usize,
) -> (r: Result<LayoutNode, ParseError>)
    ensures
        layout_result(r) == eval_dir(*args, vars@, layout_pairs(imps@), fuel as nat),
    decreases fuel, *args, 1int,
{
    let children = match args {
        ExprList::Nil => ChildMap::Empty,
        ExprList::Cons(first, _) => match &**first {
            ConfigExpr::Object { props, .. } => match read_dir_entries(props, first, ChildMap::Empty, vars, imps, fuel) {
                Ok(m) => m,
                Err(er) => {
                    return Err(er);
                },
            },
            _ => {
                return Err(unsupported(first, String::from_str("Expected object literal")));
            },
        },
    };
    match read_dir_options(args) {
        Ok((strict, max_depth)) => Ok(LayoutNode::Dir { children, optional: false, required: false, strict, max_depth }),
        Err(er) => Err(er),
    }
}

fn read_dir_entries(
    props: &PropList,
    arg: &ConfigExpr,
    acc: ChildMap,
    vars: &Vec<(String, ConfigExpr)>,
    imps: &Vec<(String, LayoutNode)>,
    fuel: usize,
) -> (r: Result<ChildMap, ParseError>)
    ensures
        agrees(r, dir_entries(*props, *arg, children_view(acc), vars@, layout_pairs(imps@), fuel as nat), |m: ChildMap| children_view(m)),
    decreases fuel, *props, 0int,
{
    match props {
        PropList::Nil => Ok(acc),
        PropList::Cons(p, rest) => match &**p {
            ConfigProp::KeyValue { key, value } => match eval_layout_node(value, vars, imps, fuel) {
                Ok(v) => {
                    let k = get_prop_name(key);
                    let mut acc = acc;
                    proof {
                        lemma_inserted_view(acc, k, v);
                    }
                    acc.insert(k, v);
                    read_dir_entries(rest, arg, acc, vars, imps, fuel)
                },
                Err(er) => Err(er),
            },
            ConfigProp::Shorthand { name } => match find_imported_layout(imps, name.as_str()) {
                Some(n) => {
                    let v = n.duplicate();
                    let k = name.clone();
                    let mut acc = acc;
                    proof {
                        lemma_inserted_view(acc, k, v);
                    }
                    acc.insert(k, v);
                    read_dir_entries(rest, arg, acc, vars, imps, fuel)
                },
                None => match find_last(vars, name.as_str()) {
                    Some(ve) => {
                        if fuel > 0 {
                            match eval_layout_node(ve, vars, imps, fuel - 1) {
                                Ok(v) => {
                                    let k = name.clone();
                                    let mut acc = acc;
                                    proof {
                                        lemma_inserted_view(acc, k, v);
                                    }
                                    acc.insert(k, v);
                                    read_dir_entries(rest, arg, acc, vars, imps, fuel)
                                },
                                Err(er) => Err(er),
                            }
                        } else {
                            Err(circular_error(name.as_str()))
                        }
                    },
                    None => Err(unsupported(arg, cat("Unknown shorthand variable: ", name.as_str()))),
                },
            },
            ConfigProp::Other => read_dir_entries(rest, arg, acc, vars, imps, fuel),
        },
    }
}

fn read_dir_options(args: &ExprList) -> (r: Result<(bool, Option<usize>), ParseError>)
    ensures
        agrees(r, dir_options(*args), |x: (bool, Option<usize>)| x),
{
    match args {
        ExprList::Cons(_, rest) => match &**rest {
            ExprList::Cons(second, _) => match &**second {
                ConfigExpr::Object { props, .. } => read_dir_option_props(props, false, None),
                _ => Ok((false, None)),
            },
            ExprList::Nil => Ok((false, None)),
        },
        ExprList::Nil => Ok((false, None)),
    }
}

fn read_dir_option_props(props: &PropList, strict: bool, max_depth: Option<usize>) -> (r: Result<
    (bool, Option<usize>),
    ParseError,
>)
    ensures
        agrees(r, dir_option_props(*props, strict, max_depth), |x: (bool, Option<usize>)| x),
    decreases props,
{
    match props {
        PropList::Nil => Ok((strict, max_depth)),
        PropList::Cons(p, rest) => match &**p {
            ConfigProp::KeyValue { key, value } => {
                let k = get_prop_name(key);
                if same_str(k.as_str(), "strict") {
                    match bool_of(value) {
                        Ok(b) => read_dir_option_props(rest, b, max_depth),
                        Err(er) => Err(er),
                    }
                } else if same_str(k.as_str(), "maxDepth") {
                    match number_of(value) {
                        Ok(n) => read_dir_option_props(rest, strict, Some(n)),
                        Err(er) => Err(er),
                    }
                } else {
                    read_dir_option_props(rest, strict, max_depth)
                }
            },
            _ => read_dir_option_props(rest, strict, max_depth),
        },
    }
}

fn read_file(args: &ExprList) -> (r: Result<LayoutNode, ParseError>)
    ensures
        layout_result(r) == eval_file(*args),
{
    match args {
        ExprList::Cons(first, _) => match string_of(first) {
            Ok(s) => Ok(LayoutNode::File { pattern: Some(s), optional: false, required: false, case: None }),
            Err(_) => match &**first {
                ConfigExpr::Object { props, .. } => match read_file_props(props, None, None) {
                    Ok((pattern, case)) => Ok(LayoutNode::File { pattern, optional: false, required: false, case }),
                    Err(er) => Err(er),
                },
                _ => Ok(LayoutNode::File { pattern: None, optional: false, required: false, case: None }),
            },
        },
        ExprList::Nil => Ok(LayoutNode::File { pattern: None, optional: false, required: false, case: None }),
    }
}

/// The characters of an optional string.
pub open spec fn opt_chars_of(o: Option<String>) -> Option<Seq<char>> {
    match o {
        Some(s) => Some(s@),
        None => None,
    }
}

fn read_file_props(props: &PropList, pattern: Option<String>, case: Option<CaseStyle>) -> (r: Result<
    (Option<String>, Option<CaseStyle>),
    ParseError,
>)
    ensures
        agrees(
            r,
            file_props(*props, opt_chars_of(pattern), case),
            |x: (Option<String>, Option<CaseStyle>)| (opt_chars_of(x.0), x.1),
        ),
    decreases props,
{
    match props {
        PropList::Nil => Ok((pattern, case)),
        PropList::Cons(p, rest) => match &**p {
            ConfigProp::KeyValue { key, value } => {
                let k = get_prop_name(key);
                if same_str(k.as_str(), "pattern") {
                    match string_of(value) {
                        Ok(s) => read_file_props(rest, Some(s), case),
                        Err(er) => Err(er),
                    }
                } else if same_str(k.as_str(), "case") {
                    match case_style_of(value) {
                        Ok(c) => read_file_props(rest, pattern, Some(c)),
                        Err(er) => Err(er),
                    }
                } else {
                    read_file_props(rest, pattern, case)
                }
            },
            _ => read_file_props(rest, pattern, case),
        },
    }
}

fn read_param_props(props: &PropList, case: CaseStyle, name: String) -> (r: Result<(CaseStyle, String), ParseError>)
    ensures
        agrees(r, param_props(*props, case, name@), |x: (CaseStyle, String)| (x.0, x.1@)),
    decreases props,
{
    match props {
        PropList::Nil => Ok((case, name)),
        PropList::Cons(p, rest) => match &**p {
            ConfigProp::KeyValue { key, value } => {
                let k = get_prop_name(key);
                if same_str(k.as_str(), "case") {
                    match case_style_of(value) {
                        Ok(c) => read_param_props(rest, c, name),
                        Err(er) => Err(er),
                    }
                } else if same_str(k.as_str(), "name") {
                    match string_of(value) {
                        Ok(s) => read_param_props(rest, case, s),
                        Err(er) => Err(er),
                    }
                } else {
                    read_param_props(rest, case, name)
                }
            },
            _ => read_param_props(rest, case, name),
        },
    }
}

fn read_param(
    args: &ExprList,
    vars: &Vec<(String, ConfigExpr)>,
    imps: &Vec<(String, LayoutNode)>,
    fuel: usize,
) -> (r: Result<LayoutNode, ParseError>)
    ensures
        layout_result(r) == eval_param(*args, vars@, layout_pairs(imps@), fuel as nat),
    decreases fuel, *args, 1int,
{
    match args {
        ExprList::Cons(first, rest) => match &**rest {
            ExprList::Cons(second, _) => match &**first {
                ConfigExpr::Object { props, .. } => match read_param_props(props, CaseStyle::Any, String::new()) {
                    Ok((case, name)) => {
                        let name = if name.unicode_len() == 0 {
                            match string_of(first) {
                                Ok(s) => s,
                                Err(_) => String::from_str("$param"),
                            }
                        } else {
                            name
                        };
                        match eval_layout_node(second, vars, imps, fuel) {
                            Ok(child) => Ok(LayoutNode::Param { name, case, child: Box::new(child) }),
                            Err(er) => Err(er),
                        }
                    },
                    Err(er) => Err(er),
                },
                _ => Err(unsupported(first, String::from_str("Expected object literal"))),
            },
            ExprList::Nil => Err(
                ParseError::MissingField(String::from_str("param() requires options and child arguments")),
            ),
        },
        ExprList::Nil => Err(ParseError::MissingField(String::from_str("param() requires options and child arguments"))),
    }
}

fn read_many_props(props: &PropList, case: Option<CaseStyle>, max: Option<usize>) -> (r: Result<
    (Option<CaseStyle>, Option<usize>),
    ParseError,
>)
    ensures
        agrees(r, many_props(*props, case, max), |x: (Option<CaseStyle>, Option<usize>)| x),
    decreases props,
{
    match props {
        PropList::Nil => Ok((case, max)),
        PropList::Cons(p, rest) => match &**p {
            ConfigProp::KeyValue { key, value } => {
                let k = get_prop_name(key);
                if same_str(k.as_str(), "case") {
                    match case_style_of(value) {
                        Ok(c) => read_many_props(rest, Some(c), max),
                        Err(er) => Err(er),
                    }
                } else if same_str(k.as_str(), "max") {
                    match number_of(value) {
                        Ok(n) => read_many_props(rest, case, Some(n)),
                        Err(er) => Err(er),
                    }
                } else {
                    read_many_props(rest, case, max)
                }
            },
            _ => read_many_props(rest, case, max),
        },
    }
}

fn read_many(
    args: &ExprList,
    vars: &Vec<(String, ConfigExpr)>,
    imps: &Vec<(String, LayoutNode)>,
    fuel: usize,
) -> (r: Result<LayoutNode, ParseError>)
    ensures
        layout_result(r) == eval_many(*args, vars@, layout_pairs(imps@), fuel as nat),
    decreases fuel, *args, 1int,
{
    match args {
        ExprList::Cons(first, rest) => match &**rest {
            ExprList::Cons(second, _) => match &**first {
                ConfigExpr::Object { props, .. } => match read_many_props(props, None, None) {
                    Ok((case, max)) => match eval_layout_node(second, vars, imps, fuel) {
                        Ok(child) => Ok(LayoutNode::Many { case, child: Box::new(child), max }),
                        Err(er) => Err(er),
                    },
                    Err(er) => Err(er),
                },
                _ => match eval_layout_node(first, vars, imps, fuel) {
                    Ok(child) => Ok(LayoutNode::Many { case: None, child: Box::new(child), max: None }),
                    Err(er) => Err(er),
                },
            },
            ExprList::Nil => match eval_layout_node(first, vars, imps, fuel) {
                Ok(child) => Ok(LayoutNode::Many { case: None, child: Box::new(child), max: None }),
                Err(er) => Err(er),
            },
        },
        ExprList::Nil => Err(ParseError::MissingField(String::from_str("many() requires a child argument"))),
    }
}

fn read_recursive_props(props: &PropList, max_depth: usize) -> (r: Result<usize, ParseError>)
    ensures
        agrees(r, recursive_props(*props, max_depth), |x: usize| x),
    decreases props,
{
    match props {
        PropList::Nil => Ok(max_depth),
        PropList::Cons(p, rest) => match &**p {
            ConfigProp::KeyValue { key, value } => {
                let k = get_prop_name(key);
                if same_str(k.as_str(), "maxDepth") {
                    match number_of(value) {
                        Ok(n) => read_recursive_props(rest, n),
                        Err(er) => Err(er),
                    }
                } else {
                    read_recursive_props(rest, max_depth)
                }
            },
            _ => read_recursive_props(rest, max_depth),
        },
    }
}

fn read_recursive(
    args: &ExprList,
    vars: &Vec<(String, ConfigExpr)>,
    imps: &Vec<(String, LayoutNode)>,
    fuel: usize,
) -> (r: Result<LayoutNode, ParseError>)
    ensures
        layout_result(r) == eval_recursive(*args, vars@, layout_pairs(imps@), fuel as nat),
    decreases fuel, *args, 1int,
{
    match args {
        ExprList::Cons(first, rest) => match &**rest {
            ExprList::Cons(second, _) => match &**first {
                ConfigExpr::Object { props, .. } => match read_recursive_props(props, 10) {
                    Ok(d) => match eval_layout_node(second, vars, imps, fuel) {
                        Ok(child) => Ok(LayoutNode::Recursive { max_depth: d, child: Box::new(child) }),
                        Err(er) => Err(er),
                    },
                    Err(er) => Err(er),
                },
                _ => match eval_layout_node(first, vars, imps, fuel) {
                    Ok(child) => Ok(LayoutNode::Recursive { max_depth: 10, child: Box::new(child) }),
                    Err(er) => Err(er),
                },
            },
            ExprList::Nil => match eval_layout_node(first, vars, imps, fuel) {
                Ok(child) => Ok(LayoutNode::Recursive { max_depth: 10, child: Box::new(child) }),
                Err(er) => Err(er),
            },
        },
        ExprList::Nil => Err(ParseError::MissingField(String::from_str("recursive() requires a child argument"))),
    }
}

fn read_variants(
    args: &ExprList,
    vars: &Vec<(String, ConfigExpr)>,
    imps: &Vec<(String, LayoutNode)>,
    fuel: usize,
) -> (r: Result<NodeList, ParseError>)
    ensures
        agrees(r, eval_variants(*args, vars@, layout_pairs(imps@), fuel as nat), |l: NodeList| variants_view(l)),
    decreases fuel, *args, 0int,
{
    match args {
        ExprList::Nil => Ok(NodeList::Nil),
        ExprList::Cons(first, rest) => match eval_layout_node(first, vars, imps, fuel) {
            Ok(v) => match read_variants(rest, vars, imps, fuel) {
                Ok(vs) => Ok(NodeList::Cons(Box::new(v), Box::new(vs))),
                Err(er) => Err(er),
            },
            Err(er) => Err(er),
        },
    }
}

} // verus!
