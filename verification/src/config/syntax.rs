//! Reading a TypeScript module with swc into the plain model of
//! `expr`: the parse and each kind of syntax node are reached through
//! small trusted items, and the walk over the tree is verified.

use vstd::prelude::*;

use crate::config::expr::{ConfigExpr, ConfigModule, ConfigProp, ExprList, ParseError, PropKey, PropList, SourceItem};
use crate::config::ir::ConfigIR;
use crate::config::layout_eval::agrees;
use crate::config::parser::{config_view, extract_config, extract_config_spec, ModuleExports};
use swc_common::Spanned;
use swc_ecma_ast::{
    Callee, Decl, ExportDecl, ExportSpecifier, Expr, ImportDecl, ImportSpecifier, Lit, ModuleDecl, ModuleExportName,
    ModuleItem, NamedExport, Pat, Prop, PropName, PropOrSpread, Stmt,
};

verus! {

#[verifier::external_type_specification]
#[verifier::external_body]
pub struct ExSourceMap(swc_common::SourceMap);

#[verifier::external_type_specification]
#[verifier::external_body]
pub struct ExSpan(swc_common::Span);

#[verifier::external_type_specification]
#[verifier::external_body]
pub struct ExModuleItem(swc_ecma_ast::ModuleItem);

#[verifier::external_type_specification]
#[verifier::external_body]
pub struct ExExpr(swc_ecma_ast::Expr);

#[verifier::external_type_specification]
#[verifier::external_body]
pub struct ExVarDeclarator(swc_ecma_ast::VarDeclarator);

#[verifier::external_type_specification]
#[verifier::external_body]
pub struct ExImportDecl(swc_ecma_ast::ImportDecl);

#[verifier::external_type_specification]
#[verifier::external_body]
pub struct ExNamedExport(swc_ecma_ast::NamedExport);

#[verifier::external_type_specification]
#[verifier::external_body]
pub struct ExCallExpr(swc_ecma_ast::CallExpr);

#[verifier::external_type_specification]
#[verifier::external_body]
pub struct ExLit(swc_ecma_ast::Lit);

#[verifier::external_type_specification]
#[verifier::external_body]
pub struct ExTpl(swc_ecma_ast::Tpl);

#[verifier::external_type_specification]
#[verifier::external_body]
pub struct ExPropOrSpread(swc_ecma_ast::PropOrSpread);

#[verifier::external_type_specification]
#[verifier::external_body]
pub struct ExPropName(swc_ecma_ast::PropName);

/// The top-level items a configuration reads, with their parts.
enum ItemShape<'a> {
    /// A `var`, `let` or `const` statement, exported or not.
    Var { exported: bool, decls: Vec<&'a swc_ecma_ast::VarDeclarator> },
    /// An import declaration.
    Import(&'a ImportDecl),
    /// `export { .. }`, from another module when a source is named.
    ExportNamed(&'a NamedExport),
    /// `export default <expr>`.
    ExportDefault(&'a Expr),
    Other,
}

/// The expressions a configuration reads, with their parts.
enum ExprShape<'a> {
    Ident(String),
    Call(&'a swc_ecma_ast::CallExpr),
    /// An object literal: its properties and where it stands.
    Object(Vec<&'a PropOrSpread>, swc_common::Span),
    /// An array literal: its elements, none for a hole.
    Array(Vec<Option<&'a Expr>>),
    Lit(&'a Lit),
    Tpl(&'a swc_ecma_ast::Tpl),
    Other,
}

/// The literals a configuration reads, each with where it stands.
enum LitShape {
    Str(String, swc_common::Span),
    Bool(bool, swc_common::Span),
    /// A number, as the count it stands for.
    Num(usize, swc_common::Span),
    Other,
}

/// The properties of an object literal that a configuration reads.
enum PropShape<'a> {
    KeyValue(&'a PropName, &'a Expr),
    Shorthand(String),
    Other,
}

/// The keys of a property.
enum KeyShape<'a> {
    Ident(String),
    Str(String),
    Computed(&'a Expr),
    Other,
}

/// An empty `swc_common::SourceMap` (`SourceMap::default`).
#[verifier::external_body]
fn new_source_map() -> swc_common::SourceMap {
    swc_common::SourceMap::default()
}

/// What swc's TypeScript parser makes of a text: the number of top-level
/// items of the module it reads, or the message of the error it reports.
pub uninterp spec fn ts_parse(content: Seq<char>) -> Result<nat, Seq<char>>;

/// `swc_ecma_parser::Parser::parse_module` on `content`, read as TypeScript
/// (ES2022, no JSX, no decorators, early errors not reported) after it is
/// added to `map` as the file `filename`: the module's top-level items (its
/// `body` field), or the error's message and the span it points at. Whether
/// it succeeds, how many items there are and the message depend on the text
/// alone. Nothing is stated of the items themselves, which are opaque here,
/// nor of the span.
#[verifier::external_body]
fn parse_typescript(map: &swc_common::SourceMap, content: &str, filename: &str) -> (r: Result<
    Vec<ModuleItem>,
    (String, swc_common::Span),
>)
    ensures
        match ts_parse(content@) {
            Ok(n) => r matches Ok(items) && items@.len() == n,
            Err(m) => r matches Err(e) && e.0@ == m,
        },
{
    let file = map.new_source_file(swc_common::sync::Lrc::new(swc_common::FileName::Custom(filename.to_string())), content.to_string());
    let syntax = swc_ecma_parser::Syntax::Typescript(swc_ecma_parser::TsSyntax { no_early_errors: true, ..Default::default() });
    let lexer = swc_ecma_parser::lexer::Lexer::new(syntax, swc_ecma_ast::EsVersion::Es2022, swc_ecma_parser::StringInput::from(&*file), None);
    let parsed = swc_ecma_parser::Parser::new_from(lexer).parse_module();
    parsed.map(|m| m.body).map_err(|e| (e.kind().msg().to_string(), e.span()))
}

/// `swc_common::SourceMap::try_lookup_char_pos` at the start of `span`: the
/// line (from 1) and the displayed column (from 0), or none where no file of
/// `map` holds the position (as for the empty span).
#[verifier::external_body]
fn char_position(map: &swc_common::SourceMap, span: swc_common::Span) -> Option<(usize, usize)> {
    map.try_lookup_char_pos(span.lo).ok().map(|l| (l.line, l.col_display))
}

/// Tells the kinds of `swc_ecma_ast::ModuleItem` apart: variable statements
/// (exported or not), imports, named exports and default-exported
/// expressions, each with its fields; anything else is `Other`.
#[verifier::external_body]
fn item_shape(i: &ModuleItem) -> ItemShape<'_> {
    match i {
        ModuleItem::Stmt(Stmt::Decl(Decl::Var(v))) => ItemShape::Var { exported: false, decls: v.decls.iter().collect() },
        ModuleItem::ModuleDecl(ModuleDecl::ExportDecl(ExportDecl { decl: Decl::Var(v), .. })) => ItemShape::Var {
            exported: true,
            decls: v.decls.iter().collect(),
        },
        ModuleItem::ModuleDecl(ModuleDecl::Import(d)) => ItemShape::Import(d),
        ModuleItem::ModuleDecl(ModuleDecl::ExportNamed(n)) => ItemShape::ExportNamed(n),
        ModuleItem::ModuleDecl(ModuleDecl::ExportDefaultExpr(d)) => ItemShape::ExportDefault(&d.expr),
        _ => ItemShape::Other,
    }
}

/// The parts of a `swc_ecma_ast::ImportDecl`: the module it names (the
/// string's value, `Wtf8Atom::to_atom_lossy`) and, for each specifier in
/// order, a named one's local name and the imported name where one is
/// written (an identifier's name or a string's value); none for default and
/// namespace specifiers.
#[verifier::external_body]
fn import_parts(d: &ImportDecl) -> (String, Vec<Option<(String, Option<String>)>>) {
    let text = |m: &ModuleExportName| match m {
        ModuleExportName::Ident(i) => i.sym.to_string(),
        ModuleExportName::Str(s) => s.value.to_atom_lossy().to_string(),
    };
    let names = d.specifiers.iter().map(|s| match s {
        ImportSpecifier::Named(n) => Some((n.local.sym.to_string(), n.imported.as_ref().map(text))),
        _ => None,
    });
    (d.src.value.to_atom_lossy().to_string(), names.collect())
}

/// The parts of a `swc_ecma_ast::NamedExport`: the module it names, where it
/// names one, and, for each specifier in order, a named one's original name
/// and the exported name where one is written; none for other specifiers.
#[verifier::external_body]
fn named_export_parts(n: &NamedExport) -> (Option<String>, Vec<Option<(String, Option<String>)>>) {
    let text = |m: &ModuleExportName| match m {
        ModuleExportName::Ident(i) => i.sym.to_string(),
        ModuleExportName::Str(s) => s.value.to_atom_lossy().to_string(),
    };
    let names = n.specifiers.iter().map(|s| match s {
        ExportSpecifier::Named(x) => Some((text(&x.orig), x.exported.as_ref().map(text))),
        _ => None,
    });
    (n.src.as_ref().map(|s| s.value.to_atom_lossy().to_string()), names.collect())
}

/// The name a `swc_ecma_ast::VarDeclarator` binds where its pattern is a
/// plain identifier, and its initial value where it has one.
#[verifier::external_body]
fn declarator_parts(d: &swc_ecma_ast::VarDeclarator) -> (Option<String>, Option<&Expr>) {
    let name = match &d.name {
        Pat::Ident(b) => Some(b.id.sym.to_string()),
        _ => None,
    };
    (name, d.init.as_deref())
}

/// Tells the kinds of `swc_ecma_ast::Expr` that a configuration reads
/// apart, with their fields; anything else is `Other`.
#[verifier::external_body]
fn expr_shape(e: &Expr) -> ExprShape<'_> {
    match e {
        Expr::Ident(i) => ExprShape::Ident(i.sym.to_string()),
        Expr::Call(c) => ExprShape::Call(c),
        Expr::Object(o) => ExprShape::Object(o.props.iter().collect(), o.span),
        Expr::Array(a) => ExprShape::Array(a.elems.iter().map(|x| x.as_ref().map(|x| &*x.expr)).collect()),
        Expr::Lit(l) => ExprShape::Lit(l),
        Expr::Tpl(t) => ExprShape::Tpl(t),
        _ => ExprShape::Other,
    }
}

/// Tells string, boolean and number `swc_ecma_ast::Lit`s apart, each with
/// its value and span; a number is converted with `as usize`, which
/// saturates and reads a fraction, NaN or a negative number as its integer
/// part, 0 or 0.
#[verifier::external_body]
fn lit_shape(l: &Lit) -> LitShape {
    match l {
        Lit::Str(s) => LitShape::Str(s.value.to_atom_lossy().to_string(), s.span),
        Lit::Bool(b) => LitShape::Bool(b.value, b.span),
        Lit::Num(n) => LitShape::Num(n.value as usize, n.span),
        _ => LitShape::Other,
    }
}

/// The parts of a `swc_ecma_ast::CallExpr`: the called expression (none for
/// `super` and `import`), the argument expressions, and its span.
#[verifier::external_body]
fn call_parts(c: &swc_ecma_ast::CallExpr) -> (Option<&Expr>, Vec<&Expr>, swc_common::Span) {
    let callee = match &c.callee {
        Callee::Expr(e) => Some(&**e),
        _ => None,
    };
    (callee, c.args.iter().map(|a| &*a.expr).collect(), c.span)
}

/// The parts of a `swc_ecma_ast::Tpl`: how many substitutions it has, and
/// the raw text of its pieces.
#[verifier::external_body]
fn tpl_parts(t: &swc_ecma_ast::Tpl) -> (usize, Vec<String>) {
    (t.exprs.len(), t.quasis.iter().map(|q| q.raw.to_string()).collect())
}

/// Tells key-value and shorthand properties (`swc_ecma_ast::Prop`) apart,
/// with their fields; spreads and other properties are `Other`.
#[verifier::external_body]
fn prop_shape(p: &PropOrSpread) -> PropShape<'_> {
    match p {
        PropOrSpread::Prop(b) => match &**b {
            Prop::KeyValue(kv) => PropShape::KeyValue(&kv.key, &kv.value),
            Prop::Shorthand(i) => PropShape::Shorthand(i.sym.to_string()),
            _ => PropShape::Other,
        },
        PropOrSpread::Spread(_) => PropShape::Other,
    }
}

/// Tells the kinds of `swc_ecma_ast::PropName` apart: an identifier's name,
/// a string's value, a computed key's expression; others are `Other`.
#[verifier::external_body]
fn key_shape(k: &PropName) -> KeyShape<'_> {
    match k {
        PropName::Ident(i) => KeyShape::Ident(i.sym.to_string()),
        PropName::Str(s) => KeyShape::Str(s.value.to_atom_lossy().to_string()),
        PropName::Computed(c) => KeyShape::Computed(&c.expr),
        _ => KeyShape::Other,
    }
}

/// Where a span starts, as line and column; 0, 0 where the map holds no
/// file at that position.
fn location(map: &swc_common::SourceMap, span: swc_common::Span) -> (usize, usize) {
    match char_position(map, span) {
        Some(p) => p,
        None => (0, 0),
    }
}

/// A literal as the model holds it: a string, boolean or number with where
/// it stands, any other literal at 0, 0.
fn convert_lit(map: &swc_common::SourceMap, l: &Lit) -> (r: ConfigExpr)
    ensures
        r is Str || r is Bool || r is Num || r == (ConfigExpr::OtherLit { line: 0, col: 0 }),
{
    match lit_shape(l) {
        LitShape::Str(value, span) => {
            let (line, col) = location(map, span);
            ConfigExpr::Str { value, line, col }
        },
        LitShape::Bool(value, span) => {
            let (line, col) = location(map, span);
            ConfigExpr::Bool { value, line, col }
        },
        LitShape::Num(value, span) => {
            let (line, col) = location(map, span);
            ConfigExpr::Num { value, line, col }
        },
        LitShape::Other => ConfigExpr::OtherLit { line: 0, col: 0 },
    }
}

/// The name a call's callee is, where it is a plain identifier; none for
/// a call without a callee expression (`super(..)`, `import(..)`).
fn callee_name(callee: Option<&Expr>) -> (r: Option<String>)
    ensures
        callee is None ==> r is None,
{
    match callee {
        Some(e) => match expr_shape(e) {
            ExprShape::Ident(name) => Some(name),
            _ => None,
        },
        None => None,
    }
}

/// The key of a property as the model holds it; a computed key keeps its
/// text where it is a string literal.
fn convert_key(k: &PropName) -> PropKey {
    match key_shape(k) {
        KeyShape::Ident(name) => PropKey::Ident(name),
        KeyShape::Str(value) => PropKey::Str(value),
        KeyShape::Computed(e) => match expr_shape(e) {
            ExprShape::Lit(l) => match lit_shape(l) {
                LitShape::Str(value, _) => PropKey::Computed(Some(value)),
                _ => PropKey::Computed(None),
            },
            _ => PropKey::Computed(None),
        },
        KeyShape::Other => PropKey::Other,
    }
}

/// The text of a template literal without substitutions and of one piece.
fn single_text(pieces: Vec<String>, substitutions: usize) -> (r: Option<String>)
    ensures
        r == (if substitutions == 0 && pieces@.len() == 1 {
            Some(pieces@[0])
        } else {
            None::<String>
        }),
{
    if substitutions == 0 && pieces.len() == 1 {
        let mut pieces = pieces;
        pieces.pop()
    } else {
        None
    }
}

/// An expression as the model holds it. Each level of nesting takes one
/// unit of `fuel`; a tree deeper than its text is long cannot be written,
/// so fuel of the text's length never runs out.
fn convert_expr(map: &swc_common::SourceMap, e: &Expr, fuel: usize) -> ConfigExpr
    decreases fuel, 0int,
{
    if fuel == 0 {
        return ConfigExpr::Other;
    }
    let inner = fuel - 1;
    match expr_shape(e) {
        ExprShape::Ident(name) => ConfigExpr::Ident { name },
        ExprShape::Call(c) => {
            let (callee, args, span) = call_parts(c);
            let mut out: Vec<ConfigExpr> = Vec::new();
            for i in 0..args.len()
                invariant
                    inner < fuel,
            {
                out.push(convert_expr(map, args[i], inner));
            }
            let (line, col) = location(map, span);
            ConfigExpr::Call { callee: callee_name(callee), args: ExprList::from_vec(out), line, col }
        },
        ExprShape::Object(props, span) => {
            let mut out: Vec<ConfigProp> = Vec::new();
            for i in 0..props.len()
                invariant
                    inner < fuel,
            {
                out.push(convert_prop(map, props[i], inner));
            }
            let (line, col) = location(map, span);
            ConfigExpr::Object { props: PropList::from_vec(out), line, col }
        },
        ExprShape::Array(elems) => {
            let mut out: Vec<ConfigExpr> = Vec::new();
            for i in 0..elems.len()
                invariant
                    inner < fuel,
            {
                match elems[i] {
                    Some(x) => out.push(convert_expr(map, x, inner)),
                    None => {},
                }
            }
            ConfigExpr::Array { elems: ExprList::from_vec(out) }
        },
        ExprShape::Lit(l) => convert_lit(map, l),
        ExprShape::Tpl(t) => {
            let (substitutions, pieces) = tpl_parts(t);
            ConfigExpr::Template { single: single_text(pieces, substitutions) }
        },
        ExprShape::Other => ConfigExpr::Other,
    }
}

/// A property of an object literal as the model holds it.
fn convert_prop(map: &swc_common::SourceMap, p: &PropOrSpread, fuel: usize) -> ConfigProp
    decreases fuel, 1int,
{
    match prop_shape(p) {
        PropShape::KeyValue(k, v) => ConfigProp::KeyValue { key: convert_key(k), value: convert_expr(map, v, fuel) },
        PropShape::Shorthand(name) => ConfigProp::Shorthand { name },
        PropShape::Other => ConfigProp::Other,
    }
}

/// The bindings of a variable statement: each identifier with its initial
/// value; declarators of patterns or without a value are left out.
fn var_bindings(map: &swc_common::SourceMap, decls: &Vec<&swc_ecma_ast::VarDeclarator>, fuel: usize) -> Vec<
    (String, ConfigExpr),
> {
    let mut out: Vec<(String, ConfigExpr)> = Vec::new();
    for i in 0..decls.len() {
        match declarator_parts(decls[i]) {
            (Some(name), Some(init)) => out.push((name, convert_expr(map, init, fuel))),
            _ => {},
        }
    }
    out
}

/// Named specifiers as plain values: each a first name and, where one is
/// written, a second; none for a specifier that is not named.
pub open spec fn specs_view(v: Seq<Option<(String, Option<String>)>>) -> Seq<Option<(Seq<char>, Option<Seq<char>>)>> {
    v.map_values(
        |o: Option<(String, Option<String>)>|
            match o {
                Some((a, b)) => Some(
                    (
                        a@,
                        match b {
                            Some(x) => Some(x@),
                            None => None,
                        },
                    ),
                ),
                None => None,
            },
    )
}

/// The pairs the named specifiers make, in order: the first name with the
/// second, or with itself where no second is written; a specifier that is
/// not named makes none. For an import the pair is (local, imported); for an
/// export, (original, exported).
pub open spec fn named_pairs(specs: Seq<Option<(Seq<char>, Option<Seq<char>>)>>) -> Seq<(Seq<char>, Seq<char>)>
    decreases specs.len(),
{
    if specs.len() == 0 {
        Seq::empty()
    } else {
        let before = named_pairs(specs.drop_last());
        match specs.last() {
            Some((a, b)) => before.push(
                (
                    a,
                    match b {
                        Some(x) => x,
                        None => a,
                    },
                ),
            ),
            None => before,
        }
    }
}

/// The pairs the named specifiers make.
fn pairs_of(specs: &Vec<Option<(String, Option<String>)>>) -> (r: Vec<(String, String)>)
    ensures
        r@.map_values(|p: (String, String)| (p.0@, p.1@)) == named_pairs(specs_view(specs@)),
{
    let ghost sv = specs_view(specs@);
    let mut out: Vec<(String, String)> = Vec::new();
    let n = specs.len();
    assert(sv.take(0) =~= Seq::<Option<(Seq<char>, Option<Seq<char>>)>>::empty());
    assert(out@.map_values(|p: (String, String)| (p.0@, p.1@)) =~= Seq::<(Seq<char>, Seq<char>)>::empty());
    for i in 0..n
        invariant
            n == specs@.len(),
            sv == specs_view(specs@),
            out@.map_values(|p: (String, String)| (p.0@, p.1@)) == named_pairs(sv.take(i as int)),
    {
        let ghost before = out@.map_values(|p: (String, String)| (p.0@, p.1@));
        assert(sv.take(i + 1).drop_last() =~= sv.take(i as int));
        assert(sv.take(i + 1).last() == sv[i as int]);
        match &specs[i] {
            Some((a, b)) => {
                let second = match b {
                    Some(x) => x.clone(),
                    None => a.clone(),
                };
                let ghost first_v = a@;
                let ghost second_v = second@;
                assert(sv[i as int] == Some(
                    (
                        first_v,
                        match b {
                            Some(x) => Some(x@),
                            None => None::<Seq<char>>,
                        },
                    ),
                ));
                out.push((a.clone(), second));
                assert(out@.map_values(|p: (String, String)| (p.0@, p.1@)) =~= before.push((first_v, second_v)));
            },
            None => {},
        }
    }
    assert(sv.take(n as int) =~= sv);
    out
}

/// Reads TypeScript `content` (the file `filename`) into the module model:
/// one item for each top-level item swc reads. It succeeds exactly where swc
/// reads the text as a module; otherwise the error is a syntax error with
/// swc's message, located by line and column where `locate` is set, and at
/// 0, 0 otherwise.
pub fn read_module(content: &str, filename: &str, locate: bool) -> (r: Result<ConfigModule, ParseError>)
    ensures
        match ts_parse(content@) {
            Ok(n) => r matches Ok(m) && m.items@.len() == n,
            Err(msg) => r matches Err(ParseError::SyntaxError { line, col, message }) && message@ == msg && (!locate
                ==> line == 0 && col == 0),
        },
{
    let map = new_source_map();
    let body = match parse_typescript(&map, content, filename) {
        Ok(b) => b,
        Err((message, span)) => {
            let (line, col) = if locate {
                location(&map, span)
            } else {
                (0, 0)
            };
            return Err(ParseError::SyntaxError { line, col, message });
        },
    };
    let len = content.unicode_len();
    let fuel: usize = if len < usize::MAX {
        len + 1
    } else {
        len
    };
    let mut items: Vec<SourceItem> = Vec::new();
    for k in 0..body.len()
        invariant
            items@.len() == k,
    {
        let item = match item_shape(&body[k]) {
            ItemShape::Var { exported, decls } => SourceItem::VarDecl { exported, decls: var_bindings(&map, &decls, fuel) },
            ItemShape::Import(d) => {
                let (source, specifiers) = import_parts(d);
                SourceItem::Import { source, specifiers: pairs_of(&specifiers) }
            },
            ItemShape::ExportNamed(n) => {
                let (source, specifiers) = named_export_parts(n);
                SourceItem::ExportNamed { source, specifiers: pairs_of(&specifiers) }
            },
            ItemShape::ExportDefault(e) => SourceItem::ExportDefault { expr: convert_expr(&map, e, fuel) },
            ItemShape::Other => SourceItem::Other,
        };
        items.push(item);
    }
    Ok(ConfigModule { items })
}

/// The module an item reads exports from: an import's source, and in a
/// module other than the configuration itself a re-export's source.
pub open spec fn import_source(item: SourceItem, config_module: bool) -> Option<Seq<char>> {
    match item {
        SourceItem::Import { source, .. } => Some(source@),
        SourceItem::ExportNamed { source: Some(s), .. } => if config_module {
            None
        } else {
            Some(s@)
        },
        _ => None,
    }
}

/// The module each item of `module` reads exports from, by position.
pub fn import_sources(module: &ConfigModule, config_module: bool) -> (r: Vec<Option<String>>)
    ensures
        r@.len() == module.items@.len(),
        forall|i: int|
            0 <= i < r@.len() ==> (match #[trigger] r@[i] {
                Some(s) => import_source(module.items@[i], config_module) == Some(s@),
                None => import_source(module.items@[i], config_module) is None,
            }),
{
    let n = module.items.len();
    let mut out: Vec<Option<String>> = Vec::new();
    for i in 0..n
        invariant
            n == module.items@.len(),
            out@.len() == i,
            forall|j: int|
                0 <= j < i ==> (match #[trigger] out@[j] {
                    Some(s) => import_source(module.items@[j], config_module) == Some(s@),
                    None => import_source(module.items@[j], config_module) is None,
                }),
    {
        let source = match &module.items[i] {
            SourceItem::Import { source, .. } => Some(source.clone()),
            SourceItem::ExportNamed { source: Some(s), .. } => if config_module {
                None
            } else {
                Some(s.clone())
            },
            _ => None,
        };
        out.push(source);
    }
    out
}

/// No module's exports for any of `n` items: nothing imported resolves.
pub open spec fn nothing_imported(n: nat) -> Seq<Option<ModuleExports>> {
    Seq::new(n, |i: int| None::<ModuleExports>)
}

/// Reads a configuration from its TypeScript text alone, with none of its
/// imports resolved: a syntax error with swc's message exactly where swc
/// does not read the text, else what `extract_config` gives for a module of
/// as many items as swc reads, with nothing imported.
pub fn parse_config_text(content: &str, filename: &str) -> (r: Result<ConfigIR, ParseError>)
    ensures
        match ts_parse(content@) {
            Ok(n) => exists|items: Seq<SourceItem>|
                items.len() == n && agrees(
                    r,
                    extract_config_spec(items, nothing_imported(items.len())),
                    |c: ConfigIR| config_view(c),
                ),
            Err(msg) => r matches Err(ParseError::SyntaxError { message, .. }) && message@ == msg,
        },
{
    let module = match read_module(content, filename, true) {
        Ok(m) => m,
        Err(e) => {
            return Err(e);
        },
    };
    let n = module.items.len();
    let mut deps: Vec<Option<ModuleExports>> = Vec::new();
    for i in 0..n
        invariant
            deps@ == nothing_imported(i as nat),
    {
        deps.push(None);
        assert(deps@ =~= nothing_imported((i + 1) as nat));
    }
    let r = extract_config(&module, &deps);
    assert(agrees(r, extract_config_spec(module.items@, nothing_imported(module.items@.len())), |c: ConfigIR| config_view(c)));
    r
}

} // verus!
