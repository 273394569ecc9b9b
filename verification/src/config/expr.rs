//! The part of a TypeScript module that a configuration is read from:
//! expressions, object properties and top-level items, as plain values.
//! Locations are line and column of the expressions that carry one.

use vstd::prelude::*;

use crate::text::{decimal, decimal_string, str_eq, to_owned_string};

verus! {

/// An expression of the configuration language.
#[derive(Debug)]
pub enum ConfigExpr {
    /// A variable reference.
    Ident { name: String },
    /// A call; `callee` is the called name when it is a plain identifier.
    Call { callee: Option<String>, args: ExprList, line: usize, col: usize },
    /// An object literal.
    Object { props: PropList, line: usize, col: usize },
    /// An array literal; holes are left out.
    Array { elems: ExprList },
    /// A string literal.
    Str { value: String, line: usize, col: usize },
    /// A template literal; `single` is its text when it has no substitution.
    Template { single: Option<String> },
    /// A boolean literal.
    Bool { value: bool, line: usize, col: usize },
    /// A number literal, as the count it stands for.
    Num { value: usize, line: usize, col: usize },
    /// A literal of another kind, located.
    OtherLit { line: usize, col: usize },
    /// Anything else.
    Other,
}

/// A list of expressions.
#[derive(Debug)]
pub enum ExprList {
    Nil,
    Cons(Box<ConfigExpr>, Box<ExprList>),
}

/// The key of an object property.
#[derive(Debug)]
pub enum PropKey {
    Ident(String),
    Str(String),
    /// A computed key; the string when it is a string literal.
    Computed(Option<String>),
    Other,
}

/// One property of an object literal.
#[derive(Debug)]
pub enum ConfigProp {
    KeyValue { key: PropKey, value: ConfigExpr },
    Shorthand { name: String },
    /// Spreads, methods, getters and setters.
    Other,
}

/// The properties of an object literal, in order.
#[derive(Debug)]
pub enum PropList {
    Nil,
    Cons(Box<ConfigProp>, Box<PropList>),
}

impl ExprList {
    /// The expressions in order.
    pub open spec fn to_seq(self) -> Seq<ConfigExpr>
        decreases self,
    {
        match self {
            ExprList::Nil => Seq::empty(),
            ExprList::Cons(e, rest) => seq![*e] + rest.to_seq(),
        }
    }

    /// Builds a list from expressions.
    pub fn from_vec(v: Vec<ConfigExpr>) -> (r: Self)
        ensures
            r.to_seq() == v@,
    {
        let mut v = v;
        let mut r = ExprList::Nil;
        let n = v.len();
        let ghost orig = v@;
        let mut i = n;
        assert(orig.skip(n as int) =~= Seq::<ConfigExpr>::empty());
        while i > 0
            invariant
                i <= n,
                n == orig.len(),
                v@ == orig.take(i as int),
                r.to_seq() == orig.skip(i as int),
            decreases i,
        {
            let e = v.pop().unwrap();
            assert(e == orig[i - 1]);
            r = ExprList::Cons(Box::new(e), Box::new(r));
            assert(orig.skip(i - 1) =~= seq![orig[i - 1]] + orig.skip(i as int));
            assert(v@ =~= orig.take(i - 1));
            i = i - 1;
        }
        assert(orig.skip(0) =~= orig);
        r
    }
}

impl PropList {
    /// Builds a list from properties.
    pub fn from_vec(v: Vec<ConfigProp>) -> (r: Self)
        ensures
            r.to_seq() == v@,
    {
        let mut v = v;
        let mut r = PropList::Nil;
        let n = v.len();
        let ghost orig = v@;
        let mut i = n;
        assert(orig.skip(n as int) =~= Seq::<ConfigProp>::empty());
        while i > 0
            invariant
                i <= n,
                n == orig.len(),
                v@ == orig.take(i as int),
                r.to_seq() == orig.skip(i as int),
            decreases i,
        {
            let p = v.pop().unwrap();
            assert(p == orig[i - 1]);
            r = PropList::Cons(Box::new(p), Box::new(r));
            assert(orig.skip(i - 1) =~= seq![orig[i - 1]] + orig.skip(i as int));
            assert(v@ =~= orig.take(i - 1));
            i = i - 1;
        }
        assert(orig.skip(0) =~= orig);
        r
    }

    /// The properties in order.
    pub open spec fn to_seq(self) -> Seq<ConfigProp>
        decreases self,
    {
        match self {
            PropList::Nil => Seq::empty(),
            PropList::Cons(p, rest) => seq![*p] + rest.to_seq(),
        }
    }
}

/// A top-level item of a module.
#[derive(Debug)]
pub enum SourceItem {
    /// A variable declaration, exported or not: each declared name with its
    /// initial value (declarations without one, or of patterns, are left out).
    VarDecl { exported: bool, decls: Vec<(String, ConfigExpr)> },
    /// `import { imported as local } from "source"`: the named specifiers as
    /// (local, imported) pairs.
    Import { source: String, specifiers: Vec<(String, String)> },
    /// `export { orig as exported }`, from another module when `source` is given:
    /// the named specifiers as (orig, exported) pairs.
    ExportNamed { source: Option<String>, specifiers: Vec<(String, String)> },
    /// `export default <expr>`.
    ExportDefault { expr: ConfigExpr },
    /// Anything else.
    Other,
}

/// A parsed module.
#[derive(Debug)]
pub struct ConfigModule {
    pub items: Vec<SourceItem>,
}

// ---------------------------------------------------------------------------
// Errors
// ---------------------------------------------------------------------------

/// Why a configuration could not be read.
#[derive(Debug)]
pub enum ParseError {
    IoError(String),
    SyntaxError { line: usize, col: usize, message: String },
    UnsupportedExpression { line: usize, col: usize, message: String },
    MissingField(String),
    InvalidValue { field: String, message: String },
}

/// An error, as plain values.
pub enum ParseErrorView {
    Io(Seq<char>),
    Syntax { line: usize, col: usize, message: Seq<char> },
    Unsupported { line: usize, col: usize, message: Seq<char> },
    Missing(Seq<char>),
    Invalid { field: Seq<char>, message: Seq<char> },
}

impl View for ParseError {
    type V = ParseErrorView;

    open spec fn view(&self) -> ParseErrorView {
        match self {
            ParseError::IoError(m) => ParseErrorView::Io(m@),
            ParseError::SyntaxError { line, col, message } => ParseErrorView::Syntax {
                line: *line,
                col: *col,
                message: message@,
            },
            ParseError::UnsupportedExpression { line, col, message } => ParseErrorView::Unsupported {
                line: *line,
                col: *col,
                message: message@,
            },
            ParseError::MissingField(m) => ParseErrorView::Missing(m@),
            ParseError::InvalidValue { field, message } => ParseErrorView::Invalid {
                field: field@,
                message: message@,
            },
        }
    }
}

/// The text of an error.
pub open spec fn error_text(e: ParseErrorView) -> Seq<char> {
    match e {
        ParseErrorView::Io(m) => "Failed to read config file: "@ + m,
        ParseErrorView::Syntax { line, col, message } => "Syntax error at "@ + decimal(line as nat) + ":"@ + decimal(
            col as nat,
        ) + ": "@ + message,
        ParseErrorView::Unsupported { line, col, message } => "Unsupported expression at "@ + decimal(line as nat)
            + ":"@ + decimal(col as nat) + ": "@ + message,
        ParseErrorView::Missing(m) => "Missing required field: "@ + m,
        ParseErrorView::Invalid { field, message } => "Invalid value for "@ + field + ": "@ + message,
    }
}

impl ParseError {
    /// The error as one line of text.
    pub fn to_string(&self) -> (r: String)
        ensures
            r@ == error_text(self@),
    {
        match self {
            ParseError::IoError(m) => {
                let mut r = String::from_str("Failed to read config file: ");
                r.append(m.as_str());
                r
            },
            ParseError::SyntaxError { line, col, message } => {
                let mut r = String::from_str("Syntax error at ");
                r.append(decimal_string(*line).as_str());
                r.append(":");
                r.append(decimal_string(*col).as_str());
                r.append(": ");
                r.append(message.as_str());
                r
            },
            ParseError::UnsupportedExpression { line, col, message } => {
                let mut r = String::from_str("Unsupported expression at ");
                r.append(decimal_string(*line).as_str());
                r.append(":");
                r.append(decimal_string(*col).as_str());
                r.append(": ");
                r.append(message.as_str());
                r
            },
            ParseError::MissingField(m) => {
                let mut r = String::from_str("Missing required field: ");
                r.append(m.as_str());
                r
            },
            ParseError::InvalidValue { field, message } => {
                let mut r = String::from_str("Invalid value for ");
                r.append(field.as_str());
                r.append(": ");
                r.append(message.as_str());
                r
            },
        }
    }
}

// ---------------------------------------------------------------------------
// Reading literals
// ---------------------------------------------------------------------------

/// Where an expression stands; expressions without a location give `(0, 0)`.
pub open spec fn expr_loc(e: ConfigExpr) -> (usize, usize) {
    match e {
        ConfigExpr::Call { line, col, .. } => (line, col),
        ConfigExpr::Object { line, col, .. } => (line, col),
        ConfigExpr::Str { line, col, .. } => (line, col),
        ConfigExpr::Bool { line, col, .. } => (line, col),
        ConfigExpr::Num { line, col, .. } => (line, col),
        ConfigExpr::OtherLit { line, col } => (line, col),
        _ => (0, 0),
    }
}

/// An unsupported-expression error at the expression's location.
pub open spec fn unsupported_at(e: ConfigExpr, message: Seq<char>) -> ParseErrorView {
    ParseErrorView::Unsupported { line: expr_loc(e).0, col: expr_loc(e).1, message }
}

/// The name of a property key.
pub open spec fn prop_name(k: PropKey) -> Seq<char> {
    match k {
        PropKey::Ident(s) => s@,
        PropKey::Str(s) => s@,
        PropKey::Computed(Some(s)) => s@,
        PropKey::Computed(None) => "$computed"@,
        PropKey::Other => "$unknown"@,
    }
}

/// The string an expression holds.
pub open spec fn expect_string(e: ConfigExpr) -> Result<Seq<char>, ParseErrorView> {
    match e {
        ConfigExpr::Str { value, .. } => Ok(value@),
        ConfigExpr::Template { single: Some(s) } => Ok(s@),
        _ => Err(unsupported_at(e, "Expected string literal"@)),
    }
}

/// The boolean an expression holds.
pub open spec fn expect_bool(e: ConfigExpr) -> Result<bool, ParseErrorView> {
    match e {
        ConfigExpr::Bool { value, .. } => Ok(value),
        _ => Err(unsupported_at(e, "Expected boolean literal"@)),
    }
}

/// The count an expression holds.
pub open spec fn expect_number(e: ConfigExpr) -> Result<usize, ParseErrorView> {
    match e {
        ConfigExpr::Num { value, .. } => Ok(value),
        _ => Err(unsupported_at(e, "Expected number literal"@)),
    }
}

/// The error for an expression that is not an object literal.
pub open spec fn not_object(e: ConfigExpr) -> ParseErrorView {
    unsupported_at(e, "Expected object literal"@)
}

/// The error for an expression that is not an array literal.
pub open spec fn not_array(e: ConfigExpr) -> ParseErrorView {
    unsupported_at(e, "Expected array literal"@)
}

/// The location of an expression.
pub fn location_of(e: &ConfigExpr) -> (r: (usize, usize))
    ensures
        r == expr_loc(*e),
{
    match e {
        ConfigExpr::Call { line, col, .. } => (*line, *col),
        ConfigExpr::Object { line, col, .. } => (*line, *col),
        ConfigExpr::Str { line, col, .. } => (*line, *col),
        ConfigExpr::Bool { line, col, .. } => (*line, *col),
        ConfigExpr::Num { line, col, .. } => (*line, *col),
        ConfigExpr::OtherLit { line, col } => (*line, *col),
        _ => (0, 0),
    }
}

/// An unsupported-expression error at the expression's location.
pub fn unsupported(e: &ConfigExpr, message: String) -> (r: ParseError)
    ensures
        r@ == unsupported_at(*e, message@),
{
    let (line, col) = location_of(e);
    ParseError::UnsupportedExpression { line, col, message }
}

/// The name of a property key.
pub fn get_prop_name(k: &PropKey) -> (r: String)
    ensures
        r@ == prop_name(*k),
{
    match k {
        PropKey::Ident(s) => s.clone(),
        PropKey::Str(s) => s.clone(),
        PropKey::Computed(Some(s)) => s.clone(),
        PropKey::Computed(None) => String::from_str("$computed"),
        PropKey::Other => String::from_str("$unknown"),
    }
}

/// The string an expression holds.
pub fn string_of(e: &ConfigExpr) -> (r: Result<String, ParseError>)
    ensures
        match expect_string(*e) {
            Ok(s) => r matches Ok(x) && x@ == s,
            Err(er) => r matches Err(x) && x@ == er,
        },
{
    match e {
        ConfigExpr::Str { value, .. } => Ok(value.clone()),
        ConfigExpr::Template { single: Some(s) } => Ok(s.clone()),
        _ => Err(unsupported(e, String::from_str("Expected string literal"))),
    }
}

/// The boolean an expression holds.
pub fn bool_of(e: &ConfigExpr) -> (r: Result<bool, ParseError>)
    ensures
        match expect_bool(*e) {
            Ok(b) => r == Ok::<bool, ParseError>(b),
            Err(er) => r matches Err(x) && x@ == er,
        },
{
    match e {
        ConfigExpr::Bool { value, .. } => Ok(*value),
        _ => Err(unsupported(e, String::from_str("Expected boolean literal"))),
    }
}

/// The count an expression holds.
pub fn number_of(e: &ConfigExpr) -> (r: Result<usize, ParseError>)
    ensures
        match expect_number(*e) {
            Ok(n) => r == Ok::<usize, ParseError>(n),
            Err(er) => r matches Err(x) && x@ == er,
        },
{
    match e {
        ConfigExpr::Num { value, .. } => Ok(*value),
        _ => Err(unsupported(e, String::from_str("Expected number literal"))),
    }
}

/// `a` followed by `b`.
pub fn cat(a: &str, b: &str) -> (r: String)
    ensures
        r@ == a@ + b@,
{
    let mut r = to_owned_string(a);
    r.append(b);
    r
}

// ---------------------------------------------------------------------------
// Names in scope
// ---------------------------------------------------------------------------

/// The value bound last to `name`.
pub open spec fn lookup_last<V>(s: Seq<(String, V)>, name: Seq<char>) -> Option<V>
    decreases s.len(),
{
    if s.len() == 0 {
        None
    } else if s.last().0@ == name {
        Some(s.last().1)
    } else {
        lookup_last(s.drop_last(), name)
    }
}

/// The value bound last to `name`.
pub fn find_last<'a, V>(s: &'a Vec<(String, V)>, name: &str) -> (r: Option<&'a V>)
    ensures
        match lookup_last(s@, name@) {
            Some(v) => r == Some(&v),
            None => r is None,
        },
{
    let mut i = s.len();
    assert(s@.take(i as int) =~= s@);
    while i > 0
        invariant
            i <= s@.len(),
            lookup_last(s@, name@) == lookup_last(s@.take(i as int), name@),
        decreases i,
    {
        assert(s@.take(i as int).drop_last() =~= s@.take(i - 1));
        assert(s@.take(i as int).last() == s@[i - 1]);
        if str_eq(s[i - 1].0.as_str(), name) {
            return Some(&s[i - 1].1);
        }
        i = i - 1;
    }
    None
}

/// Whether two strings hold the same characters.
pub fn same_str(a: &str, b: &str) -> (r: bool)
    ensures
        r == (a@ == b@),
{
    str_eq(a, b)
}

} // verus!

verus! {

impl PropKey {
    /// A copy of the key.
    pub fn duplicate(&self) -> (r: Self)
        ensures
            r == *self,
    {
        match self {
            PropKey::Ident(s) => PropKey::Ident(s.clone()),
            PropKey::Str(s) => PropKey::Str(s.clone()),
            PropKey::Computed(Some(s)) => PropKey::Computed(Some(s.clone())),
            PropKey::Computed(None) => PropKey::Computed(None),
            PropKey::Other => PropKey::Other,
        }
    }
}

impl ConfigExpr {
    /// A copy of the whole expression.
    pub fn duplicate(&self) -> (r: Self)
        ensures
            r == *self,
        decreases self,
    {
        match self {
            ConfigExpr::Ident { name } => ConfigExpr::Ident { name: name.clone() },
            ConfigExpr::Call { callee, args, line, col } => {
                let callee = match callee {
                    Some(c) => Some(c.clone()),
                    None => None,
                };
                ConfigExpr::Call { callee, args: args.duplicate(), line: *line, col: *col }
            },
            ConfigExpr::Object { props, line, col } => ConfigExpr::Object {
                props: props.duplicate(),
                line: *line,
                col: *col,
            },
            ConfigExpr::Array { elems } => ConfigExpr::Array { elems: elems.duplicate() },
            ConfigExpr::Str { value, line, col } => ConfigExpr::Str { value: value.clone(), line: *line, col: *col },
            ConfigExpr::Template { single } => {
                let single = match single {
                    Some(s) => Some(s.clone()),
                    None => None,
                };
                ConfigExpr::Template { single }
            },
            ConfigExpr::Bool { value, line, col } => ConfigExpr::Bool { value: *value, line: *line, col: *col },
            ConfigExpr::Num { value, line, col } => ConfigExpr::Num { value: *value, line: *line, col: *col },
            ConfigExpr::OtherLit { line, col } => ConfigExpr::OtherLit { line: *line, col: *col },
            ConfigExpr::Other => ConfigExpr::Other,
        }
    }
}

impl ExprList {
    /// A copy of every expression.
    pub fn duplicate(&self) -> (r: Self)
        ensures
            r == *self,
        decreases self,
    {
        match self {
            ExprList::Nil => ExprList::Nil,
            ExprList::Cons(e, rest) => ExprList::Cons(Box::new((**e).duplicate()), Box::new((**rest).duplicate())),
        }
    }
}

impl ConfigProp {
    /// A copy of the property.
    pub fn duplicate(&self) -> (r: Self)
        ensures
            r == *self,
        decreases self,
    {
        match self {
            ConfigProp::KeyValue { key, value } => ConfigProp::KeyValue {
                key: key.duplicate(),
                value: value.duplicate(),
            },
            ConfigProp::Shorthand { name } => ConfigProp::Shorthand { name: name.clone() },
            ConfigProp::Other => ConfigProp::Other,
        }
    }
}

impl PropList {
    /// A copy of every property.
    pub fn duplicate(&self) -> (r: Self)
        ensures
            r == *self,
        decreases self,
    {
        match self {
            PropList::Nil => PropList::Nil,
            PropList::Cons(p, rest) => PropList::Cons(Box::new((**p).duplicate()), Box::new((**rest).duplicate())),
        }
    }
}

} // verus!
