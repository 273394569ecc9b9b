//! The configuration: its model, and reading it from a module.

pub mod discovery;
pub mod expr;
pub mod ir;
pub mod layout_eval;
pub mod packages;
pub mod parser;
pub mod resolve;
pub mod syntax;

pub use discovery::{ConfigDiscovery, DiscoveredConfig};
pub use expr::{ConfigExpr, ConfigModule, ConfigProp, ExprList, SourceItem, ParseError, PropKey, PropList};
pub use ir::{
    BoundariesConfig, CaseStyle, ChildMap, ConfigIR, DepsAllowRule, DepsConfig, LayoutNode, MirrorConfig, Mode, NodeList,
    RulesConfig, WhenRequirement,
};
