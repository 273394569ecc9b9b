//! The commands: what they compute, apart from reading and writing.

pub mod check;
pub mod inspect;
pub mod scaffold;

pub use check::WorkspaceResult;
pub use inspect::{InspectArgs, InspectCommand, InspectType, RuleInfo};
pub use scaffold::{ScaffoldAction, ScaffoldArgs, ScaffoldCommand, ScaffoldPlan, ScaffoldType};
