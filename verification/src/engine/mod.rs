//! Matching paths against the layout and the rules.

pub mod layout_trie;
pub mod matcher;
pub mod post_validator;
pub mod rules;
pub mod walker;

pub use layout_trie::{ExpectedChild, LayoutMatcher, MatchAttempt, MatchResult};
pub use matcher::{ExpectedChildInfo, FileMatcher, PathExplanation, Severity, Violation};
pub use post_validator::{PendingCheck, PostValidator};
pub use rules::{CompiledRules, RuleViolation};
pub use walker::{FileEntry, Walker};
