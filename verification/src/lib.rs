//! Filesystem layout linting: a layout tree, path matching against it,
//! forbidden-path and forbidden-name rules, post-walk validation and the
//! reports built from the violations found.

pub mod paths;
pub mod text;
pub mod numbers;
pub mod config;
pub mod engine;
pub mod cli;
pub mod output;
pub mod cache;
