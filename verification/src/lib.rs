//! A small arithmetic error type and a verified source-budget linter.
pub mod example;
pub mod linter;
