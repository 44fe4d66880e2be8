//! Source-budget linter: line budgets, module header length and function size.
pub mod text;
pub mod meta;
pub mod scan;
pub mod rules;
pub mod violation;
pub mod report;
pub mod tree;
pub mod syntax;
pub mod laws;
pub mod scope_laws;

pub use syntax::check_source;
