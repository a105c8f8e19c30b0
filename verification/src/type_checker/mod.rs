//! The type checker: scopes, type errors, and the checks of types,
//! expressions and statements.
pub mod expressions;
pub mod laws;
pub mod rules;
pub mod scope;
pub mod statements;
pub mod types;

pub use scope::{expect_type, Scope, TypeError};
