//! The parser: tokens to types, expressions and statements.
pub mod ast;
pub mod expressions;
pub mod grammar;
pub mod helpers;
pub mod laws;
pub mod statements;
pub mod types;
