//! Front end and WebAssembly back end of a small, statically typed, C-like
//! language.
//!
//! * [`lexer`] turns source text into tokens,
//! * [`parser`] turns tokens into types, expressions and statements,
//! * [`type_checker`] resolves named types and infers the type of every
//!   expression and block,
//! * [`wasm`] serialises an in-memory WebAssembly module to its binary form.
//!
//! Every executable function carries a contract over a mathematical model of
//! its arguments: sequences of characters, sequences of tokens, and the views
//! of the syntax tree.
pub mod text;
pub mod lexer;
pub mod parser;
pub mod type_checker;
pub mod wasm;
