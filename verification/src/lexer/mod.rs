//! The lexer: source text to tokens.
pub mod identifier;
pub mod laws;
pub mod lexer;
pub mod literal;
pub mod raw_lexer;
pub mod token;
