//! A recursive-descent parser that turns the token stream of a small
//! rule/reaction language into a typed syntax tree, with spans and
//! error contexts.
pub mod span;
pub mod token;
pub mod error;
pub mod ast;
pub mod grammar;
pub mod parser;
pub mod spans;
pub mod truncation;
pub mod infix;
pub mod lists;
