//! A Pratt (operator-precedence) parser for a small expression-and-statement
//! language: `let` and `return` statements, integer and boolean literals,
//! identifiers, prefix and infix operators, and parenthesised grouping.
//!
//! The parser pulls tokens from an already-tokenized stream, dispatches
//! per-token prefix and infix rules, climbs operator precedence, and collects
//! per-statement failures into an error list instead of aborting. Its whole
//! behaviour is pinned down by a specification-level parser over `Seq<Token>`,
//! and every executable function is proved to return exactly what that
//! specification returns.

pub mod ast;
pub mod laws;
pub mod object;
pub mod parser;
pub mod render;
pub mod text;
pub mod token;
