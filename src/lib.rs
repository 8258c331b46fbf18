//! A small interpreter for a parenthesised prefix language over 32-bit integers.
pub mod token;
pub mod parser;
pub mod lexer;
pub mod env;
pub mod semantics;
pub mod eval;
pub mod laws;
