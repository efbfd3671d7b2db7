//! Front end of an interpreter for a small C-like scripting language:
//! a lexer that turns source bytes into tokens, and a parser that turns
//! the token stream into a syntax tree.

pub mod lexer;
pub mod parser;
pub mod repl;
