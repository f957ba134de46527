//! Bolt: a small educational scripting language with a C-like surface syntax.
//!
//! The pipeline is strictly one-way: source text is scanned into tokens
//! (`lexer`), tokens are parsed into an abstract syntax tree (`parser`), and
//! the tree is either interpreted (`evaluator`) or lowered to a textual
//! LLVM-style module (`compiler`).  Every stage carries a mathematical
//! specification, and the executable code is proved to match it.

pub mod ast;
pub mod chars;
pub mod environment;
pub mod error;
pub mod evaluator;
pub mod lexer;
pub mod model;
pub mod object;
pub mod parser;
pub mod shared;
pub mod types;
pub mod token;
