//! A small interpreted scripting language: a tokenizer, a recursive-descent
//! parser, and a tree-walking evaluator with a registry of native functions
//! addressable by dotted names.

pub mod ast;
pub mod floatbits;
pub mod grimoire;
pub mod interpreter;
pub mod laws;
pub mod lexer;
pub mod parser;
pub mod repl;
pub mod semantics;
pub mod serialize;
pub mod strutil;
pub mod token;
pub mod value;
