//! A small interpreted language: source text is cut into tokens, parsed into a
//! statement tree, compiled to bytecode for a register machine, and executed.

pub mod instructions;
pub mod types;
pub mod scope;
pub mod ast;
pub mod compiler;
pub mod vm;
pub mod lexer;
pub mod error;
pub mod parser;
pub mod typechecker;
