//! A small dynamically typed scripting language: a lexer, a single-pass
//! Pratt compiler that emits bytecode, and a stack machine that runs it.
//!
//! Every function in this crate carries a contract over the mathematical
//! view of its arguments, and every contract is machine checked.
pub mod text;
pub mod tokens;
pub mod errors;
pub mod lexical;
pub mod scanner;
pub mod rules;
pub mod number;
pub mod opcode;
pub mod values;
pub mod chunk;
pub mod table;
pub mod stack;
pub mod vm;
pub mod flow;
pub mod parser;
pub mod compiler;
pub mod disassembler;
pub mod session;
pub mod ast;
pub mod ast_visitors;
pub mod laws;
pub mod programs;
