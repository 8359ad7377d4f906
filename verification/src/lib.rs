//! A small Java compiler: lexing, parsing, lowering to a typed intermediate
//! representation, and JVM bytecode generation.
pub mod text;
pub mod ty;
pub mod check;
pub mod sig;
pub mod opcodes;
pub mod hir;
pub mod ops;
pub mod platform;
pub mod catalog;
pub mod calls;
pub mod resolver;
pub mod java_lang;
pub mod system;
pub mod javax;
pub mod error;
pub mod diagnostics;
pub mod syntax;
pub mod lexer;
pub mod green;
pub mod parser;
pub mod codegen;
pub mod numeric;
pub mod classfile;
pub mod compiler;
pub mod lowering;
pub mod expr_lowering;
pub mod tree_lowering;
