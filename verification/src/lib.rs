//! A compiler for rPython, a statically typed language with Python-shaped
//! syntax: token model, parser, AST, HIR, MIR, MIR interpreter, borrow check
//! and C code generation.

pub mod ids;
pub mod span;
pub mod text;
pub mod errors;
pub mod ast;
pub mod syntax;
pub mod parse;
pub mod types;
pub mod mir;
pub mod borrowck;
pub mod hir;
pub mod mir_build;
pub mod hir_build;
pub mod resolve;
pub mod codegen;
pub mod driver;
pub mod cli;
