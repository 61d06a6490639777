//! A compiler for a minimal pointer-and-tape language: eight primitive
//! operations over a fixed-size tape of unsigned cells.
//!
//! The crate lexes source text into tokens, builds an operation tree from the
//! tokens, and translates the tree into a control-flow-graph intermediate
//! representation (basic blocks of typed builder operations, foreign calls,
//! conditional branches). Lowering that representation to machine code and
//! writing an object file is left to a native code backend outside this
//! library.

pub mod ast;
pub mod codegen;
pub mod ir;
pub mod lexer;
pub mod parser;
pub mod options;
