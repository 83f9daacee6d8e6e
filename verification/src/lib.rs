//! A compiler from operator parse trees to backend code, with the bookkeeping
//! of the compiled modules.

pub mod parse;
pub mod operator_tree;
pub mod codegen;
pub mod operator_compiler;
