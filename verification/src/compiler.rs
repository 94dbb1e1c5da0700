//! The compiling half of the toolchain: lexical blocks, compiled nodes, the
//! lazy code generator and its diagnostics.

pub mod code_block;
pub mod code_node;
pub mod error;
pub mod jit;
