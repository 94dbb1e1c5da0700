//! A small dynamic-language toolchain: a lazy compiler that turns an abstract
//! syntax tree into per-node bytecode with lexical scope resolution, and a
//! stack-based virtual machine that interprets that bytecode against a growable
//! heap of storage cells.

pub mod byte_code;
pub mod compiler;
pub mod exit_codes;
pub mod float_ops;
pub mod object;
pub mod runtime;
pub mod symbol_table;
pub mod syntax_node;
pub mod tokenizer;
