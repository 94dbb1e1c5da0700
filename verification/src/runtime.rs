//! The execution half of the toolchain: the instruction set, the memory model
//! (heap and scoped operand stack) and the virtual machine itself.

pub mod error_codes;
pub mod memory;
pub mod op_code;
pub mod vm;
