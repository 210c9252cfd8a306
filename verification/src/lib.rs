//! A stack-based virtual machine over `i32` and `bool` values, with an
//! assembler for its assembly language (SASM) and a binary program format.

pub mod assembler;
pub mod code;
pub mod le;
pub mod vm;
