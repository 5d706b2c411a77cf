//! An assembler-style register machine: values, a first-fit heap arena,
//! a register file with comparison flags, and the interpreter that runs
//! a program of instructions over them.

pub mod lexer;
pub mod text;
pub mod types;
pub mod vm;
