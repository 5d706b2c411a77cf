pub mod builder;
pub mod builtin;
pub mod cast;
pub mod convert;
pub mod dispatch;
pub mod equality;
pub mod error;
pub mod fault;
pub mod field;
pub mod heap;
pub mod instruction;
pub mod laws;
pub mod opcode;
pub mod program;
pub mod register;
pub mod semantics;
pub mod stack;
pub mod vm;
