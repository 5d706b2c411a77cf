pub mod lexer;
pub mod operand;
pub mod scan;
pub mod token;
