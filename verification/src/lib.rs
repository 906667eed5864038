pub mod lexer;
pub mod parser;
pub mod ir;
pub mod codegen;
