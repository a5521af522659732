pub mod ast;
pub mod common;
pub mod text;
pub mod errors;
pub mod diagnostic;
pub mod lexer;
pub mod parser;
pub mod resolver;
pub mod pipeline;
