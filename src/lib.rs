pub mod text;
pub mod token;
pub mod lexer;
pub mod ast;
pub mod parser;
pub mod assembly;
pub mod codegen_x86;
pub mod dump;
pub mod compiler;
