pub mod assembler;
pub mod encoding;
pub mod interpreter;
pub mod opcode;
pub mod parser;
pub mod text;
