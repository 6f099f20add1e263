pub mod alu;
pub mod computer;
pub mod opcodes;
pub mod parser;
pub mod program;
pub mod text;
pub mod types;
