//! The bytecode pipeline: NaN-boxed values, chunks, the single-pass compiler
//! and the stack machine.
pub mod chunk;
pub mod compiler;
pub mod laws;
pub mod object;
pub mod opcode;
pub mod parser;
pub mod slots;
pub mod value;
pub mod vm;
