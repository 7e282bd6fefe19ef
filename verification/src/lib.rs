//! A Lox implementation with two pipelines over one lexer: a resolver and
//! tree-walking evaluator, and a single-pass bytecode compiler with a stack
//! virtual machine.
//!
//! The library never performs I/O and holds no floating-point code.  Numbers
//! travel as the bit patterns of IEEE-754 doubles; whatever needs rounding,
//! printing or the clock is handed to the host as an effect.
pub mod ast;
pub mod bytecode;
pub mod env;
pub mod error;
pub mod frame;
pub mod idempotence;
pub mod interp;
pub mod laws;
pub mod number;
pub mod parser;
pub mod resolver;
pub mod scanner;
pub mod scope;
pub mod text;
pub mod token;
