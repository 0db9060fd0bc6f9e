//! A bytecode compiler and stack-based virtual machine for a small
//! imperative language.
//!
//! The compiler walks a typed abstract syntax tree once and emits a flat
//! instruction sequence with all jump and call targets resolved to concrete
//! offsets; the machine interprets that sequence against an operand stack
//! and per-call local-variable frames.
pub mod ast;
pub mod compile;
pub mod instr;
pub mod laws;
pub mod value;
pub mod vm;

pub use instr::Instruction;
pub use value::Value;
