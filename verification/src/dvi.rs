//! The DVI page-description format.

pub mod opcodes;
pub mod grammar;
pub mod disassembler;
pub mod laws;
