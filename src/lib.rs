//! An emulator for a 16-bit, word-addressed educational machine: register
//! bank, memory with a memory-mapped keyboard, the sixteen operations, the
//! trap routines and a step function for the execution loop.

pub mod machine;
pub mod memory;
pub mod opcodes;
pub mod registers;
pub mod trapcodes;
