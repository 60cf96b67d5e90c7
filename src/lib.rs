//! An interpreter core for a small 8-bit virtual machine: a pure decoder from
//! two fetched bytes to an instruction, and a machine state that executes one
//! instruction at a time under a contract that fixes every effect.

pub mod instr;
pub mod keys;
pub mod laws;
pub mod machine;
