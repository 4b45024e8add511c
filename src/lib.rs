//! A CHIP-8 virtual machine whose instruction engine is verified against a
//! mathematical model of the machine state.

pub mod chip8;
pub mod disasm;
pub mod instruction;
pub mod io;
pub mod laws;
