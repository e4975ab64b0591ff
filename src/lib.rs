//! A CHIP-8 virtual machine core: opcode decoding, instruction execution,
//! program and font loading, timers and keypad state, all verified.

pub mod instructions;
pub mod input;
pub mod model;
pub mod chip8;
pub mod laws;
