//! A CHIP-8 virtual machine core: instruction fetch, decode and execution,
//! together with the 60 Hz timer regulation and instruction pacing, verified
//! against a specification of the instruction set.

pub mod bus;
pub mod chip8;
pub mod cpu;
pub mod display;
pub mod kb;
pub mod ram;
