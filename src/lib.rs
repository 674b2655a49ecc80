//! An interpreter for the CHIP-8 instruction set: a bounds-checked memory,
//! a register file, a call stack, two timers, a key pad and a monochrome
//! display, advanced one instruction at a time.
pub mod cpu;
pub mod laws;
pub mod machine;
pub mod memory;
pub mod rom;

pub use memory::{read_from, write_into, Memory, MemoryError};
pub use cpu::Cpu;
pub use machine::{CpuError, FaultKind};
