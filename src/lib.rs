//! An interpreter core for a small 16-bit instruction set: a decoder for
//! instruction words, and a processor that fetches, decodes and executes them
//! against its registers, memory, call stack, timers and display buffer.

pub mod opcode;
pub mod cpu;
pub mod laws;

pub use cpu::{Chip8, Fault, Halt, LoadError, Outcome, Render};
pub use opcode::Opcode;
