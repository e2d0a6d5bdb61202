//! A verified CHIP-8 virtual machine core.
//!
//! The `Interpreter` owns all machine state (registers, memory, call stack,
//! timers, keypad, framebuffer) and advances it one instruction at a time.
//! Every state transition is specified against a mathematical view of the
//! machine (`VmView`) and proved to follow the instruction-set semantics.

mod error;
pub mod font;
pub mod laws;
mod machine;
mod rng;
pub mod state;

pub use error::Chip8Error;
pub use font::fontset;
pub use machine::Interpreter;
