//! A CHIP-8 interpreter core: memory, registers, call stack, display,
//! timers, instruction decoder and executor, each specified over a
//! mathematical model and verified against it.

pub mod error;
pub mod memory;
pub mod stack;
pub mod display;
pub mod instruction;
pub mod emulator;

pub use display::Display;
pub use emulator::Emulator;
pub use error::Chip8Error;
pub use instruction::{decode, Instruction};
pub use stack::CallStack;
