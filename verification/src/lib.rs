//! A CHIP-8 virtual machine with verified instruction semantics.
//!
//! The machine state (memory, registers, stack, timers, framebuffer and
//! keypad snapshot) lives in [`state::Chip8`]; every instruction of the
//! CHIP-8 set is an exec method whose contract ties it to a mathematical
//! transition function over the abstract state [`state::VmState`].
//! [`decode`] turns opcodes into tagged instructions, [`cycle`] drives
//! fetch, decode, dispatch and timer decay, and [`laws`] proves
//! properties that relate several instructions, such as the
//! call/return round trip at any nesting depth.

pub mod cycle;
pub mod decode;
pub mod instr;
pub mod laws;
pub mod state;

pub use state::Chip8;
pub use state::VmError;
