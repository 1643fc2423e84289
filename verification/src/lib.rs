//! A CHIP-8 virtual machine: memory, instruction decoding, CPU, display and
//! keypad, together with a `Chip8` facade that ties them together.

pub mod chip8;
pub mod cpu;
pub mod display;
pub mod keypad;
pub mod memory;
pub mod opcode;
pub mod step_laws;

pub use chip8::Chip8;
