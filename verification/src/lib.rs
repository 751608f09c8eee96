//! A CHIP-8 virtual machine interpreter: an addressable byte memory with a
//! pre-loaded sprite font, a register file with a call stack, a 16-bit opcode
//! decoder, an executor for the full instruction table, a monochrome
//! framebuffer with XOR sprite compositing, a one-key keyboard state, and a
//! wall-clock delay timer.

pub mod chip8;
pub mod config;
pub mod frame;
pub mod keyboard;
pub mod ram;
pub mod registers;
pub mod timer;

pub use crate::chip8::Chip8;
pub use crate::chip8::Chip8Error;
pub use crate::chip8::Instruction;
