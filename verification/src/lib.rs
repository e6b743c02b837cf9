//! A CHIP-8 execution engine.
//!
//! The crate models the virtual machine as a mathematical value
//! ([`machine::Machine`]) with a total transition function, and proves that
//! the executable [`interpreter::Interpreter`] follows that model step by step.
use vstd::prelude::*;

pub mod alu;
pub mod disassembler;
pub mod error;
pub mod interpreter;
pub mod keyboard;
pub mod machine;
pub mod screen;
pub mod theorems;

verus! {

/// Width of the framebuffer, in pixels.
pub const CHIP8_WIDTH: usize = 64;

/// Height of the framebuffer, in pixels.
pub const CHIP8_HEIGHT: usize = 32;

/// Size of the address space, in bytes.
pub const CHIP8_RAM: usize = 4096;

} // verus!
