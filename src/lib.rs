//! An interpreter for the CHIP-8 virtual machine, verified with Verus.
use vstd::prelude::*;

pub mod cartridge;
pub mod cpu;
pub mod font;
pub mod keypad;
pub mod machine;
pub mod probe;
pub mod theorems;

verus! {

/// Width of the framebuffer in pixels.
pub const CHIP8_WIDTH: usize = 64;

/// Height of the framebuffer in pixels.
pub const CHIP8_HEIGHT: usize = 32;

/// Size of memory in bytes.
pub const CHIP8_RAM: usize = 4096;

} // verus!
