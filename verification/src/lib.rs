//! A verified CHIP-8 virtual machine core.
//!
//! The library models the machine state (memory, registers, stack, timers,
//! framebuffer, key states), decodes 16-bit instruction words into a tagged
//! instruction type, and executes instructions with exact contracts for every
//! arithmetic flag and collision-detection edge case. The fixed-rate scheduler
//! decisions (instruction cycles per tick, timer decrement, sound gating) are
//! verified here as well; window, event and audio plumbing live outside the
//! library.

use vstd::prelude::*;

mod decode;
mod execute;
mod laws;
mod machine;

pub use decode::Instruction;
pub use decode::decode;
pub use execute::Chip8Error;
pub use machine::Chip8;
pub use machine::RNG_SEED;
pub use machine::Status;

verus! {

/// Width of the monochrome display in pixels.
pub const SCREEN_WIDTH: usize = 64;

/// Height of the monochrome display in pixels.
pub const SCREEN_HEIGHT: usize = 32;

} // verus!
