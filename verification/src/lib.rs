//! An instruction-level CHIP-8 emulator core, verified against a
//! mathematical model of the machine.
//!
//! `state` holds the model: a ghost `State` and a pure step function
//! `spec_tick` giving the meaning of one tick. `chip8` holds the
//! executable core, whose `tick` is proved to follow `spec_tick` exactly.
//! `laws` states and proves machine-wide facts (carry and borrow flags,
//! XOR-blit cancellation, call/return pairing, skip distances, idle
//! input waits). `fontset` is the built-in glyph table.
//!
//! Where the instruction set leaves behavior open, the model fixes one
//! deterministic policy and says so at the definition: counter arithmetic
//! and memory addressing through the index register wrap modulo the
//! memory size, the index register is truncated to it after accumulation,
//! a call on a full stack and a return on an empty stack are ignored, and
//! a key-state test reads the low nibble of the selecting register.

use vstd::prelude::*;

pub mod chip8;
pub mod emulator;
pub mod fontset;
pub mod laws;
pub mod state;

verus! {

/// Size of one encoded instruction, in bytes.
pub const OPCODE_SIZE: usize = 2;

/// Width of the framebuffer in pixels.
pub const CHIP8_WIDTH: usize = 64;

/// Height of the framebuffer in pixels.
pub const CHIP8_HEIGHT: usize = 32;

/// Size of the machine's memory in bytes.
pub const CHIP8_RAM: usize = 4096;

} // verus!
