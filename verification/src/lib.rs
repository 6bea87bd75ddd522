//! A virtual machine for the CHIP-8 instruction set.
//!
//! [`Cpu`] owns the whole machine: memory, registers, call stack, timers,
//! framebuffer and keypad. A driver creates it, loads a program with
//! [`Cpu::load_rom`], and calls [`Cpu::tick`] at its own pace; each tick
//! executes one instruction. The driver writes the keys and reads the
//! framebuffer through the public fields.
//!
//! The behaviour of a `Cpu` is stated over [`Machine`], the mathematical
//! value that a `Cpu` stands for, and proved against it. The module
//! [`machine`] holds the instruction set as functions on that value, the
//! module [`laws`] what follows from them.
//!
//! # Faults
//!
//! No function of this crate panics. What a program must not do is reported
//! as a [`Fault`], and the faulting instruction changes nothing:
//! a return without a call, a seventeenth nested call, an access through the
//! index register beyond the end of memory, a test of a key above `0xF`, and
//! an instruction at a program counter beyond 4094. A jump may point
//! anywhere; it is the next instruction that faults if the target lies
//! outside memory. Odd addresses are fetched as they are.
//!
//! # Conventions
//!
//! Where interpreters for this instruction set differ, this one does as
//! follows.
//!
//! - `Cxkk` adds a random byte to `kk`, modulo 256; it does not mask the
//!   random byte with `kk`.
//! - `Fx0A` does not stop the program. It leaves a key read pending, which
//!   the next tick that finds a key down serves; the lowest key wins.
//! - A tick counts the delay timer down. The sound timer is only written by
//!   `Fx18` and by the driver.
//! - `Fx1E` wraps the index register at the end of memory.
//! - `Fx55` and `Fx65` leave the index register alone.
//! - `8xy6` and `8xyE` shift `v[x]` and ignore `v[y]`.
//! - The instructions that write the flag do so in the order that
//!   [`Machine`] gives, which matters where `v[0xF]` is also an operand.

use vstd::prelude::*;

pub mod cpu;
pub mod decode;
pub mod display;
mod entropy;
pub mod fault;
pub mod fonts;
pub mod laws;
pub mod machine;
pub mod sprite;

pub use cpu::{Cpu, Input};
pub use decode::{decode, Decoded};
pub use display::DisplayDriver;
pub use fault::{Fault, LoadError};
pub use machine::Machine;

verus! {

/// Width of one instruction in bytes.
pub const OPCODE_SIZE: usize = 2;

/// Number of pixel columns of the framebuffer.
pub const C8_WIDTH: usize = 64;

/// Number of pixel rows of the framebuffer.
pub const C8_HEIGHT: usize = 32;

} // verus!
