//! What can go wrong while a program is loaded or run.

use vstd::prelude::*;

verus! {

/// Why an instruction was not executed. A fault leaves the machine as it was
/// before the instruction.
#[derive(Clone, Copy, Debug, PartialEq, Eq, Structural)]
pub enum Fault {
    /// The program counter leaves no room for a two-byte instruction.
    ProgramCounterOutOfRange,
    /// A call with all sixteen stack slots taken, or a stack pointer beyond
    /// the stack.
    StackOverflow,
    /// A return with no pending call.
    StackUnderflow,
    /// An access through the index register beyond the last byte of memory.
    MemoryOutOfRange,
    /// A key number above `0xF`.
    KeyOutOfRange,
    /// A pending key read whose target is not one of the sixteen registers.
    RegisterOutOfRange,
}

/// Why a program was not loaded.
#[derive(Clone, Copy, Debug, PartialEq, Eq, Structural)]
pub enum LoadError {
    /// The program does not fit between its load address and the end of memory.
    ProgramTooLarge,
}

} // verus!
