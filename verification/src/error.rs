//! The ways in which building or running a machine can fail.

use vstd::prelude::*;

verus! {

/// Why a machine could not be built, or why a run stopped early.
///
/// Every error is fatal to the run that raised it; nothing is retried.
#[derive(Debug, Clone, Copy, PartialEq, Eq)]
pub enum Error {
    /// The initial image is larger than the machine's memory.
    MemoryOverflow,
    /// An instruction names a register index of 16 or more.
    InvalidRegister,
    /// The byte at the instruction pointer is not one of the eight opcodes.
    InvalidInstruction,
    /// The instruction pointer, or a span of bytes that an instruction reads
    /// or writes, does not lie wholly inside memory.
    InvalidMemoryAccess,
    /// The output sink did not take what an instruction wrote to it.
    OutputError,
}

} // verus!
