//! The eight instructions and their binary encoding.
//!
//! An instruction is its opcode byte followed by its operand bytes:
//!
//! | opcode | instruction    | bytes | operands                          |
//! |--------|----------------|-------|-----------------------------------|
//! | 1      | conditional move | 4   | `ri`, `rj`, `rk`                  |
//! | 2      | store          | 3     | `ri`, `rj`                        |
//! | 3      | load           | 3     | `ri`, `rj`                        |
//! | 4      | load immediate | 4     | `ri`, 16-bit signed little-endian |
//! | 5      | subtract       | 4     | `ri`, `rj`, `rk`                  |
//! | 6      | output char    | 2     | `ri`                              |
//! | 7      | halt           | 1     | none                              |
//! | 8      | output integer | 2     | `ri`                              |

use vstd::prelude::*;
use crate::encoding::{immediate_from_le, immediate_of};
use crate::error::Error;

verus! {

/// How many registers a machine has.
pub const REGISTER_COUNT: usize = 16;

/// A decoded instruction. Register operands are register indices.
#[derive(Debug, Clone, Copy, PartialEq, Eq)]
pub enum Instruction {
    /// Copies register `rj` into register `ri` if register `rk` is not zero.
    CondMove { ri: u8, rj: u8, rk: u8 },
    /// Writes register `rj` to the four bytes of memory at the address held
    /// in register `ri`, least significant byte first.
    Store { ri: u8, rj: u8 },
    /// Reads the four bytes of memory at the address held in register `rj`,
    /// least significant byte first, into register `ri`.
    Load { ri: u8, rj: u8 },
    /// Sets register `ri` to `imm`, sign-extended to 32 bits.
    LoadImmediate { ri: u8, imm: i16 },
    /// Sets register `ri` to register `rj` minus register `rk`, modulo 2^32.
    Sub { ri: u8, rj: u8, rk: u8 },
    /// Writes the low byte of register `ri` to the output.
    OutChar { ri: u8 },
    /// Ends the run.
    Halt,
    /// Writes register `ri`, read as a signed number, to the output in
    /// decimal.
    OutInt { ri: u8 },
}

/// The number of bytes that an instruction with opcode `op` takes, opcode
/// included; zero where `op` is no opcode.
pub open spec fn encoded_len(op: u8) -> nat {
    if op == 1 || op == 4 || op == 5 {
        4
    } else if op == 2 || op == 3 {
        3
    } else if op == 6 || op == 8 {
        2
    } else if op == 7 {
        1
    } else {
        0
    }
}

/// Whether `r` is the index of a register.
pub open spec fn is_register(r: u8) -> bool {
    r < REGISTER_COUNT
}

impl Instruction {
    /// Whether every register operand is the index of a register.
    pub open spec fn well_formed(self) -> bool {
        match self {
            Instruction::CondMove { ri, rj, rk } => is_register(ri) && is_register(rj)
                && is_register(rk),
            Instruction::Store { ri, rj } => is_register(ri) && is_register(rj),
            Instruction::Load { ri, rj } => is_register(ri) && is_register(rj),
            Instruction::LoadImmediate { ri, imm } => is_register(ri),
            Instruction::Sub { ri, rj, rk } => is_register(ri) && is_register(rj) && is_register(
                rk,
            ),
            Instruction::OutChar { ri } => is_register(ri),
            Instruction::Halt => true,
            Instruction::OutInt { ri } => is_register(ri),
        }
    }

    /// The instruction's opcode.
    pub open spec fn opcode(self) -> u8 {
        match self {
            Instruction::CondMove { .. } => 1,
            Instruction::Store { .. } => 2,
            Instruction::Load { .. } => 3,
            Instruction::LoadImmediate { .. } => 4,
            Instruction::Sub { .. } => 5,
            Instruction::OutChar { .. } => 6,
            Instruction::Halt => 7,
            Instruction::OutInt { .. } => 8,
        }
    }

    /// The instruction that the bytes of `mem` from address `at` on spell,
    /// whatever the register indices, for an opcode in `1..=8` whose operand
    /// bytes all lie in `mem`.
    pub open spec fn spelled_at(mem: Seq<u8>, at: int) -> Instruction
        recommends
            0 <= at,
            encoded_len(mem[at]) > 0,
            at + encoded_len(mem[at]) <= mem.len(),
    {
        let op = mem[at];
        if op == 1 {
            Instruction::CondMove { ri: mem[at + 1], rj: mem[at + 2], rk: mem[at + 3] }
        } else if op == 2 {
            Instruction::Store { ri: mem[at + 1], rj: mem[at + 2] }
        } else if op == 3 {
            Instruction::Load { ri: mem[at + 1], rj: mem[at + 2] }
        } else if op == 4 {
            Instruction::LoadImmediate {
                ri: mem[at + 1],
                imm: immediate_of(mem[at + 2], mem[at + 3]) as i16,
            }
        } else if op == 5 {
            Instruction::Sub { ri: mem[at + 1], rj: mem[at + 2], rk: mem[at + 3] }
        } else if op == 6 {
            Instruction::OutChar { ri: mem[at + 1] }
        } else if op == 7 {
            Instruction::Halt
        } else {
            Instruction::OutInt { ri: mem[at + 1] }
        }
    }

    /// What decoding the bytes of `mem` at address `at` gives.
    ///
    /// - A first byte outside `1..=8` is `InvalidInstruction`, whatever
    ///   follows it.
    /// - An instruction that would end beyond `mem` is `InvalidMemoryAccess`.
    /// - A register operand of 16 or more is `InvalidRegister`.
    /// - Anything else is the instruction.
    pub open spec fn decode_at(mem: Seq<u8>, at: int) -> Result<Instruction, Error>
        recommends
            0 <= at < mem.len(),
    {
        let op = mem[at];
        if encoded_len(op) == 0 {
            Err(Error::InvalidInstruction)
        } else if at + encoded_len(op) > mem.len() {
            Err(Error::InvalidMemoryAccess)
        } else {
            let found = Instruction::spelled_at(mem, at);
            if found.well_formed() {
                Ok(found)
            } else {
                Err(Error::InvalidRegister)
            }
        }
    }

    /// The number of bytes that the instruction takes in memory.
    pub fn length(&self) -> (n: u32)
        ensures
            n == encoded_len(self.opcode()),
            1 <= n <= 4,
    {
        match self {
            Instruction::CondMove { .. } => 4,
            Instruction::Store { .. } => 3,
            Instruction::Load { .. } => 3,
            Instruction::LoadImmediate { .. } => 4,
            Instruction::Sub { .. } => 4,
            Instruction::OutChar { .. } => 2,
            Instruction::Halt => 1,
            Instruction::OutInt { .. } => 2,
        }
    }

    /// Decodes the instruction that starts at address `at` of `mem`.
    ///
    /// Only the opcode byte is read before the opcode is known to be one, and
    /// only the operand bytes of that opcode after it.
    pub fn decode(mem: &[u8], at: usize) -> (r: Result<Instruction, Error>)
        requires
            at < mem.len(),
        ensures
            r == Instruction::decode_at(mem@, at as int),
            r matches Ok(found) ==> found.well_formed() && found.opcode() == mem@[at as int],
    {
        let op: u8 = mem[at];
        let len: usize = match opcode_length(op) {
            Some(n) => n as usize,
            None => {
                return Err(Error::InvalidInstruction);
            },
        };
        if len > mem.len() - at {
            return Err(Error::InvalidMemoryAccess);
        }
        let a: u8 = if len > 1 {
            mem[at + 1]
        } else {
            0
        };
        let b: u8 = if len > 2 {
            mem[at + 2]
        } else {
            0
        };
        let c: u8 = if len > 3 {
            mem[at + 3]
        } else {
            0
        };
        let found = if op == 1 {
            Instruction::CondMove { ri: a, rj: b, rk: c }
        } else if op == 2 {
            Instruction::Store { ri: a, rj: b }
        } else if op == 3 {
            Instruction::Load { ri: a, rj: b }
        } else if op == 4 {
            Instruction::LoadImmediate { ri: a, imm: immediate_from_le(b, c) }
        } else if op == 5 {
            Instruction::Sub { ri: a, rj: b, rk: c }
        } else if op == 6 {
            Instruction::OutChar { ri: a }
        } else if op == 7 {
            Instruction::Halt
        } else {
            Instruction::OutInt { ri: a }
        };
        if found.registers_exist() {
            Ok(found)
        } else {
            Err(Error::InvalidRegister)
        }
    }

    /// Whether every register operand is below 16.
    pub fn registers_exist(&self) -> (ok: bool)
        ensures
            ok == self.well_formed(),
    {
        match self {
            Instruction::CondMove { ri, rj, rk } => *ri < 16 && *rj < 16 && *rk < 16,
            Instruction::Store { ri, rj } => *ri < 16 && *rj < 16,
            Instruction::Load { ri, rj } => *ri < 16 && *rj < 16,
            Instruction::LoadImmediate { ri, .. } => *ri < 16,
            Instruction::Sub { ri, rj, rk } => *ri < 16 && *rj < 16 && *rk < 16,
            Instruction::OutChar { ri } => *ri < 16,
            Instruction::Halt => true,
            Instruction::OutInt { ri } => *ri < 16,
        }
    }
}

/// The number of bytes that an instruction with opcode `op` takes, or `None`
/// where `op` is no opcode.
pub fn opcode_length(op: u8) -> (n: Option<u32>)
    ensures
        n matches Some(len) ==> len == encoded_len(op) && 1 <= len <= 4,
        n is None <==> encoded_len(op) == 0,
        n is None <==> !(1 <= op <= 8),
{
    match op {
        1 | 4 | 5 => Some(4),
        2 | 3 => Some(3),
        6 | 8 => Some(2),
        7 => Some(1),
        _ => None,
    }
}

} // verus!
