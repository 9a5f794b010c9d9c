//! What holds of every state of the machine, proved from the model that the
//! contracts of [`Machine`](crate::machine::Machine) are stated over.

use vstd::prelude::*;
use crate::encoding::{
    bytes_of,
    immediate_of,
    lemma_with_word,
    pattern_of,
    with_word,
    word_at,
    wrapping_difference,
};
use crate::error::Error;
use crate::instruction::{encoded_len, is_register, Instruction};
use crate::machine::{Outcome, State, Step, IP, MEMORY_SIZE};

verus! {

/// A machine built from an image holds the image at the start of its memory
/// and zeros behind it, and all its registers are zero, so that it starts at
/// address 0.
pub proof fn lemma_initial_state(image: Seq<u8>)
    requires
        image.len() <= MEMORY_SIZE,
    ensures
        State::initial(image).well_formed(),
        State::initial(image).mem.subrange(0, image.len() as int) == image,
        forall|i: int| image.len() <= i < MEMORY_SIZE ==> State::initial(image).mem[i] == 0,
        forall|r: int| 0 <= r < 16 ==> State::initial(image).regs[r] == 0,
        State::initial(image).ip() == 0,
{
    assert(State::initial(image).mem.subrange(0, image.len() as int) =~= image);
}

/// A step keeps the shape of the machine: the size of its memory and the
/// number of its registers.
pub proof fn lemma_step_well_formed(s: State)
    requires
        s.well_formed(),
    ensures
        s.step().state.well_formed(),
{
}

/// A step never ends in `MemoryOverflow` or `OutputError`: the first belongs
/// to construction, the second to an output that refuses bytes.
pub proof fn lemma_step_faults(s: State)
    requires
        s.well_formed(),
    ensures
        s.step().outcome != Outcome::Fault(Error::MemoryOverflow),
        s.step().outcome != Outcome::Fault(Error::OutputError),
{
}

/// A store followed by a load from the same address hands the stored
/// register's 32 bits to the loaded register unchanged, whatever they are;
/// in between, memory holds them at that address as four bytes, least
/// significant first, and is otherwise as it was.
pub proof fn lemma_store_load_round_trip(s: State, address: u8, source: u8, target: u8)
    requires
        s.well_formed(),
        is_register(address),
        is_register(source),
        is_register(target),
        s.regs[address as int] + 4 <= MEMORY_SIZE,
    ensures
        ({
            let at = s.regs[address as int] as int;
            let stored = s.execute(Instruction::Store { ri: address, rj: source });
            let loaded = stored.state.execute(Instruction::Load { ri: target, rj: address });
            &&& stored.outcome == Outcome::Continue
            &&& stored.state.regs == s.regs
            &&& stored.state.mem.subrange(at, at + 4) == bytes_of(s.regs[source as int])
            &&& forall|i: int|
                0 <= i < MEMORY_SIZE && !(at <= i < at + 4) ==> stored.state.mem[i] == s.mem[i]
            &&& loaded.outcome == Outcome::Continue
            &&& loaded.state.mem == stored.state.mem
            &&& loaded.state.regs[target as int] == s.regs[source as int]
        }),
{
    let at = s.regs[address as int] as int;
    lemma_with_word(s.mem, at, s.regs[source as int]);
}

/// A load-immediate instruction at the instruction pointer, with a register
/// operand, sets that register to the sign-extended immediate after the
/// pointer has moved on by four; nothing else changes.
pub proof fn lemma_step_load_immediate(s: State, ri: u8, lo: u8, hi: u8)
    requires
        s.well_formed(),
        is_register(ri),
        s.ip() + 4 <= MEMORY_SIZE,
        s.mem[s.ip()] == 4,
        s.mem[s.ip() + 1] == ri,
        s.mem[s.ip() + 2] == lo,
        s.mem[s.ip() + 3] == hi,
    ensures
        s.step() == (Step {
            state: s.advanced(4).with_reg(ri as int, pattern_of(immediate_of(lo, hi))),
            outcome: Outcome::Continue,
        }),
{
}

/// A store instruction at the instruction pointer, with register operands,
/// is executed after the pointer has moved on by three.
pub proof fn lemma_step_store(s: State, ri: u8, rj: u8)
    requires
        s.well_formed(),
        is_register(ri),
        is_register(rj),
        s.ip() + 3 <= MEMORY_SIZE,
        s.mem[s.ip()] == 2,
        s.mem[s.ip() + 1] == ri,
        s.mem[s.ip() + 2] == rj,
    ensures
        s.step() == s.advanced(3).execute(Instruction::Store { ri, rj }),
{
}

/// A load instruction at the instruction pointer, with register operands, is
/// executed after the pointer has moved on by three.
pub proof fn lemma_step_load(s: State, ri: u8, rj: u8)
    requires
        s.well_formed(),
        is_register(ri),
        is_register(rj),
        s.ip() + 3 <= MEMORY_SIZE,
        s.mem[s.ip()] == 3,
        s.mem[s.ip() + 1] == ri,
        s.mem[s.ip() + 2] == rj,
    ensures
        s.step() == s.advanced(3).execute(Instruction::Load { ri, rj }),
{
}

/// A program of three instructions (load the immediate with bytes `lo`, `hi`
/// into register `a`; store register `a` at the address in register `b`; load
/// register `c` from the address in register `b`) leaves the sign-extended
/// immediate in register `c` and its four bytes in memory.
///
/// Registers `a` and `b` are two different registers, neither of them the
/// instruction pointer, and the stored word does not overwrite the load
/// instruction.
#[verifier::rlimit(30)]
pub proof fn lemma_immediate_store_load(s: State, a: u8, b: u8, c: u8, lo: u8, hi: u8)
    requires
        s.well_formed(),
        is_register(a),
        is_register(b),
        is_register(c),
        a != 0,
        b != 0,
        a != b,
        s.ip() + 10 <= MEMORY_SIZE,
        s.mem.subrange(s.ip(), s.ip() + 10) == seq![4u8, a, lo, hi, 2u8, b, a, 3u8, c, b],
        s.regs[b as int] + 4 <= MEMORY_SIZE,
        s.regs[b as int] + 4 <= s.ip() + 7 || s.ip() + 10 <= s.regs[b as int],
    ensures
        ({
            let value = pattern_of(immediate_of(lo, hi));
            let at = s.regs[b as int] as int;
            let first = s.step();
            let second = first.state.step();
            let third = second.state.step();
            &&& first.outcome == Outcome::Continue
            &&& second.outcome == Outcome::Continue
            &&& third.outcome == Outcome::Continue
            &&& third.state.regs[c as int] == value
            &&& third.state.mem.subrange(at, at + 4) == bytes_of(value)
        }),
{
    let ip = s.ip();
    let code = s.mem.subrange(ip, ip + 10);
    assert forall|k: int| 0 <= k < 10 implies s.mem[ip + k] == #[trigger] code[k] by {}
    assert(code[0] == 4 && code[1] == a && code[2] == lo && code[3] == hi);
    assert(code[4] == 2 && code[5] == b && code[6] == a);
    assert(code[7] == 3 && code[8] == c && code[9] == b);
    let value = pattern_of(immediate_of(lo, hi));
    let at = s.regs[b as int] as int;

    let s1 = s.advanced(4).with_reg(a as int, value);
    assert(s.step() == (Step { state: s1, outcome: Outcome::Continue })) by {
        lemma_step_load_immediate(s, a, lo, hi);
    }
    let moved = s1.advanced(3);
    let s2 = State { mem: with_word(s.mem, at, value), ..moved };
    assert(s1.step() == (Step { state: s2, outcome: Outcome::Continue })) by {
        lemma_step_store(s1, b, a);
    }
    lemma_with_word(s.mem, at, value);
    let s3 = s2.advanced(3).with_reg(c as int, value);
    assert(s2.step() == (Step { state: s3, outcome: Outcome::Continue })) by {
        assert(s2.mem[ip + 7] == code[7] && s2.mem[ip + 8] == code[8] && s2.mem[ip + 9]
            == code[9]);
        lemma_step_load(s2, c, b);
    }
}

/// Subtraction wraps: the result is the difference modulo 2^32, so that 0
/// minus 1 is `0xFFFF_FFFF`, and nothing else changes.
pub proof fn lemma_sub_wraps(s: State, ri: u8, rj: u8, rk: u8)
    requires
        s.well_formed(),
        is_register(ri),
        is_register(rj),
        is_register(rk),
    ensures
        ({
            let after = s.execute(Instruction::Sub { ri, rj, rk });
            let difference = s.regs[rj as int] - s.regs[rk as int];
            &&& after.outcome == Outcome::Continue
            &&& after.state == s.with_reg(
                ri as int,
                wrapping_difference(s.regs[rj as int], s.regs[rk as int]),
            )
            &&& after.state.regs[ri as int] as int == difference % 4294967296
            &&& s.regs[rj as int] == 0 && s.regs[rk as int] == 1 ==> after.state.regs[ri as int]
                == 0xFFFF_FFFFu32
        }),
{
}

/// A conditional move copies the source register when the condition register
/// is not zero, and changes nothing at all when it is zero.
pub proof fn lemma_cond_move(s: State, ri: u8, rj: u8, rk: u8)
    requires
        s.well_formed(),
        is_register(ri),
        is_register(rj),
        is_register(rk),
    ensures
        ({
            let after = s.execute(Instruction::CondMove { ri, rj, rk });
            &&& after.outcome == Outcome::Continue
            &&& s.regs[rk as int] != 0 ==> after.state == s.with_reg(ri as int, s.regs[rj as int])
            &&& s.regs[rk as int] == 0 ==> after.state == s
        }),
{
}

/// The value that the instruction `i` writes to register 0 in state `s`, if
/// it writes that register at all.
pub open spec fn written_to_ip(s: State, i: Instruction) -> Option<u32> {
    match i {
        Instruction::CondMove { ri, rj, rk } => if ri == 0 && s.regs[rk as int] != 0 {
            Some(s.regs[rj as int])
        } else {
            None
        },
        Instruction::Load { ri, rj } => if ri == 0 && s.regs[rj as int] + 4 <= MEMORY_SIZE {
            Some(word_at(s.mem, s.regs[rj as int] as int))
        } else {
            None
        },
        Instruction::LoadImmediate { ri, imm } => if ri == 0 {
            Some(pattern_of(imm as int))
        } else {
            None
        },
        Instruction::Sub { ri, rj, rk } => if ri == 0 {
            Some(wrapping_difference(s.regs[rj as int], s.regs[rk as int]))
        } else {
            None
        },
        _ => None,
    }
}

/// Writing to register 0 is a jump: after a step whose instruction writes
/// register 0, the instruction pointer is the value written, not the address
/// behind the instruction. After any other step whose instruction was
/// decoded, the instruction pointer is the address behind the instruction.
///
/// The next step fetches its opcode where the instruction pointer then
/// stands: it halts if the byte there is a halt, fails with
/// `InvalidInstruction` if that byte is no opcode, and fails with
/// `InvalidMemoryAccess` if the pointer stands outside memory.
pub proof fn lemma_write_to_ip_is_jump(s: State, i: Instruction)
    requires
        s.well_formed(),
        s.ip() < MEMORY_SIZE,
        Instruction::decode_at(s.mem, s.ip()) == Ok::<Instruction, Error>(i),
    ensures
        ({
            let moved = s.advanced(encoded_len(s.mem[s.ip()]));
            let after = s.step();
            &&& moved.ip() == s.ip() + encoded_len(i.opcode())
            &&& written_to_ip(moved, i) matches Some(v) ==> after.state.ip() == v
            &&& written_to_ip(moved, i) is None ==> after.state.ip() == moved.ip()
            &&& after.state.ip() < MEMORY_SIZE && after.state.mem[after.state.ip()] == 7
                ==> after.state.step().outcome == Outcome::Halt
            &&& after.state.ip() < MEMORY_SIZE && !(1 <= after.state.mem[after.state.ip()] <= 8)
                ==> after.state.step().outcome == Outcome::Fault(Error::InvalidInstruction)
            &&& after.state.ip() >= MEMORY_SIZE ==> after.state.step().outcome == Outcome::Fault(
                Error::InvalidMemoryAccess,
            )
        }),
{
}

/// A byte at the instruction pointer that is none of the opcodes 1 to 8 ends
/// the step in `InvalidInstruction` with the machine unchanged, whatever the
/// bytes behind it are: none of them is looked at.
pub proof fn lemma_invalid_opcode(s: State, other: Seq<u8>)
    requires
        s.well_formed(),
        s.ip() < MEMORY_SIZE,
        !(1 <= s.mem[s.ip()] <= 8),
        other.len() == MEMORY_SIZE,
        other[s.ip()] == s.mem[s.ip()],
    ensures
        s.step() == (Step { state: s, outcome: Outcome::Fault(Error::InvalidInstruction) }),
        (State { mem: other, ..s }).step().outcome == s.step().outcome,
{
}

/// An instruction whose bytes would reach beyond the end of memory ends the
/// step in `InvalidMemoryAccess`; the instruction pointer has moved on by
/// the instruction's length, and nothing else has changed.
pub proof fn lemma_truncated_instruction(s: State)
    requires
        s.well_formed(),
        s.ip() < MEMORY_SIZE,
        1 <= s.mem[s.ip()] <= 8,
        s.ip() + encoded_len(s.mem[s.ip()]) > MEMORY_SIZE,
    ensures
        s.step() == (Step {
            state: s.advanced(encoded_len(s.mem[s.ip()])),
            outcome: Outcome::Fault(Error::InvalidMemoryAccess),
        }),
        s.step().state.mem == s.mem,
        forall|r: int| 1 <= r < 16 ==> s.step().state.regs[r] == s.regs[r],
{
}

/// An instruction pointer outside memory ends the step in
/// `InvalidMemoryAccess` with the machine unchanged.
pub proof fn lemma_pointer_outside_memory(s: State)
    requires
        s.well_formed(),
        s.ip() >= MEMORY_SIZE,
    ensures
        s.step() == (Step { state: s, outcome: Outcome::Fault(Error::InvalidMemoryAccess) }),
{
}

/// A register operand that is no register ends the step in `InvalidRegister`;
/// the instruction pointer has moved on by the instruction's length, and
/// neither memory nor any other register has changed.
pub proof fn lemma_invalid_register(s: State)
    requires
        s.well_formed(),
        s.ip() < MEMORY_SIZE,
        Instruction::decode_at(s.mem, s.ip()) == Err::<Instruction, Error>(Error::InvalidRegister),
    ensures
        s.step() == (Step {
            state: s.advanced(encoded_len(s.mem[s.ip()])),
            outcome: Outcome::Fault(Error::InvalidRegister),
        }),
        s.step().state.mem == s.mem,
        forall|r: int| 1 <= r < 16 ==> s.step().state.regs[r] == s.regs[r],
{
}

} // verus!
