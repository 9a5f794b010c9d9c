//! The machine: its memory and registers, one step of execution, and a
//! bounded run.

use vstd::prelude::*;
use crate::decimal::{decimal_of, format_signed};
use crate::encoding::{
    pattern_of,
    sign_extend,
    signed_of,
    to_signed,
    with_word,
    word_at,
    word_from_le,
    word_to_le,
    wrapping_difference,
};
use crate::error::Error;
use crate::instruction::{encoded_len, opcode_length, Instruction, REGISTER_COUNT};
use crate::sink::Sink;

verus! {

/// The number of bytes of memory that a machine has.
pub const MEMORY_SIZE: usize = 4096;

/// The index of the register that holds the instruction pointer.
pub const IP: usize = 0;

/// What a machine holds, as mathematics: its memory and its registers.
pub struct State {
    pub mem: Seq<u8>,
    pub regs: Seq<u32>,
}

/// How one step ended.
pub enum Outcome {
    /// The instruction ran and wrote nothing; the run goes on.
    Continue,
    /// The instruction was a halt; the run is over.
    Halt,
    /// The instruction ran and offers these bytes to the output; the run goes
    /// on if the output takes them.
    Emit(Seq<u8>),
    /// The step failed with this error.
    Fault(Error),
}

/// The state after a step, and how the step ended.
pub struct Step {
    pub state: State,
    pub outcome: Outcome,
}

/// Where a bounded run stood when it stopped: the state, everything that it
/// offered to the output, oldest first, and how it ended.
pub struct Trace {
    pub state: State,
    pub output: Seq<u8>,
    /// `Ok(true)` after a halt, `Ok(false)` when the budget ran out first,
    /// and the error of the step that failed.
    pub result: Result<bool, Error>,
}

impl Outcome {
    /// Whether a step that ended in this outcome may return `r` and turn an
    /// output that held `before` into one that holds `after`.
    ///
    /// Only a step that emits touches the output, and only such a step can
    /// end in `OutputError`: it does when the output did not take the bytes.
    pub open spec fn allows(self, r: Result<bool, Error>, before: Seq<u8>, after: Seq<u8>) -> bool {
        match self {
            Outcome::Continue => r == Ok::<bool, Error>(false) && after == before,
            Outcome::Halt => r == Ok::<bool, Error>(true) && after == before,
            Outcome::Fault(e) => r == Err::<bool, Error>(e) && after == before,
            Outcome::Emit(bytes) => (r == Ok::<bool, Error>(false) && after == before + bytes) || (r
                == Err::<bool, Error>(Error::OutputError) && before.is_prefix_of(after)),
        }
    }
}

impl State {
    /// Memory has `MEMORY_SIZE` bytes and there are `REGISTER_COUNT`
    /// registers.
    pub open spec fn well_formed(self) -> bool {
        self.mem.len() == MEMORY_SIZE && self.regs.len() == REGISTER_COUNT
    }

    /// The state after reset with `image` loaded: memory is `image` followed
    /// by zeros, and every register is zero.
    pub open spec fn initial(image: Seq<u8>) -> State
        recommends
            image.len() <= MEMORY_SIZE,
    {
        State {
            mem: Seq::new(
                MEMORY_SIZE as nat,
                |i: int|
                    if i < image.len() {
                        image[i]
                    } else {
                        0u8
                    },
            ),
            regs: Seq::new(REGISTER_COUNT as nat, |i: int| 0u32),
        }
    }

    /// The address of the next instruction.
    pub open spec fn ip(self) -> int {
        self.regs[IP as int] as int
    }

    /// This state with register `r` set to `v`.
    pub open spec fn with_reg(self, r: int, v: u32) -> State {
        State { regs: self.regs.update(r, v), ..self }
    }

    /// This state with the instruction pointer moved `len` bytes on.
    pub open spec fn advanced(self, len: nat) -> State {
        self.with_reg(IP as int, (self.ip() + len) as u32)
    }

    /// What executing the decoded instruction `i` does to this state, the
    /// instruction pointer having been moved past it already.
    ///
    /// A store or load whose four bytes do not all lie in memory is an
    /// `InvalidMemoryAccess` and changes nothing.
    pub open spec fn execute(self, i: Instruction) -> Step {
        match i {
            Instruction::CondMove { ri, rj, rk } => Step {
                state: if self.regs[rk as int] != 0 {
                    self.with_reg(ri as int, self.regs[rj as int])
                } else {
                    self
                },
                outcome: Outcome::Continue,
            },
            Instruction::Store { ri, rj } => {
                let at = self.regs[ri as int] as int;
                if at + 4 > MEMORY_SIZE {
                    Step { state: self, outcome: Outcome::Fault(Error::InvalidMemoryAccess) }
                } else {
                    Step {
                        state: State { mem: with_word(self.mem, at, self.regs[rj as int]), ..self },
                        outcome: Outcome::Continue,
                    }
                }
            },
            Instruction::Load { ri, rj } => {
                let at = self.regs[rj as int] as int;
                if at + 4 > MEMORY_SIZE {
                    Step { state: self, outcome: Outcome::Fault(Error::InvalidMemoryAccess) }
                } else {
                    Step {
                        state: self.with_reg(ri as int, word_at(self.mem, at)),
                        outcome: Outcome::Continue,
                    }
                }
            },
            Instruction::LoadImmediate { ri, imm } => Step {
                state: self.with_reg(ri as int, pattern_of(imm as int)),
                outcome: Outcome::Continue,
            },
            Instruction::Sub { ri, rj, rk } => Step {
                state: self.with_reg(
                    ri as int,
                    wrapping_difference(self.regs[rj as int], self.regs[rk as int]),
                ),
                outcome: Outcome::Continue,
            },
            Instruction::OutChar { ri } => Step {
                state: self,
                outcome: Outcome::Emit(seq![(self.regs[ri as int] % 256) as u8]),
            },
            Instruction::Halt => Step { state: self, outcome: Outcome::Halt },
            Instruction::OutInt { ri } => Step {
                state: self,
                outcome: Outcome::Emit(decimal_of(signed_of(self.regs[ri as int]))),
            },
        }
    }

    /// One step: fetch, move the instruction pointer on, decode, execute.
    ///
    /// - An instruction pointer outside memory is an `InvalidMemoryAccess`
    ///   and changes nothing.
    /// - A byte at the instruction pointer that is no opcode is an
    ///   `InvalidInstruction` and changes nothing.
    /// - Otherwise the instruction pointer moves on by the length that the
    ///   opcode gives, and stays moved whatever happens next: an operand
    ///   beyond memory (`InvalidMemoryAccess`), an operand that is no
    ///   register (`InvalidRegister`), or the instruction's execution, which
    ///   sees the moved pointer in register 0 and may overwrite it.
    pub open spec fn step(self) -> Step {
        if self.ip() >= MEMORY_SIZE {
            Step { state: self, outcome: Outcome::Fault(Error::InvalidMemoryAccess) }
        } else {
            match Instruction::decode_at(self.mem, self.ip()) {
                Err(Error::InvalidInstruction) => Step {
                    state: self,
                    outcome: Outcome::Fault(Error::InvalidInstruction),
                },
                Err(e) => Step {
                    state: self.advanced(encoded_len(self.mem[self.ip()])),
                    outcome: Outcome::Fault(e),
                },
                Ok(i) => self.advanced(encoded_len(self.mem[self.ip()])).execute(i),
            }
        }
    }

    /// A run of at most `budget` steps with an output that takes everything:
    /// it stops at the first halt or fault, or when the budget is used up.
    pub open spec fn run(self, budget: nat) -> Trace
        decreases budget,
    {
        if budget == 0 {
            Trace { state: self, output: Seq::empty(), result: Ok(false) }
        } else {
            let first = self.step();
            match first.outcome {
                Outcome::Continue => first.state.run((budget - 1) as nat),
                Outcome::Emit(bytes) => {
                    let rest = first.state.run((budget - 1) as nat);
                    Trace { output: bytes + rest.output, ..rest }
                },
                Outcome::Halt => Trace {
                    state: first.state,
                    output: Seq::empty(),
                    result: Ok(true),
                },
                Outcome::Fault(e) => Trace {
                    state: first.state,
                    output: Seq::empty(),
                    result: Err(e),
                },
            }
        }
    }

    /// Whether a run from this state made `done` full steps and then stopped
    /// in a step whose bytes the output refused, leaving the machine in
    /// `state` and turning an output that held `before` into one that holds
    /// `after`.
    pub open spec fn refused_after(
        self,
        done: nat,
        state: State,
        before: Seq<u8>,
        after: Seq<u8>,
    ) -> bool {
        let so_far = self.run(done);
        let last = so_far.state.step();
        &&& so_far.result == Ok::<bool, Error>(false)
        &&& last.outcome is Emit
        &&& state == last.state
        &&& (before + so_far.output).is_prefix_of(after)
    }
}

/// A register machine with `MEMORY_SIZE` bytes of memory and
/// `REGISTER_COUNT` registers, register 0 being the instruction pointer.
pub struct Machine {
    mem: [u8; MEMORY_SIZE],
    regs: [u32; REGISTER_COUNT],
}

impl View for Machine {
    type V = State;

    closed spec fn view(&self) -> State {
        State { mem: self.mem@, regs: self.regs@ }
    }
}

impl Machine {
    /// Every machine has its full memory and all its registers.
    pub proof fn lemma_well_formed(&self)
        ensures
            self@.well_formed(),
    {
    }

    /// Creates a machine in its reset state, with `memory` copied to the
    /// start of its memory.
    ///
    /// Fails with `MemoryOverflow` exactly when `memory` is longer than
    /// `MEMORY_SIZE`.
    pub fn new(memory: &[u8]) -> (r: Result<Machine, Error>)
        ensures
            memory@.len() > MEMORY_SIZE ==> r == Err::<Machine, Error>(Error::MemoryOverflow),
            memory@.len() <= MEMORY_SIZE ==> r is Ok && r->Ok_0@ == State::initial(memory@),
            r matches Ok(m) ==> {
                &&& m@.well_formed()
                &&& m@.mem.subrange(0, memory@.len() as int) == memory@
                &&& forall|i: int| memory@.len() <= i < MEMORY_SIZE ==> m@.mem[i] == 0
                &&& forall|k: int| 0 <= k < REGISTER_COUNT ==> m@.regs[k] == 0
            },
    {
        if memory.len() > MEMORY_SIZE {
            return Err(Error::MemoryOverflow);
        }
        let mut machine = Machine { mem: [0u8; MEMORY_SIZE], regs: [0u32; REGISTER_COUNT] };
        let mut i: usize = 0;
        while i < memory.len()
            invariant
                i <= memory.len() <= MEMORY_SIZE,
                machine.regs@ =~= Seq::new(REGISTER_COUNT as nat, |k: int| 0u32),
                forall|k: int| 0 <= k < i ==> machine.mem@[k] == memory@[k],
                forall|k: int| i <= k < MEMORY_SIZE ==> machine.mem@[k] == 0u8,
            decreases memory.len() - i,
        {
            machine.mem[i] = memory[i];
            i += 1;
        }
        assert(machine@.mem =~= State::initial(memory@).mem);
        assert(machine@.mem.subrange(0, memory@.len() as int) =~= memory@);
        Ok(machine)
    }

    /// The registers, register 0 first.
    #[must_use]
    pub fn regs(&self) -> (r: &[u32])
        ensures
            r@ == self@.regs,
            r@.len() == REGISTER_COUNT,
    {
        self.regs.as_slice()
    }

    /// The memory, address 0 first.
    #[must_use]
    pub fn memory(&self) -> (r: &[u8])
        ensures
            r@ == self@.mem,
            r@.len() == MEMORY_SIZE,
    {
        self.mem.as_slice()
    }

    /// Sets register `reg` to `value`.
    ///
    /// Fails with `InvalidRegister`, changing nothing, exactly when `reg` is
    /// not below `REGISTER_COUNT`.
    pub fn set_reg(&mut self, reg: usize, value: u32) -> (r: Result<(), Error>)
        ensures
            reg < REGISTER_COUNT ==> r == Ok::<(), Error>(()) && final(self)@ == old(self)@.with_reg(
                reg as int,
                value,
            ),
            reg >= REGISTER_COUNT ==> r == Err::<(), Error>(Error::InvalidRegister) && final(self)@
                == old(self)@,
            final(self)@.well_formed(),
    {
        if reg < REGISTER_COUNT {
            self.regs[reg] = value;
            Ok(())
        } else {
            Err(Error::InvalidRegister)
        }
    }

    /// Executes the decoded instruction `i`, the instruction pointer having
    /// been moved past it already. Output instructions write to `fd`.
    ///
    /// Returns `Ok(true)` for a halt and `Ok(false)` for any other
    /// instruction that ran.
    pub fn execute_on<T: Sink>(&mut self, i: Instruction, fd: &mut T) -> (r: Result<bool, Error>)
        requires
            i.well_formed(),
        ensures
            final(self)@ == old(self)@.execute(i).state,
            final(self)@.well_formed(),
            old(self)@.execute(i).outcome.allows(r, old(fd).written(), final(fd).written()),
            old(fd).infallible() ==> final(fd).infallible() && r != Err::<bool, Error>(
                Error::OutputError,
            ),
    {
        match i {
            Instruction::CondMove { ri, rj, rk } => {
                if self.regs[rk as usize] != 0 {
                    self.regs[ri as usize] = self.regs[rj as usize];
                }
                Ok(false)
            },
            Instruction::Store { ri, rj } => {
                let at: usize = self.regs[ri as usize] as usize;
                if at > MEMORY_SIZE - 4 {
                    return Err(Error::InvalidMemoryAccess);
                }
                let bytes = word_to_le(self.regs[rj as usize]);
                self.mem[at] = bytes[0];
                self.mem[at + 1] = bytes[1];
                self.mem[at + 2] = bytes[2];
                self.mem[at + 3] = bytes[3];
                assert(self.mem@ =~= with_word(old(self).mem@, at as int, old(self).regs@[rj as int]));
                Ok(false)
            },
            Instruction::Load { ri, rj } => {
                let at: usize = self.regs[rj as usize] as usize;
                if at > MEMORY_SIZE - 4 {
                    return Err(Error::InvalidMemoryAccess);
                }
                self.regs[ri as usize] = word_from_le(
                    self.mem[at],
                    self.mem[at + 1],
                    self.mem[at + 2],
                    self.mem[at + 3],
                );
                Ok(false)
            },
            Instruction::LoadImmediate { ri, imm } => {
                self.regs[ri as usize] = sign_extend(imm);
                Ok(false)
            },
            Instruction::Sub { ri, rj, rk } => {
                self.regs[ri as usize] = self.regs[rj as usize].wrapping_sub(self.regs[rk as usize]);
                Ok(false)
            },
            Instruction::OutChar { ri } => {
                let byte: u8 = (self.regs[ri as usize] % 256) as u8;
                let bytes = [byte];
                assert(bytes@ =~= seq![byte]);
                let taken = fd.put(bytes.as_slice());
                after_output(taken)
            },
            Instruction::Halt => Ok(true),
            Instruction::OutInt { ri } => {
                let text = format_signed(to_signed(self.regs[ri as usize]));
                let taken = fd.put(text.as_slice());
                after_output(taken)
            },
        }
    }

    /// Executes the next instruction:
    ///
    /// - decodes the instruction at the instruction pointer (register 0),
    /// - moves the instruction pointer past it,
    /// - executes it, writing to `fd` if it is an output instruction.
    ///
    /// Returns `Ok(true)` if the instruction was a halt, `Ok(false)` if the
    /// run is to go on, and the error if any of this failed.
    pub fn step_on<T: Sink>(&mut self, fd: &mut T) -> (r: Result<bool, Error>)
        ensures
            final(self)@ == old(self)@.step().state,
            final(self)@.well_formed(),
            old(self)@.step().outcome.allows(r, old(fd).written(), final(fd).written()),
            old(fd).infallible() ==> final(fd).infallible() && r != Err::<bool, Error>(
                Error::OutputError,
            ),
    {
        let address: u32 = self.regs[IP];
        if address >= MEMORY_SIZE as u32 {
            return Err(Error::InvalidMemoryAccess);
        }
        let at: usize = address as usize;
        match Instruction::decode(self.mem.as_slice(), at) {
            Err(Error::InvalidInstruction) => Err(Error::InvalidInstruction),
            Err(e) => {
                match opcode_length(self.mem[at]) {
                    Some(len) => {
                        self.regs[IP] = address + len;
                    },
                    None => {},
                }
                Err(e)
            },
            Ok(i) => {
                self.regs[IP] = address + i.length();
                self.execute_on(i, fd)
            },
        }
    }

    /// Runs until the program halts, a step fails, or `budget` steps have
    /// been made, whichever comes first. Output instructions write to `fd`.
    ///
    /// Returns `Ok(true)` after a halt and `Ok(false)` when the budget ran
    /// out first; calling again then goes on with the run.
    pub fn run_on<T: Sink>(&mut self, fd: &mut T, budget: u64) -> (r: Result<bool, Error>)
        ensures
            final(self)@.well_formed(),
            r != Err::<bool, Error>(Error::OutputError) ==> {
                let whole = old(self)@.run(budget as nat);
                &&& final(self)@ == whole.state
                &&& r == whole.result
                &&& final(fd).written() == old(fd).written() + whole.output
            },
            r == Err::<bool, Error>(Error::OutputError) ==> exists|done: nat|
                done < budget && #[trigger] old(self)@.refused_after(
                    done,
                    final(self)@,
                    old(fd).written(),
                    final(fd).written(),
                ),
            old(fd).infallible() ==> final(fd).infallible() && r != Err::<bool, Error>(
                Error::OutputError,
            ),
    {
        let ghost start = self@;
        let ghost before = fd.written();
        let mut left: u64 = budget;
        proof {
            assert(before + Seq::<u8>::empty() =~= before);
        }
        while left > 0
            invariant
                left <= budget,
                start == old(self)@,
                before == old(fd).written(),
                self@.well_formed(),
                start.run((budget - left) as nat).result == Ok::<bool, Error>(false),
                start.run((budget - left) as nat).state == self@,
                fd.written() == before + start.run((budget - left) as nat).output,
                old(fd).infallible() ==> fd.infallible(),
            decreases left,
        {
            let ghost done = (budget - left) as nat;
            let ghost here = fd.written();
            proof {
                lemma_run_one_more(start, done);
            }
            let r = self.step_on(fd);
            proof {
                let last = start.run(done).state.step();
                if r == Err::<bool, Error>(Error::OutputError) {
                    assert(last.outcome is Emit);
                    assert(start.refused_after(done, self@, before, fd.written()));
                } else {
                    assert(fd.written() =~= before + start.run(done + 1).output) by {
                        if last.outcome is Emit {
                            assert((before + start.run(done).output) + last.outcome->Emit_0 =~= before
                                + (start.run(done).output + last.outcome->Emit_0));
                        }
                    }
                    if r != Ok::<bool, Error>(false) {
                        lemma_run_settled(start, done + 1, budget as nat);
                    }
                }
            }
            match r {
                Ok(false) => {},
                _ => {
                    return r;
                },
            }
            left -= 1;
        }
        Ok(false)
    }
}

/// What an output instruction returns, given whether the output took its
/// bytes: the run goes on if it did, and ends in `OutputError` if it did not.
pub fn after_output(taken: bool) -> (r: Result<bool, Error>)
    ensures
        taken ==> r == Ok::<bool, Error>(false),
        !taken ==> r == Err::<bool, Error>(Error::OutputError),
{
    if taken {
        Ok(false)
    } else {
        Err(Error::OutputError)
    }
}

/// A run that has not stopped within `done` steps makes one more: the next
/// step's state, its bytes behind those already emitted, and its ending.
pub proof fn lemma_run_one_more(s: State, done: nat)
    requires
        s.run(done).result == Ok::<bool, Error>(false),
    ensures
        ({
            let so_far = s.run(done);
            let last = so_far.state.step();
            let next = s.run(done + 1);
            &&& next.state == last.state
            &&& next.output =~= so_far.output + (match last.outcome {
                Outcome::Emit(bytes) => bytes,
                _ => Seq::empty(),
            })
            &&& next.result == (match last.outcome {
                Outcome::Halt => Ok::<bool, Error>(true),
                Outcome::Fault(e) => Err::<bool, Error>(e),
                _ => Ok::<bool, Error>(false),
            })
        }),
    decreases done,
{
    reveal_with_fuel(State::run, 2);
    if done > 0 {
        let first = s.step();
        match first.outcome {
            Outcome::Continue => {
                lemma_run_one_more(first.state, (done - 1) as nat);
            },
            Outcome::Emit(bytes) => {
                lemma_run_one_more(first.state, (done - 1) as nat);
                let rest = first.state.run((done - 1) as nat);
                let tail = match rest.state.step().outcome {
                    Outcome::Emit(more) => more,
                    _ => Seq::empty(),
                };
                assert(bytes + (rest.output + tail) =~= (bytes + rest.output) + tail);
            },
            _ => {},
        }
    }
}

/// A run that has stopped within `done` steps is not changed by a larger
/// budget.
pub proof fn lemma_run_settled(s: State, done: nat, budget: nat)
    requires
        s.run(done).result != Ok::<bool, Error>(false),
        done <= budget,
    ensures
        s.run(budget) == s.run(done),
    decreases done,
{
    if done > 0 {
        let first = s.step();
        match first.outcome {
            Outcome::Continue => {
                lemma_run_settled(first.state, (done - 1) as nat, (budget - 1) as nat);
            },
            Outcome::Emit(bytes) => {
                lemma_run_settled(first.state, (done - 1) as nat, (budget - 1) as nat);
            },
            _ => {},
        }
    }
}

} // verus!
