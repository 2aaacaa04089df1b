//! The scalar processor: one instruction at a time through five stages,
//! fetch, decode, execute, memory and write-back.
use vstd::prelude::*;
use crate::cpu::arch::{Inst, Opcode, Reg, Word, NUM_REGS};
use crate::cpu::decoder::{decode, decode_spec};
use crate::cpu::machine::{
    apply_spec, fetch_spec, lui_value, run_spec, step_spec, wrap16, Fault, Machine,
};

verus! {

/// Number of words of memory.
pub const MEM_SIZE: usize = 256;

/// The processor: program counter, register file, memory and step counter.
#[derive(Debug, PartialEq, Eq)]
pub struct Processor {
    /// Address of the next instruction word.
    pub pc: usize,
    /// Register file, `r0` first.
    pub regs: [Word; NUM_REGS],
    /// Memory, one word per address.
    pub mem: [Word; MEM_SIZE],
    /// Number of steps carried out so far.
    pub tick: u64,
}

impl View for Processor {
    type V = Machine;

    open spec fn view(&self) -> Machine {
        Machine { pc: self.pc as nat, regs: self.regs@, mem: self.mem@, tick: self.tick as nat }
    }
}

impl Clone for Processor {
    fn clone(&self) -> (copy: Self)
        ensures
            copy == *self,
    {
        Processor { pc: self.pc, regs: self.regs, mem: self.mem, tick: self.tick }
    }
}

impl Processor {
    /// The view determines the processor: two processors with one view are
    /// equal. So a contract that gives the view after a call gives every
    /// field.
    pub proof fn lemma_view_determines(self, other: Processor)
        requires
            self@ == other@,
        ensures
            self == other,
    {
        assert(self.regs@ == other.regs@);
        assert(self.mem@ == other.mem@);
        assert(self.regs =~= other.regs);
        assert(self.mem =~= other.mem);
    }
}

/// What the memory stage is asked to do.
#[derive(Clone, Copy, Debug, PartialEq, Eq, Structural, Hash)]
pub enum MemOp {
    /// Nothing: the instruction does not touch memory.
    Idle,
    /// Read the word at the address.
    Load { addr: Word },
    /// Write the value to the word at the address.
    Store { addr: Word, value: Word },
}

/// What the execute stage hands on to the memory and write-back stages.
#[derive(Clone, Copy, Debug, PartialEq, Eq, Structural, Hash)]
pub struct Executed {
    /// The register that the instruction writes, if it writes one.
    pub dest: Option<Reg>,
    /// The value for that register, unless the memory stage loads it.
    pub value: Word,
    /// The request to the memory stage.
    pub mem_op: MemOp,
    /// The program counter after the instruction.
    pub next_pc: Word,
}

/// What the execute stage computes for an instruction: results, addresses
/// and the next program counter, all from the state as it is before the
/// instruction changes anything.
pub open spec fn execute_spec(inst: Inst, m: Machine) -> Executed
    recommends
        inst.wf(),
{
    match inst {
        Inst::RRR { op, ra, rb, rc } => Executed {
            dest: Some(rc),
            value: if op == Opcode::ADD {
                wrap16(m.reg(ra) + m.reg(rb))
            } else {
                !(m.reg(ra) & m.reg(rb))
            },
            mem_op: MemOp::Idle,
            next_pc: m.next_pc(),
        },
        Inst::RRI { op, ra, rb, simm } => {
            let sum = wrap16(m.reg(ra) + simm);
            if op == Opcode::ADDI {
                Executed { dest: Some(rb), value: sum, mem_op: MemOp::Idle, next_pc: m.next_pc() }
            } else if op == Opcode::LW {
                Executed {
                    dest: Some(rb),
                    value: 0,
                    mem_op: MemOp::Load { addr: sum },
                    next_pc: m.next_pc(),
                }
            } else if op == Opcode::SW {
                Executed {
                    dest: None,
                    value: 0,
                    mem_op: MemOp::Store { addr: sum, value: m.reg(rb) },
                    next_pc: m.next_pc(),
                }
            } else if op == Opcode::BEQ {
                Executed {
                    dest: None,
                    value: 0,
                    mem_op: MemOp::Idle,
                    next_pc: if m.reg(ra) == m.reg(rb) {
                        wrap16(m.pc + 1 + simm)
                    } else {
                        m.next_pc()
                    },
                }
            } else {
                Executed {
                    dest: Some(rb),
                    value: m.next_pc(),
                    mem_op: MemOp::Idle,
                    next_pc: m.reg(ra),
                }
            }
        },
        Inst::RI { ra, imm, .. } => Executed {
            dest: Some(ra),
            value: lui_value(imm),
            mem_op: MemOp::Idle,
            next_pc: m.next_pc(),
        },
    }
}

/// What the memory stage does with a request: the state after it and the
/// value that goes on to write-back, or the fault where the address is
/// outside the memory.
pub open spec fn memory_spec(ex: Executed, m: Machine) -> Result<(Machine, Word), Fault> {
    match ex.mem_op {
        MemOp::Idle => Ok((m, ex.value)),
        MemOp::Load { addr } => if m.in_memory(addr as int) {
            Ok((m, m.mem[addr as int]))
        } else {
            Err(Fault::MemoryOutOfBounds)
        },
        MemOp::Store { addr, value } => if m.in_memory(addr as int) {
            Ok((m.with_mem(addr as int, value), ex.value))
        } else {
            Err(Fault::MemoryOutOfBounds)
        },
    }
}

/// What write-back does: the value goes to the destination register, if
/// there is one, then `r0` is cleared and the program counter is set.
pub open spec fn writeback_spec(ex: Executed, value: Word, m: Machine) -> Machine {
    match ex.dest {
        Some(r) => m.with_reg(r, value).commit(ex.next_pc),
        None => m.commit(ex.next_pc),
    }
}

/// The number of steps that a run may take: the caller's limit, if there is
/// one, and in any case no more than the step counter can still count.
pub open spec fn run_budget(tick: u64, max_steps: Option<u64>) -> nat {
    let room = (u64::MAX - tick) as nat;
    match max_steps {
        Some(limit) => if limit < room {
            limit as nat
        } else {
            room
        },
        None => room,
    }
}

/// The three stages after decode, one after the other.
pub open spec fn stages_spec(inst: Inst, m: Machine) -> Result<Machine, Fault> {
    let ex = execute_spec(inst, m);
    match memory_spec(ex, m) {
        Err(fault) => Err(fault),
        Ok((after, value)) => Ok(writeback_spec(ex, value, after)),
    }
}

/// The stages carry out the instruction: execute, memory and write-back one
/// after the other do to the state what the instruction's meaning says.
pub proof fn lemma_stages_apply(inst: Inst, m: Machine)
    requires
        inst.wf(),
    ensures
        stages_spec(inst, m) == apply_spec(inst, m),
{
}

/// The five stages of the processor. The state that the contracts speak of
/// is the implementor's view.
pub trait Pipeline: View<V = Machine> {
    /// Reads the instruction word at the program counter.
    fn fetch(&self) -> (r: Result<Word, Fault>)
        ensures
            r == fetch_spec(self@),
    ;

    /// Decodes an instruction word.
    fn decode(&self, word: &Word) -> (inst: Inst)
        ensures
            inst == decode_spec(*word),
            inst.wf(),
    ;

    /// Computes what the instruction asks for, changing nothing.
    fn execute(&self, inst: Inst) -> (ex: Executed)
        requires
            inst.wf(),
        ensures
            ex == execute_spec(inst, self@),
    ;

    /// Carries out the load or store that the instruction asks for, and
    /// returns the value that goes on to write-back. Where the address is
    /// outside the memory, nothing changes.
    fn memory(&mut self, ex: &Executed) -> (r: Result<Word, Fault>)
        ensures
            match memory_spec(*ex, old(self)@) {
                Ok((after, value)) => r == Ok::<Word, Fault>(value) && final(self)@ == after,
                Err(fault) => r == Err::<Word, Fault>(fault) && final(self)@ == old(self)@,
            },
    ;

    /// Writes the value to the destination register, clears `r0` and sets
    /// the program counter.
    fn writeback(&mut self, ex: &Executed, value: Word)
        ensures
            final(self)@ == writeback_spec(*ex, value, old(self)@),
    ;
}

/// Adds two words modulo 2^16.
pub fn add_words(a: Word, b: Word) -> (sum: Word)
    ensures
        sum == wrap16(a + b),
{
    a.wrapping_add(b)
}

/// Adds a signed offset to a word modulo 2^16.
pub fn add_offset(a: Word, simm: i8) -> (sum: Word)
    ensures
        sum == wrap16(a + simm),
{
    a.wrapping_add_signed(simm as i16)
}

/// Shifts a word left by six bits: the low ten bits go to bits 15..6, and
/// bits 5..0 are 0.
pub fn load_upper(imm: u16) -> (value: Word)
    ensures
        value == lui_value(imm),
{
    assert(imm << 6 == (imm * 0x40) % 0x1_0000) by (bit_vector);
    imm << 6
}

/// Adding modulo 2^16 in two steps is adding the sum modulo 2^16.
proof fn lemma_wrap16_twice(x: int, y: int)
    ensures
        wrap16(wrap16(x) + y) == wrap16(x + y),
{
}

impl Processor {
    /// A processor at its start: the given memory image, the program counter
    /// at 0, every register at 0 and no step counted.
    pub fn new(image: [Word; MEM_SIZE]) -> (cpu: Processor)
        ensures
            cpu.mem == image,
            cpu.pc == 0,
            cpu.tick == 0,
            forall|i: int| 0 <= i < NUM_REGS ==> cpu.regs[i] == 0,
            cpu@.inv(),
    {
        Processor { pc: 0, regs: [0;NUM_REGS], mem: image, tick: 0 }
    }

    /// Reads the memory word at the address.
    pub fn read_mem(&self, addr: usize) -> (r: Result<Word, Fault>)
        ensures
            r == if self@.in_memory(addr as int) {
                Ok::<Word, Fault>(self.mem[addr as int])
            } else {
                Err::<Word, Fault>(Fault::MemoryOutOfBounds)
            },
    {
        if addr < MEM_SIZE {
            Ok(self.mem[addr])
        } else {
            Err(Fault::MemoryOutOfBounds)
        }
    }

    /// Writes the memory word at the address. Where the address is outside
    /// the memory, nothing changes.
    pub fn write_mem(&mut self, addr: usize, value: Word) -> (r: Result<(), Fault>)
        ensures
            r == if old(self)@.in_memory(addr as int) {
                Ok::<(), Fault>(())
            } else {
                Err::<(), Fault>(Fault::MemoryOutOfBounds)
            },
            final(self)@ == if old(self)@.in_memory(addr as int) {
                old(self)@.with_mem(addr as int, value)
            } else {
                old(self)@
            },
    {
        if addr < MEM_SIZE {
            self.mem[addr] = value;
            Ok(())
        } else {
            Err(Fault::MemoryOutOfBounds)
        }
    }

    /// Reads a register. `r0` reads as 0.
    pub fn reg(&self, r: Reg) -> (value: Word)
        ensures
            value == self@.reg(r),
    {
        match r {
            Reg::r0 => 0,
            _ => self.regs[r.index()],
        }
    }

    /// Returns the address of the instruction after the current one.
    pub fn next_pc(&self) -> (next: Word)
        ensures
            next == self@.next_pc(),
    {
        let low: Word = (self.pc % 0x1_0000) as Word;
        proof {
            lemma_wrap16_twice(self.pc as int, 1);
        }
        add_words(low, 1)
    }
}

impl Pipeline for Processor {
    fn fetch(&self) -> (r: Result<Word, Fault>) {
        if self.pc >= MEM_SIZE - 1 {
            Err(Fault::MemoryOutOfBounds)
        } else {
            Ok(self.mem[self.pc])
        }
    }

    fn decode(&self, word: &Word) -> (inst: Inst) {
        decode(word)
    }

    fn execute(&self, inst: Inst) -> (ex: Executed) {
        let next_pc = self.next_pc();
        match inst {
            Inst::RRR { op, ra, rb, rc } => {
                let a = self.reg(ra);
                let b = self.reg(rb);
                let value = match op {
                    Opcode::ADD => add_words(a, b),
                    _ => !(a & b),
                };
                Executed { dest: Some(rc), value, mem_op: MemOp::Idle, next_pc }
            },
            Inst::RRI { op, ra, rb, simm } => {
                let a = self.reg(ra);
                let sum = add_offset(a, simm);
                match op {
                    Opcode::ADDI => Executed {
                        dest: Some(rb),
                        value: sum,
                        mem_op: MemOp::Idle,
                        next_pc,
                    },
                    Opcode::LW => Executed {
                        dest: Some(rb),
                        value: 0,
                        mem_op: MemOp::Load { addr: sum },
                        next_pc,
                    },
                    Opcode::SW => Executed {
                        dest: None,
                        value: 0,
                        mem_op: MemOp::Store { addr: sum, value: self.reg(rb) },
                        next_pc,
                    },
                    Opcode::BEQ => {
                        let taken = a == self.reg(rb);
                        proof {
                            lemma_wrap16_twice(self.pc + 1, simm as int);
                        }
                        Executed {
                            dest: None,
                            value: 0,
                            mem_op: MemOp::Idle,
                            next_pc: if taken {
                                add_offset(next_pc, simm)
                            } else {
                                next_pc
                            },
                        }
                    },
                    _ => Executed {
                        dest: Some(rb),
                        value: next_pc,
                        mem_op: MemOp::Idle,
                        next_pc: a,
                    },
                }
            },
            Inst::RI { ra, imm, .. } => Executed {
                dest: Some(ra),
                value: load_upper(imm),
                mem_op: MemOp::Idle,
                next_pc,
            },
        }
    }

    fn memory(&mut self, ex: &Executed) -> (r: Result<Word, Fault>)
        ensures
            r is Err ==> *final(self) == *old(self),
            final(self).pc == old(self).pc,
            final(self).regs == old(self).regs,
            final(self).tick == old(self).tick,
    {
        match ex.mem_op {
            MemOp::Idle => Ok(ex.value),
            MemOp::Load { addr } => {
                let at: usize = addr as usize;
                if at < MEM_SIZE {
                    Ok(self.mem[at])
                } else {
                    Err(Fault::MemoryOutOfBounds)
                }
            },
            MemOp::Store { addr, value } => {
                let at: usize = addr as usize;
                if at < MEM_SIZE {
                    self.mem[at] = value;
                    Ok(ex.value)
                } else {
                    Err(Fault::MemoryOutOfBounds)
                }
            },
        }
    }

    fn writeback(&mut self, ex: &Executed, value: Word)
        ensures
            final(self).regs[0] == 0,
            final(self).mem == old(self).mem,
            final(self).tick == old(self).tick,
    {
        match ex.dest {
            Some(r) => {
                self.regs[r.index()] = value;
            },
            None => {},
        }
        self.regs[0] = 0;
        self.pc = ex.next_pc as usize;
    }
}

impl Processor {
    /// Carries out one decoded instruction: execute, memory, write-back.
    /// The step counter is left alone. Where the instruction faults, the
    /// processor is left as it was.
    pub fn apply(&mut self, inst: Inst) -> (r: Result<(), Fault>)
        requires
            inst.wf(),
        ensures
            match apply_spec(inst, old(self)@) {
                Ok(next) => r is Ok && final(self)@ == next,
                Err(fault) => r == Err::<(), Fault>(fault) && *final(self) == *old(self),
            },
            r is Ok ==> final(self).regs[0] == 0,
            final(self).tick == old(self).tick,
    {
        proof {
            lemma_stages_apply(inst, self@);
        }
        let ex = self.execute(inst);
        match self.memory(&ex) {
            Err(fault) => Err(fault),
            Ok(value) => {
                self.writeback(&ex, value);
                Ok(())
            },
        }
    }

    /// Carries out one step: fetches the word at the program counter,
    /// decodes it, carries the instruction out and counts the step. Where
    /// the fetch or the instruction faults, the processor is left as it
    /// was, step counter included.
    pub fn step(&mut self) -> (r: Result<(), Fault>)
        requires
            old(self).tick < u64::MAX,
        ensures
            match step_spec(old(self)@) {
                Ok(next) => r is Ok && final(self)@ == next,
                Err(fault) => r == Err::<(), Fault>(fault) && *final(self) == *old(self),
            },
            r is Ok ==> final(self).regs[0] == 0,
    {
        let word = match self.fetch() {
            Ok(word) => word,
            Err(fault) => {
                return Err(fault);
            },
        };
        let inst = self.decode(&word);
        match self.apply(inst) {
            Err(fault) => Err(fault),
            Ok(()) => {
                self.tick = self.tick + 1;
                Ok(())
            },
        }
    }

    /// Steps until a step faults or the budget is used up, whichever comes
    /// first. The budget is the caller's limit, if there is one, and in any
    /// case no more than the step counter can still count. The machine has
    /// no halt instruction: a program that loops runs until the budget ends.
    ///
    /// Returns the fault that ended the run, with the processor in the state
    /// before the step that faulted.
    pub fn run(&mut self, max_steps: Option<u64>) -> (r: Result<(), Fault>)
        ensures
            (final(self)@, r) == run_spec(old(self)@, run_budget(old(self).tick, max_steps)),
    {
        let room: u64 = u64::MAX - self.tick;
        let mut left: u64 = match max_steps {
            Some(limit) => if limit < room {
                limit
            } else {
                room
            },
            None => room,
        };
        while left > 0
            invariant
                left <= u64::MAX - self.tick,
                run_spec(self@, left as nat) == run_spec(
                    old(self)@,
                    run_budget(old(self).tick, max_steps),
                ),
            decreases left,
        {
            match self.step() {
                Err(fault) => {
                    return Err(fault);
                },
                Ok(()) => {},
            }
            left = left - 1;
        }
        Ok(())
    }
}

} // verus!
