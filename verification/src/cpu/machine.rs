//! The mathematical model of the machine and the meaning of its
//! instructions: what a fetch reads, what each opcode does to the state, and
//! what a step and a run of steps are.
//!
//! Everything here is specification. The processor in `scalar` is verified
//! against it.
use vstd::prelude::*;
use crate::cpu::arch::{Inst, Opcode, Reg, Word};
use crate::cpu::decoder::decode_spec;

verus! {

/// Why a step could not be carried out.
#[derive(Clone, Copy, Debug, PartialEq, Eq, Structural, Hash)]
pub enum Fault {
    /// A fetch, a load or a store addressed a word outside the memory.
    MemoryOutOfBounds,
}

/// The state of the machine as a mathematical value.
pub struct Machine {
    /// Program counter: the address of the next instruction word.
    pub pc: nat,
    /// Register file, `r0` first.
    pub regs: Seq<Word>,
    /// Memory, one word per address.
    pub mem: Seq<Word>,
    /// Number of steps carried out so far.
    pub tick: nat,
}

/// The 16-bit word that an integer is congruent to modulo 2^16.
pub open spec fn wrap16(x: int) -> Word {
    (x % 0x1_0000) as Word
}

/// The word that LUI loads: the immediate in bits 15..6, zeros in bits 5..0.
pub open spec fn lui_value(imm: u16) -> Word {
    wrap16(imm * 0x40)
}

impl Machine {
    /// The state has eight registers.
    pub open spec fn sized(self) -> bool {
        self.regs.len() == 8
    }

    /// The state has eight registers and `r0` holds 0.
    pub open spec fn inv(self) -> bool {
        self.sized() && self.regs[0] == 0
    }

    /// What a read of the register gives. `r0` reads as 0 whatever the
    /// register file holds.
    pub open spec fn reg(self, r: Reg) -> Word {
        if r == Reg::r0 {
            0
        } else {
            self.regs[r.number() as int]
        }
    }

    /// The address is that of a word of the memory.
    pub open spec fn in_memory(self, addr: int) -> bool {
        0 <= addr < self.mem.len()
    }

    /// The address of the instruction that follows the current one.
    pub open spec fn next_pc(self) -> Word {
        wrap16(self.pc as int + 1)
    }

    /// The address that a load or store with the given base register and
    /// offset refers to: their 16-bit sum.
    pub open spec fn effective_address(self, base: Reg, simm: i8) -> Word {
        wrap16(self.reg(base) + simm)
    }

    /// The state with the value written to the register.
    pub open spec fn with_reg(self, r: Reg, value: Word) -> Machine {
        Machine { regs: self.regs.update(r.number() as int, value), ..self }
    }

    /// The state with the value written to the memory word.
    pub open spec fn with_mem(self, addr: int, value: Word) -> Machine {
        Machine { mem: self.mem.update(addr, value), ..self }
    }

    /// The state as an instruction leaves it: whatever was written to `r0`
    /// is discarded, so `r0` holds 0, and the program counter is set.
    pub open spec fn commit(self, pc: Word) -> Machine {
        Machine { pc: pc as nat, regs: self.regs.update(0, 0), ..self }
    }
}

/// What a fetch reads: the word at the program counter. The fetch fails
/// unless the address after the program counter is in the memory too.
pub open spec fn fetch_spec(m: Machine) -> Result<Word, Fault> {
    if m.pc + 1 < m.mem.len() {
        Ok(m.mem[m.pc as int])
    } else {
        Err(Fault::MemoryOutOfBounds)
    }
}

/// What an instruction does to the state. All arithmetic is modulo 2^16.
/// The step counter is left alone.
///
/// | opcode | effect |
/// |--------|--------|
/// | ADD    | rc <- ra + rb |
/// | NAND   | rc <- !(ra & rb) |
/// | ADDI   | rb <- ra + simm |
/// | LUI    | ra <- imm << 6 |
/// | LW     | rb <- mem[ra + simm] |
/// | SW     | mem[ra + simm] <- rb |
/// | BEQ    | pc <- pc + 1 + simm where ra == rb |
/// | JALR   | rb <- pc + 1, pc <- ra as it was before |
///
/// Where nothing else is said, pc <- pc + 1.
pub open spec fn apply_spec(inst: Inst, m: Machine) -> Result<Machine, Fault>
    recommends
        inst.wf(),
{
    match inst {
        Inst::RRR { op, ra, rb, rc } => {
            let value = if op == Opcode::ADD {
                wrap16(m.reg(ra) + m.reg(rb))
            } else {
                !(m.reg(ra) & m.reg(rb))
            };
            Ok(m.with_reg(rc, value).commit(m.next_pc()))
        },
        Inst::RRI { op, ra, rb, simm } => {
            let addr = m.effective_address(ra, simm);
            if op == Opcode::ADDI {
                Ok(m.with_reg(rb, wrap16(m.reg(ra) + simm)).commit(m.next_pc()))
            } else if op == Opcode::LW {
                if m.in_memory(addr as int) {
                    Ok(m.with_reg(rb, m.mem[addr as int]).commit(m.next_pc()))
                } else {
                    Err(Fault::MemoryOutOfBounds)
                }
            } else if op == Opcode::SW {
                if m.in_memory(addr as int) {
                    Ok(m.with_mem(addr as int, m.reg(rb)).commit(m.next_pc()))
                } else {
                    Err(Fault::MemoryOutOfBounds)
                }
            } else if op == Opcode::BEQ {
                if m.reg(ra) == m.reg(rb) {
                    Ok(m.commit(wrap16(m.pc + 1 + simm)))
                } else {
                    Ok(m.commit(m.next_pc()))
                }
            } else {
                Ok(m.with_reg(rb, m.next_pc()).commit(m.reg(ra)))
            }
        },
        Inst::RI { ra, imm, .. } => Ok(m.with_reg(ra, lui_value(imm)).commit(m.next_pc())),
    }
}

/// What one step does: fetch, decode, apply, count. A step that fails has no
/// next state.
pub open spec fn step_spec(m: Machine) -> Result<Machine, Fault> {
    match fetch_spec(m) {
        Err(fault) => Err(fault),
        Ok(word) => match apply_spec(decode_spec(word), m) {
            Err(fault) => Err(fault),
            Ok(next) => Ok(Machine { tick: m.tick + 1, ..next }),
        },
    }
}

/// What a run of at most `budget` steps does: the state that it ends in, and
/// the fault that ended it if one did. A run ends at the first step that
/// fails, in the state before that step.
pub open spec fn run_spec(m: Machine, budget: nat) -> (Machine, Result<(), Fault>)
    decreases budget,
{
    if budget == 0 {
        (m, Ok(()))
    } else {
        match step_spec(m) {
            Err(fault) => (m, Err(fault)),
            Ok(next) => run_spec(next, (budget - 1) as nat),
        }
    }
}

/// The register that an instruction writes, if it writes one.
pub open spec fn dest_spec(inst: Inst) -> Option<Reg>
    recommends
        inst.wf(),
{
    match inst {
        Inst::RRR { rc, .. } => Some(rc),
        Inst::RRI { op, rb, .. } => if op == Opcode::SW || op == Opcode::BEQ {
            None
        } else {
            Some(rb)
        },
        Inst::RI { ra, .. } => Some(ra),
    }
}

/// A fetch succeeds exactly where the program counter and the address after
/// it are both in the memory. So the last word of the memory cannot be
/// fetched, and the first can wherever the memory has two words or more.
pub proof fn lemma_fetch_bounds(m: Machine)
    ensures
        fetch_spec(m) is Ok <==> m.in_memory(m.pc as int) && m.in_memory(m.pc as int + 1),
        fetch_spec(m) matches Ok(word) ==> word == m.mem[m.pc as int],
        fetch_spec(m) matches Err(fault) ==> fault == Fault::MemoryOutOfBounds,
        m.pc == m.mem.len() - 1 ==> fetch_spec(m) is Err,
        m.pc == 0 && m.mem.len() >= 2 ==> fetch_spec(m) == Ok::<Word, Fault>(m.mem[0]),
{
}

/// Addition modulo 2^16 wraps around: a sum that does not fit loses 2^16
/// and nothing else.
pub proof fn lemma_wrap16_sum(a: Word, b: Word)
    ensures
        wrap16(a + b) == if a + b < 0x1_0000 {
            a + b
        } else {
            a + b - 0x1_0000
        },
{
}

/// Adding a signed offset modulo 2^16 wraps around at both ends.
pub proof fn lemma_wrap16_offset(a: Word, simm: i8)
    ensures
        wrap16(a + simm) == if a + simm < 0 {
            a + simm + 0x1_0000
        } else if a + simm < 0x1_0000 {
            a + simm
        } else {
            a + simm - 0x1_0000
        },
{
}

/// The word that LUI loads is the immediate shifted left by six: it has
/// the immediate in bits 15..6 and zeros in bits 5..0.
pub proof fn lemma_lui_value(imm: u16)
    requires
        imm < 1024,
    ensures
        lui_value(imm) == imm * 0x40,
        lui_value(imm) / 0x40 == imm,
        lui_value(imm) % 0x40 == 0,
        lui_value(imm) == imm << 6,
{
    assert(imm << 6 == imm * 0x40) by (bit_vector)
        requires
            imm < 1024,
    ;
}

/// NAND inverts every bit of the AND.
pub proof fn lemma_nand_value(a: Word, b: Word)
    ensures
        !(a & b) == 0xffff - (a & b),
        !(a & b) == !a | !b,
{
    assert(!(a & b) == 0xffff - (a & b)) by (bit_vector);
    assert(!(a & b) == !a | !b) by (bit_vector);
}

/// An instruction faults exactly where it is a load or a store whose
/// effective address is outside the memory. Every other instruction is
/// carried out.
pub proof fn lemma_fault_sources(inst: Inst, m: Machine)
    requires
        inst.wf(),
    ensures
        apply_spec(inst, m) is Err <==> (inst matches Inst::RRI { op, ra, simm, .. } && (op
            == Opcode::LW || op == Opcode::SW) && !m.in_memory(
            m.effective_address(ra, simm) as int,
        )),
        apply_spec(inst, m) matches Err(fault) ==> fault == Fault::MemoryOutOfBounds,
{
}

/// `r0` is hard-wired to zero: whatever an instruction computes and
/// whichever register it targets, `r0` holds 0 once the instruction is
/// done. The shape of the state and the step counter stay as they were.
pub proof fn lemma_apply_clears_r0(inst: Inst, m: Machine)
    requires
        m.sized(),
    ensures
        apply_spec(inst, m) matches Ok(next) ==> {
            &&& next.inv()
            &&& next.regs[0] == 0
            &&& next.reg(Reg::r0) == 0
            &&& next.mem.len() == m.mem.len()
            &&& next.tick == m.tick
        },
{
}

/// A write to `r0` is discarded: an instruction whose destination is `r0`
/// leaves the whole register file as it was.
pub proof fn lemma_write_to_r0_discarded(inst: Inst, m: Machine)
    requires
        inst.wf(),
        m.inv(),
        dest_spec(inst) == Some(Reg::r0),
    ensures
        apply_spec(inst, m) matches Ok(next) ==> next.regs == m.regs,
{
    match apply_spec(inst, m) {
        Ok(next) => {
            assert(next.regs =~= m.regs);
        },
        Err(_) => {},
    }
}

/// An instruction changes no register but its destination, and no memory
/// word but the one that SW stores to.
pub proof fn lemma_apply_frame(inst: Inst, m: Machine, r: Reg, addr: int)
    requires
        inst.wf(),
        m.inv(),
        apply_spec(inst, m) is Ok,
    ensures
        dest_spec(inst) != Some(r) ==> apply_spec(inst, m)->Ok_0.reg(r) == m.reg(r),
        !(inst matches Inst::RRI { op: Opcode::SW, ra, simm, .. } && addr == m.effective_address(
            ra,
            simm,
        )) && m.in_memory(addr) ==> apply_spec(inst, m)->Ok_0.mem[addr] == m.mem[addr],
{
}

/// A taken BEQ goes to the address after the branch plus the offset; one
/// that is not taken goes to the address after the branch. Nothing else
/// changes.
pub proof fn lemma_beq(ra: Reg, rb: Reg, simm: i8, m: Machine)
    requires
        m.inv(),
    ensures
        apply_spec(Inst::RRI { op: Opcode::BEQ, ra, rb, simm }, m) matches Ok(next) && {
            &&& next.pc == if m.reg(ra) == m.reg(rb) {
                wrap16(m.pc + 1 + simm)
            } else {
                m.next_pc()
            }
            &&& next.regs == m.regs
            &&& next.mem == m.mem
        },
{
    let next = apply_spec(Inst::RRI { op: Opcode::BEQ, ra, rb, simm }, m)->Ok_0;
    assert(next.regs =~= m.regs);
}

/// JALR reads before it writes: the jump goes to what the base register
/// held before the instruction, and the link register gets the address
/// after the instruction, also where the two are one register.
pub proof fn lemma_jalr(ra: Reg, rb: Reg, simm: i8, m: Machine)
    requires
        m.sized(),
    ensures
        apply_spec(Inst::RRI { op: Opcode::JALR, ra, rb, simm }, m) matches Ok(next) && {
            &&& next.pc == m.reg(ra)
            &&& rb != Reg::r0 ==> next.reg(rb) == m.next_pc()
            &&& next.mem == m.mem
        },
{
}

/// A step that succeeds counts itself, leaves `r0` at 0 and keeps the
/// shape of the state.
pub proof fn lemma_step_clears_r0(m: Machine)
    requires
        m.sized(),
    ensures
        step_spec(m) matches Ok(next) ==> {
            &&& next.inv()
            &&& next.regs[0] == 0
            &&& next.mem.len() == m.mem.len()
            &&& next.tick == m.tick + 1
        },
{
    match fetch_spec(m) {
        Ok(word) => {
            lemma_apply_clears_r0(decode_spec(word), m);
        },
        Err(_) => {},
    }
}

/// Every state that a run passes through has `r0` at 0, if the first has.
/// The step counter never goes back: it grows by the number of steps
/// taken, which is the whole budget where the run ends without a fault.
/// A run that ends with a fault ends in a state whose next step faults.
pub proof fn lemma_run_invariant(m: Machine, budget: nat)
    requires
        m.inv(),
    ensures
        run_spec(m, budget).0.inv(),
        run_spec(m, budget).0.mem.len() == m.mem.len(),
        m.tick <= run_spec(m, budget).0.tick <= m.tick + budget,
        run_spec(m, budget).1 is Ok ==> run_spec(m, budget).0.tick == m.tick + budget,
        run_spec(m, budget).1 matches Err(fault) ==> step_spec(run_spec(m, budget).0) == Err::<
            Machine,
            Fault,
        >(fault),
    decreases budget,
{
    if budget > 0 {
        match step_spec(m) {
            Ok(next) => {
                lemma_step_clears_r0(m);
                lemma_run_invariant(next, (budget - 1) as nat);
            },
            Err(_) => {},
        }
    }
}

/// A run can be cut in two: running `first` steps and then `rest` more is
/// running `first + rest` steps, unless the first part ends with a fault.
pub proof fn lemma_run_split(m: Machine, first: nat, rest: nat)
    ensures
        run_spec(m, first + rest) == if run_spec(m, first).1 is Ok {
            run_spec(run_spec(m, first).0, rest)
        } else {
            run_spec(m, first)
        },
    decreases first,
{
    if first > 0 {
        match step_spec(m) {
            Ok(next) => {
                lemma_run_split(next, (first - 1) as nat, rest);
                assert((first + rest - 1) as nat == (first - 1) as nat + rest);
            },
            Err(_) => {},
        }
    }
}

} // verus!
