//! The RiSC-16 instruction set: words, opcodes, registers and the three
//! instruction formats. Pure data, with the encodings of each as a
//! specification.
use vstd::prelude::*;

verus! {

/// The machine's unit of data and instruction: a 16-bit pattern. Bit 15 is
/// the most significant bit, bit 0 the least.
pub type Word = u16;

/// Number of general registers.
pub const NUM_REGS: usize = 8;

/// Lowest bit of the opcode field, bits 15..13.
pub const OPCODE_SHIFT: u16 = 13;

/// Lowest bit of the first register field, bits 12..10.
pub const RA_SHIFT: u16 = 10;

/// Lowest bit of the second register field, bits 9..7.
pub const RB_SHIFT: u16 = 7;

/// Mask of a 3-bit register field once shifted down to bit 0.
pub const REG_MASK: u16 = 0x7;

/// Mask of the 7-bit signed immediate, bits 6..0.
pub const SIMM_MASK: u16 = 0x7f;

/// Mask of the 10-bit unsigned immediate, bits 9..0.
pub const IMM_MASK: u16 = 0x3ff;

/// Smallest value of the signed immediate.
pub const SIMM_MIN: i8 = -64;

/// Largest value of the signed immediate.
pub const SIMM_MAX: i8 = 63;

/// Largest value of the unsigned immediate.
pub const IMM_MAX: u16 = 0x3ff;

/// The three instruction encodings.
#[derive(Clone, Copy, Debug, PartialEq, Eq, Structural, Hash)]
pub enum Format {
    /// Three registers.
    RRR,
    /// Two registers and a 7-bit signed immediate.
    RRI,
    /// One register and a 10-bit unsigned immediate.
    RI,
}

/// The operation selector, held in bits 15..13 of an instruction word.
#[derive(Clone, Copy, Debug, PartialEq, Eq, Structural, Hash)]
pub enum Opcode {
    ADD,
    ADDI,
    NAND,
    LUI,
    LW,
    SW,
    BEQ,
    JALR,
}

impl Opcode {
    /// The 3-bit code of the opcode.
    pub open spec fn code(self) -> u16 {
        match self {
            Opcode::ADD => 0,
            Opcode::ADDI => 1,
            Opcode::NAND => 2,
            Opcode::LUI => 3,
            Opcode::LW => 4,
            Opcode::SW => 5,
            Opcode::BEQ => 6,
            Opcode::JALR => 7,
        }
    }

    /// The opcode with the given 3-bit code.
    pub open spec fn of_code(code: u16) -> Opcode
        recommends
            code < 8,
    {
        if code == 0 {
            Opcode::ADD
        } else if code == 1 {
            Opcode::ADDI
        } else if code == 2 {
            Opcode::NAND
        } else if code == 3 {
            Opcode::LUI
        } else if code == 4 {
            Opcode::LW
        } else if code == 5 {
            Opcode::SW
        } else if code == 6 {
            Opcode::BEQ
        } else {
            Opcode::JALR
        }
    }

    /// Opcodes and 3-bit codes correspond one to one.
    pub proof fn lemma_codes(op: Opcode, code: u16)
        ensures
            op.code() < 8,
            Opcode::of_code(op.code()) == op,
            code < 8 ==> Opcode::of_code(code).code() == code,
    {
    }

    /// The encoding that instructions with this opcode use.
    pub open spec fn format_spec(self) -> Format {
        match self {
            Opcode::ADD | Opcode::NAND => Format::RRR,
            Opcode::LUI => Format::RI,
            Opcode::ADDI | Opcode::LW | Opcode::SW | Opcode::BEQ | Opcode::JALR => Format::RRI,
        }
    }

    /// Returns the 3-bit code of the opcode.
    pub fn bits(self) -> (code: u16)
        ensures
            code == self.code(),
            code < 8,
    {
        match self {
            Opcode::ADD => 0,
            Opcode::ADDI => 1,
            Opcode::NAND => 2,
            Opcode::LUI => 3,
            Opcode::LW => 4,
            Opcode::SW => 5,
            Opcode::BEQ => 6,
            Opcode::JALR => 7,
        }
    }

    /// Returns the opcode with the given 3-bit code.
    pub fn from_bits(code: u16) -> (op: Opcode)
        requires
            code < 8,
        ensures
            op == Opcode::of_code(code),
            op.code() == code,
    {
        match code {
            0 => Opcode::ADD,
            1 => Opcode::ADDI,
            2 => Opcode::NAND,
            3 => Opcode::LUI,
            4 => Opcode::LW,
            5 => Opcode::SW,
            6 => Opcode::BEQ,
            _ => Opcode::JALR,
        }
    }

    /// Returns the encoding that instructions with this opcode use.
    #[verifier::when_used_as_spec(format_spec)]
    pub fn format(self) -> (f: Format)
        ensures
            f == self.format_spec(),
    {
        match self {
            Opcode::ADD | Opcode::NAND => Format::RRR,
            Opcode::LUI => Format::RI,
            Opcode::ADDI | Opcode::LW | Opcode::SW | Opcode::BEQ | Opcode::JALR => Format::RRI,
        }
    }
}

/// A general register. `r0` is hard-wired to zero: it reads as 0 and a write
/// to it is discarded.
#[allow(non_camel_case_types)]
#[derive(Clone, Copy, Debug, PartialEq, Eq, Structural, Hash)]
pub enum Reg {
    r0,
    r1,
    r2,
    r3,
    r4,
    r5,
    r6,
    r7,
}

impl Reg {
    /// The register's number, which is also its 3-bit encoding.
    pub open spec fn number(self) -> u16 {
        match self {
            Reg::r0 => 0,
            Reg::r1 => 1,
            Reg::r2 => 2,
            Reg::r3 => 3,
            Reg::r4 => 4,
            Reg::r5 => 5,
            Reg::r6 => 6,
            Reg::r7 => 7,
        }
    }

    /// The register with the given number.
    pub open spec fn of_number(n: u16) -> Reg
        recommends
            n < 8,
    {
        if n == 0 {
            Reg::r0
        } else if n == 1 {
            Reg::r1
        } else if n == 2 {
            Reg::r2
        } else if n == 3 {
            Reg::r3
        } else if n == 4 {
            Reg::r4
        } else if n == 5 {
            Reg::r5
        } else if n == 6 {
            Reg::r6
        } else {
            Reg::r7
        }
    }

    /// Registers and 3-bit numbers correspond one to one.
    pub proof fn lemma_numbers(reg: Reg, n: u16)
        ensures
            reg.number() < 8,
            Reg::of_number(reg.number()) == reg,
            n < 8 ==> Reg::of_number(n).number() == n,
    {
    }

    /// Returns the register's 3-bit encoding.
    pub fn bits(self) -> (n: u16)
        ensures
            n == self.number(),
            n < 8,
    {
        match self {
            Reg::r0 => 0,
            Reg::r1 => 1,
            Reg::r2 => 2,
            Reg::r3 => 3,
            Reg::r4 => 4,
            Reg::r5 => 5,
            Reg::r6 => 6,
            Reg::r7 => 7,
        }
    }

    /// Returns the register's position in the register file.
    pub fn index(self) -> (i: usize)
        ensures
            i == self.number(),
            i < NUM_REGS,
    {
        match self {
            Reg::r0 => 0,
            Reg::r1 => 1,
            Reg::r2 => 2,
            Reg::r3 => 3,
            Reg::r4 => 4,
            Reg::r5 => 5,
            Reg::r6 => 6,
            Reg::r7 => 7,
        }
    }

    /// Returns the register with the given 3-bit encoding.
    pub fn from_bits(n: u16) -> (reg: Reg)
        requires
            n < 8,
        ensures
            reg == Reg::of_number(n),
            reg.number() == n,
    {
        match n {
            0 => Reg::r0,
            1 => Reg::r1,
            2 => Reg::r2,
            3 => Reg::r3,
            4 => Reg::r4,
            5 => Reg::r5,
            6 => Reg::r6,
            _ => Reg::r7,
        }
    }
}

/// A decoded instruction: one variant for each encoding, holding the fields
/// which that encoding has.
#[derive(Clone, Copy, Debug, PartialEq, Eq, Structural, Hash)]
pub enum Inst {
    RRR { op: Opcode, ra: Reg, rb: Reg, rc: Reg },
    RRI { op: Opcode, ra: Reg, rb: Reg, simm: i8 },
    RI { op: Opcode, ra: Reg, imm: u16 },
}

impl Inst {
    /// The instruction's opcode.
    pub open spec fn opcode_spec(self) -> Opcode {
        match self {
            Inst::RRR { op, .. } => op,
            Inst::RRI { op, .. } => op,
            Inst::RI { op, .. } => op,
        }
    }

    /// The encoding of the variant that holds the instruction.
    pub open spec fn shape(self) -> Format {
        match self {
            Inst::RRR { .. } => Format::RRR,
            Inst::RRI { .. } => Format::RRI,
            Inst::RI { .. } => Format::RI,
        }
    }

    /// An instruction is well formed when its opcode belongs to the encoding
    /// that holds it and its immediate fits the immediate's field: 7 bits in
    /// two's complement for `simm`, 10 bits unsigned for `imm`.
    pub open spec fn wf(self) -> bool {
        &&& self.opcode_spec().format_spec() == self.shape()
        &&& self matches Inst::RRI { simm, .. } ==> SIMM_MIN <= simm <= SIMM_MAX
        &&& self matches Inst::RI { imm, .. } ==> imm <= IMM_MAX
    }

    /// Returns the instruction's opcode.
    #[verifier::when_used_as_spec(opcode_spec)]
    pub fn opcode(self) -> (op: Opcode)
        ensures
            op == self.opcode_spec(),
    {
        match self {
            Inst::RRR { op, .. } => op,
            Inst::RRI { op, .. } => op,
            Inst::RI { op, .. } => op,
        }
    }

    /// Tells whether the instruction is well formed.
    pub fn is_valid(self) -> (ok: bool)
        ensures
            ok == self.wf(),
    {
        match self {
            Inst::RRR { op, .. } => matches!(op.format(), Format::RRR),
            Inst::RRI { op, simm, .. } => matches!(op.format(), Format::RRI) && SIMM_MIN <= simm
                && simm <= SIMM_MAX,
            Inst::RI { op, imm, .. } => matches!(op.format(), Format::RI) && imm <= IMM_MAX,
        }
    }
}

} // verus!
