//! The decoder: bit-exact extraction of the fields of an instruction word,
//! the instruction that a word stands for, and the word that stands for an
//! instruction.
//!
//! | format | 15..13 | 12..10 | 9..7 | 6..3 | 2..0 |
//! |--------|--------|--------|------|------|------|
//! | RRR    | opcode | ra     | rb   | -    | rc   |
//! | RRI    | opcode | ra     | rb   | simm (6..0) |
//! | RI     | opcode | ra     | imm (9..0)         |
//!
//! The fields are specified as numbers, by division and remainder. The code
//! reads them with shifts and masks, and is proved to read the same numbers;
//! `lemma_fields_by_bits` gives each field bit by bit.
use vstd::prelude::*;
use crate::cpu::arch::{
    Format, Inst, Opcode, Reg, Word, IMM_MASK, OPCODE_SHIFT, RA_SHIFT, RB_SHIFT, REG_MASK, SIMM_MASK,
};

verus! {

/// The position of a register field in an instruction word.
#[derive(Clone, Copy, Debug, PartialEq, Eq, Structural, Hash)]
pub enum RegField {
    /// Bits 12..10.
    A,
    /// Bits 9..7.
    B,
    /// Bits 2..0.
    C,
}

/// Bit `i` of the word, bit 0 being the least significant.
pub open spec fn bit(word: Word, i: u16) -> u16 {
    (word >> i) & 1
}

/// Bits 15..13 of the word, as a number from 0 to 7.
pub open spec fn opcode_field(word: Word) -> u16 {
    word / 0x2000
}

/// The three bits of the word in the given register field, as a number from
/// 0 to 7.
pub open spec fn reg_field(word: Word, field: RegField) -> u16 {
    match field {
        RegField::A => (word / 0x400) % 8,
        RegField::B => (word / 0x80) % 8,
        RegField::C => word % 8,
    }
}

/// Bits 6..0 of the word, as a number from 0 to 127.
pub open spec fn simm_field(word: Word) -> u16 {
    word % 0x80
}

/// Bits 9..0 of the word, as a number from 0 to 1023.
pub open spec fn imm_field(word: Word) -> u16 {
    word % 0x400
}

/// The value of a 7-bit field read in two's complement: bit 6 is the sign.
pub open spec fn sign_extend(raw: u16) -> i8
    recommends
        raw < 128,
{
    if raw >= 64 {
        (raw - 128) as i8
    } else {
        raw as i8
    }
}

/// The 7-bit field that holds a signed immediate in two's complement.
pub open spec fn simm_bits(simm: i8) -> u16
    recommends
        -64 <= simm <= 63,
{
    if simm < 0 {
        (simm + 128) as u16
    } else {
        simm as u16
    }
}

/// The instruction that a word stands for. The opcode field alone selects
/// the encoding; bits that the encoding does not use are ignored.
pub open spec fn decode_spec(word: Word) -> Inst {
    let op = Opcode::of_code(opcode_field(word));
    let ra = Reg::of_number(reg_field(word, RegField::A));
    let rb = Reg::of_number(reg_field(word, RegField::B));
    let rc = Reg::of_number(reg_field(word, RegField::C));
    match op.format_spec() {
        Format::RRR => Inst::RRR { op, ra, rb, rc },
        Format::RRI => Inst::RRI { op, ra, rb, simm: sign_extend(simm_field(word)) },
        Format::RI => Inst::RI { op, ra, imm: imm_field(word) },
    }
}

/// The word that stands for an instruction: each field at its position,
/// and 0 in bits 6..3 of an RRR word.
pub open spec fn encode_spec(inst: Inst) -> Word
    recommends
        inst.wf(),
{
    match inst {
        Inst::RRR { op, ra, rb, rc } => (op.code() * 0x2000 + ra.number() * 0x400 + rb.number()
            * 0x80 + rc.number()) as Word,
        Inst::RRI { op, ra, rb, simm } => (op.code() * 0x2000 + ra.number() * 0x400 + rb.number()
            * 0x80 + simm_bits(simm)) as Word,
        Inst::RI { op, ra, imm } => (op.code() * 0x2000 + ra.number() * 0x400 + imm) as Word,
    }
}

/// Shifting and masking reads the fields.
pub proof fn lemma_fields_by_shift_and_mask(word: Word)
    ensures
        opcode_field(word) == word >> 13,
        reg_field(word, RegField::A) == (word >> 10) & 0x7,
        reg_field(word, RegField::B) == (word >> 7) & 0x7,
        reg_field(word, RegField::C) == word & 0x7,
        simm_field(word) == word & 0x7f,
        imm_field(word) == word & 0x3ff,
{
    assert(word / 0x2000 == word >> 13) by (bit_vector);
    assert((word / 0x400) % 8 == (word >> 10) & 0x7) by (bit_vector);
    assert((word / 0x80) % 8 == (word >> 7) & 0x7) by (bit_vector);
    assert(word % 8 == word & 0x7) by (bit_vector);
    assert(word % 0x80 == word & 0x7f) by (bit_vector);
    assert(word % 0x400 == word & 0x3ff) by (bit_vector);
}

/// The fields bit by bit, most significant bit first. The signed immediate
/// is in two's complement: its top bit counts -64.
pub proof fn lemma_fields_by_bits(word: Word)
    ensures
        opcode_field(word) == 4 * bit(word, 15) + 2 * bit(word, 14) + bit(word, 13),
        reg_field(word, RegField::A) == 4 * bit(word, 12) + 2 * bit(word, 11) + bit(word, 10),
        reg_field(word, RegField::B) == 4 * bit(word, 9) + 2 * bit(word, 8) + bit(word, 7),
        reg_field(word, RegField::C) == 4 * bit(word, 2) + 2 * bit(word, 1) + bit(word, 0),
        simm_field(word) == 64 * bit(word, 6) + 32 * bit(word, 5) + 16 * bit(word, 4) + 8 * bit(
            word,
            3,
        ) + 4 * bit(word, 2) + 2 * bit(word, 1) + bit(word, 0),
        sign_extend(simm_field(word)) == -64 * bit(word, 6) + 32 * bit(word, 5) + 16 * bit(
            word,
            4,
        ) + 8 * bit(word, 3) + 4 * bit(word, 2) + 2 * bit(word, 1) + bit(word, 0),
        imm_field(word) == 512 * bit(word, 9) + 256 * bit(word, 8) + 128 * bit(word, 7)
            + simm_field(word),
{
    assert(word / 0x2000 == 4 * ((word >> 15) & 1) + 2 * ((word >> 14) & 1) + ((word >> 13) & 1))
        by (bit_vector);
    assert((word / 0x400) % 8 == 4 * ((word >> 12) & 1) + 2 * ((word >> 11) & 1) + ((word >> 10)
        & 1)) by (bit_vector);
    assert((word / 0x80) % 8 == 4 * ((word >> 9) & 1) + 2 * ((word >> 8) & 1) + ((word >> 7) & 1))
        by (bit_vector);
    assert(word % 8 == 4 * ((word >> 2) & 1) + 2 * ((word >> 1) & 1) + ((word >> 0) & 1))
        by (bit_vector);
    assert(word % 0x80 == 64 * ((word >> 6) & 1) + 32 * ((word >> 5) & 1) + 16 * ((word >> 4) & 1)
        + 8 * ((word >> 3) & 1) + 4 * ((word >> 2) & 1) + 2 * ((word >> 1) & 1) + ((word >> 0)
        & 1)) by (bit_vector);
    assert(word % 0x400 == 512 * ((word >> 9) & 1) + 256 * ((word >> 8) & 1) + 128 * ((word >> 7)
        & 1) + word % 0x80) by (bit_vector);
    assert((word >> 6) & 1 == 0 || (word >> 6) & 1 == 1) by (bit_vector);
    assert(word % 0x80 < 64 <==> (word >> 6) & 1 == 0) by (bit_vector);
}

/// Reads the opcode in bits 15..13.
pub fn get_opcode(word: &Word) -> (op: Opcode)
    ensures
        op == Opcode::of_code(opcode_field(*word)),
        op.code() == opcode_field(*word),
{
    proof {
        lemma_fields_by_shift_and_mask(*word);
    }
    Opcode::from_bits(*word >> OPCODE_SHIFT)
}

/// Reads the register in the given field.
pub fn get_reg(word: &Word, field: RegField) -> (reg: Reg)
    ensures
        reg == Reg::of_number(reg_field(*word, field)),
        reg.number() == reg_field(*word, field),
{
    proof {
        lemma_fields_by_shift_and_mask(*word);
    }
    match field {
        RegField::A => Reg::from_bits((*word >> RA_SHIFT) & REG_MASK),
        RegField::B => Reg::from_bits((*word >> RB_SHIFT) & REG_MASK),
        RegField::C => Reg::from_bits(*word & REG_MASK),
    }
}

/// Reads the signed immediate in bits 6..0: the raw field where it is under
/// 64, the raw field less 128 where it is not.
pub fn get_simm(word: &Word) -> (simm: i8)
    ensures
        simm == sign_extend(simm_field(*word)),
        simm == if simm_field(*word) >= 64 {
            simm_field(*word) - 128
        } else {
            simm_field(*word) as int
        },
        -64 <= simm <= 63,
{
    proof {
        lemma_fields_by_shift_and_mask(*word);
    }
    let raw: u16 = *word & SIMM_MASK;
    if raw >= 64 {
        (raw as i16 - 128) as i8
    } else {
        raw as i8
    }
}

/// Reads the unsigned immediate in bits 9..0.
pub fn get_imm(word: &Word) -> (imm: u16)
    ensures
        imm == imm_field(*word),
        imm < 1024,
{
    proof {
        lemma_fields_by_shift_and_mask(*word);
    }
    *word & IMM_MASK
}

/// Decodes a word. Every word stands for a well-formed instruction.
pub fn decode(word: &Word) -> (inst: Inst)
    ensures
        inst == decode_spec(*word),
        inst.wf(),
{
    let op = get_opcode(word);
    match op {
        Opcode::ADD | Opcode::NAND => Inst::RRR {
            op,
            ra: get_reg(word, RegField::A),
            rb: get_reg(word, RegField::B),
            rc: get_reg(word, RegField::C),
        },
        Opcode::ADDI | Opcode::LW | Opcode::SW | Opcode::BEQ | Opcode::JALR => Inst::RRI {
            op,
            ra: get_reg(word, RegField::A),
            rb: get_reg(word, RegField::B),
            simm: get_simm(word),
        },
        Opcode::LUI => Inst::RI { op, ra: get_reg(word, RegField::A), imm: get_imm(word) },
    }
}

/// Fields that do not overlap can be put together with `|` as well as
/// with `+`.
proof fn lemma_pack(op: u16, a: u16, b: u16, low: u16, imm: u16)
    by (bit_vector)
    requires
        op < 8,
        a < 8,
        b < 8,
        low < 128,
        imm < 1024,
    ensures
        (op << 13) | (a << 10) | (b << 7) | low == op * 0x2000 + a * 0x400 + b * 0x80 + low,
        (op << 13) | (a << 10) | imm == op * 0x2000 + a * 0x400 + imm,
{
}

/// A word put together from fields that fit their widths has those fields.
proof fn lemma_unpack(word: Word, op: u16, a: u16, b: u16, low: u16)
    by (bit_vector)
    requires
        op < 8,
        a < 8,
        b < 8,
        low < 128,
        word == op * 0x2000 + a * 0x400 + b * 0x80 + low,
    ensures
        word / 0x2000 == op,
        (word / 0x400) % 8 == a,
        (word / 0x80) % 8 == b,
        word % 0x80 == low,
        low < 8 ==> word % 8 == low,
{
}

/// A word put together from an opcode, a register and a 10-bit field has
/// those fields.
proof fn lemma_unpack_wide(word: Word, op: u16, a: u16, imm: u16)
    by (bit_vector)
    requires
        op < 8,
        a < 8,
        imm < 1024,
        word == op * 0x2000 + a * 0x400 + imm,
    ensures
        word / 0x2000 == op,
        (word / 0x400) % 8 == a,
        word % 0x400 == imm,
{
}

/// A word is put together from its own fields.
proof fn lemma_repack(word: Word)
    by (bit_vector)
    ensures
        (word / 0x2000) * 0x2000 + ((word / 0x400) % 8) * 0x400 + ((word / 0x80) % 8) * 0x80 + word
            % 0x80 == word,
        (word / 0x2000) * 0x2000 + ((word / 0x400) % 8) * 0x400 + word % 0x400 == word,
        (word / 0x2000) * 0x2000 + ((word / 0x400) % 8) * 0x400 + ((word / 0x80) % 8) * 0x80 + word
            % 8 == word - 8 * ((word / 8) % 16),
{
}

/// Round trip: decoding the word of a well-formed instruction gives the
/// instruction back.
pub proof fn lemma_decode_encode(inst: Inst)
    requires
        inst.wf(),
    ensures
        decode_spec(encode_spec(inst)) == inst,
{
    let word = encode_spec(inst);
    match inst {
        Inst::RRR { op, ra, rb, rc } => {
            lemma_unpack(word, op.code(), ra.number(), rb.number(), rc.number());
        },
        Inst::RRI { op, ra, rb, simm } => {
            lemma_unpack(word, op.code(), ra.number(), rb.number(), simm_bits(simm));
        },
        Inst::RI { op, ra, imm } => {
            lemma_unpack_wide(word, op.code(), ra.number(), imm);
        },
    }
}

/// Every word decodes to a well-formed instruction: there is no invalid
/// opcode and no invalid register.
pub proof fn lemma_decode_total(word: Word)
    ensures
        decode_spec(word).wf(),
        decode_spec(word).opcode_spec().code() == opcode_field(word),
{
}

/// Encoding what a word decodes to gives the word back, with bits 6..3
/// cleared where the word holds an RRR instruction.
pub proof fn lemma_encode_decode(word: Word)
    ensures
        encode_spec(decode_spec(word)) == if decode_spec(word) is RRR {
            word - 8 * ((word / 8) % 16)
        } else {
            word as int
        },
{
    lemma_repack(word);
}

/// Decoding an RRR word does not look at bits 6..3: two words that differ
/// in those bits alone hold the same instruction.
pub proof fn lemma_rrr_unused_bits(word: Word, other: Word)
    requires
        decode_spec(word) is RRR,
        word / 0x80 == other / 0x80,
        word % 8 == other % 8,
    ensures
        decode_spec(other) == decode_spec(word),
{
}

/// Encodes a well-formed instruction.
pub fn encode(inst: &Inst) -> (word: Word)
    requires
        inst.wf(),
    ensures
        word == encode_spec(*inst),
        decode_spec(word) == *inst,
{
    proof {
        lemma_decode_encode(*inst);
    }
    match *inst {
        Inst::RRR { op, ra, rb, rc } => {
            proof {
                lemma_pack(op.code(), ra.number(), rb.number(), rc.number(), 0);
            }
            (op.bits() << OPCODE_SHIFT) | (ra.bits() << RA_SHIFT) | (rb.bits() << RB_SHIFT) | rc.bits()
        },
        Inst::RRI { op, ra, rb, simm } => {
            let low: u16 = if simm < 0 {
                (simm as i16 + 128) as u16
            } else {
                simm as u16
            };
            proof {
                lemma_pack(op.code(), ra.number(), rb.number(), low, 0);
            }
            (op.bits() << OPCODE_SHIFT) | (ra.bits() << RA_SHIFT) | (rb.bits() << RB_SHIFT) | low
        },
        Inst::RI { op, ra, imm } => {
            proof {
                lemma_pack(op.code(), ra.number(), 0, 0, imm);
            }
            (op.bits() << OPCODE_SHIFT) | (ra.bits() << RA_SHIFT) | imm
        },
    }
}

} // verus!
