use risc16::cpu::arch::{Format, Inst, Opcode, Reg, Word};
use risc16::cpu::decoder::{decode, encode, get_imm, get_opcode, get_reg, get_simm, RegField};

const OPCODES: [Opcode; 8] = [
    Opcode::ADD,
    Opcode::ADDI,
    Opcode::NAND,
    Opcode::LUI,
    Opcode::LW,
    Opcode::SW,
    Opcode::BEQ,
    Opcode::JALR,
];

const REGS: [Reg; 8] =
    [Reg::r0, Reg::r1, Reg::r2, Reg::r3, Reg::r4, Reg::r5, Reg::r6, Reg::r7];

#[test]
fn opcode_codes_follow_the_table() {
    assert_eq!(Opcode::ADD.bits(), 0b000);
    assert_eq!(Opcode::ADDI.bits(), 0b001);
    assert_eq!(Opcode::NAND.bits(), 0b010);
    assert_eq!(Opcode::LUI.bits(), 0b011);
    assert_eq!(Opcode::LW.bits(), 0b100);
    assert_eq!(Opcode::SW.bits(), 0b101);
    assert_eq!(Opcode::BEQ.bits(), 0b110);
    assert_eq!(Opcode::JALR.bits(), 0b111);
}

#[test]
fn opcode_codes_round_trip() {
    for code in 0..8u16 {
        assert_eq!(Opcode::from_bits(code).bits(), code);
        assert_eq!(OPCODES[code as usize], Opcode::from_bits(code));
    }
}

#[test]
fn register_codes_round_trip() {
    for n in 0..8u16 {
        let reg = Reg::from_bits(n);
        assert_eq!(reg, REGS[n as usize]);
        assert_eq!(reg.bits(), n);
        assert_eq!(reg.index(), n as usize);
    }
}

#[test]
fn each_opcode_has_one_format() {
    assert_eq!(Opcode::ADD.format(), Format::RRR);
    assert_eq!(Opcode::NAND.format(), Format::RRR);
    assert_eq!(Opcode::ADDI.format(), Format::RRI);
    assert_eq!(Opcode::LW.format(), Format::RRI);
    assert_eq!(Opcode::SW.format(), Format::RRI);
    assert_eq!(Opcode::BEQ.format(), Format::RRI);
    assert_eq!(Opcode::JALR.format(), Format::RRI);
    assert_eq!(Opcode::LUI.format(), Format::RI);
}

#[test]
fn opcode_is_read_from_the_top_three_bits() {
    assert_eq!(get_opcode(&0x0000), Opcode::ADD);
    assert_eq!(get_opcode(&0x1fff), Opcode::ADD);
    assert_eq!(get_opcode(&0x2000), Opcode::ADDI);
    assert_eq!(get_opcode(&0x4000), Opcode::NAND);
    assert_eq!(get_opcode(&0x6000), Opcode::LUI);
    assert_eq!(get_opcode(&0x8000), Opcode::LW);
    assert_eq!(get_opcode(&0xa000), Opcode::SW);
    assert_eq!(get_opcode(&0xc000), Opcode::BEQ);
    assert_eq!(get_opcode(&0xe000), Opcode::JALR);
    assert_eq!(get_opcode(&0xffff), Opcode::JALR);
}

#[test]
fn register_fields_are_read_at_their_positions() {
    // 000 101 011 0000 110
    let word: Word = 0b000_101_011_0000_110;
    assert_eq!(get_reg(&word, RegField::A), Reg::r5);
    assert_eq!(get_reg(&word, RegField::B), Reg::r3);
    assert_eq!(get_reg(&word, RegField::C), Reg::r6);
    assert_eq!(get_reg(&0x1c00, RegField::A), Reg::r7);
    assert_eq!(get_reg(&0x1c00, RegField::B), Reg::r0);
    assert_eq!(get_reg(&0x0380, RegField::B), Reg::r7);
    assert_eq!(get_reg(&0x0380, RegField::C), Reg::r0);
    assert_eq!(get_reg(&0x0007, RegField::C), Reg::r7);
    assert_eq!(get_reg(&0x0007, RegField::A), Reg::r0);
}

#[test]
fn sign_extension_of_the_seven_bit_immediate() {
    assert_eq!(get_simm(&0b111_1111), -1);
    assert_eq!(get_simm(&0b011_1111), 63);
    assert_eq!(get_simm(&0b100_0000), -64);
    assert_eq!(get_simm(&0), 0);
    assert_eq!(get_simm(&1), 1);
    assert_eq!(get_simm(&0b100_0001), -63);
}

#[test]
fn sign_extension_ignores_the_upper_bits() {
    assert_eq!(get_simm(&0xffff), -1);
    assert_eq!(get_simm(&0xff80), 0);
    assert_eq!(get_simm(&0xffbf), 63);
    assert_eq!(get_simm(&0xffc0), -64);
}

#[test]
fn sign_extension_of_every_raw_field() {
    for raw in 0..128u16 {
        let want = if raw >= 64 { raw as i16 - 128 } else { raw as i16 };
        assert_eq!(get_simm(&raw) as i16, want);
    }
}

#[test]
fn unsigned_immediate_is_the_low_ten_bits() {
    assert_eq!(get_imm(&0x03ff), 0x3ff);
    assert_eq!(get_imm(&0xffff), 0x3ff);
    assert_eq!(get_imm(&0xfc00), 0);
    assert_eq!(get_imm(&0x6201), 0x201);
    assert_eq!(get_imm(&0x0300), 0x300);
}

#[test]
fn decode_rrr() {
    let word: Word = 0b000_001_010_0000_011;
    assert_eq!(
        decode(&word),
        Inst::RRR { op: Opcode::ADD, ra: Reg::r1, rb: Reg::r2, rc: Reg::r3 }
    );
    let word: Word = 0b010_111_000_0000_100;
    assert_eq!(
        decode(&word),
        Inst::RRR { op: Opcode::NAND, ra: Reg::r7, rb: Reg::r0, rc: Reg::r4 }
    );
}

#[test]
fn decode_rrr_ignores_bits_six_to_three() {
    let clean: Word = 0b000_001_010_0000_011;
    for filler in 0..16u16 {
        let word = clean | (filler << 3);
        assert_eq!(decode(&word), decode(&clean));
    }
}

#[test]
fn decode_rri() {
    let word: Word = 0b001_001_010_1111111;
    assert_eq!(
        decode(&word),
        Inst::RRI { op: Opcode::ADDI, ra: Reg::r1, rb: Reg::r2, simm: -1 }
    );
    let word: Word = 0b100_011_100_0000101;
    assert_eq!(decode(&word), Inst::RRI { op: Opcode::LW, ra: Reg::r3, rb: Reg::r4, simm: 5 });
    let word: Word = 0b101_011_100_1000000;
    assert_eq!(decode(&word), Inst::RRI { op: Opcode::SW, ra: Reg::r3, rb: Reg::r4, simm: -64 });
    let word: Word = 0b110_000_111_0111111;
    assert_eq!(decode(&word), Inst::RRI { op: Opcode::BEQ, ra: Reg::r0, rb: Reg::r7, simm: 63 });
    let word: Word = 0b111_110_101_0000000;
    assert_eq!(decode(&word), Inst::RRI { op: Opcode::JALR, ra: Reg::r6, rb: Reg::r5, simm: 0 });
}

#[test]
fn decode_ri() {
    let word: Word = 0b011_101_1111111111;
    assert_eq!(decode(&word), Inst::RI { op: Opcode::LUI, ra: Reg::r5, imm: 0x3ff });
    let word: Word = 0b011_000_1000000001;
    assert_eq!(decode(&word), Inst::RI { op: Opcode::LUI, ra: Reg::r0, imm: 0x201 });
}

#[test]
fn decode_is_total_and_well_formed() {
    for word in 0..=u16::MAX {
        let inst = decode(&word);
        assert!(inst.is_valid());
        assert_eq!(inst.opcode().bits(), word >> 13);
        let format = match inst {
            Inst::RRR { .. } => Format::RRR,
            Inst::RRI { .. } => Format::RRI,
            Inst::RI { .. } => Format::RI,
        };
        assert_eq!(inst.opcode().format(), format);
    }
}

#[test]
fn encode_exact_words() {
    assert_eq!(
        encode(&Inst::RRR { op: Opcode::ADD, ra: Reg::r1, rb: Reg::r2, rc: Reg::r3 }),
        0b000_001_010_0000_011
    );
    assert_eq!(
        encode(&Inst::RRI { op: Opcode::ADDI, ra: Reg::r1, rb: Reg::r2, simm: -1 }),
        0b001_001_010_1111111
    );
    assert_eq!(
        encode(&Inst::RRI { op: Opcode::SW, ra: Reg::r3, rb: Reg::r4, simm: -64 }),
        0b101_011_100_1000000
    );
    assert_eq!(
        encode(&Inst::RI { op: Opcode::LUI, ra: Reg::r5, imm: 0x3ff }),
        0b011_101_1111111111
    );
}

#[test]
fn round_trip_rrr() {
    for op in [Opcode::ADD, Opcode::NAND] {
        for ra in REGS {
            for rb in REGS {
                for rc in REGS {
                    let inst = Inst::RRR { op, ra, rb, rc };
                    assert!(inst.is_valid());
                    assert_eq!(decode(&encode(&inst)), inst);
                }
            }
        }
    }
}

#[test]
fn round_trip_rri() {
    for op in [Opcode::ADDI, Opcode::LW, Opcode::SW, Opcode::BEQ, Opcode::JALR] {
        for ra in REGS {
            for rb in REGS {
                for simm in -64..=63i8 {
                    let inst = Inst::RRI { op, ra, rb, simm };
                    assert!(inst.is_valid());
                    assert_eq!(decode(&encode(&inst)), inst);
                }
            }
        }
    }
}

#[test]
fn round_trip_ri() {
    for ra in REGS {
        for imm in 0..1024u16 {
            let inst = Inst::RI { op: Opcode::LUI, ra, imm };
            assert!(inst.is_valid());
            assert_eq!(decode(&encode(&inst)), inst);
        }
    }
}

#[test]
fn encode_after_decode_gives_the_word_back() {
    for word in 0..=u16::MAX {
        let inst = decode(&word);
        let want = match inst {
            Inst::RRR { .. } => word & 0xff87,
            _ => word,
        };
        assert_eq!(encode(&inst), want);
    }
}

#[test]
fn ill_formed_instructions_are_told_apart() {
    assert!(!Inst::RRR { op: Opcode::LUI, ra: Reg::r0, rb: Reg::r0, rc: Reg::r0 }.is_valid());
    assert!(!Inst::RRR { op: Opcode::ADDI, ra: Reg::r0, rb: Reg::r0, rc: Reg::r0 }.is_valid());
    assert!(!Inst::RRI { op: Opcode::ADD, ra: Reg::r0, rb: Reg::r0, simm: 0 }.is_valid());
    assert!(!Inst::RRI { op: Opcode::ADDI, ra: Reg::r0, rb: Reg::r0, simm: 64 }.is_valid());
    assert!(!Inst::RRI { op: Opcode::ADDI, ra: Reg::r0, rb: Reg::r0, simm: -65 }.is_valid());
    assert!(Inst::RRI { op: Opcode::ADDI, ra: Reg::r0, rb: Reg::r0, simm: 63 }.is_valid());
    assert!(Inst::RRI { op: Opcode::ADDI, ra: Reg::r0, rb: Reg::r0, simm: -64 }.is_valid());
    assert!(!Inst::RI { op: Opcode::LUI, ra: Reg::r0, imm: 1024 }.is_valid());
    assert!(!Inst::RI { op: Opcode::JALR, ra: Reg::r0, imm: 0 }.is_valid());
    assert!(Inst::RI { op: Opcode::LUI, ra: Reg::r0, imm: 1023 }.is_valid());
}
