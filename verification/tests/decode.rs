use chip8::fault::Fault;
use chip8::instruction::{decode, Instruction};

#[test]
fn decodes_every_instruction() {
    let cases: Vec<(u16, Instruction)> = vec![
        (0x00E0, Instruction::Cls),
        (0x00EE, Instruction::Ret),
        (0x1ABC, Instruction::Jp { addr: 0xABC }),
        (0x2ABC, Instruction::Call { addr: 0xABC }),
        (0x3A12, Instruction::SeByte { x: 0xA, kk: 0x12 }),
        (0x4A12, Instruction::SneByte { x: 0xA, kk: 0x12 }),
        (0x5AB0, Instruction::SeReg { x: 0xA, y: 0xB }),
        (0x6A12, Instruction::LdByte { x: 0xA, kk: 0x12 }),
        (0x7A12, Instruction::AddByte { x: 0xA, kk: 0x12 }),
        (0x8AB0, Instruction::LdReg { x: 0xA, y: 0xB }),
        (0x8AB1, Instruction::Or { x: 0xA, y: 0xB }),
        (0x8AB2, Instruction::And { x: 0xA, y: 0xB }),
        (0x8AB3, Instruction::Xor { x: 0xA, y: 0xB }),
        (0x8AB4, Instruction::AddReg { x: 0xA, y: 0xB }),
        (0x8AB5, Instruction::SubReg { x: 0xA, y: 0xB }),
        (0x8AB6, Instruction::Shr { x: 0xA, y: 0xB }),
        (0x8AB7, Instruction::Subn { x: 0xA, y: 0xB }),
        (0x8ABE, Instruction::Shl { x: 0xA, y: 0xB }),
        (0x9AB0, Instruction::SneReg { x: 0xA, y: 0xB }),
        (0xAABC, Instruction::LdI { addr: 0xABC }),
        (0xBABC, Instruction::JpV0 { addr: 0xABC }),
        (0xCA12, Instruction::Rnd { x: 0xA, kk: 0x12 }),
        (0xDAB7, Instruction::Drw { x: 0xA, y: 0xB, n: 0x7 }),
        (0xEA9E, Instruction::Skp { x: 0xA }),
        (0xEAA1, Instruction::Sknp { x: 0xA }),
        (0xFA07, Instruction::LdVxDt { x: 0xA }),
        (0xFA0A, Instruction::LdVxK { x: 0xA }),
        (0xFA15, Instruction::LdDtVx { x: 0xA }),
        (0xFA18, Instruction::LdStVx { x: 0xA }),
        (0xFA1E, Instruction::AddI { x: 0xA }),
        (0xFA29, Instruction::LdF { x: 0xA }),
        (0xFA33, Instruction::LdB { x: 0xA }),
        (0xFA55, Instruction::StoreRegs { x: 0xA }),
        (0xFA65, Instruction::LoadRegs { x: 0xA }),
    ];
    for (op, ins) in cases {
        assert_eq!(decode(op), Ok(ins), "opcode {:04X}", op);
    }
}

#[test]
fn rejects_words_that_match_no_pattern() {
    for op in [
        0x0000u16, 0x00E1, 0x00EF, 0x0123, 0x01E0, 0x5AB1, 0x5ABF, 0x8AB8, 0x8AB9, 0x8ABA, 0x8ABB,
        0x8ABC, 0x8ABD, 0x8ABF, 0x9AB1, 0xEA9F, 0xEAA0, 0xE000, 0xFA00, 0xFA08, 0xFA16, 0xFA1F,
        0xFA30, 0xFA56, 0xFA66, 0xFFFF,
    ] {
        assert_eq!(decode(op), Err(Fault::UnsupportedOpcode { opcode: op }), "opcode {:04X}", op);
    }
}

#[test]
fn operand_extremes() {
    assert_eq!(decode(0x1000), Ok(Instruction::Jp { addr: 0x000 }));
    assert_eq!(decode(0x1FFF), Ok(Instruction::Jp { addr: 0xFFF }));
    assert_eq!(decode(0x6000), Ok(Instruction::LdByte { x: 0, kk: 0 }));
    assert_eq!(decode(0x6FFF), Ok(Instruction::LdByte { x: 0xF, kk: 0xFF }));
    assert_eq!(decode(0xD000), Ok(Instruction::Drw { x: 0, y: 0, n: 0 }));
    assert_eq!(decode(0xDFFF), Ok(Instruction::Drw { x: 0xF, y: 0xF, n: 0xF }));
}

#[test]
fn every_word_decodes_to_at_most_one_instruction_and_back() {
    // Count the words that decode, per leading digit, against the patterns:
    // each pattern with k free digits stands for 16^k words.
    let mut recognised = [0u32; 16];
    let mut seen = std::collections::HashSet::new();
    for op in 0..=0xFFFFu16 {
        if let Ok(ins) = decode(op) {
            recognised[(op >> 12) as usize] += 1;
            // No instruction comes from two different words.
            assert!(seen.insert(format!("{:?}", ins)), "opcode {:04X}", op);
        } else {
            assert_eq!(decode(op), Err(Fault::UnsupportedOpcode { opcode: op }));
        }
    }
    assert_eq!(recognised[0x0], 2);
    for digit in [0x1, 0x2, 0x3, 0x4, 0x6, 0x7, 0xA, 0xB, 0xC, 0xD] {
        assert_eq!(recognised[digit], 4096, "digit {:X}", digit);
    }
    assert_eq!(recognised[0x5], 256);
    assert_eq!(recognised[0x8], 9 * 256);
    assert_eq!(recognised[0x9], 256);
    assert_eq!(recognised[0xE], 2 * 16);
    assert_eq!(recognised[0xF], 9 * 16);
}
