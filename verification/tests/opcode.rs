use chip8::error::Chip8Error;
use chip8::opcode::{decode, fields, word, Fields, Instruction};

#[test]
fn a_word_is_cut_into_its_hex_digits() {
    assert_eq!(
        Fields { op: 0xA, x: 0xB, y: 0xC, n: 0xD, kk: 0xCD, addr: 0xBCD },
        fields(0xABCD)
    );
    assert_eq!(Fields { op: 0, x: 0, y: 0, n: 0, kk: 0, addr: 0 }, fields(0x0000));
    assert_eq!(
        Fields { op: 0xF, x: 0xF, y: 0xF, n: 0xF, kk: 0xFF, addr: 0xFFF },
        fields(0xFFFF)
    );
    for opcode in 0..=0xFFFFu16 {
        let f = fields(opcode);
        assert_eq!((opcode >> 12) as u8, f.op);
        assert_eq!(((opcode >> 8) & 0xF) as u8, f.x);
        assert_eq!(((opcode >> 4) & 0xF) as u8, f.y);
        assert_eq!((opcode & 0xF) as u8, f.n);
        assert_eq!((opcode & 0xFF) as u8, f.kk);
        assert_eq!(opcode & 0xFFF, f.addr);
    }
}

#[test]
fn the_high_byte_comes_first() {
    assert_eq!(0x1234, word(0x12, 0x34));
    assert_eq!(0x00E0, word(0x00, 0xE0));
    assert_eq!(0xFF00, word(0xFF, 0x00));
    assert_eq!(0x00FF, word(0x00, 0xFF));
}

#[test]
fn every_instruction_is_decoded() {
    let table: Vec<(u16, Instruction)> = vec![
        (0x0123, Instruction::Sys { addr: 0x123 }),
        (0x0000, Instruction::Sys { addr: 0x000 }),
        (0x00E0, Instruction::Cls),
        (0x00EE, Instruction::Ret),
        (0x1200, Instruction::Jp { addr: 0x200 }),
        (0x2ABC, Instruction::Call { addr: 0xABC }),
        (0x3A42, Instruction::SeByte { x: 0xA, kk: 0x42 }),
        (0x4B07, Instruction::SneByte { x: 0xB, kk: 0x07 }),
        (0x5120, Instruction::SeReg { x: 1, y: 2 }),
        (0x6005, Instruction::LdByte { x: 0, kk: 5 }),
        (0x7FFF, Instruction::AddByte { x: 0xF, kk: 0xFF }),
        (0x8120, Instruction::LdReg { x: 1, y: 2 }),
        (0x8121, Instruction::Or { x: 1, y: 2 }),
        (0x8122, Instruction::And { x: 1, y: 2 }),
        (0x8123, Instruction::Xor { x: 1, y: 2 }),
        (0x8124, Instruction::AddReg { x: 1, y: 2 }),
        (0x8125, Instruction::Sub { x: 1, y: 2 }),
        (0x8126, Instruction::Shr { x: 1, y: 2 }),
        (0x8127, Instruction::Subn { x: 1, y: 2 }),
        (0x812E, Instruction::Shl { x: 1, y: 2 }),
        (0x9340, Instruction::SneReg { x: 3, y: 4 }),
        (0xA123, Instruction::LdI { addr: 0x123 }),
        (0xBFFF, Instruction::JpV0 { addr: 0xFFF }),
        (0xC70F, Instruction::Rnd { x: 7, kk: 0x0F }),
        (0xD125, Instruction::Drw { x: 1, y: 2, n: 5 }),
        (0xE29E, Instruction::Skp { x: 2 }),
        (0xE2A1, Instruction::Sknp { x: 2 }),
        (0xF307, Instruction::LdFromDelay { x: 3 }),
        (0xF30A, Instruction::LdKey { x: 3 }),
        (0xF315, Instruction::LdDelay { x: 3 }),
        (0xF318, Instruction::LdSound { x: 3 }),
        (0xF31E, Instruction::AddI { x: 3 }),
        (0xF329, Instruction::LdFont { x: 3 }),
        (0xF333, Instruction::Bcd { x: 3 }),
        (0xF355, Instruction::Store { x: 3 }),
        (0xF365, Instruction::Load { x: 3 }),
    ];
    for (opcode, instruction) in table {
        assert_eq!(Ok(instruction), decode(opcode));
    }
}

#[test]
fn words_that_are_no_instruction_are_refused() {
    for opcode in [
        0x5121u16, 0x512F, 0x8128, 0x8129, 0x812A, 0x812B, 0x812C, 0x812D, 0x812F, 0x9341, 0x934F,
        0xE000, 0xE29F, 0xE2A0, 0xE2FF, 0xF000, 0xF308, 0xF30B, 0xF366, 0xF3FF, 0xFFFF,
    ] {
        assert_eq!(Err(Chip8Error::IllegalOpcode), decode(opcode));
    }
}

#[test]
fn decoding_depends_on_the_word_alone() {
    let mut legal: u32 = 0;
    for opcode in 0..=0xFFFFu16 {
        let first = decode(opcode);
        let second = decode(opcode);
        assert_eq!(first, second);
        if first.is_ok() {
            legal += 1;
        }
    }
    // Families 0-4, 6, 7, A-D decode every word: 11 * 4096. Families 5 and 9
    // take one last digit in sixteen, family 8 nine in sixteen; families E
    // and F take two and nine low bytes for each register.
    assert_eq!(11 * 4096 + 2 * 256 + 9 * 256 + 2 * 16 + 9 * 16, legal);
}
