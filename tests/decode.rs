use chip8::instruction::{decode, join_bytes, Instruction};

#[test]
fn join_bytes_is_big_endian() {
    assert_eq!(join_bytes(0x12, 0x34), 0x1234);
    assert_eq!(join_bytes(0xFF, 0x00), 0xFF00);
}

#[test]
fn decode_fixed_words() {
    assert_eq!(decode(0x00E0), Instruction::ClearScreen);
    assert_eq!(decode(0x00EE), Instruction::Return);
}

#[test]
fn decode_operand_fields() {
    assert_eq!(decode(0x1ABC), Instruction::Jump(0xABC));
    assert_eq!(decode(0x2345), Instruction::Call(0x345));
    assert_eq!(decode(0x3A7F), Instruction::SkipEqImm(0xA, 0x7F));
    assert_eq!(decode(0x8AB4), Instruction::AddCarry(0xA, 0xB));
    assert_eq!(decode(0x8ABE), Instruction::ShiftLeft(0xA));
    assert_eq!(decode(0xBFFF), Instruction::JumpOffset(0xFFF));
    assert_eq!(decode(0xD123), Instruction::Draw(1, 2, 3));
    assert_eq!(decode(0xE59E), Instruction::SkipKey(5));
    assert_eq!(decode(0xFC65), Instruction::LoadRegs(0xC));
}

#[test]
fn decode_register_compare_ignores_last_nibble() {
    assert_eq!(decode(0x5120), Instruction::SkipEqReg(1, 2));
    assert_eq!(decode(0x5121), Instruction::SkipEqReg(1, 2));
    assert_eq!(decode(0x9347), Instruction::SkipNeReg(3, 4));
}

#[test]
fn decode_unknown_words() {
    assert_eq!(decode(0x0123), Instruction::Unknown(0x0123));
    assert_eq!(decode(0x8AB8), Instruction::Unknown(0x8AB8));
    assert_eq!(decode(0xE1FF), Instruction::Unknown(0xE1FF));
    assert_eq!(decode(0xF0FF), Instruction::Unknown(0xF0FF));
}
