use vstd::prelude::*;

verus! {

/// One decoded CHIP-8 instruction. Register indices are below 16, immediates
/// below 256, addresses below 4096 and sprite heights below 16.
#[derive(Clone, Copy, Debug, PartialEq, Eq, Structural)]
pub enum Instruction {
    /// `00E0`
    ClearScreen,
    /// `00EE`
    Return,
    /// `1nnn`
    Jump(usize),
    /// `2nnn`
    Call(usize),
    /// `3xnn`
    SkipEqImm(usize, usize),
    /// `4xnn`
    SkipNeImm(usize, usize),
    /// `5xy_`
    SkipEqReg(usize, usize),
    /// `6xnn`
    SetImm(usize, usize),
    /// `7xnn`
    AddImm(usize, usize),
    /// `8xy0`
    Move(usize, usize),
    /// `8xy1`
    Or(usize, usize),
    /// `8xy2`
    And(usize, usize),
    /// `8xy3`
    Xor(usize, usize),
    /// `8xy4`
    AddCarry(usize, usize),
    /// `8xy5`
    Sub(usize, usize),
    /// `8xy6`
    ShiftRight(usize),
    /// `8xy7`
    SubReverse(usize, usize),
    /// `8xyE`
    ShiftLeft(usize),
    /// `9xy_`
    SkipNeReg(usize, usize),
    /// `Annn`
    SetIndex(usize),
    /// `Bnnn`
    JumpOffset(usize),
    /// `Cxnn`
    Random(usize, usize),
    /// `Dxyn`
    Draw(usize, usize, usize),
    /// `Ex9E`
    SkipKey(usize),
    /// `ExA1`
    SkipNotKey(usize),
    /// `Fx07`
    GetDelay(usize),
    /// `Fx0A`
    WaitKey(usize),
    /// `Fx15`
    SetDelay(usize),
    /// `Fx18`
    SetSound(usize),
    /// `Fx1E`
    AddIndex(usize),
    /// `Fx29`
    FontGlyph(usize),
    /// `Fx33`
    Bcd(usize),
    /// `Fx55`
    StoreRegs(usize),
    /// `Fx65`
    LoadRegs(usize),
    /// Any word that matches none of the patterns above.
    Unknown(u16),
}

/// Nibble `k` of an instruction word, counting from the most significant (k = 0).
pub open spec fn nibble(w: u16, k: int) -> int {
    (w as int / pow16(3 - k)) % 16
}

pub open spec fn pow16(e: int) -> int {
    if e == 0 {
        1
    } else if e == 1 {
        16
    } else if e == 2 {
        256
    } else {
        4096
    }
}

/// The low twelve bits: the address operand.
pub open spec fn addr_of(w: u16) -> usize {
    (w as int % 4096) as usize
}

/// The low eight bits: the immediate operand.
pub open spec fn imm_of(w: u16) -> usize {
    (w as int % 256) as usize
}

/// The decoding table: which instruction a word denotes.
pub open spec fn decode_spec(w: u16) -> Instruction {
    let a = nibble(w, 0);
    let x = nibble(w, 1) as usize;
    let y = nibble(w, 2) as usize;
    let n = nibble(w, 3);
    if w == 0x00E0 {
        Instruction::ClearScreen
    } else if w == 0x00EE {
        Instruction::Return
    } else if a == 1 {
        Instruction::Jump(addr_of(w))
    } else if a == 2 {
        Instruction::Call(addr_of(w))
    } else if a == 3 {
        Instruction::SkipEqImm(x, imm_of(w))
    } else if a == 4 {
        Instruction::SkipNeImm(x, imm_of(w))
    } else if a == 5 {
        Instruction::SkipEqReg(x, y)
    } else if a == 6 {
        Instruction::SetImm(x, imm_of(w))
    } else if a == 7 {
        Instruction::AddImm(x, imm_of(w))
    } else if a == 8 && n == 0 {
        Instruction::Move(x, y)
    } else if a == 8 && n == 1 {
        Instruction::Or(x, y)
    } else if a == 8 && n == 2 {
        Instruction::And(x, y)
    } else if a == 8 && n == 3 {
        Instruction::Xor(x, y)
    } else if a == 8 && n == 4 {
        Instruction::AddCarry(x, y)
    } else if a == 8 && n == 5 {
        Instruction::Sub(x, y)
    } else if a == 8 && n == 6 {
        Instruction::ShiftRight(x)
    } else if a == 8 && n == 7 {
        Instruction::SubReverse(x, y)
    } else if a == 8 && n == 0xE {
        Instruction::ShiftLeft(x)
    } else if a == 9 {
        Instruction::SkipNeReg(x, y)
    } else if a == 0xA {
        Instruction::SetIndex(addr_of(w))
    } else if a == 0xB {
        Instruction::JumpOffset(addr_of(w))
    } else if a == 0xC {
        Instruction::Random(x, imm_of(w))
    } else if a == 0xD {
        Instruction::Draw(x, y, n as usize)
    } else if a == 0xE && imm_of(w) == 0x9E {
        Instruction::SkipKey(x)
    } else if a == 0xE && imm_of(w) == 0xA1 {
        Instruction::SkipNotKey(x)
    } else if a == 0xF && imm_of(w) == 0x07 {
        Instruction::GetDelay(x)
    } else if a == 0xF && imm_of(w) == 0x0A {
        Instruction::WaitKey(x)
    } else if a == 0xF && imm_of(w) == 0x15 {
        Instruction::SetDelay(x)
    } else if a == 0xF && imm_of(w) == 0x18 {
        Instruction::SetSound(x)
    } else if a == 0xF && imm_of(w) == 0x1E {
        Instruction::AddIndex(x)
    } else if a == 0xF && imm_of(w) == 0x29 {
        Instruction::FontGlyph(x)
    } else if a == 0xF && imm_of(w) == 0x33 {
        Instruction::Bcd(x)
    } else if a == 0xF && imm_of(w) == 0x55 {
        Instruction::StoreRegs(x)
    } else if a == 0xF && imm_of(w) == 0x65 {
        Instruction::LoadRegs(x)
    } else {
        Instruction::Unknown(w)
    }
}

/// The instruction word stored big-endian in two bytes.
pub open spec fn word_of(high: u8, low: u8) -> u16 {
    (high as int * 256 + low as int) as u16
}

/// Joins two bytes into an instruction word.
pub fn join_bytes(high: u8, low: u8) -> (w: u16)
    ensures
        w == word_of(high, low),
{
    (high as u16) * 256 + (low as u16)
}

/// Splits an instruction word into its four nibbles and routes it to an
/// instruction.
pub fn decode(w: u16) -> (i: Instruction)
    ensures
        i == decode_spec(w),
{
    let a: u16 = w / 4096;
    let x: usize = ((w / 256) % 16) as usize;
    let y: usize = ((w / 16) % 16) as usize;
    let n: u16 = w % 16;
    let nnn: usize = (w % 4096) as usize;
    let nn: usize = (w % 256) as usize;
    assert(a == nibble(w, 0));
    assert(x == nibble(w, 1));
    assert(y == nibble(w, 2));
    assert(n == nibble(w, 3));
    if w == 0x00E0 {
        Instruction::ClearScreen
    } else if w == 0x00EE {
        Instruction::Return
    } else if a == 1 {
        Instruction::Jump(nnn)
    } else if a == 2 {
        Instruction::Call(nnn)
    } else if a == 3 {
        Instruction::SkipEqImm(x, nn)
    } else if a == 4 {
        Instruction::SkipNeImm(x, nn)
    } else if a == 5 {
        Instruction::SkipEqReg(x, y)
    } else if a == 6 {
        Instruction::SetImm(x, nn)
    } else if a == 7 {
        Instruction::AddImm(x, nn)
    } else if a == 8 && n == 0 {
        Instruction::Move(x, y)
    } else if a == 8 && n == 1 {
        Instruction::Or(x, y)
    } else if a == 8 && n == 2 {
        Instruction::And(x, y)
    } else if a == 8 && n == 3 {
        Instruction::Xor(x, y)
    } else if a == 8 && n == 4 {
        Instruction::AddCarry(x, y)
    } else if a == 8 && n == 5 {
        Instruction::Sub(x, y)
    } else if a == 8 && n == 6 {
        Instruction::ShiftRight(x)
    } else if a == 8 && n == 7 {
        Instruction::SubReverse(x, y)
    } else if a == 8 && n == 0xE {
        Instruction::ShiftLeft(x)
    } else if a == 9 {
        Instruction::SkipNeReg(x, y)
    } else if a == 0xA {
        Instruction::SetIndex(nnn)
    } else if a == 0xB {
        Instruction::JumpOffset(nnn)
    } else if a == 0xC {
        Instruction::Random(x, nn)
    } else if a == 0xD {
        Instruction::Draw(x, y, n as usize)
    } else if a == 0xE && nn == 0x9E {
        Instruction::SkipKey(x)
    } else if a == 0xE && nn == 0xA1 {
        Instruction::SkipNotKey(x)
    } else if a == 0xF && nn == 0x07 {
        Instruction::GetDelay(x)
    } else if a == 0xF && nn == 0x0A {
        Instruction::WaitKey(x)
    } else if a == 0xF && nn == 0x15 {
        Instruction::SetDelay(x)
    } else if a == 0xF && nn == 0x18 {
        Instruction::SetSound(x)
    } else if a == 0xF && nn == 0x1E {
        Instruction::AddIndex(x)
    } else if a == 0xF && nn == 0x29 {
        Instruction::FontGlyph(x)
    } else if a == 0xF && nn == 0x33 {
        Instruction::Bcd(x)
    } else if a == 0xF && nn == 0x55 {
        Instruction::StoreRegs(x)
    } else if a == 0xF && nn == 0x65 {
        Instruction::LoadRegs(x)
    } else {
        Instruction::Unknown(w)
    }
}

/// Every operand that decoding produces lies in the range its field allows.
pub open spec fn operands_in_range(i: Instruction) -> bool {
    match i {
        Instruction::Jump(a) | Instruction::Call(a) | Instruction::SetIndex(a)
        | Instruction::JumpOffset(a) => a < 4096,
        Instruction::SkipEqImm(x, nn) | Instruction::SkipNeImm(x, nn) | Instruction::SetImm(x, nn)
        | Instruction::AddImm(x, nn) | Instruction::Random(x, nn) => x < 16 && nn < 256,
        Instruction::SkipEqReg(x, y) | Instruction::Move(x, y) | Instruction::Or(x, y)
        | Instruction::And(x, y) | Instruction::Xor(x, y) | Instruction::AddCarry(x, y)
        | Instruction::Sub(x, y) | Instruction::SubReverse(x, y)
        | Instruction::SkipNeReg(x, y) => x < 16 && y < 16,
        Instruction::Draw(x, y, n) => x < 16 && y < 16 && n < 16,
        Instruction::ShiftRight(x) | Instruction::ShiftLeft(x) | Instruction::SkipKey(x)
        | Instruction::SkipNotKey(x) | Instruction::GetDelay(x) | Instruction::WaitKey(x)
        | Instruction::SetDelay(x) | Instruction::SetSound(x) | Instruction::AddIndex(x)
        | Instruction::FontGlyph(x) | Instruction::Bcd(x) | Instruction::StoreRegs(x)
        | Instruction::LoadRegs(x) => x < 16,
        _ => true,
    }
}

/// Decoding yields operands in range.
pub proof fn lemma_decode_in_range(w: u16)
    ensures
        operands_in_range(decode_spec(w)),
{
}

} // verus!
