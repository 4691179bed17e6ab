//! Pure instruction decoding: a 16-bit opcode is mapped to a tagged
//! variant, totally over the whole 16-bit domain.

use vstd::prelude::*;

verus! {

/// A decoded CHIP-8 instruction, one variant per instruction family.
///
/// Register indices `x` and `y` are the second and third nibbles of the
/// opcode, `n` the lowest nibble, `kk` the low byte and `nnn` the low
/// 12 bits. An opcode that matches no defined case decodes to `Invalid`.
#[derive(Clone, Copy, PartialEq, Eq, Structural, Debug)]
pub enum Instruction {
    /// `00E0`: clear the screen.
    ClearScreen,
    /// `00EE`: return from a subroutine.
    Return,
    /// `1nnn`: jump to address `nnn`.
    Jump { nnn: u16 },
    /// `2nnn`: call the subroutine at `nnn`.
    Call { nnn: u16 },
    /// `3xkk`: skip the next instruction if `Vx == kk`.
    SkipEqImm { x: u8, kk: u8 },
    /// `4xkk`: skip the next instruction if `Vx != kk`.
    SkipNeImm { x: u8, kk: u8 },
    /// `5xy0`: skip the next instruction if `Vx == Vy`.
    SkipEqReg { x: u8, y: u8 },
    /// `6xkk`: set `Vx = kk`.
    SetImm { x: u8, kk: u8 },
    /// `7xkk`: set `Vx = Vx + kk`, wrapping, no flag effect.
    AddImm { x: u8, kk: u8 },
    /// `8xy0`: set `Vx = Vy`.
    Assign { x: u8, y: u8 },
    /// `8xy1`: set `Vx = Vx | Vy`.
    Or { x: u8, y: u8 },
    /// `8xy2`: set `Vx = Vx & Vy`.
    And { x: u8, y: u8 },
    /// `8xy3`: set `Vx = Vx ^ Vy`.
    Xor { x: u8, y: u8 },
    /// `8xy4`: set `Vx = Vx + Vy`; `VF` is the carry out of bit 7.
    AddReg { x: u8, y: u8 },
    /// `8xy5`: set `Vx = Vx - Vy`, wrapping; `VF = 1` means no borrow.
    SubReg { x: u8, y: u8 },
    /// `8xy6`: shift `Vx` right by one; `VF` is the bit shifted out.
    ShiftRight { x: u8 },
    /// `8xy7`: set `Vx = Vy - Vx`, wrapping; `VF = 1` means no borrow.
    SubFrom { x: u8, y: u8 },
    /// `8xyE`: shift `Vx` left by one; `VF` is the bit shifted out.
    ShiftLeft { x: u8 },
    /// `9xy0`: skip the next instruction if `Vx != Vy`.
    SkipNeReg { x: u8, y: u8 },
    /// `Annn`: set `I = nnn`.
    SetIndex { nnn: u16 },
    /// `Bnnn`: jump to `V0 + nnn`.
    JumpV0 { nnn: u16 },
    /// `Cxkk`: set `Vx` to a random byte masked with `kk`.
    Random { x: u8, kk: u8 },
    /// `Dxyn`: draw the `n`-byte sprite at `I` at position `(Vx, Vy)`.
    Draw { x: u8, y: u8, n: u8 },
    /// `Ex9E`: skip the next instruction if key `Vx` is pressed.
    SkipKeyPressed { x: u8 },
    /// `ExA1`: skip the next instruction if key `Vx` is not pressed.
    SkipKeyNotPressed { x: u8 },
    /// `Fx07`: set `Vx` to the delay timer.
    ReadDelay { x: u8 },
    /// `Fx0A`: block until a key press, then store the key in `Vx`.
    WaitKey { x: u8 },
    /// `Fx15`: set the delay timer to `Vx`.
    SetDelay { x: u8 },
    /// `Fx18`: set the sound timer to `Vx`.
    SetSound { x: u8 },
    /// `Fx1E`: set `I = I + Vx`; `VF = 1` if the sum exceeds `0xFFF`.
    AddIndex { x: u8 },
    /// `Fx29`: point `I` at the font glyph for digit `Vx`.
    FontChar { x: u8 },
    /// `Fx33`: store the decimal digits of `Vx` at `I`, `I+1`, `I+2`.
    StoreBcd { x: u8 },
    /// `Fx55`: copy `V0..=Vx` into memory starting at `I`.
    StoreRegs { x: u8 },
    /// `Fx65`: load `V0..=Vx` from memory starting at `I`.
    LoadRegs { x: u8 },
    /// Any opcode that matches no defined case.
    Invalid { opcode: u16 },
}

/// The decode table as a mathematical function over the opcode.
pub open spec fn spec_decode(op: u16) -> Instruction {
    let x = ((op >> 8) & 0xF) as u8;
    let y = ((op >> 4) & 0xF) as u8;
    let n = (op & 0xF) as u8;
    let kk = (op & 0xFF) as u8;
    let nnn = op & 0xFFF;
    if op == 0x00E0 {
        Instruction::ClearScreen
    } else if op == 0x00EE {
        Instruction::Return
    } else if op >> 12 == 0x1 {
        Instruction::Jump { nnn }
    } else if op >> 12 == 0x2 {
        Instruction::Call { nnn }
    } else if op >> 12 == 0x3 {
        Instruction::SkipEqImm { x, kk }
    } else if op >> 12 == 0x4 {
        Instruction::SkipNeImm { x, kk }
    } else if op >> 12 == 0x5 && n == 0 {
        Instruction::SkipEqReg { x, y }
    } else if op >> 12 == 0x6 {
        Instruction::SetImm { x, kk }
    } else if op >> 12 == 0x7 {
        Instruction::AddImm { x, kk }
    } else if op >> 12 == 0x8 {
        if n == 0x0 {
            Instruction::Assign { x, y }
        } else if n == 0x1 {
            Instruction::Or { x, y }
        } else if n == 0x2 {
            Instruction::And { x, y }
        } else if n == 0x3 {
            Instruction::Xor { x, y }
        } else if n == 0x4 {
            Instruction::AddReg { x, y }
        } else if n == 0x5 {
            Instruction::SubReg { x, y }
        } else if n == 0x6 {
            Instruction::ShiftRight { x }
        } else if n == 0x7 {
            Instruction::SubFrom { x, y }
        } else if n == 0xE {
            Instruction::ShiftLeft { x }
        } else {
            Instruction::Invalid { opcode: op }
        }
    } else if op >> 12 == 0x9 && n == 0 {
        Instruction::SkipNeReg { x, y }
    } else if op >> 12 == 0xA {
        Instruction::SetIndex { nnn }
    } else if op >> 12 == 0xB {
        Instruction::JumpV0 { nnn }
    } else if op >> 12 == 0xC {
        Instruction::Random { x, kk }
    } else if op >> 12 == 0xD {
        Instruction::Draw { x, y, n }
    } else if op >> 12 == 0xE && kk == 0x9E {
        Instruction::SkipKeyPressed { x }
    } else if op >> 12 == 0xE && kk == 0xA1 {
        Instruction::SkipKeyNotPressed { x }
    } else if op >> 12 == 0xF {
        if kk == 0x07 {
            Instruction::ReadDelay { x }
        } else if kk == 0x0A {
            Instruction::WaitKey { x }
        } else if kk == 0x15 {
            Instruction::SetDelay { x }
        } else if kk == 0x18 {
            Instruction::SetSound { x }
        } else if kk == 0x1E {
            Instruction::AddIndex { x }
        } else if kk == 0x29 {
            Instruction::FontChar { x }
        } else if kk == 0x33 {
            Instruction::StoreBcd { x }
        } else if kk == 0x55 {
            Instruction::StoreRegs { x }
        } else if kk == 0x65 {
            Instruction::LoadRegs { x }
        } else {
            Instruction::Invalid { opcode: op }
        }
    } else {
        Instruction::Invalid { opcode: op }
    }
}

/// Every register index a decoded instruction carries is below 16, every
/// sprite height below 16 and every address below 4096.
pub open spec fn fields_bounded(instr: Instruction) -> bool {
    match instr {
        Instruction::Jump { nnn } => nnn < 4096,
        Instruction::Call { nnn } => nnn < 4096,
        Instruction::SkipEqImm { x, .. } => x < 16,
        Instruction::SkipNeImm { x, .. } => x < 16,
        Instruction::SkipEqReg { x, y } => x < 16 && y < 16,
        Instruction::SetImm { x, .. } => x < 16,
        Instruction::AddImm { x, .. } => x < 16,
        Instruction::Assign { x, y } => x < 16 && y < 16,
        Instruction::Or { x, y } => x < 16 && y < 16,
        Instruction::And { x, y } => x < 16 && y < 16,
        Instruction::Xor { x, y } => x < 16 && y < 16,
        Instruction::AddReg { x, y } => x < 16 && y < 16,
        Instruction::SubReg { x, y } => x < 16 && y < 16,
        Instruction::ShiftRight { x } => x < 16,
        Instruction::SubFrom { x, y } => x < 16 && y < 16,
        Instruction::ShiftLeft { x } => x < 16,
        Instruction::SkipNeReg { x, y } => x < 16 && y < 16,
        Instruction::SetIndex { nnn } => nnn < 4096,
        Instruction::JumpV0 { nnn } => nnn < 4096,
        Instruction::Random { x, .. } => x < 16,
        Instruction::Draw { x, y, n } => x < 16 && y < 16 && n < 16,
        Instruction::SkipKeyPressed { x } => x < 16,
        Instruction::SkipKeyNotPressed { x } => x < 16,
        Instruction::ReadDelay { x } => x < 16,
        Instruction::WaitKey { x } => x < 16,
        Instruction::SetDelay { x } => x < 16,
        Instruction::SetSound { x } => x < 16,
        Instruction::AddIndex { x } => x < 16,
        Instruction::FontChar { x } => x < 16,
        Instruction::StoreBcd { x } => x < 16,
        Instruction::StoreRegs { x } => x < 16,
        Instruction::LoadRegs { x } => x < 16,
        _ => true,
    }
}

/// The fields extracted by `spec_decode` always satisfy `fields_bounded`.
pub proof fn lemma_decode_bounded(op: u16)
    ensures
        fields_bounded(spec_decode(op)),
{
    assert(((op >> 8) & 0xF) < 16 && ((op >> 4) & 0xF) < 16 && (op & 0xF) < 16 && (op & 0xFFF)
        < 4096) by (bit_vector);
}

/// Decode a 16-bit opcode. Total: no side effects and no error cases.
pub fn decode(op: u16) -> (instr: Instruction)
    ensures
        instr == spec_decode(op),
        fields_bounded(instr),
{
    proof {
        lemma_decode_bounded(op);
    }
    let x: u8 = ((op >> 8) & 0xF) as u8;
    let y: u8 = ((op >> 4) & 0xF) as u8;
    let n: u8 = (op & 0xF) as u8;
    let kk: u8 = (op & 0xFF) as u8;
    let nnn: u16 = op & 0xFFF;
    if op == 0x00E0 {
        Instruction::ClearScreen
    } else if op == 0x00EE {
        Instruction::Return
    } else if op >> 12 == 0x1 {
        Instruction::Jump { nnn }
    } else if op >> 12 == 0x2 {
        Instruction::Call { nnn }
    } else if op >> 12 == 0x3 {
        Instruction::SkipEqImm { x, kk }
    } else if op >> 12 == 0x4 {
        Instruction::SkipNeImm { x, kk }
    } else if op >> 12 == 0x5 && n == 0 {
        Instruction::SkipEqReg { x, y }
    } else if op >> 12 == 0x6 {
        Instruction::SetImm { x, kk }
    } else if op >> 12 == 0x7 {
        Instruction::AddImm { x, kk }
    } else if op >> 12 == 0x8 {
        if n == 0x0 {
            Instruction::Assign { x, y }
        } else if n == 0x1 {
            Instruction::Or { x, y }
        } else if n == 0x2 {
            Instruction::And { x, y }
        } else if n == 0x3 {
            Instruction::Xor { x, y }
        } else if n == 0x4 {
            Instruction::AddReg { x, y }
        } else if n == 0x5 {
            Instruction::SubReg { x, y }
        } else if n == 0x6 {
            Instruction::ShiftRight { x }
        } else if n == 0x7 {
            Instruction::SubFrom { x, y }
        } else if n == 0xE {
            Instruction::ShiftLeft { x }
        } else {
            Instruction::Invalid { opcode: op }
        }
    } else if op >> 12 == 0x9 && n == 0 {
        Instruction::SkipNeReg { x, y }
    } else if op >> 12 == 0xA {
        Instruction::SetIndex { nnn }
    } else if op >> 12 == 0xB {
        Instruction::JumpV0 { nnn }
    } else if op >> 12 == 0xC {
        Instruction::Random { x, kk }
    } else if op >> 12 == 0xD {
        Instruction::Draw { x, y, n }
    } else if op >> 12 == 0xE && kk == 0x9E {
        Instruction::SkipKeyPressed { x }
    } else if op >> 12 == 0xE && kk == 0xA1 {
        Instruction::SkipKeyNotPressed { x }
    } else if op >> 12 == 0xF {
        if kk == 0x07 {
            Instruction::ReadDelay { x }
        } else if kk == 0x0A {
            Instruction::WaitKey { x }
        } else if kk == 0x15 {
            Instruction::SetDelay { x }
        } else if kk == 0x18 {
            Instruction::SetSound { x }
        } else if kk == 0x1E {
            Instruction::AddIndex { x }
        } else if kk == 0x29 {
            Instruction::FontChar { x }
        } else if kk == 0x33 {
            Instruction::StoreBcd { x }
        } else if kk == 0x55 {
            Instruction::StoreRegs { x }
        } else if kk == 0x65 {
            Instruction::LoadRegs { x }
        } else {
            Instruction::Invalid { opcode: op }
        }
    } else {
        Instruction::Invalid { opcode: op }
    }
}

} // verus!
