//! Decoding of two-byte instruction words into the machine's instruction set.

use vstd::prelude::*;

verus! {

/// One decoded instruction. Register operands are register indices (below 16),
/// addresses are 12-bit values and bytes are immediates.
#[derive(Clone, Copy, Debug, PartialEq, Eq, Structural)]
pub enum Instruction {
    /// 00E0: clear the screen.
    Cls,
    /// 00EE: return from a subroutine.
    Ret,
    /// 1nnn: jump to nnn.
    Jump(u16),
    /// 2nnn: call the subroutine at nnn.
    Call(u16),
    /// 3xkk: skip the next instruction if Vx == kk.
    SkipEqByte(u8, u8),
    /// 4xkk: skip the next instruction if Vx != kk.
    SkipNeByte(u8, u8),
    /// 5xy0: skip the next instruction if Vx == Vy.
    SkipEqReg(u8, u8),
    /// 6xkk: Vx := kk.
    LoadByte(u8, u8),
    /// 7xkk: Vx := Vx + kk, wrapping, flag untouched.
    AddByte(u8, u8),
    /// 8xy0: Vx := Vy.
    Copy(u8, u8),
    /// 8xy1: Vx := Vx | Vy.
    Or(u8, u8),
    /// 8xy2: Vx := Vx & Vy.
    And(u8, u8),
    /// 8xy3: Vx := Vx ^ Vy.
    Xor(u8, u8),
    /// 8xy4: Vx := Vx + Vy, flag set on carry.
    Add(u8, u8),
    /// 8xy5: Vx := Vx - Vy, flag set when there is no borrow.
    Sub(u8, u8),
    /// 8xy6: Vx := Vy >> 1, flag := the bit shifted out.
    Shr(u8, u8),
    /// 8xy7: Vx := Vy - Vx, flag set when there is no borrow.
    SubN(u8, u8),
    /// 8xyE: Vx := Vy << 1, flag := the bit shifted out.
    Shl(u8, u8),
    /// 9xy0: skip the next instruction if Vx != Vy.
    SkipNeReg(u8, u8),
    /// Annn: I := nnn.
    LoadIndex(u16),
    /// Bnnn: jump to nnn + V0.
    JumpOffset(u16),
    /// Cxkk: Vx := kk & a random byte.
    Rand(u8, u8),
    /// Dxyn: draw an n-row sprite from memory at I at (Vx, Vy).
    Draw(u8, u8, u8),
    /// Ex9E: skip the next instruction if the key Vx is pressed.
    SkipKey(u8),
    /// ExA1: skip the next instruction if the key Vx is not pressed.
    SkipNoKey(u8),
    /// Fx07: Vx := delay timer.
    LoadDelay(u8),
    /// Fx0A: wait for a key press and store the key in Vx.
    WaitKey(u8),
    /// Fx15: delay timer := Vx.
    SetDelay(u8),
    /// Fx18: sound timer := Vx.
    SetSound(u8),
    /// Fx1E: I := I + Vx, 16-bit wrapping, flag set on carry.
    AddIndex(u8),
    /// Fx29: I := address of the glyph for Vx.
    FontChar(u8),
    /// Fx33: store the decimal digits of Vx at I, I+1, I+2.
    Bcd(u8),
    /// Fx55: store V0..=Vx at I, then I := I + x + 1.
    StoreRegs(u8),
    /// Fx65: load V0..=Vx from I, then I := I + x + 1.
    LoadRegs(u8),
}

/// The four nibbles of the word whose high byte is `hi` and low byte is `lo`,
/// most significant first.
pub open spec fn nibbles_of(hi: u8, lo: u8) -> (u8, u8, u8, u8) {
    (hi / 16, hi % 16, lo / 16, lo % 16)
}

/// The word whose high byte is `hi` and low byte is `lo`.
pub open spec fn word_of(hi: u8, lo: u8) -> u16 {
    (hi as int * 256 + lo as int) as u16
}

/// The 12-bit address operand of the word `hi lo`.
pub open spec fn addr_of(hi: u8, lo: u8) -> u16 {
    ((hi % 16) as int * 256 + lo as int) as u16
}

/// What the word with high byte `hi` and low byte `lo` means, or `None` for a
/// word outside the instruction set.
pub open spec fn decode_spec(hi: u8, lo: u8) -> Option<Instruction> {
    let (a, x, y, n) = nibbles_of(hi, lo);
    let nnn = addr_of(hi, lo);
    if a == 0 {
        if hi == 0 && lo == 0xE0 {
            Some(Instruction::Cls)
        } else if hi == 0 && lo == 0xEE {
            Some(Instruction::Ret)
        } else {
            None
        }
    } else if a == 1 {
        Some(Instruction::Jump(nnn))
    } else if a == 2 {
        Some(Instruction::Call(nnn))
    } else if a == 3 {
        Some(Instruction::SkipEqByte(x, lo))
    } else if a == 4 {
        Some(Instruction::SkipNeByte(x, lo))
    } else if a == 5 {
        if n == 0 { Some(Instruction::SkipEqReg(x, y)) } else { None }
    } else if a == 6 {
        Some(Instruction::LoadByte(x, lo))
    } else if a == 7 {
        Some(Instruction::AddByte(x, lo))
    } else if a == 8 {
        if n == 0 {
            Some(Instruction::Copy(x, y))
        } else if n == 1 {
            Some(Instruction::Or(x, y))
        } else if n == 2 {
            Some(Instruction::And(x, y))
        } else if n == 3 {
            Some(Instruction::Xor(x, y))
        } else if n == 4 {
            Some(Instruction::Add(x, y))
        } else if n == 5 {
            Some(Instruction::Sub(x, y))
        } else if n == 6 {
            Some(Instruction::Shr(x, y))
        } else if n == 7 {
            Some(Instruction::SubN(x, y))
        } else if n == 0xE {
            Some(Instruction::Shl(x, y))
        } else {
            None
        }
    } else if a == 9 {
        if n == 0 { Some(Instruction::SkipNeReg(x, y)) } else { None }
    } else if a == 0xA {
        Some(Instruction::LoadIndex(nnn))
    } else if a == 0xB {
        Some(Instruction::JumpOffset(nnn))
    } else if a == 0xC {
        Some(Instruction::Rand(x, lo))
    } else if a == 0xD {
        Some(Instruction::Draw(x, y, n))
    } else if a == 0xE {
        if lo == 0x9E {
            Some(Instruction::SkipKey(x))
        } else if lo == 0xA1 {
            Some(Instruction::SkipNoKey(x))
        } else {
            None
        }
    } else {
        if lo == 0x07 {
            Some(Instruction::LoadDelay(x))
        } else if lo == 0x0A {
            Some(Instruction::WaitKey(x))
        } else if lo == 0x15 {
            Some(Instruction::SetDelay(x))
        } else if lo == 0x18 {
            Some(Instruction::SetSound(x))
        } else if lo == 0x1E {
            Some(Instruction::AddIndex(x))
        } else if lo == 0x29 {
            Some(Instruction::FontChar(x))
        } else if lo == 0x33 {
            Some(Instruction::Bcd(x))
        } else if lo == 0x55 {
            Some(Instruction::StoreRegs(x))
        } else if lo == 0x65 {
            Some(Instruction::LoadRegs(x))
        } else {
            None
        }
    }
}

/// Register operands name registers.
pub open spec fn operands_in_range(ins: Instruction) -> bool {
    match ins {
        Instruction::SkipEqByte(x, _) | Instruction::SkipNeByte(x, _) | Instruction::LoadByte(x, _)
        | Instruction::AddByte(x, _) | Instruction::Rand(x, _) => x < 16,
        Instruction::SkipEqReg(x, y) | Instruction::Copy(x, y) | Instruction::Or(x, y)
        | Instruction::And(x, y) | Instruction::Xor(x, y) | Instruction::Add(x, y)
        | Instruction::Sub(x, y) | Instruction::Shr(x, y) | Instruction::SubN(x, y)
        | Instruction::Shl(x, y) | Instruction::SkipNeReg(x, y) => x < 16 && y < 16,
        Instruction::Draw(x, y, n) => x < 16 && y < 16 && n < 16,
        Instruction::SkipKey(x) | Instruction::SkipNoKey(x) | Instruction::LoadDelay(x)
        | Instruction::WaitKey(x) | Instruction::SetDelay(x) | Instruction::SetSound(x)
        | Instruction::AddIndex(x) | Instruction::FontChar(x) | Instruction::Bcd(x)
        | Instruction::StoreRegs(x) | Instruction::LoadRegs(x) => x < 16,
        Instruction::Jump(a) | Instruction::Call(a) | Instruction::LoadIndex(a)
        | Instruction::JumpOffset(a) => a < 4096,
        _ => true,
    }
}

/// Splits the word `hi lo` into its four nibbles, most significant first.
pub fn nibbles(hi: u8, lo: u8) -> (r: (u8, u8, u8, u8))
    ensures
        r == nibbles_of(hi, lo),
        r.0 < 16 && r.1 < 16 && r.2 < 16 && r.3 < 16,
{
    (hi / 16, hi % 16, lo / 16, lo % 16)
}

/// Decodes the instruction word whose high byte is `hi` and low byte is `lo`.
pub fn decode(hi: u8, lo: u8) -> (r: Option<Instruction>)
    ensures
        r == decode_spec(hi, lo),
        r matches Some(ins) ==> operands_in_range(ins),
{
    let (a, x, y, n) = nibbles(hi, lo);
    let nnn: u16 = (x as u16) * 256 + lo as u16;
    if a == 0 {
        if hi == 0 && lo == 0xE0 {
            Some(Instruction::Cls)
        } else if hi == 0 && lo == 0xEE {
            Some(Instruction::Ret)
        } else {
            None
        }
    } else if a == 1 {
        Some(Instruction::Jump(nnn))
    } else if a == 2 {
        Some(Instruction::Call(nnn))
    } else if a == 3 {
        Some(Instruction::SkipEqByte(x, lo))
    } else if a == 4 {
        Some(Instruction::SkipNeByte(x, lo))
    } else if a == 5 {
        if n == 0 { Some(Instruction::SkipEqReg(x, y)) } else { None }
    } else if a == 6 {
        Some(Instruction::LoadByte(x, lo))
    } else if a == 7 {
        Some(Instruction::AddByte(x, lo))
    } else if a == 8 {
        match n {
            0 => Some(Instruction::Copy(x, y)),
            1 => Some(Instruction::Or(x, y)),
            2 => Some(Instruction::And(x, y)),
            3 => Some(Instruction::Xor(x, y)),
            4 => Some(Instruction::Add(x, y)),
            5 => Some(Instruction::Sub(x, y)),
            6 => Some(Instruction::Shr(x, y)),
            7 => Some(Instruction::SubN(x, y)),
            0xE => Some(Instruction::Shl(x, y)),
            _ => None,
        }
    } else if a == 9 {
        if n == 0 { Some(Instruction::SkipNeReg(x, y)) } else { None }
    } else if a == 0xA {
        Some(Instruction::LoadIndex(nnn))
    } else if a == 0xB {
        Some(Instruction::JumpOffset(nnn))
    } else if a == 0xC {
        Some(Instruction::Rand(x, lo))
    } else if a == 0xD {
        Some(Instruction::Draw(x, y, n))
    } else if a == 0xE {
        match lo {
            0x9E => Some(Instruction::SkipKey(x)),
            0xA1 => Some(Instruction::SkipNoKey(x)),
            _ => None,
        }
    } else {
        match lo {
            0x07 => Some(Instruction::LoadDelay(x)),
            0x0A => Some(Instruction::WaitKey(x)),
            0x15 => Some(Instruction::SetDelay(x)),
            0x18 => Some(Instruction::SetSound(x)),
            0x1E => Some(Instruction::AddIndex(x)),
            0x29 => Some(Instruction::FontChar(x)),
            0x33 => Some(Instruction::Bcd(x)),
            0x55 => Some(Instruction::StoreRegs(x)),
            0x65 => Some(Instruction::LoadRegs(x)),
            _ => None,
        }
    }
}

} // verus!
