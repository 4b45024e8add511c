//! Assembly text of instruction words, for diagnostics.

use vstd::prelude::*;
use vstd::string::StringExecFns;

use crate::instruction::{decode, decode_spec, Instruction};

verus! {

/// The lower-case hexadecimal digit `d`.
pub open spec fn digit_text(d: nat) -> Seq<char> {
    if d == 0 {
        "0"@
    } else if d == 1 {
        "1"@
    } else if d == 2 {
        "2"@
    } else if d == 3 {
        "3"@
    } else if d == 4 {
        "4"@
    } else if d == 5 {
        "5"@
    } else if d == 6 {
        "6"@
    } else if d == 7 {
        "7"@
    } else if d == 8 {
        "8"@
    } else if d == 9 {
        "9"@
    } else if d == 10 {
        "a"@
    } else if d == 11 {
        "b"@
    } else if d == 12 {
        "c"@
    } else if d == 13 {
        "d"@
    } else if d == 14 {
        "e"@
    } else {
        "f"@
    }
}

/// `n` in lower-case hexadecimal, without leading zeros.
pub open spec fn hex_text(n: nat) -> Seq<char>
    decreases n,
{
    if n < 16 {
        digit_text(n)
    } else {
        hex_text(n / 16) + digit_text(n % 16)
    }
}

/// A register number below 16 in decimal.
pub open spec fn reg_text(x: nat) -> Seq<char> {
    if x < 10 {
        digit_text(x)
    } else {
        "1"@ + digit_text((x - 10) as nat)
    }
}

/// The text of `ins`.
pub open spec fn mnemonic(ins: Instruction) -> Seq<char> {
    let r = |x: u8| reg_text(x as nat);
    let h = |n: u16| hex_text(n as nat);
    match ins {
        Instruction::Cls => "CLS"@,
        Instruction::Ret => "RET"@,
        Instruction::Jump(a) => "JMP "@ + h(a),
        Instruction::Call(a) => "CALL "@ + h(a),
        Instruction::SkipEqByte(x, kk) => "SE V"@ + r(x) + ", "@ + h(kk as u16),
        Instruction::SkipNeByte(x, kk) => "SNE V"@ + r(x) + ", "@ + h(kk as u16),
        Instruction::SkipEqReg(x, y) => "SE V"@ + r(x) + ", V"@ + r(y),
        Instruction::LoadByte(x, kk) => "LD V"@ + r(x) + ", "@ + h(kk as u16),
        Instruction::AddByte(x, kk) => "ADD V"@ + r(x) + ", "@ + h(kk as u16),
        Instruction::Copy(x, y) => "LD V"@ + r(x) + ", V"@ + r(y),
        Instruction::Or(x, y) => "OR V"@ + r(x) + ", V"@ + r(y),
        Instruction::And(x, y) => "AND V"@ + r(x) + ", V"@ + r(y),
        Instruction::Xor(x, y) => "XOR V"@ + r(x) + ", V"@ + r(y),
        Instruction::Add(x, y) => "ADD V"@ + r(x) + ", V"@ + r(y),
        Instruction::Sub(x, y) => "SUB V"@ + r(x) + ", V"@ + r(y),
        Instruction::Shr(x, y) => "SHR V"@ + r(x) + ", V"@ + r(y),
        Instruction::SubN(x, y) => "SUBN V"@ + r(x) + ", V"@ + r(y),
        Instruction::Shl(x, y) => "SHL V"@ + r(x) + ", V"@ + r(y),
        Instruction::SkipNeReg(x, y) => "SNE V"@ + r(x) + ", V"@ + r(y),
        Instruction::LoadIndex(a) => "LD I, "@ + h(a),
        Instruction::JumpOffset(a) => "JP V0, "@ + h(a),
        Instruction::Rand(x, kk) => "RND V"@ + r(x) + ", "@ + h(kk as u16),
        Instruction::Draw(x, y, n) => "DRW V"@ + r(x) + ", V"@ + r(y) + ", "@ + h(n as u16),
        Instruction::SkipKey(x) => "SKP V"@ + r(x),
        Instruction::SkipNoKey(x) => "SKNP V"@ + r(x),
        Instruction::LoadDelay(x) => "LD V"@ + r(x) + ", DT"@,
        Instruction::WaitKey(x) => "LD V"@ + r(x) + ", K"@,
        Instruction::SetDelay(x) => "LD DT, V"@ + r(x),
        Instruction::SetSound(x) => "LD ST, V"@ + r(x),
        Instruction::AddIndex(x) => "ADD I, V"@ + r(x),
        Instruction::FontChar(x) => "LD F, V"@ + r(x),
        Instruction::Bcd(x) => "LD B, V"@ + r(x),
        Instruction::StoreRegs(x) => "LD [I], V"@ + r(x),
        Instruction::LoadRegs(x) => "LD V"@ + r(x) + ", [I]"@,
    }
}

/// The text of the instruction word `w`.
pub open spec fn disassembly(w: u16) -> Seq<char> {
    match decode_spec((w / 256) as u8, (w % 256) as u8) {
        Some(ins) => mnemonic(ins),
        None => "Invalid instruction"@,
    }
}

fn digit_str(d: u16) -> (r: &'static str)
    requires
        d < 16,
    ensures
        r@ == digit_text(d as nat),
{
    if d == 0 {
        "0"
    } else if d == 1 {
        "1"
    } else if d == 2 {
        "2"
    } else if d == 3 {
        "3"
    } else if d == 4 {
        "4"
    } else if d == 5 {
        "5"
    } else if d == 6 {
        "6"
    } else if d == 7 {
        "7"
    } else if d == 8 {
        "8"
    } else if d == 9 {
        "9"
    } else if d == 10 {
        "a"
    } else if d == 11 {
        "b"
    } else if d == 12 {
        "c"
    } else if d == 13 {
        "d"
    } else if d == 14 {
        "e"
    } else {
        "f"
    }
}

fn push_hex(s: &mut String, n: u16)
    ensures
        final(s)@ == old(s)@ + hex_text(n as nat),
    decreases n,
{
    if n >= 16 {
        push_hex(s, n / 16);
    }
    s.append(digit_str(n % 16));
    assert(final(s)@ =~= old(s)@ + hex_text(n as nat));
}

fn push_reg(s: &mut String, x: u8)
    requires
        x < 16,
    ensures
        final(s)@ == old(s)@ + reg_text(x as nat),
{
    if x >= 10 {
        s.append("1");
        s.append(digit_str(x as u16 - 10));
    } else {
        s.append(digit_str(x as u16));
    }
    assert(final(s)@ =~= old(s)@ + reg_text(x as nat));
}

/// `prefix` followed by the hexadecimal `n`.
fn with_hex(prefix: &str, n: u16) -> (r: String)
    ensures
        r@ == prefix@ + hex_text(n as nat),
{
    let mut s = String::from_str(prefix);
    push_hex(&mut s, n);
    s
}

/// `prefix`, register `x`, then `suffix`.
fn with_reg(prefix: &str, x: u8, suffix: &str) -> (r: String)
    requires
        x < 16,
    ensures
        r@ == prefix@ + reg_text(x as nat) + suffix@,
{
    let mut s = String::from_str(prefix);
    push_reg(&mut s, x);
    s.append(suffix);
    s
}

/// `prefix` followed by register `x`.
fn with_reg_only(prefix: &str, x: u8) -> (r: String)
    requires
        x < 16,
    ensures
        r@ == prefix@ + reg_text(x as nat),
{
    let mut s = String::from_str(prefix);
    push_reg(&mut s, x);
    s
}

/// `prefix`, register `x`, a comma, then the hexadecimal `n`.
fn with_reg_hex(prefix: &str, x: u8, n: u16) -> (r: String)
    requires
        x < 16,
    ensures
        r@ == prefix@ + reg_text(x as nat) + ", "@ + hex_text(n as nat),
{
    let mut s = with_reg(prefix, x, ", ");
    push_hex(&mut s, n);
    s
}

/// `prefix`, register `x`, a comma, then register `y`.
fn with_regs(prefix: &str, x: u8, y: u8) -> (r: String)
    requires
        x < 16,
        y < 16,
    ensures
        r@ == prefix@ + reg_text(x as nat) + ", V"@ + reg_text(y as nat),
{
    let mut s = with_reg(prefix, x, ", V");
    push_reg(&mut s, y);
    s
}

/// The assembly text of `ins`.
pub fn instruction_text(ins: Instruction) -> (r: String)
    requires
        crate::instruction::operands_in_range(ins),
    ensures
        r@ == mnemonic(ins),
{
    match ins {
        Instruction::Cls => String::from_str("CLS"),
        Instruction::Ret => String::from_str("RET"),
        Instruction::Jump(a) => with_hex("JMP ", a),
        Instruction::Call(a) => with_hex("CALL ", a),
        Instruction::SkipEqByte(x, kk) => with_reg_hex("SE V", x, kk as u16),
        Instruction::SkipNeByte(x, kk) => with_reg_hex("SNE V", x, kk as u16),
        Instruction::SkipEqReg(x, y) => with_regs("SE V", x, y),
        Instruction::LoadByte(x, kk) => with_reg_hex("LD V", x, kk as u16),
        Instruction::AddByte(x, kk) => with_reg_hex("ADD V", x, kk as u16),
        Instruction::Copy(x, y) => with_regs("LD V", x, y),
        Instruction::Or(x, y) => with_regs("OR V", x, y),
        Instruction::And(x, y) => with_regs("AND V", x, y),
        Instruction::Xor(x, y) => with_regs("XOR V", x, y),
        Instruction::Add(x, y) => with_regs("ADD V", x, y),
        Instruction::Sub(x, y) => with_regs("SUB V", x, y),
        Instruction::Shr(x, y) => with_regs("SHR V", x, y),
        Instruction::SubN(x, y) => with_regs("SUBN V", x, y),
        Instruction::Shl(x, y) => with_regs("SHL V", x, y),
        Instruction::SkipNeReg(x, y) => with_regs("SNE V", x, y),
        Instruction::LoadIndex(a) => with_hex("LD I, ", a),
        Instruction::JumpOffset(a) => with_hex("JP V0, ", a),
        Instruction::Rand(x, kk) => with_reg_hex("RND V", x, kk as u16),
        Instruction::Draw(x, y, n) => {
            let mut s = with_regs("DRW V", x, y);
            s.append(", ");
            push_hex(&mut s, n as u16);
            assert(s@ =~= mnemonic(ins));
            s
        },
        Instruction::SkipKey(x) => with_reg_only("SKP V", x),
        Instruction::SkipNoKey(x) => with_reg_only("SKNP V", x),
        Instruction::LoadDelay(x) => with_reg("LD V", x, ", DT"),
        Instruction::WaitKey(x) => with_reg("LD V", x, ", K"),
        Instruction::SetDelay(x) => with_reg_only("LD DT, V", x),
        Instruction::SetSound(x) => with_reg_only("LD ST, V", x),
        Instruction::AddIndex(x) => with_reg_only("ADD I, V", x),
        Instruction::FontChar(x) => with_reg_only("LD F, V", x),
        Instruction::Bcd(x) => with_reg_only("LD B, V", x),
        Instruction::StoreRegs(x) => with_reg_only("LD [I], V", x),
        Instruction::LoadRegs(x) => with_reg("LD V", x, ", [I]"),
    }
}

/// The assembly text of the instruction word `w`, or "Invalid instruction".
pub fn disassemble(w: u16) -> (r: String)
    ensures
        r@ == disassembly(w),
{
    match decode((w / 256) as u8, (w % 256) as u8) {
        Some(ins) => instruction_text(ins),
        None => String::from_str("Invalid instruction"),
    }
}

} // verus!
