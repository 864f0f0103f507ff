//! The instruction decoder: a pure, total mapping from a 16-bit instruction
//! word to a tagged instruction value. Decoding never consults machine state.
//!
//! Nibble layout of a word `w`: `a` = bits 15-12 (family), `b` = bits 11-8,
//! `c` = bits 7-4, `d` = bits 3-0. Composite operands: `kk` = low byte,
//! `nnn` = low 12 bits.

use vstd::prelude::*;

verus! {

/// One decoded CHIP-8 instruction.
///
/// Register operands are always nibble values, so every carried register
/// index is below 16.
#[derive(Clone, Copy, PartialEq, Eq, Structural, Debug)]
pub enum Instruction {
    /// 00E0: clear the screen.
    Cls,
    /// 00EE: return from subroutine; with an empty stack, halt.
    Ret,
    /// 1nnn: jump to nnn.
    Jump(u16),
    /// 2nnn: call subroutine at nnn.
    Call(u16),
    /// 3xkk: skip next instruction if Vx == kk.
    SkipEqImm(u8, u8),
    /// 4xkk: skip next instruction if Vx != kk.
    SkipNeImm(u8, u8),
    /// 5xy0: skip next instruction if Vx == Vy.
    SkipEqReg(u8, u8),
    /// 6xkk: Vx = kk.
    SetImm(u8, u8),
    /// 7xkk: Vx = Vx + kk (mod 256), no flag.
    AddImm(u8, u8),
    /// 8xy0: Vx = Vy.
    Mov(u8, u8),
    /// 8xy1: Vx |= Vy.
    Or(u8, u8),
    /// 8xy2: Vx &= Vy.
    And(u8, u8),
    /// 8xy3: Vx ^= Vy.
    Xor(u8, u8),
    /// 8xy4: Vx = Vx + Vy (mod 256); VF = 1 iff the unsigned sum overflows 255.
    Add(u8, u8),
    /// 8xy5: Vx = Vx - Vy (mod 256); VF = 1 iff no borrow (Vx >= Vy).
    Sub(u8, u8),
    /// 8xy6: Vx = Vx >> 1; VF = bit 0 of Vx before the shift.
    Shr(u8),
    /// 8xy7: Vx = Vy - Vx (mod 256); VF = 1 iff no borrow (Vy >= Vx).
    SubN(u8, u8),
    /// 8xyE: Vx = Vx << 1 (mod 256); VF = bit 7 of Vx before the shift.
    Shl(u8),
    /// 9xy0: skip next instruction if Vx != Vy.
    SkipNeReg(u8, u8),
    /// Annn: I = nnn.
    SetI(u16),
    /// Bnnn: jump to nnn + V0.
    JumpV0(u16),
    /// Cxkk: Vx = random byte & kk.
    Rand(u8, u8),
    /// Dxyn: draw the n-byte sprite at memory[I..] at (Vx, Vy); VF = collision.
    Draw(u8, u8, u8),
    /// Ex9E: skip next instruction if the key numbered Vx is pressed.
    SkipKey(u8),
    /// ExA1: skip next instruction if the key numbered Vx is not pressed.
    SkipNoKey(u8),
    /// Fx07: Vx = delay timer.
    GetDelay(u8),
    /// Fx0A: suspend until a key press, storing the key index in Vx.
    WaitKey(u8),
    /// Fx15: delay timer = Vx.
    SetDelay(u8),
    /// Fx18: sound timer = Vx.
    SetSound(u8),
    /// Fx1E: I = I + Vx (16-bit, wrapping; no flag).
    AddI(u8),
    /// Fx29: I = font glyph address of digit Vx (fatal unless Vx <= 15).
    SetISprite(u8),
    /// Fx33: write the three decimal digits of Vx to memory[I..I+3].
    SetBcd(u8),
    /// Fx55: write V0..Vx inclusive to memory[I..].
    DumpReg(u8),
    /// Fx65: load V0..Vx inclusive from memory[I..].
    LoadReg(u8),
}

/// Family nibble: bits 15-12 of the word.
pub open spec fn nib_a(w: u16) -> u8 {
    (w / 0x1000) as u8
}

/// Second nibble: bits 11-8, the usual `x` register operand.
pub open spec fn nib_b(w: u16) -> u8 {
    ((w / 0x100) % 16) as u8
}

/// Third nibble: bits 7-4, the usual `y` register operand.
pub open spec fn nib_c(w: u16) -> u8 {
    ((w / 16) % 16) as u8
}

/// Low nibble: bits 3-0.
pub open spec fn nib_d(w: u16) -> u8 {
    (w % 16) as u8
}

/// Byte immediate: the low byte of the word.
pub open spec fn imm_kk(w: u16) -> u8 {
    (w % 256) as u8
}

/// Address immediate: the low 12 bits of the word.
pub open spec fn imm_nnn(w: u16) -> u16 {
    w % 0x1000
}

/// The decoding function: `Some` for each of the defined instruction forms,
/// `None` for every undefined bit pattern, including the machine-code-call
/// family (top nibble 0 other than 00E0/00EE).
pub open spec fn spec_decode(w: u16) -> Option<Instruction> {
    let b = nib_b(w);
    let c = nib_c(w);
    let d = nib_d(w);
    let kk = imm_kk(w);
    let nnn = imm_nnn(w);
    if nib_a(w) == 0 {
        if w == 0x00E0 {
            Some(Instruction::Cls)
        } else if w == 0x00EE {
            Some(Instruction::Ret)
        } else {
            None
        }
    } else if nib_a(w) == 1 {
        Some(Instruction::Jump(nnn))
    } else if nib_a(w) == 2 {
        Some(Instruction::Call(nnn))
    } else if nib_a(w) == 3 {
        Some(Instruction::SkipEqImm(b, kk))
    } else if nib_a(w) == 4 {
        Some(Instruction::SkipNeImm(b, kk))
    } else if nib_a(w) == 5 {
        if d == 0 {
            Some(Instruction::SkipEqReg(b, c))
        } else {
            None
        }
    } else if nib_a(w) == 6 {
        Some(Instruction::SetImm(b, kk))
    } else if nib_a(w) == 7 {
        Some(Instruction::AddImm(b, kk))
    } else if nib_a(w) == 8 {
        if d == 0 {
            Some(Instruction::Mov(b, c))
        } else if d == 1 {
            Some(Instruction::Or(b, c))
        } else if d == 2 {
            Some(Instruction::And(b, c))
        } else if d == 3 {
            Some(Instruction::Xor(b, c))
        } else if d == 4 {
            Some(Instruction::Add(b, c))
        } else if d == 5 {
            Some(Instruction::Sub(b, c))
        } else if d == 6 {
            Some(Instruction::Shr(b))
        } else if d == 7 {
            Some(Instruction::SubN(b, c))
        } else if d == 0xE {
            Some(Instruction::Shl(b))
        } else {
            None
        }
    } else if nib_a(w) == 9 {
        if d == 0 {
            Some(Instruction::SkipNeReg(b, c))
        } else {
            None
        }
    } else if nib_a(w) == 0xA {
        Some(Instruction::SetI(nnn))
    } else if nib_a(w) == 0xB {
        Some(Instruction::JumpV0(nnn))
    } else if nib_a(w) == 0xC {
        Some(Instruction::Rand(b, kk))
    } else if nib_a(w) == 0xD {
        Some(Instruction::Draw(b, c, d))
    } else if nib_a(w) == 0xE {
        if c == 9 && d == 0xE {
            Some(Instruction::SkipKey(b))
        } else if c == 0xA && d == 1 {
            Some(Instruction::SkipNoKey(b))
        } else {
            None
        }
    } else {
        if kk == 0x07 {
            Some(Instruction::GetDelay(b))
        } else if kk == 0x0A {
            Some(Instruction::WaitKey(b))
        } else if kk == 0x15 {
            Some(Instruction::SetDelay(b))
        } else if kk == 0x18 {
            Some(Instruction::SetSound(b))
        } else if kk == 0x1E {
            Some(Instruction::AddI(b))
        } else if kk == 0x29 {
            Some(Instruction::SetISprite(b))
        } else if kk == 0x33 {
            Some(Instruction::SetBcd(b))
        } else if kk == 0x55 {
            Some(Instruction::DumpReg(b))
        } else if kk == 0x65 {
            Some(Instruction::LoadReg(b))
        } else {
            None
        }
    }
}

/// Every register operand carried by an instruction is a nibble value.
pub open spec fn instr_wf(instr: Instruction) -> bool {
    match instr {
        Instruction::Cls => true,
        Instruction::Ret => true,
        Instruction::Jump(nnn) => nnn < 0x1000,
        Instruction::Call(nnn) => nnn < 0x1000,
        Instruction::SkipEqImm(x, _) => x < 16,
        Instruction::SkipNeImm(x, _) => x < 16,
        Instruction::SkipEqReg(x, y) => x < 16 && y < 16,
        Instruction::SetImm(x, _) => x < 16,
        Instruction::AddImm(x, _) => x < 16,
        Instruction::Mov(x, y) => x < 16 && y < 16,
        Instruction::Or(x, y) => x < 16 && y < 16,
        Instruction::And(x, y) => x < 16 && y < 16,
        Instruction::Xor(x, y) => x < 16 && y < 16,
        Instruction::Add(x, y) => x < 16 && y < 16,
        Instruction::Sub(x, y) => x < 16 && y < 16,
        Instruction::Shr(x) => x < 16,
        Instruction::SubN(x, y) => x < 16 && y < 16,
        Instruction::Shl(x) => x < 16,
        Instruction::SkipNeReg(x, y) => x < 16 && y < 16,
        Instruction::SetI(nnn) => nnn < 0x1000,
        Instruction::JumpV0(nnn) => nnn < 0x1000,
        Instruction::Rand(x, _) => x < 16,
        Instruction::Draw(x, y, n) => x < 16 && y < 16 && n < 16,
        Instruction::SkipKey(x) => x < 16,
        Instruction::SkipNoKey(x) => x < 16,
        Instruction::GetDelay(x) => x < 16,
        Instruction::WaitKey(x) => x < 16,
        Instruction::SetDelay(x) => x < 16,
        Instruction::SetSound(x) => x < 16,
        Instruction::AddI(x) => x < 16,
        Instruction::SetISprite(x) => x < 16,
        Instruction::SetBcd(x) => x < 16,
        Instruction::DumpReg(x) => x < 16,
        Instruction::LoadReg(x) => x < 16,
    }
}

/// Whatever `spec_decode` returns is well-formed.
pub proof fn lemma_decode_wf(w: u16)
    ensures
        spec_decode(w) matches Some(instr) ==> instr_wf(instr),
{
}

/// Decode one 16-bit instruction word. Returns `None` exactly on the
/// undefined bit patterns, including the machine-code-call family.
pub fn decode(w: u16) -> (r: Option<Instruction>)
    ensures
        r == spec_decode(w),
{
    let a = (w / 0x1000) as u8;
    let b = ((w / 0x100) % 16) as u8;
    let c = ((w / 16) % 16) as u8;
    let d = (w % 16) as u8;
    let kk = (w % 256) as u8;
    let nnn = w % 0x1000;
    if a == 0 {
        if w == 0x00E0 {
            Some(Instruction::Cls)
        } else if w == 0x00EE {
            Some(Instruction::Ret)
        } else {
            None
        }
    } else if a == 1 {
        Some(Instruction::Jump(nnn))
    } else if a == 2 {
        Some(Instruction::Call(nnn))
    } else if a == 3 {
        Some(Instruction::SkipEqImm(b, kk))
    } else if a == 4 {
        Some(Instruction::SkipNeImm(b, kk))
    } else if a == 5 {
        if d == 0 {
            Some(Instruction::SkipEqReg(b, c))
        } else {
            None
        }
    } else if a == 6 {
        Some(Instruction::SetImm(b, kk))
    } else if a == 7 {
        Some(Instruction::AddImm(b, kk))
    } else if a == 8 {
        if d == 0 {
            Some(Instruction::Mov(b, c))
        } else if d == 1 {
            Some(Instruction::Or(b, c))
        } else if d == 2 {
            Some(Instruction::And(b, c))
        } else if d == 3 {
            Some(Instruction::Xor(b, c))
        } else if d == 4 {
            Some(Instruction::Add(b, c))
        } else if d == 5 {
            Some(Instruction::Sub(b, c))
        } else if d == 6 {
            Some(Instruction::Shr(b))
        } else if d == 7 {
            Some(Instruction::SubN(b, c))
        } else if d == 0xE {
            Some(Instruction::Shl(b))
        } else {
            None
        }
    } else if a == 9 {
        if d == 0 {
            Some(Instruction::SkipNeReg(b, c))
        } else {
            None
        }
    } else if a == 0xA {
        Some(Instruction::SetI(nnn))
    } else if a == 0xB {
        Some(Instruction::JumpV0(nnn))
    } else if a == 0xC {
        Some(Instruction::Rand(b, kk))
    } else if a == 0xD {
        Some(Instruction::Draw(b, c, d))
    } else if a == 0xE {
        if c == 9 && d == 0xE {
            Some(Instruction::SkipKey(b))
        } else if c == 0xA && d == 1 {
            Some(Instruction::SkipNoKey(b))
        } else {
            None
        }
    } else {
        if kk == 0x07 {
            Some(Instruction::GetDelay(b))
        } else if kk == 0x0A {
            Some(Instruction::WaitKey(b))
        } else if kk == 0x15 {
            Some(Instruction::SetDelay(b))
        } else if kk == 0x18 {
            Some(Instruction::SetSound(b))
        } else if kk == 0x1E {
            Some(Instruction::AddI(b))
        } else if kk == 0x29 {
            Some(Instruction::SetISprite(b))
        } else if kk == 0x33 {
            Some(Instruction::SetBcd(b))
        } else if kk == 0x55 {
            Some(Instruction::DumpReg(b))
        } else if kk == 0x65 {
            Some(Instruction::LoadReg(b))
        } else {
            None
        }
    }
}

} // verus!
