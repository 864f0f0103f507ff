use chip8::Instruction;
use chip8::decode;

#[test]
fn decode_system_family() {
    assert_eq!(decode(0x00E0), Some(Instruction::Cls));
    assert_eq!(decode(0x00EE), Some(Instruction::Ret));
    // The machine-code-call form is unsupported and must be a decode error.
    assert_eq!(decode(0x0000), None);
    assert_eq!(decode(0x0123), None);
    assert_eq!(decode(0x00E1), None);
}

#[test]
fn decode_jump_and_call() {
    assert_eq!(decode(0x1ABC), Some(Instruction::Jump(0xABC)));
    assert_eq!(decode(0x2DEF), Some(Instruction::Call(0xDEF)));
    assert_eq!(decode(0xA123), Some(Instruction::SetI(0x123)));
    assert_eq!(decode(0xB456), Some(Instruction::JumpV0(0x456)));
}

#[test]
fn decode_skips() {
    assert_eq!(decode(0x3A42), Some(Instruction::SkipEqImm(0xA, 0x42)));
    assert_eq!(decode(0x4A42), Some(Instruction::SkipNeImm(0xA, 0x42)));
    assert_eq!(decode(0x5AB0), Some(Instruction::SkipEqReg(0xA, 0xB)));
    assert_eq!(decode(0x5AB1), None);
    assert_eq!(decode(0x9AB0), Some(Instruction::SkipNeReg(0xA, 0xB)));
    assert_eq!(decode(0x9AB7), None);
}

#[test]
fn decode_immediates() {
    assert_eq!(decode(0x6A42), Some(Instruction::SetImm(0xA, 0x42)));
    assert_eq!(decode(0x7A42), Some(Instruction::AddImm(0xA, 0x42)));
    assert_eq!(decode(0xCA42), Some(Instruction::Rand(0xA, 0x42)));
}

#[test]
fn decode_alu_family() {
    assert_eq!(decode(0x8AB0), Some(Instruction::Mov(0xA, 0xB)));
    assert_eq!(decode(0x8AB1), Some(Instruction::Or(0xA, 0xB)));
    assert_eq!(decode(0x8AB2), Some(Instruction::And(0xA, 0xB)));
    assert_eq!(decode(0x8AB3), Some(Instruction::Xor(0xA, 0xB)));
    assert_eq!(decode(0x8AB4), Some(Instruction::Add(0xA, 0xB)));
    assert_eq!(decode(0x8AB5), Some(Instruction::Sub(0xA, 0xB)));
    assert_eq!(decode(0x8AB6), Some(Instruction::Shr(0xA)));
    assert_eq!(decode(0x8AB7), Some(Instruction::SubN(0xA, 0xB)));
    assert_eq!(decode(0x8ABE), Some(Instruction::Shl(0xA)));
    // Unknown forms within family 8 are decode errors.
    assert_eq!(decode(0x8AB8), None);
    assert_eq!(decode(0x8AB9), None);
    assert_eq!(decode(0x8ABF), None);
}

#[test]
fn decode_draw() {
    assert_eq!(decode(0xDAB5), Some(Instruction::Draw(0xA, 0xB, 5)));
    assert_eq!(decode(0xD000), Some(Instruction::Draw(0, 0, 0)));
}

#[test]
fn decode_key_family() {
    assert_eq!(decode(0xEA9E), Some(Instruction::SkipKey(0xA)));
    assert_eq!(decode(0xEAA1), Some(Instruction::SkipNoKey(0xA)));
    // Unknown forms within family E are decode errors.
    assert_eq!(decode(0xEA00), None);
    assert_eq!(decode(0xEAA2), None);
    assert_eq!(decode(0xEA9F), None);
}

#[test]
fn decode_misc_family() {
    assert_eq!(decode(0xFA07), Some(Instruction::GetDelay(0xA)));
    assert_eq!(decode(0xFA0A), Some(Instruction::WaitKey(0xA)));
    assert_eq!(decode(0xFA15), Some(Instruction::SetDelay(0xA)));
    assert_eq!(decode(0xFA18), Some(Instruction::SetSound(0xA)));
    assert_eq!(decode(0xFA1E), Some(Instruction::AddI(0xA)));
    assert_eq!(decode(0xFA29), Some(Instruction::SetISprite(0xA)));
    assert_eq!(decode(0xFA33), Some(Instruction::SetBcd(0xA)));
    assert_eq!(decode(0xFA55), Some(Instruction::DumpReg(0xA)));
    assert_eq!(decode(0xFA65), Some(Instruction::LoadReg(0xA)));
    // Unknown forms within family F are decode errors.
    assert_eq!(decode(0xFA30), None);
    assert_eq!(decode(0xFA00), None);
    assert_eq!(decode(0xFAFF), None);
}
