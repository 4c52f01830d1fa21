use chip8::emulator::decode::{decode, nibbles, Op};
use chip8::emulator::error::Error;

#[test]
fn nibbles_are_split_high_first() {
    assert_eq!(nibbles(0xD12F), (0xD, 0x1, 0x2, 0xF));
    assert_eq!(nibbles(0x0000), (0, 0, 0, 0));
    assert_eq!(nibbles(0xFFFF), (0xF, 0xF, 0xF, 0xF));
}

#[test]
fn decode_rejects_nonzero_low_nibble_of_register_skip() {
    assert_eq!(decode(0x5123, 0x200), Err(Error::Decode { addr: 0x200, word: 0x5123 }));
    assert_eq!(decode(0x9121, 0x0ABC), Err(Error::Decode { addr: 0x0ABC, word: 0x9121 }));
}

#[test]
fn decode_rejects_unknown_patterns() {
    for word in [0x0000u16, 0x00E1, 0x0123, 0x8008, 0x800F, 0xE000, 0xE19F, 0xF000, 0xF066, 0xFFFF] {
        assert_eq!(decode(word, 0x222), Err(Error::Decode { addr: 0x222, word }));
    }
}

#[test]
fn decode_system_and_flow() {
    assert_eq!(decode(0x00E0, 0), Ok(Op::ClearScreen));
    assert_eq!(decode(0x00EE, 0), Ok(Op::Return));
    assert_eq!(decode(0x12F0, 0), Ok(Op::Jump { addr: 0x2F0 }));
    assert_eq!(decode(0x2ABC, 0), Ok(Op::Call { addr: 0xABC }));
    assert_eq!(decode(0xB123, 0), Ok(Op::OffsetJump { addr: 0x123 }));
    assert_eq!(decode(0xA456, 0), Ok(Op::SetIndex { addr: 0x456 }));
}

#[test]
fn decode_immediates() {
    assert_eq!(decode(0x3A42, 0), Ok(Op::SkipIfEqual { x: 0xA, nn: 0x42 }));
    assert_eq!(decode(0x4B43, 0), Ok(Op::SkipNotEqual { x: 0xB, nn: 0x43 }));
    assert_eq!(decode(0x6CFF, 0), Ok(Op::SetVx { x: 0xC, nn: 0xFF }));
    assert_eq!(decode(0x7D01, 0), Ok(Op::AddVx { x: 0xD, nn: 0x01 }));
    assert_eq!(decode(0xC50F, 0), Ok(Op::Random { x: 5, nn: 0x0F }));
    assert_eq!(decode(0xD125, 0), Ok(Op::Draw { x: 1, y: 2, n: 5 }));
}

#[test]
fn decode_register_pairs() {
    assert_eq!(decode(0x5120, 0), Ok(Op::SkipBothEqual { x: 1, y: 2 }));
    assert_eq!(decode(0x9120, 0), Ok(Op::SkipNoneEqual { x: 1, y: 2 }));
    assert_eq!(decode(0x8340, 0), Ok(Op::SetVxVy { x: 3, y: 4 }));
    assert_eq!(decode(0x8341, 0), Ok(Op::BinaryOr { x: 3, y: 4 }));
    assert_eq!(decode(0x8342, 0), Ok(Op::BinaryAnd { x: 3, y: 4 }));
    assert_eq!(decode(0x8343, 0), Ok(Op::LogicalXor { x: 3, y: 4 }));
    assert_eq!(decode(0x8344, 0), Ok(Op::AddVxVy { x: 3, y: 4 }));
    assert_eq!(decode(0x8345, 0), Ok(Op::VxMinusVy { x: 3, y: 4 }));
    assert_eq!(decode(0x8346, 0), Ok(Op::ShiftRight { x: 3 }));
    assert_eq!(decode(0x8347, 0), Ok(Op::VyMinusVx { x: 3, y: 4 }));
    assert_eq!(decode(0x834E, 0), Ok(Op::ShiftLeft { x: 3 }));
}

#[test]
fn decode_keys_and_misc() {
    assert_eq!(decode(0xE79E, 0), Ok(Op::SkipIfKey { x: 7 }));
    assert_eq!(decode(0xE7A1, 0), Ok(Op::SkipNotKey { x: 7 }));
    assert_eq!(decode(0xF807, 0), Ok(Op::SetVxToDelay { x: 8 }));
    assert_eq!(decode(0xF80A, 0), Ok(Op::GetKey { x: 8 }));
    assert_eq!(decode(0xF815, 0), Ok(Op::SetDelayTimer { x: 8 }));
    assert_eq!(decode(0xF818, 0), Ok(Op::SetSoundTimer { x: 8 }));
    assert_eq!(decode(0xF81E, 0), Ok(Op::AddToIndex { x: 8 }));
    assert_eq!(decode(0xF829, 0), Ok(Op::FontChar { x: 8 }));
    assert_eq!(decode(0xF833, 0), Ok(Op::BcdConvert { x: 8 }));
    assert_eq!(decode(0xF855, 0), Ok(Op::StoreMem { x: 8 }));
    assert_eq!(decode(0xF865, 0), Ok(Op::LoadMem { x: 8 }));
}

#[test]
fn every_word_decodes_to_a_well_formed_op_or_reports_itself() {
    let mut word: u16 = 0;
    loop {
        match decode(word, 0x200) {
            Ok(op) => assert!(op.is_wf()),
            Err(e) => assert_eq!(e, Error::Decode { addr: 0x200, word }),
        }
        if word == 0xFFFF {
            break;
        }
        word += 1;
    }
}

#[test]
fn operands_out_of_range_are_not_well_formed() {
    assert!(!Op::SetVx { x: 16, nn: 0 }.is_wf());
    assert!(!Op::Jump { addr: 0x1000 }.is_wf());
    assert!(!Op::Draw { x: 0, y: 0, n: 16 }.is_wf());
    assert!(!Op::AddVxVy { x: 1, y: 200 }.is_wf());
    assert!(Op::Draw { x: 15, y: 15, n: 15 }.is_wf());
}
