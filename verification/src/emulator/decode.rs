use vstd::prelude::*;
use crate::emulator::error::Error;

verus! {

/// A decoded instruction with its operands. `x` and `y` are register
/// numbers, `nn` an immediate byte, `n` an immediate nibble and `addr` a
/// twelve-bit address.
#[derive(Clone, Copy, Debug, PartialEq, Eq, Structural)]
pub enum Op {
    ClearScreen,
    Return,
    Jump { addr: u16 },
    Call { addr: u16 },
    SkipIfEqual { x: u8, nn: u8 },
    SkipNotEqual { x: u8, nn: u8 },
    SkipBothEqual { x: u8, y: u8 },
    SetVx { x: u8, nn: u8 },
    AddVx { x: u8, nn: u8 },
    SetVxVy { x: u8, y: u8 },
    BinaryOr { x: u8, y: u8 },
    BinaryAnd { x: u8, y: u8 },
    LogicalXor { x: u8, y: u8 },
    AddVxVy { x: u8, y: u8 },
    VxMinusVy { x: u8, y: u8 },
    ShiftRight { x: u8 },
    VyMinusVx { x: u8, y: u8 },
    ShiftLeft { x: u8 },
    SkipNoneEqual { x: u8, y: u8 },
    SetIndex { addr: u16 },
    OffsetJump { addr: u16 },
    Random { x: u8, nn: u8 },
    Draw { x: u8, y: u8, n: u8 },
    SkipIfKey { x: u8 },
    SkipNotKey { x: u8 },
    SetVxToDelay { x: u8 },
    GetKey { x: u8 },
    SetDelayTimer { x: u8 },
    SetSoundTimer { x: u8 },
    AddToIndex { x: u8 },
    FontChar { x: u8 },
    BcdConvert { x: u8 },
    StoreMem { x: u8 },
    LoadMem { x: u8 },
}

/// The primary opcode: the highest nibble of the word.
pub open spec fn opcode_of(word: u16) -> u8 {
    (word / 4096) as u8
}

/// The first register number: the second nibble of the word.
pub open spec fn x_of(word: u16) -> u8 {
    ((word / 256) % 16) as u8
}

/// The second register number: the third nibble of the word.
pub open spec fn y_of(word: u16) -> u8 {
    ((word / 16) % 16) as u8
}

/// The immediate nibble: the lowest nibble of the word.
pub open spec fn n_of(word: u16) -> u8 {
    (word % 16) as u8
}

/// The immediate byte: the low byte of the word.
pub open spec fn nn_of(word: u16) -> u8 {
    (word % 256) as u8
}

/// The address immediate: the low twelve bits of the word.
pub open spec fn addr_of(word: u16) -> u16 {
    (word % 4096) as u16
}

/// The instruction that a word encodes, if it encodes one.
pub open spec fn decode_spec(word: u16) -> Option<Op> {
    let x = x_of(word);
    let y = y_of(word);
    let n = n_of(word);
    let nn = nn_of(word);
    let addr = addr_of(word);
    let op = opcode_of(word);
    if op == 0x0 {
        if word == 0x00E0 {
            Some(Op::ClearScreen)
        } else if word == 0x00EE {
            Some(Op::Return)
        } else {
            None
        }
    } else if op == 0x1 {
        Some(Op::Jump { addr })
    } else if op == 0x2 {
        Some(Op::Call { addr })
    } else if op == 0x3 {
        Some(Op::SkipIfEqual { x, nn })
    } else if op == 0x4 {
        Some(Op::SkipNotEqual { x, nn })
    } else if op == 0x5 {
        if n == 0 {
            Some(Op::SkipBothEqual { x, y })
        } else {
            None
        }
    } else if op == 0x6 {
        Some(Op::SetVx { x, nn })
    } else if op == 0x7 {
        Some(Op::AddVx { x, nn })
    } else if op == 0x8 {
        if n == 0x0 {
            Some(Op::SetVxVy { x, y })
        } else if n == 0x1 {
            Some(Op::BinaryOr { x, y })
        } else if n == 0x2 {
            Some(Op::BinaryAnd { x, y })
        } else if n == 0x3 {
            Some(Op::LogicalXor { x, y })
        } else if n == 0x4 {
            Some(Op::AddVxVy { x, y })
        } else if n == 0x5 {
            Some(Op::VxMinusVy { x, y })
        } else if n == 0x6 {
            Some(Op::ShiftRight { x })
        } else if n == 0x7 {
            Some(Op::VyMinusVx { x, y })
        } else if n == 0xE {
            Some(Op::ShiftLeft { x })
        } else {
            None
        }
    } else if op == 0x9 {
        if n == 0 {
            Some(Op::SkipNoneEqual { x, y })
        } else {
            None
        }
    } else if op == 0xA {
        Some(Op::SetIndex { addr })
    } else if op == 0xB {
        Some(Op::OffsetJump { addr })
    } else if op == 0xC {
        Some(Op::Random { x, nn })
    } else if op == 0xD {
        Some(Op::Draw { x, y, n })
    } else if op == 0xE {
        if nn == 0x9E {
            Some(Op::SkipIfKey { x })
        } else if nn == 0xA1 {
            Some(Op::SkipNotKey { x })
        } else {
            None
        }
    } else {
        if nn == 0x07 {
            Some(Op::SetVxToDelay { x })
        } else if nn == 0x0A {
            Some(Op::GetKey { x })
        } else if nn == 0x15 {
            Some(Op::SetDelayTimer { x })
        } else if nn == 0x18 {
            Some(Op::SetSoundTimer { x })
        } else if nn == 0x1E {
            Some(Op::AddToIndex { x })
        } else if nn == 0x29 {
            Some(Op::FontChar { x })
        } else if nn == 0x33 {
            Some(Op::BcdConvert { x })
        } else if nn == 0x55 {
            Some(Op::StoreMem { x })
        } else if nn == 0x65 {
            Some(Op::LoadMem { x })
        } else {
            None
        }
    }
}

impl Op {
    /// Every operand is in the range that its field of the word allows:
    /// register numbers and the nibble below 16, addresses below 4096.
    pub open spec fn wf(self) -> bool {
        match self {
            Op::ClearScreen | Op::Return => true,
            Op::Jump { addr } | Op::Call { addr } | Op::SetIndex { addr } | Op::OffsetJump {
                addr,
            } => addr < 0x1000,
            Op::SkipIfEqual { x, .. }
            | Op::SkipNotEqual { x, .. }
            | Op::SetVx { x, .. }
            | Op::AddVx { x, .. }
            | Op::Random { x, .. } => x < 16,
            Op::SkipBothEqual { x, y }
            | Op::SetVxVy { x, y }
            | Op::BinaryOr { x, y }
            | Op::BinaryAnd { x, y }
            | Op::LogicalXor { x, y }
            | Op::AddVxVy { x, y }
            | Op::VxMinusVy { x, y }
            | Op::VyMinusVx { x, y }
            | Op::SkipNoneEqual { x, y } => x < 16 && y < 16,
            Op::Draw { x, y, n } => x < 16 && y < 16 && n < 16,
            Op::ShiftRight { x }
            | Op::ShiftLeft { x }
            | Op::SkipIfKey { x }
            | Op::SkipNotKey { x }
            | Op::SetVxToDelay { x }
            | Op::GetKey { x }
            | Op::SetDelayTimer { x }
            | Op::SetSoundTimer { x }
            | Op::AddToIndex { x }
            | Op::FontChar { x }
            | Op::BcdConvert { x }
            | Op::StoreMem { x }
            | Op::LoadMem { x } => x < 16,
        }
    }
}

/// Splits a word into its four nibbles, highest first.
pub fn nibbles(word: u16) -> (r: (u8, u8, u8, u8))
    ensures
        r.0 == opcode_of(word),
        r.1 == x_of(word),
        r.2 == y_of(word),
        r.3 == n_of(word),
{
    ((word / 4096) as u8, ((word / 256) % 16) as u8, ((word / 16) % 16) as u8, (word % 16) as u8)
}

/// Decodes the word that was fetched from `addr`. A word that encodes no
/// instruction is reported with the address it came from.
pub fn decode(word: u16, addr: u16) -> (r: Result<Op, Error>)
    ensures
        match decode_spec(word) {
            Some(op) => r == Ok::<Op, Error>(op) && op.wf(),
            None => r == Err::<Op, Error>(Error::Decode { addr, word }),
        },
{
    let opcode = nibbles(word);
    let x = opcode.1;
    let y = opcode.2;
    let single_n = opcode.3;
    let double_n = (word % 256) as u8;
    let triple_n = word % 4096;
    match opcode {
        (0x00, 0x00, 0x0e, 0x00) => Ok(Op::ClearScreen),
        (0x00, 0x00, 0x0e, 0x0e) => Ok(Op::Return),
        (0x0e, _, 0x09, 0x0e) => Ok(Op::SkipIfKey { x }),
        (0x0e, _, 0x0a, 0x01) => Ok(Op::SkipNotKey { x }),
        (0x0f, _, 0x00, 0x07) => Ok(Op::SetVxToDelay { x }),
        (0x0f, _, 0x00, 0x0a) => Ok(Op::GetKey { x }),
        (0x0f, _, 0x01, 0x05) => Ok(Op::SetDelayTimer { x }),
        (0x0f, _, 0x01, 0x08) => Ok(Op::SetSoundTimer { x }),
        (0x0f, _, 0x01, 0x0e) => Ok(Op::AddToIndex { x }),
        (0x0f, _, 0x02, 0x09) => Ok(Op::FontChar { x }),
        (0x0f, _, 0x03, 0x03) => Ok(Op::BcdConvert { x }),
        (0x0f, _, 0x05, 0x05) => Ok(Op::StoreMem { x }),
        (0x0f, _, 0x06, 0x05) => Ok(Op::LoadMem { x }),
        (0x05, _, _, 0x00) => Ok(Op::SkipBothEqual { x, y }),
        (0x08, _, _, 0x00) => Ok(Op::SetVxVy { x, y }),
        (0x08, _, _, 0x01) => Ok(Op::BinaryOr { x, y }),
        (0x08, _, _, 0x02) => Ok(Op::BinaryAnd { x, y }),
        (0x08, _, _, 0x03) => Ok(Op::LogicalXor { x, y }),
        (0x08, _, _, 0x04) => Ok(Op::AddVxVy { x, y }),
        (0x08, _, _, 0x05) => Ok(Op::VxMinusVy { x, y }),
        (0x08, _, _, 0x06) => Ok(Op::ShiftRight { x }),
        (0x08, _, _, 0x07) => Ok(Op::VyMinusVx { x, y }),
        (0x08, _, _, 0x0e) => Ok(Op::ShiftLeft { x }),
        (0x09, _, _, 0x00) => Ok(Op::SkipNoneEqual { x, y }),
        (0x01, _, _, _) => Ok(Op::Jump { addr: triple_n }),
        (0x02, _, _, _) => Ok(Op::Call { addr: triple_n }),
        (0x03, _, _, _) => Ok(Op::SkipIfEqual { x, nn: double_n }),
        (0x04, _, _, _) => Ok(Op::SkipNotEqual { x, nn: double_n }),
        (0x06, _, _, _) => Ok(Op::SetVx { x, nn: double_n }),
        (0x07, _, _, _) => Ok(Op::AddVx { x, nn: double_n }),
        (0x0a, _, _, _) => Ok(Op::SetIndex { addr: triple_n }),
        (0x0b, _, _, _) => Ok(Op::OffsetJump { addr: triple_n }),
        (0x0c, _, _, _) => Ok(Op::Random { x, nn: double_n }),
        (0x0d, _, _, _) => Ok(Op::Draw { x, y, n: single_n }),
        (_, _, _, _) => Err(Error::Decode { addr, word }),
    }
}

impl Op {
    /// Tells whether every operand is in its range.
    pub fn is_wf(&self) -> (b: bool)
        ensures
            b == self.wf(),
    {
        match *self {
            Op::ClearScreen | Op::Return => true,
            Op::Jump { addr } | Op::Call { addr } | Op::SetIndex { addr } | Op::OffsetJump {
                addr,
            } => addr < 0x1000,
            Op::SkipIfEqual { x, .. }
            | Op::SkipNotEqual { x, .. }
            | Op::SetVx { x, .. }
            | Op::AddVx { x, .. }
            | Op::Random { x, .. } => x < 16,
            Op::SkipBothEqual { x, y }
            | Op::SetVxVy { x, y }
            | Op::BinaryOr { x, y }
            | Op::BinaryAnd { x, y }
            | Op::LogicalXor { x, y }
            | Op::AddVxVy { x, y }
            | Op::VxMinusVy { x, y }
            | Op::VyMinusVx { x, y }
            | Op::SkipNoneEqual { x, y } => x < 16 && y < 16,
            Op::Draw { x, y, n } => x < 16 && y < 16 && n < 16,
            Op::ShiftRight { x }
            | Op::ShiftLeft { x }
            | Op::SkipIfKey { x }
            | Op::SkipNotKey { x }
            | Op::SetVxToDelay { x }
            | Op::GetKey { x }
            | Op::SetDelayTimer { x }
            | Op::SetSoundTimer { x }
            | Op::AddToIndex { x }
            | Op::FontChar { x }
            | Op::BcdConvert { x }
            | Op::StoreMem { x }
            | Op::LoadMem { x } => x < 16,
        }
    }
}

} // verus!
