use vstd::prelude::*;

verus! {

/// The ways in which the machine can halt.
#[derive(Clone, Copy, Debug, PartialEq, Eq, Structural)]
pub enum Error {
    /// The word at `addr` is no instruction.
    Decode { addr: u16, word: u16 },
    /// A call was made with sixteen return addresses already on the stack.
    StackOverflow,
    /// A return was made with no return address on the stack.
    StackUnderflow,
    /// A memory address, a register number or the program counter left its range.
    OutOfBounds,
}

} // verus!
