//! A CHIP-8 virtual machine core: instruction decoding, register and flag
//! arithmetic, the sprite blitter and the timer clock, each with a contract
//! stated over a mathematical model of the machine.

pub mod utils;
pub mod peripherals;
pub mod emulator;
