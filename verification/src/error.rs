//! The ways in which the machine can fail. Every one of them is fatal to the
//! machine instance that raised it.

use vstd::prelude::*;

verus! {

/// A failure of the virtual machine or of one of its parts.
#[derive(Clone, Copy, Debug, PartialEq, Eq, Structural)]
pub enum Chip8Error {
    /// An address outside the 4096 bytes of memory was touched.
    OutOfBounds,
    /// A push onto a call stack that already holds sixteen return addresses.
    StackOverflow,
    /// A pop from an empty call stack.
    StackUnderflow,
    /// A 16-bit word that is none of the instructions.
    IllegalOpcode,
    /// A sprite of more than sixteen rows.
    SpriteTooTall,
}

/// The words that describe the failure `error`.
pub open spec fn message_of(error: Chip8Error) -> Seq<char> {
    match error {
        Chip8Error::OutOfBounds => "memory access out of bounds"@,
        Chip8Error::StackOverflow => "stack overflow"@,
        Chip8Error::StackUnderflow => "stack underflow"@,
        Chip8Error::IllegalOpcode => "illegal opcode"@,
        Chip8Error::SpriteTooTall => "sprite too tall"@,
    }
}

impl Chip8Error {
    /// A few words that describe the failure, for the host to report.
    pub fn message(&self) -> (text: &'static str)
        ensures
            text@ == message_of(*self),
    {
        match self {
            Chip8Error::OutOfBounds => "memory access out of bounds",
            Chip8Error::StackOverflow => "stack overflow",
            Chip8Error::StackUnderflow => "stack underflow",
            Chip8Error::IllegalOpcode => "illegal opcode",
            Chip8Error::SpriteTooTall => "sprite too tall",
        }
    }
}

} // verus!
