//! The conditions that stop the machine for good.

use vstd::prelude::*;

verus! {

/// A fatal condition. The machine never recovers from one in place: the
/// operation that reports it leaves the machine exactly as it found it, so
/// that the program counter, the index register and the stack can still be
/// inspected, and the host ends the run.
#[derive(Clone, Copy, Debug, PartialEq, Eq, Structural)]
pub enum Fault {
    /// The instruction word matches no instruction.
    UnsupportedOpcode { opcode: u16 },
    /// The program counter leaves no room in memory for an instruction word.
    ProgramCounterOutOfBounds { pc: u16 },
    /// An instruction reaches past the end of memory through the index
    /// register, whose value is given.
    MemoryOutOfBounds { index: u16 },
    /// Adding to the index register, whose value is given, would carry out
    /// of its sixteen bits.
    IndexOverflow { index: u16 },
    /// A call with the stack already full.
    StackOverflow,
    /// A return with the stack empty.
    StackUnderflow,
    /// A key test names a key that the pad does not have.
    InvalidKey { key: u8 },
    /// A program of the given length does not fit between the load address
    /// and the end of memory.
    RomTooLarge { len: usize },
}

} // verus!
