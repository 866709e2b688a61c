use vstd::prelude::*;

verus! {

/// A fatal condition raised by the execution engine.  Every variant carries
/// enough context (the program counter and the raw instruction word where
/// that is meaningful) for the caller to log before terminating the run.
/// Unrecognized opcodes are deliberately not an error: the engine treats
/// them as no-ops.
#[derive(Clone, Copy, Debug, PartialEq, Eq, Structural)]
pub enum Error {
    /// A memory access reached beyond the 4096-byte address space.
    OutOfRangeAddress { addr: u16, pc: u16, instruction: u16 },
    /// A return was executed with an empty call stack.
    StackUnderflow { pc: u16, instruction: u16 },
    /// A call was executed with all 16 stack slots already in use.
    StackOverflow { pc: u16, instruction: u16 },
    /// A hexadecimal digit was required (a glyph index or a key number)
    /// but the register held a value above 0xF.
    InvalidDigit { value: u8, pc: u16, instruction: u16 },
    /// A program image too large to fit between 0x200 and the end of memory.
    ProgramTooLarge { len: usize },
}

} // verus!
