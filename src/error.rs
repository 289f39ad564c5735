use vstd::prelude::*;

verus! {

/// The fatal conditions of the interpreter core.
#[derive(Debug, Clone, Copy, PartialEq, Eq, Structural)]
pub enum Chip8Error {
    /// A bulk write would run past the end of the 4096-byte address space.
    MemoryOverflow,
    /// A fetch or single-byte access addressed memory outside `[0, 4096)`;
    /// carries the offending address.
    OutOfBounds(u16),
    /// No instruction matches the word; carries the word and the address
    /// it was fetched from. Such words are not skipped: like every error
    /// here, this one halts the interpreter, which eases debugging of ROMs.
    UnknownOpcode(u16, u16),
    /// A call was made with sixteen return addresses already on the stack.
    StackOverflow,
    /// A return was made with no return address on the stack.
    StackUnderflow,
}

} // verus!
