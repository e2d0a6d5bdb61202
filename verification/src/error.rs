use vstd::prelude::*;

verus! {

/// Typed failures returned by the machine's fallible operations.
///
/// All of these are recoverable at the driver level: `tick`, `load` and
/// `set_key` report them instead of aborting, and a failed operation leaves
/// the machine state exactly as it was before the call.
#[derive(Clone, Copy, Debug, PartialEq, Eq, Structural)]
pub enum Chip8Error {
    /// A subroutine call (0x2NNN) was executed with a full 16-entry stack.
    StackOverflow,
    /// A subroutine return (0x00EE) was executed with an empty stack.
    StackUnderflow,
    /// The fetched opcode matches no instruction; carries the raw value.
    InvalidOpcode(u16),
    /// A fetch or a sprite read would fall outside the 4096-byte memory.
    OutOfBoundsMemoryAccess,
    /// A program image longer than the space above 0x200 was loaded.
    RomTooLarge,
    /// A key index at or above 16 was used.
    InvalidKeyIndex,
}

} // verus!
