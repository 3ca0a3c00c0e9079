use vstd::prelude::*;

verus! {

/// Every way in which an operation of the emulator can fail.
#[derive(Debug, Clone, Copy, PartialEq, Eq, Structural)]
pub enum EmuError {
    /// An access to an address that no device answers.
    InvalidAddress(u32),
    /// A register field outside the registers of the requested width.
    InvalidRegister(u8),
    /// A nibble position other than 1 to 4.
    InvalidOrder(u8),
    /// An area index other than 0 to 7.
    InvalidAreaIndex(u8),
    /// A cycle count requested without an address for a state type that needs one.
    StateTypeNeedsAddress,
    /// An opcode that the decoder of one instruction group does not accept.
    InvalidOpcode(u16),
    /// An opcode that the emulator does not implement, with the address it was fetched from.
    Unimplemented(u16, u32),
    /// An effective address or a branch target that does not fit in 32 bits.
    AddressOverflow,
    /// A branch to an odd address.
    OddPc(u32),
    /// A system call number that the emulated monitor does not know.
    UnsupportedSystemCall(u32),
    /// Bytes written to the console that are not UTF-8.
    InvalidUtf8,
    /// A malformed ELF image.
    InvalidElf,
    /// An instruction at this address that cannot run: a word that cannot be
    /// fetched, operands whose arithmetic leaves its integer type, or a state
    /// count that does not fit in a byte once scaled.
    Fault(u32),
}

} // verus!
