use vstd::prelude::*;

verus! {

/// First address of the on-chip RAM.
pub const MEMORY_START_ADDR: u32 = 0xffbf20;
/// Last address of the on-chip RAM.
pub const MEMORY_END_ADDR: u32 = 0xffff1f;
/// Size in bytes of the on-chip RAM.
pub const MEMORY_SIZE: usize = 0x4000;

} // verus!
