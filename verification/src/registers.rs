use vstd::prelude::*;

verus! {

/// Bus width control register.
pub const ABWCR: u32 = 0xfee020;
/// Access state control register.
pub const ASTCR: u32 = 0xfee021;
/// Wait control register H (areas 4 to 7).
pub const WCRH: u32 = 0xfee022;
/// Wait control register L (areas 0 to 3).
pub const WCRL: u32 = 0xfee023;
/// DRAM control register A.
pub const DRCRA: u32 = 0xfee026;

} // verus!
