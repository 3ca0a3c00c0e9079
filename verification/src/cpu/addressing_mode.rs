use vstd::prelude::*;

pub mod abs;
pub mod dec_ern;
pub mod inc_ern;
pub mod mem_indirect;
pub mod pc;
pub mod disp;
pub mod ern;
pub mod rn;

verus! {

/// The error of an effective address that cannot be formed.
#[derive(Debug, Clone, Copy, PartialEq, Eq, Structural)]
pub struct AddressingError;

impl AddressingError {
    /// The text that describes the error.
    pub fn message(&self) -> (s: String)
        ensures
            s@ == "Occurred addressing error."@,
    {
        "Occurred addressing error.".to_owned()
    }
}

} // verus!
