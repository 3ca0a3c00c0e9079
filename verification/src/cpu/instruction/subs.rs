use vstd::prelude::*;

use crate::cpu::instruction::nibble;
use crate::cpu::{Cpu, CpuView};
use crate::error::EmuError;

verus! {

/// What `SUBS` does with `k` the negated amount: ERd (nibble 4) grows by `k`, modulo 2^32, and
/// no flag changes.
pub open spec fn subs_post(old: CpuView, new: CpuView, opcode: u16, k: i32, r: Result<u8, EmuError>) -> bool {
    let rd = nibble(opcode, 4);
    if rd >= 8 {
        new == old && r == Err::<u8, EmuError>(EmuError::InvalidRegister(rd))
    } else {
        new == (CpuView { er: old.er.update(rd as int, old.er[rd as int].wrapping_add_signed(k)), ..old })
            && r == Ok::<u8, EmuError>(2)
    }
}

impl Cpu {
    /// `SUBS #1, ERd`.
    pub fn subs1(&mut self, opcode: u16) -> (r: Result<u8, EmuError>)
        requires
            old(self).wf(),
        ensures
            final(self).wf(),
            subs_post(old(self)@, final(self)@, opcode, -1i32, r),
    {
        let register = Cpu::get_nibble_opcode(opcode, 4).unwrap();
        let value = match self.read_rn_l(register) {
            Ok(v) => v,
            Err(e) => return Err(e),
        };
        self.write_rn_l(register, value.wrapping_add_signed(-1)).unwrap();
        Ok(2)
    }

    /// `SUBS #2, ERd`.
    pub fn subs2(&mut self, opcode: u16) -> (r: Result<u8, EmuError>)
        requires
            old(self).wf(),
        ensures
            final(self).wf(),
            subs_post(old(self)@, final(self)@, opcode, -2i32, r),
    {
        let register = Cpu::get_nibble_opcode(opcode, 4).unwrap();
        let value = match self.read_rn_l(register) {
            Ok(v) => v,
            Err(e) => return Err(e),
        };
        self.write_rn_l(register, value.wrapping_add_signed(-2)).unwrap();
        Ok(2)
    }

    /// `SUBS #4, ERd`.
    pub fn subs4(&mut self, opcode: u16) -> (r: Result<u8, EmuError>)
        requires
            old(self).wf(),
        ensures
            final(self).wf(),
            subs_post(old(self)@, final(self)@, opcode, -4i32, r),
    {
        let register = Cpu::get_nibble_opcode(opcode, 4).unwrap();
        let value = match self.read_rn_l(register) {
            Ok(v) => v,
            Err(e) => return Err(e),
        };
        self.write_rn_l(register, value.wrapping_add_signed(-4)).unwrap();
        Ok(2)
    }
}

} // verus!
