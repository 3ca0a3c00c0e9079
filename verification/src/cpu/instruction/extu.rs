use vstd::prelude::*;

use crate::cpu::addressing_mode::rn::{spec_rn_w, spec_set_rn_w};
use crate::cpu::instruction::nibble;
use crate::cpu::instruction::not::logic_ccr;
use crate::cpu::{Cpu, CpuView, CCR};
use crate::error::EmuError;

verus! {

/// The state after `EXTU.W Rd`, from `old` to `new`, and its result `r`.
pub open spec fn extu_w_post(old: CpuView, new: CpuView, opcode: u16, r: Result<u8, EmuError>) -> bool {
    &&& ({
        let rd = nibble(opcode, 4);
        let res = spec_rn_w(old.er, rd) & 0x00ff;
        new == (CpuView {
            er: spec_set_rn_w(old.er, rd, res),
            ccr: logic_ccr(old.ccr, false, res == 0),
            ..old
        })
    })
    &&& r == Ok::<u8, EmuError>(2)
}

/// The state after `EXTU.L ERd`, from `old` to `new`, and its result `r`.
pub open spec fn extu_l_post(old: CpuView, new: CpuView, opcode: u16, r: Result<u8, EmuError>) -> bool {
    &&& ({
        let rd = nibble(opcode, 4);
        if rd >= 8 {
            new == old && r == Err::<u8, EmuError>(EmuError::InvalidRegister(rd))
        } else {
            let res = old.er[rd as int] & 0x0000ffff;
            &&& new == (CpuView {
                er: old.er.update(rd as int, res),
                ccr: logic_ccr(old.ccr, false, res == 0),
                ..old
            })
            &&& r == Ok::<u8, EmuError>(2)
        }
    })
}

impl Cpu {
    /// `EXTU.W Rd`: clears the upper byte of Rd (nibble 4).
    pub fn extu_w(&mut self, opcode: u16) -> (r: Result<u8, EmuError>)
        requires
            old(self).wf(),
        ensures
            final(self).wf(),
            extu_w_post(old(self)@, final(self)@, opcode, r),
    {
        let register = Cpu::get_nibble_opcode(opcode, 4).unwrap();
        let result = self.read_rn_w(register).unwrap() & 0x00ff;
        self.write_rn_w(register, result).unwrap();
        self.write_ccr(CCR::N, 0);
        self.change_ccr(CCR::Z, result == 0);
        self.write_ccr(CCR::V, 0);
        Ok(2)
    }

    /// `EXTU.L ERd`: clears the upper word of ERd (nibble 4).
    pub fn extu_l(&mut self, opcode: u16) -> (r: Result<u8, EmuError>)
        requires
            old(self).wf(),
        ensures
            final(self).wf(),
            extu_l_post(old(self)@, final(self)@, opcode, r),
    {
        let register = Cpu::get_nibble_opcode(opcode, 4).unwrap();
        let value = match self.read_rn_l(register) {
            Ok(v) => v,
            Err(e) => return Err(e),
        };
        let result = value & 0x0000ffff;
        self.write_rn_l(register, result).unwrap();
        self.write_ccr(CCR::N, 0);
        self.change_ccr(CCR::Z, result == 0);
        self.write_ccr(CCR::V, 0);
        Ok(2)
    }
}

} // verus!
