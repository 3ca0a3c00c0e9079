use vstd::prelude::*;

use crate::cpu::addressing_mode::rn::{spec_rn_b, spec_rn_w, spec_set_rn_b, spec_set_rn_w};
use crate::cpu::instruction::inc::nzvc_ccr;
use crate::cpu::instruction::{cyc, lemma_small_cycles, nibble};
use crate::cpu::{Cpu, CpuView, StateType, CCR};
use crate::error::EmuError;

verus! {

/// The state after `ROTXL.B Rd`, from `old` to `new`, and its result `r`.
pub open spec fn rotxl_b_post(old: CpuView, new: CpuView, opcode: u16, r: Result<u8, EmuError>) -> bool {
    &&& ({
        let rd = nibble(opcode, 4);
        let src = spec_rn_b(old.er, rd);
        let ccr = old.ccr;
        let res = ((src << 1u8) | ((ccr & 1u8) as u8)) as u8;
        new == (CpuView { er: spec_set_rn_b(old.er, rd, res), ccr: nzvc_ccr(ccr, res & 0x80 == 0x80, res == 0, false, ((src >> 7u8) & 1u8) == 1u8), ..old })
    })
    &&& r == Ok::<u8, EmuError>(2)
}

/// The state after `ROTXL.W Rd`, from `old` to `new`, and its result `r`.
pub open spec fn rotxl_w_post(old: CpuView, new: CpuView, opcode: u16, r: Result<u8, EmuError>) -> bool {
    &&& ({
        let rd = nibble(opcode, 4);
        let src = spec_rn_w(old.er, rd);
        let ccr = old.ccr;
        let res = ((src << 1u16) | ((ccr & 1u8) as u16)) as u16;
        new == (CpuView { er: spec_set_rn_w(old.er, rd, res), ccr: nzvc_ccr(ccr, res & 0x8000 == 0x8000, res == 0, false, ((src >> 15u16) & 1u16) == 1u16), ..old })
    })
    &&& r == Ok::<u8, EmuError>(2)
}

/// The state after `ROTXL.L ERd`, from `old` to `new`, and its result `r`.
pub open spec fn rotxl_l_post(old: CpuView, new: CpuView, opcode: u16, r: Result<u8, EmuError>) -> bool {
    &&& ({
        let rd = nibble(opcode, 4);
        if rd >= 8 {
            new == old && r == Err::<u8, EmuError>(EmuError::InvalidRegister(rd))
        } else {
            let src = old.er[rd as int];
            let ccr = old.ccr;
            let res = ((src << 1u32) | ((ccr & 1u8) as u32)) as u32;
            &&& new == (CpuView { er: old.er.update(rd as int, res), ccr: nzvc_ccr(ccr, res & 0x8000_0000 == 0x8000_0000, res == 0, false, ((src >> 31u32) & 1u32) == 1u32), ..old })
            &&& r == Ok::<u8, EmuError>(2)
        }
    })
}

impl Cpu {
    /// `ROTXL.B Rd`: the register (nibble 4) rotates left by one bit through C.
    pub fn rotxl_b(&mut self, opcode: u16) -> (r: Result<u8, EmuError>)
        requires
            old(self).wf(),
        ensures
            final(self).wf(),
            rotxl_b_post(old(self)@, final(self)@, opcode, r),
    {
        let register = Cpu::get_nibble_opcode(opcode, 4).unwrap();
        let src = self.read_rn_b(register).unwrap();
        let result = (src << 1) | ((self.ccr & 1) as u8);
        self.write_rn_b(register, result).unwrap();
        self.change_ccr(CCR::N, result & 0x80 == 0x80);
        self.change_ccr(CCR::Z, result == 0);
        self.write_ccr(CCR::V, 0);
        self.change_ccr(CCR::C, ((src >> 7) & 1) == 1);
        Ok(2)
    }

    /// `ROTXL.W Rd`: the register (nibble 4) rotates left by one bit through C.
    pub fn rotxl_w(&mut self, opcode: u16) -> (r: Result<u8, EmuError>)
        requires
            old(self).wf(),
        ensures
            final(self).wf(),
            rotxl_w_post(old(self)@, final(self)@, opcode, r),
    {
        let register = Cpu::get_nibble_opcode(opcode, 4).unwrap();
        let src = self.read_rn_w(register).unwrap();
        let result = (src << 1) | ((self.ccr & 1) as u16);
        self.write_rn_w(register, result).unwrap();
        self.change_ccr(CCR::N, result & 0x8000 == 0x8000);
        self.change_ccr(CCR::Z, result == 0);
        self.write_ccr(CCR::V, 0);
        self.change_ccr(CCR::C, ((src >> 15) & 1) == 1);
        Ok(2)
    }

    /// `ROTXL.L ERd`: the register (nibble 4) rotates left by one bit through C.
    pub fn rotxl_l(&mut self, opcode: u16) -> (r: Result<u8, EmuError>)
        requires
            old(self).wf(),
        ensures
            final(self).wf(),
            rotxl_l_post(old(self)@, final(self)@, opcode, r),
    {
        let register = Cpu::get_nibble_opcode(opcode, 4).unwrap();
        let src = match self.read_rn_l(register) {
            Ok(v) => v,
            Err(e) => return Err(e),
        };
        let result = (src << 1) | ((self.ccr & 1) as u32);
        self.write_rn_l(register, result).unwrap();
        self.change_ccr(CCR::N, result & 0x8000_0000 == 0x8000_0000);
        self.change_ccr(CCR::Z, result == 0);
        self.write_ccr(CCR::V, 0);
        self.change_ccr(CCR::C, ((src >> 31) & 1) == 1);
        Ok(2)
    }
}

} // verus!
