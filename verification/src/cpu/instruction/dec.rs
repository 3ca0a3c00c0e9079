use vstd::prelude::*;

use crate::cpu::addressing_mode::rn::{spec_rn_b, spec_rn_w, spec_set_rn_b, spec_set_rn_w};
use crate::cpu::instruction::inc::nzv_ccr;
use crate::cpu::instruction::{cyc, lemma_small_cycles, nibble};
use crate::cpu::{Cpu, CpuView, StateType, CCR};
use crate::error::EmuError;

verus! {

/// What `DEC.W #k, Rd` does: Rd (nibble 4) shrinks by `k`, modulo 2^16; V is
/// set where the signed subtraction overflows.
pub open spec fn dec_w_post(old: CpuView, new: CpuView, opcode: u16, k: u16, r: Result<u8, EmuError>) -> bool {
    let rd = nibble(opcode, 4);
    let src = spec_rn_w(old.er, rd);
    let res = src.wrapping_sub(k);
    &&& new == (CpuView {
        er: spec_set_rn_w(old.er, rd, res),
        ccr: nzv_ccr(old.ccr, res >= 0x8000, res == 0, 0x8000 <= src < 0x8000 + k),
        ..old
    })
    &&& r == cyc(old, StateType::I, 1)
}

/// What `DEC.L #k, ERd` does: ERd (nibble 4) shrinks by `k`, modulo 2^32; V
/// is set where the signed subtraction overflows.
pub open spec fn dec_l_post(old: CpuView, new: CpuView, opcode: u16, k: u32, r: Result<u8, EmuError>) -> bool {
    let rd = nibble(opcode, 4);
    if rd >= 8 {
        new == old && r == Err::<u8, EmuError>(EmuError::InvalidRegister(rd))
    } else {
        let src = old.er[rd as int];
        let res = src.wrapping_sub(k);
        &&& new == (CpuView {
            er: old.er.update(rd as int, res),
            ccr: nzv_ccr(old.ccr, res >= 0x8000_0000, res == 0, 0x8000_0000 <= src < 0x8000_0000 + k),
            ..old
        })
        &&& r == cyc(old, StateType::I, 1)
    }
}

/// The state after `DEC.B Rd`, from `old` to `new`, and its result `r`: Rd
/// (nibble 4) shrinks by one, modulo 256; V is set where it was 0x80.
pub open spec fn dec_b_post(old: CpuView, new: CpuView, opcode: u16, r: Result<u8, EmuError>) -> bool {
    &&& ({
        let rd = nibble(opcode, 4);
        let src = spec_rn_b(old.er, rd);
        let res = src.wrapping_sub(1);
        new == (CpuView {
            er: spec_set_rn_b(old.er, rd, res),
            ccr: nzv_ccr(old.ccr, res >= 0x80, res == 0, src == 0x80),
            ..old
        })
    })
    &&& r == cyc(old, StateType::I, 1)
}

impl Cpu {
    /// `DEC.B Rd`: the byte register of nibble 4 shrinks by one, modulo 256;
    /// V is set where it was 0x80.
    pub fn dec_b(&mut self, opcode: u16) -> (r: Result<u8, EmuError>)
        requires
            old(self).wf(),
        ensures
            final(self).wf(),
            dec_b_post(old(self)@, final(self)@, opcode, r),
    {
        let rd_i = Cpu::get_nibble_opcode(opcode, 4).unwrap();
        let src = self.read_rn_b(rd_i).unwrap();
        let result = src.wrapping_sub(1);
        self.write_rn_b(rd_i, result).unwrap();
        self.change_ccr(CCR::N, result >= 0x80);
        self.change_ccr(CCR::Z, result == 0);
        self.change_ccr(CCR::V, src == 0x80);
        proof {
            lemma_small_cycles(self@.mem, StateType::I, 1, self.operating_pc);
        }
        self.calc_state(StateType::I, 1)
    }

    /// `DEC.W #1, Rd`.
    pub fn dec_w_1(&mut self, opcode: u16) -> (r: Result<u8, EmuError>)
        requires
            old(self).wf(),
        ensures
            final(self).wf(),
            dec_w_post(old(self)@, final(self)@, opcode, 1, r),
    {
        let rd_i = Cpu::get_nibble_opcode(opcode, 4).unwrap();
        let src = self.read_rn_w(rd_i).unwrap();
        let result = src.wrapping_sub(1);
        self.write_rn_w(rd_i, result).unwrap();
        self.change_ccr(CCR::N, result >= 0x8000);
        self.change_ccr(CCR::Z, result == 0);
        self.change_ccr(CCR::V, 0x8000 <= src && src < 0x8001);
        proof {
            lemma_small_cycles(self@.mem, StateType::I, 1, self.operating_pc);
        }
        self.calc_state(StateType::I, 1)
    }

    /// `DEC.W #2, Rd`.
    pub fn dec_w_2(&mut self, opcode: u16) -> (r: Result<u8, EmuError>)
        requires
            old(self).wf(),
        ensures
            final(self).wf(),
            dec_w_post(old(self)@, final(self)@, opcode, 2, r),
    {
        let rd_i = Cpu::get_nibble_opcode(opcode, 4).unwrap();
        let src = self.read_rn_w(rd_i).unwrap();
        let result = src.wrapping_sub(2);
        self.write_rn_w(rd_i, result).unwrap();
        self.change_ccr(CCR::N, result >= 0x8000);
        self.change_ccr(CCR::Z, result == 0);
        self.change_ccr(CCR::V, 0x8000 <= src && src < 0x8002);
        proof {
            lemma_small_cycles(self@.mem, StateType::I, 1, self.operating_pc);
        }
        self.calc_state(StateType::I, 1)
    }

    /// `DEC.L #1, ERd`.
    pub fn dec_l_1(&mut self, opcode: u16) -> (r: Result<u8, EmuError>)
        requires
            old(self).wf(),
        ensures
            final(self).wf(),
            dec_l_post(old(self)@, final(self)@, opcode, 1, r),
    {
        let rd_i = Cpu::get_nibble_opcode(opcode, 4).unwrap();
        let src = match self.read_rn_l(rd_i) {
            Ok(v) => v,
            Err(e) => return Err(e),
        };
        let result = src.wrapping_sub(1);
        self.write_rn_l(Cpu::get_nibble_opcode(opcode, 4).unwrap(), result).unwrap();
        self.change_ccr(CCR::N, result >= 0x8000_0000);
        self.change_ccr(CCR::Z, result == 0);
        self.change_ccr(CCR::V, 0x8000_0000 <= src && src < 0x8000_0001);
        proof {
            lemma_small_cycles(self@.mem, StateType::I, 1, self.operating_pc);
        }
        self.calc_state(StateType::I, 1)
    }

    /// `DEC.L #2, ERd`.
    pub fn dec_l_2(&mut self, opcode: u16) -> (r: Result<u8, EmuError>)
        requires
            old(self).wf(),
        ensures
            final(self).wf(),
            dec_l_post(old(self)@, final(self)@, opcode, 2, r),
    {
        let rd_i = Cpu::get_nibble_opcode(opcode, 4).unwrap();
        let src = match self.read_rn_l(rd_i) {
            Ok(v) => v,
            Err(e) => return Err(e),
        };
        let result = src.wrapping_sub(2);
        self.write_rn_l(Cpu::get_nibble_opcode(opcode, 4).unwrap(), result).unwrap();
        self.change_ccr(CCR::N, result >= 0x8000_0000);
        self.change_ccr(CCR::Z, result == 0);
        self.change_ccr(CCR::V, 0x8000_0000 <= src && src < 0x8000_0002);
        proof {
            lemma_small_cycles(self@.mem, StateType::I, 1, self.operating_pc);
        }
        self.calc_state(StateType::I, 1)
    }
}

} // verus!
