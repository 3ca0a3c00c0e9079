use vstd::prelude::*;

use crate::cpu::addressing_mode::rn::{spec_rn_b, spec_rn_w, spec_set_rn_b, spec_set_rn_w};
use crate::cpu::instruction::{cyc, lemma_small_cycles, nibble};
use crate::cpu::{with_flag, Cpu, CpuView, StateType, CCR};
use crate::error::EmuError;

verus! {

/// The condition codes of a logical result: N its sign, Z whether it is
/// zero, V cleared.
pub open spec fn logic_ccr(ccr: u8, negative: bool, zero: bool) -> u8 {
    let c = with_flag(ccr, CCR::N.spec_bit(), negative);
    let c = with_flag(c, CCR::Z.spec_bit(), zero);
    with_flag(c, CCR::V.spec_bit(), false)
}

/// `v` with byte register `rd` set to the logical result `res` and the flags set by it.
pub open spec fn logic_b_state(v: CpuView, rd: u8, res: u8) -> CpuView {
    CpuView { er: spec_set_rn_b(v.er, rd, res), ccr: logic_ccr(v.ccr, res >= 0x80, res == 0), ..v }
}

/// `v` with word register `rd` set to the logical result `res` and the flags set by it.
pub open spec fn logic_w_state(v: CpuView, rd: u8, res: u16) -> CpuView {
    CpuView { er: spec_set_rn_w(v.er, rd, res), ccr: logic_ccr(v.ccr, res >= 0x8000, res == 0), ..v }
}

/// `v` with long register `rd` set to the logical result `res` and the flags set by it.
pub open spec fn logic_l_state(v: CpuView, rd: u8, res: u32) -> CpuView {
    CpuView { er: v.er.update(rd as int, res), ccr: logic_ccr(v.ccr, res >= 0x8000_0000, res == 0), ..v }
}

/// The state after `NOT.B Rd`, from `old` to `new`, and its result `r`.
pub open spec fn not_b_post(old: CpuView, new: CpuView, opcode: u16, r: Result<u8, EmuError>) -> bool {
    &&& ({
        let rd = nibble(opcode, 4);
        let res = !spec_rn_b(old.er, rd);
        new == (CpuView {
            er: spec_set_rn_b(old.er, rd, res),
            ccr: logic_ccr(old.ccr, res >= 0x80, res == 0),
            ..old
        })
    })
    &&& r == cyc(old, StateType::I, 1)
}

/// The state after `NOT.W Rd`, from `old` to `new`, and its result `r`.
pub open spec fn not_w_post(old: CpuView, new: CpuView, opcode: u16, r: Result<u8, EmuError>) -> bool {
    &&& ({
        let rd = nibble(opcode, 4);
        let res = !spec_rn_w(old.er, rd);
        new == (CpuView {
            er: spec_set_rn_w(old.er, rd, res),
            ccr: logic_ccr(old.ccr, res >= 0x8000, res == 0),
            ..old
        })
    })
    &&& r == cyc(old, StateType::I, 1)
}

/// The state after `NOT.L ERd`, from `old` to `new`, and its result `r`.
pub open spec fn not_l_post(old: CpuView, new: CpuView, opcode: u16, r: Result<u8, EmuError>) -> bool {
    &&& ({
        let rd = nibble(opcode, 4);
        if rd >= 8 {
            new == old && r == Err::<u8, EmuError>(EmuError::InvalidRegister(rd))
        } else {
            let res = !old.er[rd as int];
            &&& new == (CpuView {
                er: old.er.update(rd as int, res),
                ccr: logic_ccr(old.ccr, res >= 0x8000_0000, res == 0),
                ..old
            })
            &&& r == cyc(old, StateType::I, 1)
        }
    })
}

impl Cpu {
    /// `NOT.B Rd`: Rd (nibble 4) becomes its one's complement.
    pub fn not_b(&mut self, opcode: u16) -> (r: Result<u8, EmuError>)
        requires
            old(self).wf(),
        ensures
            final(self).wf(),
            not_b_post(old(self)@, final(self)@, opcode, r),
    {
        let rd_i = Cpu::get_nibble_opcode(opcode, 4).unwrap();
        let rd = self.read_rn_b(rd_i).unwrap();
        let result = !rd;
        self.write_rn_b(rd_i, result).unwrap();
        self.change_ccr(CCR::N, result >= 0x80);
        self.change_ccr(CCR::Z, result == 0);
        self.change_ccr(CCR::V, false);
        proof {
            lemma_small_cycles(self@.mem, StateType::I, 1, self.operating_pc);
        }
        self.calc_state(StateType::I, 1)
    }

    /// `NOT.W Rd`: Rd (nibble 4) becomes its one's complement.
    pub fn not_w(&mut self, opcode: u16) -> (r: Result<u8, EmuError>)
        requires
            old(self).wf(),
        ensures
            final(self).wf(),
            not_w_post(old(self)@, final(self)@, opcode, r),
    {
        let rd_i = Cpu::get_nibble_opcode(opcode, 4).unwrap();
        let rd = self.read_rn_w(rd_i).unwrap();
        let result = !rd;
        self.write_rn_w(rd_i, result).unwrap();
        self.change_ccr(CCR::N, result >= 0x8000);
        self.change_ccr(CCR::Z, result == 0);
        self.change_ccr(CCR::V, false);
        proof {
            lemma_small_cycles(self@.mem, StateType::I, 1, self.operating_pc);
        }
        self.calc_state(StateType::I, 1)
    }

    /// `NOT.L ERd`: ERd (nibble 4) becomes its one's complement.
    pub fn not_l(&mut self, opcode: u16) -> (r: Result<u8, EmuError>)
        requires
            old(self).wf(),
        ensures
            final(self).wf(),
            not_l_post(old(self)@, final(self)@, opcode, r),
    {
        let rd_i = Cpu::get_nibble_opcode(opcode, 4).unwrap();
        let rd = match self.read_rn_l(rd_i) {
            Ok(v) => v,
            Err(e) => return Err(e),
        };
        let result = !rd;
        self.write_rn_l(rd_i, result).unwrap();
        self.change_ccr(CCR::N, result >= 0x8000_0000);
        self.change_ccr(CCR::Z, result == 0);
        self.change_ccr(CCR::V, false);
        proof {
            lemma_small_cycles(self@.mem, StateType::I, 1, self.operating_pc);
        }
        self.calc_state(StateType::I, 1)
    }
}

} // verus!
