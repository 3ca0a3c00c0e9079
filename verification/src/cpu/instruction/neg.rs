use vstd::prelude::*;

use crate::cpu::addressing_mode::rn::{spec_rn_b, spec_rn_w, spec_set_rn_b, spec_set_rn_w};
use crate::cpu::instruction::{cyc, lemma_small_cycles, nibble};
use crate::cpu::{with_flag, Cpu, CpuView, StateType, CCR};
use crate::error::EmuError;

verus! {

/// The condition codes after `NEG.B` of `value`: H where its low nibble is
/// not zero, N and Z by `0 - value`, V where the negation overflows (only
/// `0x80` does), C where `value` is not zero.
pub open spec fn neg_b_ccr(ccr: u8, value: u8) -> u8 {
    let res = 0u8.wrapping_sub(value);
    let c = with_flag(ccr, CCR::H.spec_bit(), 0 < (value & 0x0f));
    let c = with_flag(c, CCR::N.spec_bit(), res >= 0x80);
    let c = with_flag(c, CCR::Z.spec_bit(), res == 0);
    let c = with_flag(c, CCR::V.spec_bit(), value == 0x80);
    with_flag(c, CCR::C.spec_bit(), 0 < value)
}

/// The condition codes after `NEG.W` of `value`: H where a borrow comes out
/// of bit 11 (the low 12 bits of `value` are not zero), N and Z by
/// `0 - value`, V where the negation overflows (only `0x8000` does), C where
/// `value` is not zero.
pub open spec fn neg_w_ccr(ccr: u8, value: u16) -> u8 {
    let res = 0u16.wrapping_sub(value);
    let c = with_flag(ccr, CCR::H.spec_bit(), 0 < (value & 0x0fff));
    let c = with_flag(c, CCR::N.spec_bit(), res >= 0x8000);
    let c = with_flag(c, CCR::Z.spec_bit(), res == 0);
    let c = with_flag(c, CCR::V.spec_bit(), value == 0x8000);
    with_flag(c, CCR::C.spec_bit(), 0 < value)
}

/// The condition codes after `NEG.L` of `value`: H where a borrow comes out
/// of bit 27 (the low 28 bits of `value` are not zero), N and Z by
/// `0 - value`, V where the negation overflows (only `0x8000_0000` does), C
/// where `value` is not zero.
pub open spec fn neg_l_ccr(ccr: u8, value: u32) -> u8 {
    let res = 0u32.wrapping_sub(value);
    let c = with_flag(ccr, CCR::H.spec_bit(), 0 < (value & 0x0fff_ffff));
    let c = with_flag(c, CCR::N.spec_bit(), res >= 0x8000_0000);
    let c = with_flag(c, CCR::Z.spec_bit(), res == 0);
    let c = with_flag(c, CCR::V.spec_bit(), value == 0x8000_0000);
    with_flag(c, CCR::C.spec_bit(), 0 < value)
}

/// The state after `NEG.B Rd`, from `old` to `new`, and its result `r`.
pub open spec fn neg_b_post(old: CpuView, new: CpuView, opcode: u16, r: Result<u8, EmuError>) -> bool {
    &&& ({
        let rd = nibble(opcode, 4);
        let value = spec_rn_b(old.er, rd);
        new == (CpuView {
            er: spec_set_rn_b(old.er, rd, 0u8.wrapping_sub(value)),
            ccr: neg_b_ccr(old.ccr, value),
            ..old
        })
    })
    &&& r == cyc(old, StateType::I, 1)
}

/// The state after `NEG.W Rd`, from `old` to `new`, and its result `r`.
pub open spec fn neg_w_post(old: CpuView, new: CpuView, opcode: u16, r: Result<u8, EmuError>) -> bool {
    &&& ({
        let rd = nibble(opcode, 4);
        let value = spec_rn_w(old.er, rd);
        new == (CpuView {
            er: spec_set_rn_w(old.er, rd, 0u16.wrapping_sub(value)),
            ccr: neg_w_ccr(old.ccr, value),
            ..old
        })
    })
    &&& r == cyc(old, StateType::I, 1)
}

/// The state after `NEG.L ERd`, from `old` to `new`, and its result `r`.
pub open spec fn neg_l_post(old: CpuView, new: CpuView, opcode: u16, r: Result<u8, EmuError>) -> bool {
    &&& ({
        let rd = nibble(opcode, 4);
        if rd >= 8 {
            new == old && r == Err::<u8, EmuError>(EmuError::InvalidRegister(rd))
        } else {
            let value = old.er[rd as int];
            &&& new == (CpuView {
                er: old.er.update(rd as int, 0u32.wrapping_sub(value)),
                ccr: neg_l_ccr(old.ccr, value),
                ..old
            })
            &&& r == cyc(old, StateType::I, 1)
        }
    })
}

impl Cpu {
    fn neg_b_proc(&mut self, value: u8) -> (r: u8)
        ensures
            r == 0u8.wrapping_sub(value),
            final(self)@ == (CpuView { ccr: neg_b_ccr(old(self).ccr, value), ..old(self)@ }),
            final(self).bus == old(self).bus,
    {
        let result = 0u8.wrapping_sub(value);
        let overflowed = value == 0x80;
        self.change_ccr(CCR::H, 0 < (value & 0x0f));
        self.change_ccr(CCR::N, result >= 0x80);
        self.change_ccr(CCR::Z, result == 0);
        self.change_ccr(CCR::V, overflowed);
        self.change_ccr(CCR::C, 0 < value);
        result
    }

    /// `NEG.B Rd`: Rd (nibble 4) becomes `0 - Rd`.
    pub fn neg_b(&mut self, opcode: u16) -> (r: Result<u8, EmuError>)
        requires
            old(self).wf(),
        ensures
            final(self).wf(),
            neg_b_post(old(self)@, final(self)@, opcode, r),
    {
        let rd_i = Cpu::get_nibble_opcode(opcode, 4).unwrap();
        let rd = self.read_rn_b(rd_i).unwrap();
        let result = self.neg_b_proc(rd);
        self.write_rn_b(rd_i, result).unwrap();
        proof {
            lemma_small_cycles(self@.mem, StateType::I, 1, self.operating_pc);
        }
        self.calc_state(StateType::I, 1)
    }

    fn neg_w_proc(&mut self, value: u16) -> (r: u16)
        ensures
            r == 0u16.wrapping_sub(value),
            final(self)@ == (CpuView { ccr: neg_w_ccr(old(self).ccr, value), ..old(self)@ }),
            final(self).bus == old(self).bus,
    {
        let result = 0u16.wrapping_sub(value);
        let overflowed = value == 0x8000;
        self.change_ccr(CCR::H, 0 < (value & 0x0fff));
        self.change_ccr(CCR::N, result >= 0x8000);
        self.change_ccr(CCR::Z, result == 0);
        self.change_ccr(CCR::V, overflowed);
        self.change_ccr(CCR::C, 0 < value);
        result
    }

    /// `NEG.W Rd`: Rd (nibble 4) becomes `0 - Rd`.
    pub fn neg_w(&mut self, opcode: u16) -> (r: Result<u8, EmuError>)
        requires
            old(self).wf(),
        ensures
            final(self).wf(),
            neg_w_post(old(self)@, final(self)@, opcode, r),
    {
        let rd_i = Cpu::get_nibble_opcode(opcode, 4).unwrap();
        let rd = self.read_rn_w(rd_i).unwrap();
        let result = self.neg_w_proc(rd);
        self.write_rn_w(rd_i, result).unwrap();
        proof {
            lemma_small_cycles(self@.mem, StateType::I, 1, self.operating_pc);
        }
        self.calc_state(StateType::I, 1)
    }

    fn neg_l_proc(&mut self, value: u32) -> (r: u32)
        ensures
            r == 0u32.wrapping_sub(value),
            final(self)@ == (CpuView { ccr: neg_l_ccr(old(self).ccr, value), ..old(self)@ }),
            final(self).bus == old(self).bus,
    {
        let result = 0u32.wrapping_sub(value);
        let overflowed = value == 0x8000_0000;
        self.change_ccr(CCR::H, 0 < (value & 0x0fff_ffff));
        self.change_ccr(CCR::N, result >= 0x8000_0000);
        self.change_ccr(CCR::Z, result == 0);
        self.change_ccr(CCR::V, overflowed);
        self.change_ccr(CCR::C, 0 < value);
        result
    }

    /// `NEG.L ERd`: ERd (nibble 4) becomes `0 - ERd`.
    pub fn neg_l(&mut self, opcode: u16) -> (r: Result<u8, EmuError>)
        requires
            old(self).wf(),
        ensures
            final(self).wf(),
            neg_l_post(old(self)@, final(self)@, opcode, r),
    {
        let rd_i = Cpu::get_nibble_opcode(opcode, 4).unwrap();
        let rd = match self.read_rn_l(rd_i) {
            Ok(v) => v,
            Err(e) => return Err(e),
        };
        let result = self.neg_l_proc(rd);
        self.write_rn_l(rd_i, result).unwrap();
        proof {
            lemma_small_cycles(self@.mem, StateType::I, 1, self.operating_pc);
        }
        self.calc_state(StateType::I, 1)
    }
}

} // verus!
