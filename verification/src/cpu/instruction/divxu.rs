use vstd::prelude::*;

use crate::cpu::addressing_mode::rn::{spec_rn_b, spec_rn_w, spec_set_rn_w};
use crate::cpu::instruction::{add_cycles, cyc, lemma_byte_masks, lemma_small_cycles, nibble};
use crate::cpu::{lemma_cycles_bound, with_flag, Cpu, CpuView, StateType, CCR};
use crate::error::EmuError;

verus! {

/// The word that `DIVXU.B` leaves: the remainder of `dividend / divisor` in
/// the upper byte and the low byte of the quotient in the lower; zero where
/// the divisor is zero.
pub open spec fn divxu_b_result(dividend: u16, divisor: u8) -> u16 {
    if divisor == 0 {
        0
    } else {
        let q = dividend / (divisor as u16);
        let rem = dividend % (divisor as u16);
        ((rem << 8u16) | (q & 0xff)) as u16
    }
}

/// The long word that `DIVXU.W` leaves: the remainder in the upper word and
/// the low word of the quotient in the lower; zero where the divisor is zero.
pub open spec fn divxu_w_result(dividend: u32, divisor: u16) -> u32 {
    if divisor == 0 {
        0
    } else {
        let q = dividend / (divisor as u32);
        let rem = dividend % (divisor as u32);
        ((rem << 16u32) | (q & 0xffff)) as u32
    }
}

/// Packing a zero remainder with a zero quotient gives zero.
proof fn lemma_zero_packs()
    ensures
        ((0u16 << 8u16) | (0u16 & 0xff)) == 0u16,
        ((0u32 << 16u32) | (0u32 & 0xffff)) == 0u32,
{
    assert(((0u16 << 8u16) | (0u16 & 0xff)) == 0u16 && ((0u32 << 16u32) | (0u32 & 0xffff)) == 0u32) by (bit_vector);
}

/// The condition codes after a division: N the sign of the divisor, Z
/// whether it is zero.
pub open spec fn div_ccr(ccr: u8, negative: bool, zero: bool) -> u8 {
    with_flag(with_flag(ccr, CCR::N.spec_bit(), negative), CCR::Z.spec_bit(), zero)
}

/// The state after `DIVXU.B Rs, Rd`, from `old` to `new`, and its result `r`.
pub open spec fn divxu_b_post(old: CpuView, new: CpuView, opcode: u16, r: Result<u8, EmuError>) -> bool {
    &&& ({
        let rd = nibble(opcode, 4);
        let divisor = spec_rn_b(old.er, nibble(opcode, 3));
        new == (CpuView {
            er: spec_set_rn_w(old.er, rd, divxu_b_result(spec_rn_w(old.er, rd), divisor)),
            ccr: div_ccr(old.ccr, divisor >= 0x80, divisor == 0),
            ..old
        })
    })
    &&& r == add_cycles(cyc(old, StateType::I, 1), cyc(old, StateType::N, 12))
}

/// The state after `DIVXU.W Rs, ERd`, from `old` to `new`, and its result `r`.
pub open spec fn divxu_w_post(old: CpuView, new: CpuView, opcode: u16, r: Result<u8, EmuError>) -> bool {
    &&& ({
        let rd = nibble(opcode, 4) & 0x7;
        let divisor = spec_rn_w(old.er, nibble(opcode, 3));
        new == (CpuView {
            er: old.er.update(rd as int, divxu_w_result(old.er[rd as int], divisor)),
            ccr: div_ccr(old.ccr, divisor >= 0x8000, divisor == 0),
            ..old
        })
    })
    &&& r == add_cycles(cyc(old, StateType::I, 1), cyc(old, StateType::N, 20))
}

impl Cpu {
    /// `DIVXU.B Rs, Rd`: divides Rd (nibble 4) by the byte register of nibble 3.
    pub fn divxu_b(&mut self, opcode: u16) -> (r: Result<u8, EmuError>)
        requires
            old(self).wf(),
        ensures
            final(self).wf(),
            divxu_b_post(old(self)@, final(self)@, opcode, r),
    {
        let rd_i = Cpu::get_nibble_opcode(opcode, 4).unwrap();
        let rs_i = Cpu::get_nibble_opcode(opcode, 3).unwrap();
        let rd = self.read_rn_w(rd_i).unwrap();
        let rs = self.read_rn_b(rs_i).unwrap();
        self.change_ccr(CCR::N, rs >= 0x80);
        self.change_ccr(CCR::Z, rs == 0);
        let quotient: u16 = if rs == 0 { 0 } else { rd / (rs as u16) };
        let remainder: u16 = if rs == 0 { 0 } else { rd % (rs as u16) };
        let result = (remainder << 8) | (quotient & 0xff);
        self.write_rn_w(rd_i, result).unwrap();
        proof {
            lemma_small_cycles(self@.mem, StateType::I, 1, self.operating_pc);
            lemma_cycles_bound(self@.mem, StateType::N, 12, self.operating_pc);
            if rs == 0 {
                lemma_zero_packs();
            }
        }
        let s1 = match self.calc_state(StateType::I, 1) {
            Ok(s) => s,
            Err(e) => return Err(e),
        };
        let s2 = match self.calc_state(StateType::N, 12) {
            Ok(s) => s,
            Err(e) => return Err(e),
        };
        Ok(s1 + s2)
    }

    /// `DIVXU.W Rs, ERd`: divides ERd (nibble 4, low three bits) by the word
    /// register of nibble 3.
    pub fn divxu_w(&mut self, opcode: u16) -> (r: Result<u8, EmuError>)
        requires
            old(self).wf(),
        ensures
            final(self).wf(),
            divxu_w_post(old(self)@, final(self)@, opcode, r),
    {
        let rd_i = Cpu::get_nibble_opcode(opcode, 4).unwrap() & 0b111;
        proof {
            lemma_byte_masks(nibble(opcode, 4));
        }
        let rs_i = Cpu::get_nibble_opcode(opcode, 3).unwrap();
        let rd = self.read_rn_l(rd_i).unwrap();
        let rs = self.read_rn_w(rs_i).unwrap();
        self.change_ccr(CCR::N, rs >= 0x8000);
        self.change_ccr(CCR::Z, rs == 0);
        let quotient: u32 = if rs == 0 { 0 } else { rd / (rs as u32) };
        let remainder: u32 = if rs == 0 { 0 } else { rd % (rs as u32) };
        let result = (remainder << 16) | (quotient & 0xffff);
        self.write_rn_l(rd_i, result).unwrap();
        proof {
            lemma_small_cycles(self@.mem, StateType::I, 1, self.operating_pc);
            lemma_cycles_bound(self@.mem, StateType::N, 20, self.operating_pc);
            if rs == 0 {
                lemma_zero_packs();
            }
        }
        let s1 = match self.calc_state(StateType::I, 1) {
            Ok(s) => s,
            Err(e) => return Err(e),
        };
        let s2 = match self.calc_state(StateType::N, 20) {
            Ok(s) => s,
            Err(e) => return Err(e),
        };
        Ok(s1 + s2)
    }
}

} // verus!
