use vstd::prelude::*;

use crate::cpu::addressing_mode::rn::{spec_rn_b, spec_set_rn_b};
use crate::cpu::instruction::{cyc, lemma_byte_masks, lemma_small_cycles, nibble, sx8};
use crate::cpu::{flag_of, with_flag, Cpu, CpuView, StateType, CCR};
use crate::error::EmuError;

verus! {

/// The sum that `ADDX` computes: `dest + src` plus the carry flag, modulo 256.
pub open spec fn addx_result(ccr: u8, dest: u8, src: u8) -> u8 {
    dest.wrapping_add(src).wrapping_add(flag_of(ccr, CCR::C.spec_bit()))
}

/// The condition codes after `ADDX`: H the carry out of bit 3 and C the
/// carry out of bit 7 of `dest + src + C`, N and Z by the sum, V where the
/// sum overflows as a signed byte.
pub open spec fn addx_ccr(ccr: u8, dest: u8, src: u8) -> u8 {
    let carry = flag_of(ccr, CCR::C.spec_bit());
    let res = addx_result(ccr, dest, src);
    let signed = sx8(dest) + sx8(src) + carry;
    let c = with_flag(ccr, CCR::H.spec_bit(), (dest & 0x0f) + (src & 0x0f) + carry > 0x0f);
    let c = with_flag(c, CCR::N.spec_bit(), res >= 0x80);
    let c = with_flag(c, CCR::Z.spec_bit(), res == 0);
    let c = with_flag(c, CCR::V.spec_bit(), signed > 127 || signed < -128);
    with_flag(c, CCR::C.spec_bit(), dest + src + carry > 0xff)
}

/// `v` after `ADDX` of `src` into byte register `rd`.
pub open spec fn addx_state(v: CpuView, rd: u8, src: u8) -> CpuView {
    let dest = spec_rn_b(v.er, rd);
    CpuView {
        er: spec_set_rn_b(v.er, rd, addx_result(v.ccr, dest, src)),
        ccr: addx_ccr(v.ccr, dest, src),
        ..v
    }
}

/// The state after `ADDX #xx:8, Rd`, from `old` to `new`, and its result `r`.
pub open spec fn addx_imm_post(old: CpuView, new: CpuView, opcode: u16, r: Result<u8, EmuError>) -> bool {
    &&& new == addx_state(old, nibble(opcode, 2), opcode as u8)
    &&& r == cyc(old, StateType::I, 1)
}

/// The state after `ADDX Rs, Rd`, from `old` to `new`, and its result `r`.
pub open spec fn addx_rn_post(old: CpuView, new: CpuView, opcode: u16, r: Result<u8, EmuError>) -> bool {
    &&& new == addx_state(old, nibble(opcode, 4), spec_rn_b(old.er, nibble(opcode, 3)))
    &&& r == cyc(old, StateType::I, 1)
}

impl Cpu {
    /// Adds `src` and the carry to `dest`, setting H, N, Z, V and C.
    fn addx_proc(&mut self, dest: u8, src: u8) -> (r: u8)
        ensures
            r == addx_result(old(self).ccr, dest, src),
            final(self)@ == (CpuView { ccr: addx_ccr(old(self).ccr, dest, src), ..old(self)@ }),
            final(self).bus == old(self).bus,
    {
        let carry = self.read_ccr(CCR::C);
        let sd: i16 = if dest < 0x80 { dest as i16 } else { dest as i16 - 0x100 };
        let ss: i16 = if src < 0x80 { src as i16 } else { src as i16 - 0x100 };
        let signed = sd + ss + carry as i16;
        let value = dest.wrapping_add(src).wrapping_add(carry);
        proof {
            lemma_byte_masks(dest);
            lemma_byte_masks(src);
        }
        self.change_ccr(CCR::H, (dest & 0x0f) + (src & 0x0f) + carry > 0x0f);
        self.change_ccr(CCR::N, value >= 0x80);
        self.change_ccr(CCR::Z, value == 0);
        self.change_ccr(CCR::V, signed > 127 || signed < -128);
        self.change_ccr(CCR::C, (dest as u16) + (src as u16) + (carry as u16) > 0xff);
        value
    }

    /// `ADDX #xx:8, Rd`.
    pub fn addx_imm(&mut self, opcode: u16) -> (r: Result<u8, EmuError>)
        requires
            old(self).wf(),
        ensures
            final(self).wf(),
            addx_imm_post(old(self)@, final(self)@, opcode, r),
    {
        let register = Cpu::get_nibble_opcode(opcode, 2).unwrap();
        let dest = self.read_rn_b(register).unwrap();
        let result = self.addx_proc(dest, opcode as u8);
        self.write_rn_b(register, result).unwrap();
        proof {
            lemma_small_cycles(self@.mem, StateType::I, 1, self.operating_pc);
        }
        self.calc_state(StateType::I, 1)
    }

    /// `ADDX Rs, Rd`.
    pub fn addx_rn(&mut self, opcode: u16) -> (r: Result<u8, EmuError>)
        requires
            old(self).wf(),
        ensures
            final(self).wf(),
            addx_rn_post(old(self)@, final(self)@, opcode, r),
    {
        let register_dest = Cpu::get_nibble_opcode(opcode, 4).unwrap();
        let dest = self.read_rn_b(register_dest).unwrap();
        let register_src = Cpu::get_nibble_opcode(opcode, 3).unwrap();
        let src = self.read_rn_b(register_src).unwrap();
        let result = self.addx_proc(dest, src);
        self.write_rn_b(register_dest, result).unwrap();
        proof {
            lemma_small_cycles(self@.mem, StateType::I, 1, self.operating_pc);
        }
        self.calc_state(StateType::I, 1)
    }
}

} // verus!
