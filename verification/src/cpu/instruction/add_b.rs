use vstd::prelude::*;

use crate::cpu::addressing_mode::rn::{spec_rn_b, spec_set_rn_b};
use crate::cpu::instruction::{lemma_byte_masks, lemma_small_cycles, nibble, sx8};
use crate::cpu::{cycles_result, with_flag, Cpu, CpuView, StateType, CCR};
use crate::error::EmuError;

verus! {

/// The condition codes after the byte addition `dest + src`: H the carry out
/// of bit 3, N and Z by the sum, V the signed overflow, C the carry out of bit 7.
pub open spec fn add_b_ccr(ccr: u8, dest: u8, src: u8) -> u8 {
    let res = dest.wrapping_add(src);
    let c = with_flag(ccr, CCR::H.spec_bit(), (dest & 0x0f) + (src & 0x0f) > 0x0f);
    let c = with_flag(c, CCR::N.spec_bit(), res >= 0x80);
    let c = with_flag(c, CCR::Z.spec_bit(), res == 0);
    let c = with_flag(c, CCR::V.spec_bit(), sx8(dest) + sx8(src) > 127 || sx8(dest) + sx8(src) < -128);
    with_flag(c, CCR::C.spec_bit(), dest + src > 0xff)
}

/// `v` after `ADD.B` of `src` into byte register `rd`.
pub open spec fn add_b_state(v: CpuView, rd: u8, src: u8) -> CpuView {
    let dest = spec_rn_b(v.er, rd);
    CpuView {
        er: spec_set_rn_b(v.er, rd, dest.wrapping_add(src)),
        ccr: add_b_ccr(v.ccr, dest, src),
        ..v
    }
}

/// What `ADD.B` does, by its first byte: 0x80 to 0x8f add the immediate to
/// the byte register in nibble 2, 0x08 adds the byte register in nibble 3
/// to the one in nibble 4.
pub open spec fn add_b_post(old: CpuView, new: CpuView, opcode: u16, r: Result<u8, EmuError>) -> bool {
    let high = opcode >> 8u16;
    if 0x80 <= high <= 0x8f {
        new == add_b_state(old, nibble(opcode, 2), opcode as u8) && r == cycles_result(
            old.mem,
            StateType::I,
            1,
            old.operating_pc,
        )
    } else if high == 0x08 {
        new == add_b_state(old, nibble(opcode, 4), spec_rn_b(old.er, nibble(opcode, 3)))
            && r == cycles_result(old.mem, StateType::I, 1, old.operating_pc)
    } else {
        new == old && r == Err::<u8, EmuError>(EmuError::InvalidOpcode(opcode))
    }
}

impl Cpu {
    /// `ADD.B`: `#xx:8, Rd` (0x8_) or `Rs, Rd` (0x08).
    pub fn add_b(&mut self, opcode: u16) -> (r: Result<u8, EmuError>)
        requires
            old(self).wf(),
        ensures
            final(self).wf(),
            add_b_post(old(self)@, final(self)@, opcode, r),
    {
        let high = opcode >> 8;
        if 0x80 <= high && high <= 0x8f {
            self.add_b_imm(opcode)
        } else if high == 0x08 {
            self.add_b_rn(opcode)
        } else {
            Err(EmuError::InvalidOpcode(opcode))
        }
    }

    /// Adds `src` to `dest`, setting H, N, Z, V and C; returns the sum.
    fn add_b_proc(&mut self, dest: u8, src: u8) -> (r: u8)
        ensures
            r == dest.wrapping_add(src),
            final(self)@ == (CpuView { ccr: add_b_ccr(old(self).ccr, dest, src), ..old(self)@ }),
            final(self).bus == old(self).bus,
    {
        let value = dest.wrapping_add(src);
        let sd: i16 = if dest < 0x80 { dest as i16 } else { dest as i16 - 0x100 };
        let ss: i16 = if src < 0x80 { src as i16 } else { src as i16 - 0x100 };
        let overflowed = sd + ss > 127 || sd + ss < -128;
        proof {
            lemma_byte_masks(dest);
            lemma_byte_masks(src);
        }
        self.change_ccr(CCR::H, (dest & 0x0f) + (src & 0x0f) > 0x0f);
        self.change_ccr(CCR::N, value >= 0x80);
        self.change_ccr(CCR::Z, value == 0);
        self.change_ccr(CCR::V, overflowed);
        self.change_ccr(CCR::C, (dest as u16) + (src as u16) > 0xff);
        value
    }

    /// `ADD.B #xx:8, Rd`.
    fn add_b_imm(&mut self, opcode: u16) -> (r: Result<u8, EmuError>)
        requires
            old(self).wf(),
        ensures
            final(self).wf(),
            final(self)@ == add_b_state(old(self)@, nibble(opcode, 2), opcode as u8),
            r == cycles_result(old(self)@.mem, StateType::I, 1, old(self)@.operating_pc),
    {
        let register = Cpu::get_nibble_opcode(opcode, 2).unwrap();
        let dest = self.read_rn_b(register).unwrap();
        let result = self.add_b_proc(dest, opcode as u8);
        self.write_rn_b(register, result).unwrap();
        proof {
            lemma_small_cycles(self@.mem, StateType::I, 1, self.operating_pc);
        }
        self.calc_state(StateType::I, 1)
    }

    /// `ADD.B Rs, Rd`.
    fn add_b_rn(&mut self, opcode: u16) -> (r: Result<u8, EmuError>)
        requires
            old(self).wf(),
        ensures
            final(self).wf(),
            final(self)@ == add_b_state(
                old(self)@,
                nibble(opcode, 4),
                spec_rn_b(old(self)@.er, nibble(opcode, 3)),
            ),
            r == cycles_result(old(self)@.mem, StateType::I, 1, old(self)@.operating_pc),
    {
        let register_dest = Cpu::get_nibble_opcode(opcode, 4).unwrap();
        let dest = self.read_rn_b(register_dest).unwrap();
        let register_src = Cpu::get_nibble_opcode(opcode, 3).unwrap();
        let src = self.read_rn_b(register_src).unwrap();
        let result = self.add_b_proc(dest, src);
        self.write_rn_b(register_dest, result).unwrap();
        proof {
            lemma_small_cycles(self@.mem, StateType::I, 1, self.operating_pc);
        }
        self.calc_state(StateType::I, 1)
    }
}

} // verus!
