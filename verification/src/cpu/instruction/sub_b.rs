use vstd::prelude::*;

use crate::cpu::addressing_mode::rn::{spec_rn_b, spec_set_rn_b};
use crate::cpu::instruction::{cyc, lemma_small_cycles, nibble, sx8};
use crate::cpu::{with_flag, Cpu, CpuView, StateType, CCR};
use crate::error::EmuError;

verus! {

/// The condition codes after the byte subtraction `dest - src`: H the borrow
/// into bit 3, N and Z by the difference, V the signed overflow, C the borrow
/// into bit 7.
pub open spec fn sub_b_ccr(ccr: u8, dest: u8, src: u8) -> u8 {
    let res = dest.wrapping_sub(src);
    let c = with_flag(ccr, CCR::H.spec_bit(), (dest & 0x0f) < (src & 0x0f));
    let c = with_flag(c, CCR::N.spec_bit(), res >= 0x80);
    let c = with_flag(c, CCR::Z.spec_bit(), res == 0);
    let c = with_flag(c, CCR::V.spec_bit(), sx8(dest) - sx8(src) > 127 || sx8(dest) - sx8(src) < -128);
    with_flag(c, CCR::C.spec_bit(), dest < src)
}

/// The state after `SUB.B Rs, Rd`, from `old` to `new`, and its result `r`.
pub open spec fn sub_b_post(old: CpuView, new: CpuView, opcode: u16, r: Result<u8, EmuError>) -> bool {
    &&& ({
        let rd = nibble(opcode, 4);
        let dest = spec_rn_b(old.er, rd);
        let src = spec_rn_b(old.er, nibble(opcode, 3));
        new == (CpuView {
            er: spec_set_rn_b(old.er, rd, dest.wrapping_sub(src)),
            ccr: sub_b_ccr(old.ccr, dest, src),
            ..old
        })
    })
    &&& r == cyc(old, StateType::I, 1)
}

impl Cpu {
    /// Subtracts `src` from `dest`, setting H, N, Z, V and C; returns the
    /// difference modulo 256.
    pub fn sub_b_calc(&mut self, dest: u8, src: u8) -> (r: u8)
        ensures
            r == dest.wrapping_sub(src),
            final(self)@ == (CpuView { ccr: sub_b_ccr(old(self).ccr, dest, src), ..old(self)@ }),
            final(self).bus == old(self).bus,
    {
        let result = dest.wrapping_sub(src);
        let sd: i16 = if dest < 0x80 { dest as i16 } else { dest as i16 - 0x100 };
        let ss: i16 = if src < 0x80 { src as i16 } else { src as i16 - 0x100 };
        let overflowed = sd - ss > 127 || sd - ss < -128;
        self.change_ccr(CCR::H, (dest & 0x0f) < (src & 0x0f));
        self.change_ccr(CCR::N, result >= 0x80);
        self.change_ccr(CCR::Z, result == 0);
        self.change_ccr(CCR::V, overflowed);
        self.change_ccr(CCR::C, dest < src);
        result
    }

    /// `SUB.B Rs, Rd`: Rd (nibble 4) becomes Rd - Rs (nibble 3).
    pub fn sub_b(&mut self, opcode: u16) -> (r: Result<u8, EmuError>)
        requires
            old(self).wf(),
        ensures
            final(self).wf(),
            sub_b_post(old(self)@, final(self)@, opcode, r),
    {
        let register_dest = Cpu::get_nibble_opcode(opcode, 4).unwrap();
        let dest = self.read_rn_b(register_dest).unwrap();
        let register_src = Cpu::get_nibble_opcode(opcode, 3).unwrap();
        let src = self.read_rn_b(register_src).unwrap();
        let result = self.sub_b_calc(dest, src);
        self.write_rn_b(register_dest, result).unwrap();
        proof {
            lemma_small_cycles(self@.mem, StateType::I, 1, self.operating_pc);
        }
        self.calc_state(StateType::I, 1)
    }
}

} // verus!
