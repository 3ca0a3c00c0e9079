use vstd::prelude::*;

use crate::cpu::addressing_mode::rn::{spec_rn_w, spec_set_rn_w};
use crate::cpu::instruction::{cyc, lemma_small_cycles, nibble, sx16};
use crate::cpu::{can_fetch, fetched, fetched_word, with_flag, Cpu, CpuView, StateType, CCR};
use crate::error::EmuError;

verus! {

/// The condition codes after the word subtraction `dest - src`: H the borrow
/// into bit 11, N and Z by the difference, V the signed overflow, C the
/// borrow into bit 15.
pub open spec fn sub_w_ccr(ccr: u8, dest: u16, src: u16) -> u8 {
    let res = dest.wrapping_sub(src);
    let c = with_flag(ccr, CCR::H.spec_bit(), (dest & 0x0fff) < (src & 0x0fff));
    let c = with_flag(c, CCR::N.spec_bit(), res >= 0x8000);
    let c = with_flag(c, CCR::Z.spec_bit(), res == 0);
    let c = with_flag(c, CCR::V.spec_bit(), sx16(dest) - sx16(src) > 0x7fff || sx16(dest) - sx16(src) < -0x8000);
    with_flag(c, CCR::C.spec_bit(), dest < src)
}

/// `v` after `SUB.W` of `src` from word register `rd`.
pub open spec fn sub_w_state(v: CpuView, rd: u8, src: u16) -> CpuView {
    let dest = spec_rn_w(v.er, rd);
    CpuView { er: spec_set_rn_w(v.er, rd, dest.wrapping_sub(src)), ccr: sub_w_ccr(v.ccr, dest, src), ..v }
}

/// `SUB.W` needs its immediate word when its first byte is 0x79.
pub open spec fn sub_w_pre(v: CpuView, opcode: u16) -> bool {
    (opcode >> 8u16) == 0x79 ==> can_fetch(v)
}

/// What `SUB.W` does, by its first byte: 0x79 subtracts the immediate word
/// that follows from Rd (nibble 4), 0x19 subtracts Rs (nibble 3) from Rd.
pub open spec fn sub_w_post(old: CpuView, new: CpuView, opcode: u16, r: Result<u8, EmuError>) -> bool {
    let high = opcode >> 8u16;
    if high == 0x79 {
        let v1 = fetched(old);
        new == sub_w_state(v1, nibble(opcode, 4), fetched_word(old)) && r == cyc(v1, StateType::I, 2)
    } else if high == 0x19 {
        new == sub_w_state(old, nibble(opcode, 4), spec_rn_w(old.er, nibble(opcode, 3))) && r == cyc(
            old,
            StateType::I,
            1,
        )
    } else {
        new == old && r == Err::<u8, EmuError>(EmuError::InvalidOpcode(opcode))
    }
}


impl Cpu {
    /// Subtracts `src` from `dest`, setting H, N, Z, V and C; returns the
    /// difference modulo 2^16.
    pub fn sub_w_calc(&mut self, dest: u16, src: u16) -> (r: u16)
        ensures
            r == dest.wrapping_sub(src),
            final(self)@ == (CpuView { ccr: sub_w_ccr(old(self).ccr, dest, src), ..old(self)@ }),
            final(self).bus == old(self).bus,
    {
        let result = dest.wrapping_sub(src);
        let sd: i32 = if dest < 0x8000 { dest as i32 } else { dest as i32 - 0x10000 };
        let ss: i32 = if src < 0x8000 { src as i32 } else { src as i32 - 0x10000 };
        let overflowed = sd - ss > 0x7fff || sd - ss < -0x8000;
        self.change_ccr(CCR::H, (dest & 0x0fff) < (src & 0x0fff));
        self.change_ccr(CCR::N, result >= 0x8000);
        self.change_ccr(CCR::Z, result == 0);
        self.change_ccr(CCR::V, overflowed);
        self.change_ccr(CCR::C, dest < src);
        result
    }

    /// `SUB.W`: `#xx:16, Rd` (0x79) or `Rs, Rd` (0x19).
    pub fn sub_w(&mut self, opcode: u16) -> (r: Result<u8, EmuError>)
        requires
            old(self).wf(),
            sub_w_pre(old(self)@, opcode),
        ensures
            final(self).wf(),
            sub_w_post(old(self)@, final(self)@, opcode, r),
    {
        let high = opcode >> 8;
        if high == 0x79 {
            self.sub_w_imm(opcode)
        } else if high == 0x19 {
            self.sub_w_rn(opcode)
        } else {
            Err(EmuError::InvalidOpcode(opcode))
        }
    }

    fn sub_w_imm(&mut self, opcode: u16) -> (r: Result<u8, EmuError>)
        requires
            old(self).wf(),
            can_fetch(old(self)@),
        ensures
            final(self).wf(),
            final(self)@ == sub_w_state(fetched(old(self)@), nibble(opcode, 4), fetched_word(old(self)@)),
            r == cyc(fetched(old(self)@), StateType::I, 2),
    {
        let imm = self.fetch();
        let register = Cpu::get_nibble_opcode(opcode, 4).unwrap();
        let dest = self.read_rn_w(register).unwrap();
        let result = self.sub_w_calc(dest, imm);
        self.write_rn_w(register, result).unwrap();
        proof {
            lemma_small_cycles(self@.mem, StateType::I, 2, self.operating_pc);
        }
        self.calc_state(StateType::I, 2)
    }

    fn sub_w_rn(&mut self, opcode: u16) -> (r: Result<u8, EmuError>)
        requires
            old(self).wf(),
        ensures
            final(self).wf(),
            final(self)@ == sub_w_state(old(self)@, nibble(opcode, 4), spec_rn_w(old(self)@.er, nibble(opcode, 3))),
            r == cyc(old(self)@, StateType::I, 1),
    {
        let register_dest = Cpu::get_nibble_opcode(opcode, 4).unwrap();
        let dest = self.read_rn_w(register_dest).unwrap();
        let register_src = Cpu::get_nibble_opcode(opcode, 3).unwrap();
        let src = self.read_rn_w(register_src).unwrap();
        let result = self.sub_w_calc(dest, src);
        self.write_rn_w(register_dest, result).unwrap();
        proof {
            lemma_small_cycles(self@.mem, StateType::I, 1, self.operating_pc);
        }
        self.calc_state(StateType::I, 1)
    }
}

} // verus!
