use vstd::prelude::*;

use crate::cpu::instruction::{cyc, lemma_byte_masks, lemma_small_cycles, nibble, sx32};
use crate::cpu::{can_fetch2, fetched, fetched_long, with_flag, Cpu, CpuView, StateType, CCR};
use crate::error::EmuError;

verus! {

/// The condition codes after the long subtraction `dest - src`: H the borrow
/// into bit 27, N and Z by the difference, V the signed overflow, C the
/// borrow into bit 31.
pub open spec fn sub_l_ccr(ccr: u8, dest: u32, src: u32) -> u8 {
    let res = dest.wrapping_sub(src);
    let c = with_flag(ccr, CCR::H.spec_bit(), (dest & 0x0fff_ffff) < (src & 0x0fff_ffff));
    let c = with_flag(c, CCR::N.spec_bit(), res >= 0x8000_0000);
    let c = with_flag(c, CCR::Z.spec_bit(), res == 0);
    let c = with_flag(c, CCR::V.spec_bit(), sx32(dest) - sx32(src) > 0x7fff_ffff || sx32(dest) - sx32(src) < -0x8000_0000);
    with_flag(c, CCR::C.spec_bit(), dest < src)
}

/// `v` after `SUB.L` of `src` from ERd, with the cycle count that follows it;
/// an invalid ERd leaves `v` as it is.
pub open spec fn sub_l_from(v: CpuView, rd: u8, src: u32, states: Result<u8, EmuError>) -> (CpuView, Result<u8, EmuError>) {
    if rd >= 8 {
        (v, Err(EmuError::InvalidRegister(rd)))
    } else {
        let dest = v.er[rd as int];
        (CpuView { er: v.er.update(rd as int, dest.wrapping_sub(src)), ccr: sub_l_ccr(v.ccr, dest, src), ..v }, states)
    }
}

/// `SUB.L` needs both immediate words when its first byte is 0x7a.
pub open spec fn sub_l_pre(v: CpuView, opcode: u16) -> bool {
    (opcode >> 8u16) == 0x7a ==> can_fetch2(v)
}

/// What `SUB.L` does, by its first byte: 0x7a subtracts the 32-bit immediate
/// that follows from ERd (nibble 4), 0x1a subtracts ERs (nibble 3, low three
/// bits) from ERd.
pub open spec fn sub_l_post(old: CpuView, new: CpuView, opcode: u16, r: Result<u8, EmuError>) -> bool {
    let high = opcode >> 8u16;
    if high == 0x7a {
        let v2 = fetched(fetched(old));
        (new, r) == sub_l_from(v2, nibble(opcode, 4), fetched_long(old), cyc(v2, StateType::I, 3))
    } else if high == 0x1a {
        (new, r) == sub_l_from(old, nibble(opcode, 4), old.er[(nibble(opcode, 3) & 0x7) as int], cyc(old, StateType::I, 1))
    } else {
        new == old && r == Err::<u8, EmuError>(EmuError::InvalidOpcode(opcode))
    }
}


impl Cpu {
    /// Subtracts `src` from `dest`, setting H, N, Z, V and C; returns the
    /// difference modulo 2^32.
    pub fn sub_l_calc(&mut self, dest: u32, src: u32) -> (r: u32)
        ensures
            r == dest.wrapping_sub(src),
            final(self)@ == (CpuView { ccr: sub_l_ccr(old(self).ccr, dest, src), ..old(self)@ }),
            final(self).bus == old(self).bus,
    {
        let result = dest.wrapping_sub(src);
        let sd: i64 = if dest < 0x8000_0000 { dest as i64 } else { dest as i64 - 0x1_0000_0000 };
        let ss: i64 = if src < 0x8000_0000 { src as i64 } else { src as i64 - 0x1_0000_0000 };
        let overflowed = sd - ss > 0x7fff_ffff || sd - ss < -0x8000_0000;
        self.change_ccr(CCR::H, (dest & 0x0fff_ffff) < (src & 0x0fff_ffff));
        self.change_ccr(CCR::N, result >= 0x8000_0000);
        self.change_ccr(CCR::Z, result == 0);
        self.change_ccr(CCR::V, overflowed);
        self.change_ccr(CCR::C, dest < src);
        result
    }

    /// `SUB.L`: `#xx:32, ERd` (0x7a) or `ERs, ERd` (0x1a).
    pub fn sub_l(&mut self, opcode: u16) -> (r: Result<u8, EmuError>)
        requires
            old(self).wf(),
            sub_l_pre(old(self)@, opcode),
        ensures
            final(self).wf(),
            sub_l_post(old(self)@, final(self)@, opcode, r),
    {
        let high = opcode >> 8;
        if high == 0x7a {
            self.sub_l_imm(opcode)
        } else if high == 0x1a {
            self.sub_l_rn(opcode)
        } else {
            Err(EmuError::InvalidOpcode(opcode))
        }
    }

    fn sub_l_imm(&mut self, opcode: u16) -> (r: Result<u8, EmuError>)
        requires
            old(self).wf(),
            can_fetch2(old(self)@),
        ensures
            final(self).wf(),
            ({
                let v2 = fetched(fetched(old(self)@));
                (final(self)@, r) == sub_l_from(v2, nibble(opcode, 4), fetched_long(old(self)@), cyc(v2, StateType::I, 3))
            }),
    {
        let imm = ((self.fetch() as u32) << 16) | self.fetch() as u32;
        let register = Cpu::get_nibble_opcode(opcode, 4).unwrap();
        let dest = match self.read_rn_l(register) {
            Ok(v) => v,
            Err(e) => return Err(e),
        };
        let result = self.sub_l_calc(dest, imm);
        self.write_rn_l(register, result).unwrap();
        proof {
            lemma_small_cycles(self@.mem, StateType::I, 3, self.operating_pc);
        }
        self.calc_state(StateType::I, 3)
    }

    fn sub_l_rn(&mut self, opcode: u16) -> (r: Result<u8, EmuError>)
        requires
            old(self).wf(),
        ensures
            final(self).wf(),
            (final(self)@, r) == sub_l_from(
                old(self)@,
                nibble(opcode, 4),
                old(self)@.er[(nibble(opcode, 3) & 0x7) as int],
                cyc(old(self)@, StateType::I, 1),
            ),
    {
        let register_dest = Cpu::get_nibble_opcode(opcode, 4).unwrap();
        let dest = match self.read_rn_l(register_dest) {
            Ok(v) => v,
            Err(e) => return Err(e),
        };
        let register_src = Cpu::get_nibble_opcode(opcode, 3).unwrap() & 0x7;
        proof {
            lemma_byte_masks(nibble(opcode, 3));
        }
        let src = self.read_rn_l(register_src).unwrap();
        let result = self.sub_l_calc(dest, src);
        self.write_rn_l(register_dest, result).unwrap();
        proof {
            lemma_small_cycles(self@.mem, StateType::I, 1, self.operating_pc);
        }
        self.calc_state(StateType::I, 1)
    }
}

} // verus!
