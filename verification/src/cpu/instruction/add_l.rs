use vstd::prelude::*;

use crate::cpu::instruction::{nibble, sx32, lemma_byte_masks};
use crate::cpu::{can_fetch2, fetched, fetched_long, with_flag, Cpu, CpuView, CCR};
use crate::error::EmuError;

verus! {

/// The condition codes after the long addition `dest + src`: H the carry out
/// of bit 27, N and Z by the sum, V the signed overflow, C the carry out of
/// bit 31.
pub open spec fn add_l_ccr(ccr: u8, dest: u32, src: u32) -> u8 {
    let res = dest.wrapping_add(src);
    let c = with_flag(ccr, CCR::H.spec_bit(), (dest & 0x0fff_ffff) + (src & 0x0fff_ffff) > 0x0fff_ffff);
    let c = with_flag(c, CCR::N.spec_bit(), res >= 0x8000_0000);
    let c = with_flag(c, CCR::Z.spec_bit(), res == 0);
    let c = with_flag(c, CCR::V.spec_bit(), sx32(dest) + sx32(src) > 0x7fff_ffff || sx32(dest) + sx32(src) < -0x8000_0000);
    with_flag(c, CCR::C.spec_bit(), dest + src > 0xffff_ffff)
}

/// `v` after `ADD.L` of `src` into ERd, with the states it takes; an invalid
/// ERd leaves `v` as it is.
pub open spec fn add_l_into(v: CpuView, rd: u8, src: u32, states: u8) -> (CpuView, Result<u8, EmuError>) {
    if rd >= 8 {
        (v, Err(EmuError::InvalidRegister(rd)))
    } else {
        let dest = v.er[rd as int];
        (CpuView { er: v.er.update(rd as int, dest.wrapping_add(src)), ccr: add_l_ccr(v.ccr, dest, src), ..v }, Ok(states))
    }
}

/// `ADD.L` needs both immediate words when its first byte is 0x7a.
pub open spec fn add_l_pre(v: CpuView, opcode: u16) -> bool {
    (opcode >> 8u16) == 0x7a ==> can_fetch2(v)
}

/// What `ADD.L` does, by its first byte: 0x7a adds the 32-bit immediate that
/// follows to ERd (nibble 4), 0x0a adds ERs (nibble 3, low three bits) to ERd.
pub open spec fn add_l_post(old: CpuView, new: CpuView, opcode: u16, r: Result<u8, EmuError>) -> bool {
    let high = opcode >> 8u16;
    if high == 0x7a {
        (new, r) == add_l_into(fetched(fetched(old)), nibble(opcode, 4), fetched_long(old), 6)
    } else if high == 0x0a {
        if nibble(opcode, 4) >= 8 {
            new == old && r == Err::<u8, EmuError>(EmuError::InvalidRegister(nibble(opcode, 4)))
        } else {
            (new, r) == add_l_into(old, nibble(opcode, 4), old.er[(nibble(opcode, 3) & 0x7) as int], 2)
        }
    } else {
        new == old && r == Err::<u8, EmuError>(EmuError::InvalidOpcode(opcode))
    }
}


impl Cpu {
    /// `ADD.L`: `#xx:32, ERd` (0x7a) or `ERs, ERd` (0x0a).
    pub fn add_l(&mut self, opcode: u16) -> (r: Result<u8, EmuError>)
        requires
            old(self).wf(),
            add_l_pre(old(self)@, opcode),
        ensures
            final(self).wf(),
            add_l_post(old(self)@, final(self)@, opcode, r),
    {
        let high = opcode >> 8;
        if high == 0x7a {
            self.add_l_imm(opcode)
        } else if high == 0x0a {
            self.add_l_rn(opcode)
        } else {
            Err(EmuError::InvalidOpcode(opcode))
        }
    }

    /// Adds `src` to `dest`, setting H, N, Z, V and C; returns the sum.
    fn add_l_proc(&mut self, dest: u32, src: u32) -> (r: u32)
        ensures
            r == dest.wrapping_add(src),
            final(self)@ == (CpuView { ccr: add_l_ccr(old(self).ccr, dest, src), ..old(self)@ }),
            final(self).bus == old(self).bus,
    {
        let value = dest.wrapping_add(src);
        let sd: i64 = if dest < 0x8000_0000 { dest as i64 } else { dest as i64 - 0x1_0000_0000 };
        let ss: i64 = if src < 0x8000_0000 { src as i64 } else { src as i64 - 0x1_0000_0000 };
        let overflowed = sd + ss > 0x7fff_ffff || sd + ss < -0x8000_0000;
        let dl = dest & 0x0fff_ffff;
        let sl = src & 0x0fff_ffff;
        assert(dl <= 0x0fff_ffff && sl <= 0x0fff_ffff) by (bit_vector)
            requires
                dl == dest & 0x0fff_ffff,
                sl == src & 0x0fff_ffff,
        ;
        self.change_ccr(CCR::H, dl + sl > 0x0fff_ffff);
        self.change_ccr(CCR::N, value >= 0x8000_0000);
        self.change_ccr(CCR::Z, value == 0);
        self.change_ccr(CCR::V, overflowed);
        self.change_ccr(CCR::C, (dest as u64) + (src as u64) > 0xffff_ffff);
        value
    }

    /// `ADD.L #xx:32, ERd`.
    fn add_l_imm(&mut self, opcode: u16) -> (r: Result<u8, EmuError>)
        requires
            old(self).wf(),
            can_fetch2(old(self)@),
        ensures
            final(self).wf(),
            (final(self)@, r) == add_l_into(fetched(fetched(old(self)@)), nibble(opcode, 4), fetched_long(old(self)@), 6),
    {
        let imm = ((self.fetch() as u32) << 16) | self.fetch() as u32;
        let register = Cpu::get_nibble_opcode(opcode, 4).unwrap();
        let dest = match self.read_rn_l(register) {
            Ok(v) => v,
            Err(e) => return Err(e),
        };
        let result = self.add_l_proc(dest, imm);
        self.write_rn_l(register, result).unwrap();
        Ok(6)
    }

    /// `ADD.L ERs, ERd`.
    fn add_l_rn(&mut self, opcode: u16) -> (r: Result<u8, EmuError>)
        requires
            old(self).wf(),
        ensures
            final(self).wf(),
            nibble(opcode, 4) >= 8 ==> final(self)@ == old(self)@ && r == Err::<u8, EmuError>(
                EmuError::InvalidRegister(nibble(opcode, 4)),
            ),
            nibble(opcode, 4) < 8 ==> (final(self)@, r) == add_l_into(
                old(self)@,
                nibble(opcode, 4),
                old(self)@.er[(nibble(opcode, 3) & 0x7) as int],
                2,
            ),
    {
        let register_dest = Cpu::get_nibble_opcode(opcode, 4).unwrap();
        let dest = match self.read_rn_l(register_dest) {
            Ok(v) => v,
            Err(e) => return Err(e),
        };
        let register_src = Cpu::get_nibble_opcode(opcode, 3).unwrap() & 0x7;
        proof {
            lemma_byte_masks(nibble(opcode, 3));
        }
        let src = self.read_rn_l(register_src).unwrap();
        let result = self.add_l_proc(dest, src);
        self.write_rn_l(register_dest, result).unwrap();
        Ok(2)
    }
}

} // verus!
