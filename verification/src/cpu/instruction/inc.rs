use vstd::prelude::*;

use crate::cpu::addressing_mode::rn::{spec_rn_b, spec_rn_w, spec_set_rn_b, spec_set_rn_w};
use crate::cpu::instruction::nibble;
use crate::cpu::{with_flag, Cpu, CpuView, CCR};
use crate::error::EmuError;

verus! {

/// The condition codes N, Z and V set, in that order, to the given values.
pub open spec fn nzv_ccr(ccr: u8, n: bool, z: bool, v: bool) -> u8 {
    let c = with_flag(ccr, CCR::N.spec_bit(), n);
    let c = with_flag(c, CCR::Z.spec_bit(), z);
    with_flag(c, CCR::V.spec_bit(), v)
}

/// The condition codes N, Z, V and C set, in that order, to the given values.
pub open spec fn nzvc_ccr(ccr: u8, n: bool, z: bool, v: bool, c: bool) -> u8 {
    with_flag(nzv_ccr(ccr, n, z, v), CCR::C.spec_bit(), c)
}

/// `INC.B Rd` is defined where Rd (nibble 4) is below 0xff.
pub open spec fn inc_b_pre(v: CpuView, opcode: u16) -> bool {
    spec_rn_b(v.er, nibble(opcode, 4)) < 0xff
}

/// `INC.W` is defined where Rd (nibble 4) is below 0xffff.
pub open spec fn inc_w_pre(v: CpuView, opcode: u16) -> bool {
    spec_rn_w(v.er, nibble(opcode, 4)) < 0xffff
}

/// `INC.L` is defined where ERd (nibble 4) is below 0xffffffff.
pub open spec fn inc_l_pre(v: CpuView, opcode: u16) -> bool {
    nibble(opcode, 4) < 8 ==> v.er[nibble(opcode, 4) as int] < 0xffff_ffff
}

/// What `INC.W #1` (`second` false) or `INC.W #2` (`second` true) does: Rd
/// (nibble 4) grows by one, or by two modulo 2^16; V is set where the sum crosses into
/// 0x8000 (0x8000, or for the second form also 0x8001).
pub open spec fn inc_w_post(old: CpuView, new: CpuView, opcode: u16, second: bool, r: Result<u8, EmuError>) -> bool {
    let rd = nibble(opcode, 4);
    let res = if second { spec_rn_w(old.er, rd).wrapping_add(2) } else { (spec_rn_w(old.er, rd) + 1) as u16 };
    let v = if second { res == 0x8000 || res == 0x8001 } else { res == 0x8000 };
    &&& new == (CpuView { er: spec_set_rn_w(old.er, rd, res), ccr: nzv_ccr(old.ccr, res >= 0x8000, res == 0, v), ..old })
    &&& r == Ok::<u8, EmuError>(2)
}

/// What `INC.L #1` (`second` false) or `INC.L #2` (`second` true) does: ERd
/// (nibble 4) grows by one, or by two modulo 2^32; V is set where the sum crosses into
/// 0x80000000 (0x80000000, or for the second form also 0x80000001).
pub open spec fn inc_l_post(old: CpuView, new: CpuView, opcode: u16, second: bool, r: Result<u8, EmuError>) -> bool {
    let rd = nibble(opcode, 4);
    if rd >= 8 {
        new == old && r == Err::<u8, EmuError>(EmuError::InvalidRegister(rd))
    } else {
        let res = if second { old.er[rd as int].wrapping_add(2) } else { (old.er[rd as int] + 1) as u32 };
        let v = if second { res == 0x8000_0000 || res == 0x8000_0001 } else { res == 0x8000_0000 };
        &&& new == (CpuView {
            er: old.er.update(rd as int, res),
            ccr: nzv_ccr(old.ccr, res >= 0x8000_0000, res == 0, v),
            ..old
        })
        &&& r == Ok::<u8, EmuError>(2)
    }
}

/// The state after `INC.B Rd`, from `old` to `new`, and its result `r`.
pub open spec fn inc_b_post(old: CpuView, new: CpuView, opcode: u16, r: Result<u8, EmuError>) -> bool {
    &&& ({
        let rd = nibble(opcode, 4);
        let res = (spec_rn_b(old.er, rd) + 1) as u8;
        new == (CpuView {
            er: spec_set_rn_b(old.er, rd, res),
            ccr: nzv_ccr(old.ccr, res >= 0x80, res == 0, res == 0x80),
            ..old
        })
    })
    &&& r == Ok::<u8, EmuError>(2)
}

impl Cpu {
    /// `INC.B Rd`: Rd (nibble 4) grows by one.
    pub fn inc_b(&mut self, opcode: u16) -> (r: Result<u8, EmuError>)
        requires
            old(self).wf(),
            inc_b_pre(old(self)@, opcode),
        ensures
            final(self).wf(),
            inc_b_post(old(self)@, final(self)@, opcode, r),
    {
        let result = self.read_rn_b(Cpu::get_nibble_opcode(opcode, 4).unwrap()).unwrap() + 1;
        self.write_rn_b(Cpu::get_nibble_opcode(opcode, 4).unwrap(), result).unwrap();
        self.change_ccr(CCR::N, result >= 0x80);
        self.change_ccr(CCR::Z, result == 0);
        self.change_ccr(CCR::V, result == 0x80);
        Ok(2)
    }

    /// `INC.W #1, Rd`.
    pub fn inc_w_1(&mut self, opcode: u16) -> (r: Result<u8, EmuError>)
        requires
            old(self).wf(),
            inc_w_pre(old(self)@, opcode),
        ensures
            final(self).wf(),
            inc_w_post(old(self)@, final(self)@, opcode, false, r),
    {
        let result = self.read_rn_w(Cpu::get_nibble_opcode(opcode, 4).unwrap()).unwrap() + 1;
        self.write_rn_w(Cpu::get_nibble_opcode(opcode, 4).unwrap(), result).unwrap();
        self.change_ccr(CCR::N, result >= 0x8000);
        self.change_ccr(CCR::Z, result == 0);
        self.change_ccr(CCR::V, result == 0x8000);
        Ok(2)
    }

    /// `INC.W #2, Rd`: Rd grows by two, modulo 2^16.
    pub fn inc_w_2(&mut self, opcode: u16) -> (r: Result<u8, EmuError>)
        requires
            old(self).wf(),
            inc_w_pre(old(self)@, opcode),
        ensures
            final(self).wf(),
            inc_w_post(old(self)@, final(self)@, opcode, true, r),
    {
        let result = self.read_rn_w(Cpu::get_nibble_opcode(opcode, 4).unwrap()).unwrap().wrapping_add(2);
        self.write_rn_w(Cpu::get_nibble_opcode(opcode, 4).unwrap(), result).unwrap();
        self.change_ccr(CCR::N, result >= 0x8000);
        self.change_ccr(CCR::Z, result == 0);
        self.change_ccr(CCR::V, result == 0x8000 || result == 0x8001);
        Ok(2)
    }

    /// `INC.L #1, ERd`.
    pub fn inc_l_1(&mut self, opcode: u16) -> (r: Result<u8, EmuError>)
        requires
            old(self).wf(),
            inc_l_pre(old(self)@, opcode),
        ensures
            final(self).wf(),
            inc_l_post(old(self)@, final(self)@, opcode, false, r),
    {
        let value = match self.read_rn_l(Cpu::get_nibble_opcode(opcode, 4).unwrap()) {
            Ok(v) => v,
            Err(e) => return Err(e),
        };
        let result = value + 1;
        self.write_rn_l(Cpu::get_nibble_opcode(opcode, 4).unwrap(), result).unwrap();
        self.change_ccr(CCR::N, result >= 0x8000_0000);
        self.change_ccr(CCR::Z, result == 0);
        self.change_ccr(CCR::V, result == 0x8000_0000);
        Ok(2)
    }

    /// `INC.L #2, ERd`: ERd grows by two, modulo 2^32.
    pub fn inc_l_2(&mut self, opcode: u16) -> (r: Result<u8, EmuError>)
        requires
            old(self).wf(),
            inc_l_pre(old(self)@, opcode),
        ensures
            final(self).wf(),
            inc_l_post(old(self)@, final(self)@, opcode, true, r),
    {
        let value = match self.read_rn_l(Cpu::get_nibble_opcode(opcode, 4).unwrap()) {
            Ok(v) => v,
            Err(e) => return Err(e),
        };
        let result = value.wrapping_add(2);
        self.write_rn_l(Cpu::get_nibble_opcode(opcode, 4).unwrap(), result).unwrap();
        self.change_ccr(CCR::N, result >= 0x8000_0000);
        self.change_ccr(CCR::Z, result == 0);
        self.change_ccr(CCR::V, result == 0x8000_0000 || result == 0x8000_0001);
        Ok(2)
    }
}

} // verus!
