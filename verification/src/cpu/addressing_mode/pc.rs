use vstd::prelude::*;

use crate::cpu::{Cpu, CpuView};
use crate::error::EmuError;

verus! {

/// The signed value of an 8-bit displacement.
pub open spec fn sext8(disp: u8) -> int {
    if disp < 0x80 {
        disp as int
    } else {
        disp - 0x100
    }
}

/// Branching by the signed displacement `disp` from `pc`: the state after the
/// branch and its result. A target outside the 32-bit range leaves the state
/// unchanged; an odd target is taken and reported.
pub open spec fn branch(v: CpuView, disp: int) -> (CpuView, Result<(), EmuError>) {
    let target = v.pc + disp;
    if target < 0 || target > u32::MAX {
        (v, Err(EmuError::AddressOverflow))
    } else if target % 2 != 0 {
        (CpuView { pc: target as u32, ..v }, Err(EmuError::OddPc(target as u32)))
    } else {
        (CpuView { pc: target as u32, ..v }, Ok(()))
    }
}

impl Cpu {
    /// Adds the sign-extended 8-bit displacement `disp` to the program counter.
    pub fn pc_disp8(&mut self, disp: u8) -> (r: Result<(), EmuError>)
        requires
            old(self).wf(),
        ensures
            final(self).wf(),
            final(self).bus == old(self).bus,
            final(self)@ == branch(old(self)@, sext8(disp)).0,
            r == branch(old(self)@, sext8(disp)).1,
    {
        let signed: i32 = if disp & 0x80 == 0x80 {
            disp as i32 - 0x100
        } else {
            disp as i32
        };
        assert(signed == sext8(disp)) by (bit_vector)
            requires
                signed == (if disp & 0x80 == 0x80 { (disp as i32 - 0x100) as i32 } else { disp as i32 }),
        ;
        match self.pc.checked_add_signed(signed) {
            Some(pc) => self.pc = pc,
            None => return Err(EmuError::AddressOverflow),
        }
        if self.pc % 2 != 0 {
            return Err(EmuError::OddPc(self.pc));
        }
        Ok(())
    }

    /// Adds the sign-extended 16-bit displacement `disp` to the program counter.
    pub fn pc_disp16(&mut self, disp: u16) -> (r: Result<(), EmuError>)
        requires
            old(self).wf(),
        ensures
            final(self).wf(),
            final(self).bus == old(self).bus,
            final(self)@ == branch(old(self)@, crate::cpu::addressing_mode::disp::sext16(disp)).0,
            r == branch(old(self)@, crate::cpu::addressing_mode::disp::sext16(disp)).1,
    {
        let signed: i32 = if disp & 0x8000 == 0x8000 {
            disp as i32 - 0x10000
        } else {
            disp as i32
        };
        assert(signed == crate::cpu::addressing_mode::disp::sext16(disp)) by (bit_vector)
            requires
                signed == (if disp & 0x8000 == 0x8000 { (disp as i32 - 0x10000) as i32 } else { disp as i32 }),
        ;
        match self.pc.checked_add_signed(signed) {
            Some(pc) => self.pc = pc,
            None => return Err(EmuError::AddressOverflow),
        }
        if self.pc % 2 != 0 {
            return Err(EmuError::OddPc(self.pc));
        }
        Ok(())
    }
}

} // verus!
