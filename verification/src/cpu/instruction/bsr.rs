use vstd::prelude::*;

use crate::cpu::addressing_mode::dec_ern::push_l;
use crate::cpu::addressing_mode::disp::sext16;
use crate::cpu::addressing_mode::pc::sext8;
use crate::cpu::instruction::{get_low_byte, low_byte, sx32};
use crate::cpu::{can_fetch, fetched, fetched_word, Cpu, CpuView};
use crate::error::EmuError;

verus! {

/// The program counter `pc`, read as a signed 32-bit value, plus `disp`,
/// taken back modulo 2^32.
pub open spec fn pc_plus(pc: u32, disp: int) -> u32 {
    let t = sx32(pc) + disp;
    if t < 0 {
        (t + 0x1_0000_0000) as u32
    } else {
        t as u32
    }
}

/// A subroutine branch from `v` is defined where the stack pointer can go
/// down by four and the target stays within the signed 32-bit range.
pub open spec fn bsr_pre(v: CpuView, disp: int) -> bool {
    &&& v.er[7] >= 4
    &&& -0x8000_0000 <= sx32(v.pc) + disp <= 0x7fff_ffff
}

/// What a subroutine branch by `disp` from `v` does: the program counter is
/// pushed, then moved by `disp`; a push that fails leaves what it stored.
pub open spec fn bsr_post(v: CpuView, new: CpuView, disp: int, states: u8, r: Result<u8, EmuError>) -> bool {
    let (pushed, res) = push_l(v, v.pc);
    if res is Err {
        new == pushed && r == Err::<u8, EmuError>(res->Err_0)
    } else {
        new == (CpuView { pc: pc_plus(v.pc, disp), ..pushed }) && r == Ok::<u8, EmuError>(states)
    }
}

/// `pc` moved by the signed displacement `disp`.
fn add_pc_signed(pc: u32, disp: i32) -> (r: u32)
    requires
        -0x8000_0000 <= sx32(pc) + disp <= 0x7fff_ffff,
    ensures
        r == pc_plus(pc, disp as int),
{
    let base: i64 = if pc < 0x8000_0000 { pc as i64 } else { pc as i64 - 0x1_0000_0000 };
    let t = base + disp as i64;
    if t < 0 {
        (t + 0x1_0000_0000) as u32
    } else {
        t as u32
    }
}

/// The states in which `BSR d:16` can run.
pub open spec fn bsr_disp24_pre(v: CpuView, _opcode: u16) -> bool {
    &&& can_fetch(v)
    &&& bsr_pre(fetched(v), sext16(fetched_word(v)))
}

/// The state after `BSR d:16`, from `old` to `new`, and its result `r`.
pub open spec fn bsr_disp24_post(old: CpuView, new: CpuView, _opcode: u16, r: Result<u8, EmuError>) -> bool {
    &&& bsr_post(fetched(old), new, sext16(fetched_word(old)), 10, r)
}

impl Cpu {
    /// `BSR d:8`: pushes the program counter and branches by the low byte of `opcode`.
    pub fn bsr_disp16(&mut self, opcode: u16) -> (r: Result<u8, EmuError>)
        requires
            old(self).wf(),
            bsr_pre(old(self)@, sext8(low_byte(opcode))),
        ensures
            final(self).wf(),
            bsr_post(old(self)@, final(self)@, sext8(low_byte(opcode)), 8, r),
    {
        let pc = self.pc;
        match self.write_dec_ern_l(7, pc) {
            Ok(_) => {},
            Err(e) => return Err(e),
        }
        let d = get_low_byte(opcode);
        let disp: i32 = if d < 0x80 { d as i32 } else { d as i32 - 0x100 };
        self.pc = add_pc_signed(self.pc, disp);
        Ok(8)
    }

    /// `BSR d:16`: pushes the program counter (past the displacement word)
    /// and branches by the word that follows.
    pub fn bsr_disp24(&mut self, _opcode: u16) -> (r: Result<u8, EmuError>)
        requires
            old(self).wf(),
            bsr_disp24_pre(old(self)@, _opcode),
        ensures
            final(self).wf(),
            bsr_disp24_post(old(self)@, final(self)@, _opcode, r),
    {
        let opcode2 = self.fetch();
        let pc = self.pc;
        match self.write_dec_ern_l(7, pc) {
            Ok(_) => {},
            Err(e) => return Err(e),
        }
        let disp: i32 = if opcode2 < 0x8000 { opcode2 as i32 } else { opcode2 as i32 - 0x10000 };
        self.pc = add_pc_signed(self.pc, disp);
        Ok(10)
    }
}

} // verus!
