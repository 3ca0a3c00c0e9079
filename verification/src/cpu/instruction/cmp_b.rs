use vstd::prelude::*;

use crate::cpu::addressing_mode::rn::spec_rn_b;
use crate::cpu::instruction::sub_b::sub_b_ccr;
use crate::cpu::instruction::{cyc, get_low_byte, lemma_small_cycles, low_byte, nibble};
use crate::cpu::{Cpu, CpuView, StateType};
use crate::error::EmuError;

verus! {

/// The state after `CMP.B #xx:8, Rd`, from `old` to `new`, and its result `r`.
pub open spec fn cmp_b_imm_post(old: CpuView, new: CpuView, opcode: u16, r: Result<u8, EmuError>) -> bool {
    &&& new == (CpuView {
        ccr: sub_b_ccr(old.ccr, spec_rn_b(old.er, nibble(opcode, 2)), low_byte(opcode)),
        ..old
    })
    &&& r == cyc(old, StateType::I, 1)
}

/// The state after `CMP.B Rs, Rd`, from `old` to `new`, and its result `r`.
pub open spec fn cmp_b_rn_post(old: CpuView, new: CpuView, opcode: u16, r: Result<u8, EmuError>) -> bool {
    &&& new == (CpuView {
        ccr: sub_b_ccr(
            old.ccr,
            spec_rn_b(old.er, nibble(opcode, 4)),
            spec_rn_b(old.er, nibble(opcode, 3)),
        ),
        ..old
    })
    &&& r == cyc(old, StateType::I, 1)
}

impl Cpu {
    /// `CMP.B #xx:8, Rd`: sets the flags of Rd (nibble 2) minus the
    /// immediate byte; no register changes.
    pub fn cmp_b_imm(&mut self, opcode: u16) -> (r: Result<u8, EmuError>)
        requires
            old(self).wf(),
        ensures
            final(self).wf(),
            cmp_b_imm_post(old(self)@, final(self)@, opcode, r),
    {
        let rd_i = Cpu::get_nibble_opcode(opcode, 2).unwrap();
        let rd = self.read_rn_b(rd_i).unwrap();
        let imm = get_low_byte(opcode);
        self.sub_b_calc(rd, imm);
        proof {
            lemma_small_cycles(self@.mem, StateType::I, 1, self.operating_pc);
        }
        self.calc_state(StateType::I, 1)
    }

    /// `CMP.B Rs, Rd`: sets the flags of Rd (nibble 4) minus Rs (nibble 3);
    /// no register changes.
    pub fn cmp_b_rn(&mut self, opcode: u16) -> (r: Result<u8, EmuError>)
        requires
            old(self).wf(),
        ensures
            final(self).wf(),
            cmp_b_rn_post(old(self)@, final(self)@, opcode, r),
    {
        let src = self.read_rn_b(Cpu::get_nibble_opcode(opcode, 3).unwrap()).unwrap();
        let dest = self.read_rn_b(Cpu::get_nibble_opcode(opcode, 4).unwrap()).unwrap();
        self.sub_b_calc(dest, src);
        proof {
            lemma_small_cycles(self@.mem, StateType::I, 1, self.operating_pc);
        }
        self.calc_state(StateType::I, 1)
    }
}

} // verus!
