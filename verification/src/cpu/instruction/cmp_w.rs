use vstd::prelude::*;

use crate::cpu::addressing_mode::rn::spec_rn_w;
use crate::cpu::instruction::sub_w::sub_w_ccr;
use crate::cpu::instruction::{cyc, lemma_small_cycles, nibble};
use crate::cpu::{can_fetch, fetched, fetched_word, Cpu, CpuView, StateType};
use crate::error::EmuError;

verus! {

/// The states in which `CMP.W #xx:16, Rd` can run.
pub open spec fn cmp_w_imm_pre(v: CpuView, opcode: u16) -> bool {
    &&& can_fetch(v)
}

/// The state after `CMP.W #xx:16, Rd`, from `old` to `new`, and its result `r`.
pub open spec fn cmp_w_imm_post(old: CpuView, new: CpuView, opcode: u16, r: Result<u8, EmuError>) -> bool {
    &&& ({
        let v1 = fetched(old);
        &&& new == (CpuView {
            ccr: sub_w_ccr(v1.ccr, spec_rn_w(v1.er, nibble(opcode, 4)), fetched_word(old)),
            ..v1
        })
        &&& r == cyc(v1, StateType::I, 2)
    })
}

/// The state after `CMP.W Rs, Rd`, from `old` to `new`, and its result `r`.
pub open spec fn cmp_w_rn_post(old: CpuView, new: CpuView, opcode: u16, r: Result<u8, EmuError>) -> bool {
    &&& new == (CpuView {
        ccr: sub_w_ccr(
            old.ccr,
            spec_rn_w(old.er, nibble(opcode, 4)),
            spec_rn_w(old.er, nibble(opcode, 3)),
        ),
        ..old
    })
    &&& r == cyc(old, StateType::I, 1)
}

impl Cpu {
    /// `CMP.W #xx:16, Rd`: sets the flags of Rd (nibble 4) minus the
    /// immediate word that follows; no register changes.
    pub fn cmp_w_imm(&mut self, opcode: u16) -> (r: Result<u8, EmuError>)
        requires
            old(self).wf(),
            cmp_w_imm_pre(old(self)@, opcode),
        ensures
            final(self).wf(),
            cmp_w_imm_post(old(self)@, final(self)@, opcode, r),
    {
        let imm = self.fetch();
        let dest = self.read_rn_w(Cpu::get_nibble_opcode(opcode, 4).unwrap()).unwrap();
        self.sub_w_calc(dest, imm);
        proof {
            lemma_small_cycles(self@.mem, StateType::I, 2, self.operating_pc);
        }
        self.calc_state(StateType::I, 2)
    }

    /// `CMP.W Rs, Rd`: sets the flags of Rd (nibble 4) minus Rs (nibble 3);
    /// no register changes.
    pub fn cmp_w_rn(&mut self, opcode: u16) -> (r: Result<u8, EmuError>)
        requires
            old(self).wf(),
        ensures
            final(self).wf(),
            cmp_w_rn_post(old(self)@, final(self)@, opcode, r),
    {
        let src = self.read_rn_w(Cpu::get_nibble_opcode(opcode, 3).unwrap()).unwrap();
        let dest = self.read_rn_w(Cpu::get_nibble_opcode(opcode, 4).unwrap()).unwrap();
        self.sub_w_calc(dest, src);
        proof {
            lemma_small_cycles(self@.mem, StateType::I, 1, self.operating_pc);
        }
        self.calc_state(StateType::I, 1)
    }
}

} // verus!
