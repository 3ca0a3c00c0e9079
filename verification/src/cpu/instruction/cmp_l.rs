use vstd::prelude::*;

use crate::cpu::instruction::sub_l::sub_l_ccr;
use crate::cpu::addressing_mode::rn::spec_rn_l;
use crate::cpu::instruction::{cyc, lemma_byte_masks, lemma_small_cycles, make_long, nibble};
use crate::cpu::{can_fetch2, fetched, fetched_long, Cpu, CpuView, StateType};
use crate::error::EmuError;

verus! {

/// The states in which `CMP.L #xx:32, ERd` can run.
pub open spec fn cmp_l_imm_pre(v: CpuView, opcode: u16) -> bool {
    &&& nibble(opcode, 4) < 8 ==> can_fetch2(v)
}

/// The state after `CMP.L #xx:32, ERd`, from `old` to `new`, and its result `r`.
pub open spec fn cmp_l_imm_post(old: CpuView, new: CpuView, opcode: u16, r: Result<u8, EmuError>) -> bool {
    &&& nibble(opcode, 4) >= 8 ==> new == old && r == Err::<u8, EmuError>(
        EmuError::InvalidRegister(nibble(opcode, 4)),
    )
    &&& nibble(opcode, 4) < 8 ==> ({
        let v2 = fetched(fetched(old));
        &&& new == (CpuView {
            ccr: sub_l_ccr(v2.ccr, spec_rn_l(v2.er, nibble(opcode, 4)), fetched_long(old)),
            ..v2
        })
        &&& r == cyc(v2, StateType::I, 3)
    })
}

/// The state after `CMP.L ERs, ERd`, from `old` to `new`, and its result `r`.
pub open spec fn cmp_l_rn_post(old: CpuView, new: CpuView, opcode: u16, r: Result<u8, EmuError>) -> bool {
    &&& nibble(opcode, 4) >= 8 ==> new == old && r == Err::<u8, EmuError>(
        EmuError::InvalidRegister(nibble(opcode, 4)),
    )
    &&& nibble(opcode, 4) < 8 ==> new == (CpuView {
        ccr: sub_l_ccr(
            old.ccr,
            spec_rn_l(old.er, nibble(opcode, 4)),
            spec_rn_l(old.er, nibble(opcode, 3) & 0x7),
        ),
        ..old
    }) && r == cyc(old, StateType::I, 1)
}

impl Cpu {
    /// `CMP.L #xx:32, ERd`: sets the flags of ERd (nibble 4) minus the 32-bit
    /// immediate that follows; no register changes. An invalid ERd is
    /// refused before the immediate is fetched.
    pub fn cmp_l_imm(&mut self, opcode: u16) -> (r: Result<u8, EmuError>)
        requires
            old(self).wf(),
            cmp_l_imm_pre(old(self)@, opcode),
        ensures
            final(self).wf(),
            cmp_l_imm_post(old(self)@, final(self)@, opcode, r),
    {
        let dest = match self.read_rn_l(Cpu::get_nibble_opcode(opcode, 4).unwrap()) {
            Ok(v) => v,
            Err(e) => return Err(e),
        };
        let opcode2 = self.fetch();
        let opcode3 = self.fetch();
        let imm = make_long(opcode2, opcode3);
        self.sub_l_calc(dest, imm);
        proof {
            lemma_small_cycles(self@.mem, StateType::I, 3, self.operating_pc);
        }
        self.calc_state(StateType::I, 3)
    }

    /// `CMP.L ERs, ERd`: sets the flags of ERd (nibble 4) minus ERs (nibble 3,
    /// low three bits); no register changes.
    pub fn cmp_l_rn(&mut self, opcode: u16) -> (r: Result<u8, EmuError>)
        requires
            old(self).wf(),
        ensures
            final(self).wf(),
            cmp_l_rn_post(old(self)@, final(self)@, opcode, r),
    {
        let rs = Cpu::get_nibble_opcode(opcode, 3).unwrap() & 0x7;
        proof {
            lemma_byte_masks(nibble(opcode, 3));
        }
        let src = self.read_rn_l(rs).unwrap();
        let dest = match self.read_rn_l(Cpu::get_nibble_opcode(opcode, 4).unwrap()) {
            Ok(v) => v,
            Err(e) => return Err(e),
        };
        self.sub_l_calc(dest, src);
        proof {
            lemma_small_cycles(self@.mem, StateType::I, 1, self.operating_pc);
        }
        self.calc_state(StateType::I, 1)
    }
}

} // verus!
