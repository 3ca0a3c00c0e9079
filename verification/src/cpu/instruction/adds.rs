use vstd::prelude::*;

use crate::cpu::instruction::{cyc, lemma_small_cycles, nibble};
use crate::cpu::{Cpu, CpuView, StateType};
use crate::error::EmuError;

verus! {

/// What `ADDS #k, ERd` does: ERd (nibble 4) grows by `k`, modulo 2^32, and no
/// flag changes.
pub open spec fn adds_post(old: CpuView, new: CpuView, opcode: u16, k: u32, r: Result<u8, EmuError>) -> bool {
    let rd = nibble(opcode, 4);
    if rd >= 8 {
        new == old && r == Err::<u8, EmuError>(EmuError::InvalidRegister(rd))
    } else {
        new == (CpuView { er: old.er.update(rd as int, old.er[rd as int].wrapping_add(k)), ..old })
            && r == cyc(old, StateType::I, 1)
    }
}

impl Cpu {
    /// `ADDS #1, ERd`.
    pub fn adds1(&mut self, opcode: u16) -> (r: Result<u8, EmuError>)
        requires
            old(self).wf(),
        ensures
            final(self).wf(),
            adds_post(old(self)@, final(self)@, opcode, 1, r),
    {
        let register = Cpu::get_nibble_opcode(opcode, 4).unwrap();
        let value = match self.read_rn_l(register) {
            Ok(v) => v,
            Err(e) => return Err(e),
        };
        self.write_rn_l(register, value.wrapping_add(1)).unwrap();
        proof {
            lemma_small_cycles(self@.mem, StateType::I, 1, self.operating_pc);
        }
        self.calc_state(StateType::I, 1)
    }

    /// `ADDS #2, ERd`.
    pub fn adds2(&mut self, opcode: u16) -> (r: Result<u8, EmuError>)
        requires
            old(self).wf(),
        ensures
            final(self).wf(),
            adds_post(old(self)@, final(self)@, opcode, 2, r),
    {
        let register = Cpu::get_nibble_opcode(opcode, 4).unwrap();
        let value = match self.read_rn_l(register) {
            Ok(v) => v,
            Err(e) => return Err(e),
        };
        self.write_rn_l(register, value.wrapping_add(2)).unwrap();
        proof {
            lemma_small_cycles(self@.mem, StateType::I, 1, self.operating_pc);
        }
        self.calc_state(StateType::I, 1)
    }

    /// `ADDS #4, ERd`.
    pub fn adds4(&mut self, opcode: u16) -> (r: Result<u8, EmuError>)
        requires
            old(self).wf(),
        ensures
            final(self).wf(),
            adds_post(old(self)@, final(self)@, opcode, 4, r),
    {
        let register = Cpu::get_nibble_opcode(opcode, 4).unwrap();
        let value = match self.read_rn_l(register) {
            Ok(v) => v,
            Err(e) => return Err(e),
        };
        self.write_rn_l(register, value.wrapping_add(4)).unwrap();
        proof {
            lemma_small_cycles(self@.mem, StateType::I, 1, self.operating_pc);
        }
        self.calc_state(StateType::I, 1)
    }
}

} // verus!
