use vstd::prelude::*;

use crate::cpu::addressing_mode::inc_ern::pop_l;
use crate::cpu::instruction::rts::stack_branch_cycles;
use crate::cpu::{Cpu, CpuView, ADDRESS_MASK};
use crate::error::EmuError;

verus! {

/// What `RTE` does: the long word popped off the stack holds the condition
/// code register in its top byte and the program counter below it.
pub open spec fn rte_post(old: CpuView, new: CpuView, r: Result<u8, EmuError>) -> bool {
    let (popped, l) = pop_l(old);
    match l {
        Err(e) => new == old && r == Err::<u8, EmuError>(e),
        Ok(w) => new == (CpuView { ccr: (w >> 24u32) as u8, pc: w & ADDRESS_MASK, ..popped })
            && r == stack_branch_cycles(popped, old.er[7] & ADDRESS_MASK),
    }
}

/// The states in which `RTE` can run.
pub open spec fn rte_pre(v: CpuView) -> bool {
    &&& v.er[7] + 4 <= u32::MAX
}

impl Cpu {
    /// `RTE`: returns from an exception, restoring CCR and the program counter.
    pub fn rte(&mut self) -> (r: Result<u8, EmuError>)
        requires
            old(self).wf(),
            rte_pre(old(self)@),
        ensures
            final(self).wf(),
            rte_post(old(self)@, final(self)@, r),
    {
        let access_addr = self.er[7] & ADDRESS_MASK;
        let ccr_pc = match self.read_inc_ern_l(7) {
            Ok(a) => a,
            Err(e) => return Err(e),
        };
        self.ccr = (ccr_pc >> 24) as u8;
        self.pc = ccr_pc & ADDRESS_MASK;
        self.stack_branch_states(access_addr)
    }
}

} // verus!
