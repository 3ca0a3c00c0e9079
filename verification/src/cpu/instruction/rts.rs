use vstd::prelude::*;

use crate::cpu::addressing_mode::inc_ern::pop_l;
use crate::cpu::instruction::{add_cycles, cyc, lemma_small_cycles};
use crate::cpu::{cycles_result, Cpu, CpuView, StateType, ADDRESS_MASK};
use crate::error::EmuError;

verus! {

/// Two fetch states, two stack states at `access_addr` and two internal
/// states: the count of the returns and of `JSR @aa:24`.
pub open spec fn stack_branch_cycles(v: CpuView, access_addr: u32) -> Result<u8, EmuError> {
    add_cycles(
        add_cycles(cyc(v, StateType::I, 2), cycles_result(v.mem, StateType::K, 2, access_addr)),
        cyc(v, StateType::N, 2),
    )
}

/// A return pops a long word, so ER7 must leave room for the increment.
pub open spec fn rts_pre(v: CpuView) -> bool {
    v.er[7] + 4 <= u32::MAX
}

/// What `RTS` does: the program counter is popped off the stack.
pub open spec fn rts_post(old: CpuView, new: CpuView, r: Result<u8, EmuError>) -> bool {
    let (popped, l) = pop_l(old);
    match l {
        Err(e) => new == old && r == Err::<u8, EmuError>(e),
        Ok(addr) => new == (CpuView { pc: addr, ..popped }) && r == stack_branch_cycles(
            popped,
            old.er[7] & ADDRESS_MASK,
        ),
    }
}


impl Cpu {
    /// Two fetch states, two stack states at `access_addr`, two internal states.
    pub(crate) fn stack_branch_states(&self, access_addr: u32) -> (r: Result<u8, EmuError>)
        requires
            self.wf(),
        ensures
            r == stack_branch_cycles(self@, access_addr),
    {
        proof {
            lemma_small_cycles(self@.mem, StateType::I, 2, self.operating_pc);
            lemma_small_cycles(self@.mem, StateType::K, 2, access_addr);
            lemma_small_cycles(self@.mem, StateType::N, 2, self.operating_pc);
        }
        let s1 = match self.calc_state(StateType::I, 2) {
            Ok(s) => s,
            Err(e) => return Err(e),
        };
        let s2 = match self.calc_state_with_addr(StateType::K, 2, access_addr) {
            Ok(s) => s,
            Err(e) => return Err(e),
        };
        let s3 = match self.calc_state(StateType::N, 2) {
            Ok(s) => s,
            Err(e) => return Err(e),
        };
        Ok(s1 + s2 + s3)
    }

    /// `RTS`: returns from a subroutine.
    pub fn rts(&mut self) -> (r: Result<u8, EmuError>)
        requires
            old(self).wf(),
            rts_pre(old(self)@),
        ensures
            final(self).wf(),
            rts_post(old(self)@, final(self)@, r),
    {
        let access_addr = self.er[7] & ADDRESS_MASK;
        let addr = match self.read_inc_ern_l(7) {
            Ok(a) => a,
            Err(e) => return Err(e),
        };
        self.pc = addr;
        self.stack_branch_states(access_addr)
    }
}

} // verus!
