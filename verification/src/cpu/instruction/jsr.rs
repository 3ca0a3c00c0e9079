use vstd::prelude::*;

use crate::cpu::addressing_mode::abs::{load_l, spec_addr_abs8};
use crate::cpu::addressing_mode::dec_ern::push_l;
use crate::cpu::instruction::jmp::abs24_target;
use crate::cpu::instruction::rts::stack_branch_cycles;
use crate::cpu::instruction::{add_cycles, cyc, get_high_byte, get_low_byte, high_byte, lemma_small_cycles, low_byte, make_long, nibble};
use crate::cpu::{can_fetch, cycles_result, fetched, fetched_word, Cpu, CpuView, StateType, ADDRESS_MASK};
use crate::error::EmuError;

verus! {

/// The stack address of the push that a subroutine call makes from `v`.
pub open spec fn call_access_addr(v: CpuView) -> u32 {
    ((v.er[7] - 4) as u32) & ADDRESS_MASK
}

/// `JSR` pushes a long word, so ER7 must be at least 4; the absolute form
/// also needs its address word.
pub open spec fn jsr_pre(v: CpuView, opcode: u16) -> bool {
    let high = high_byte(opcode);
    &&& (high == 0x5d || high == 0x5e || high == 0x5f) ==> v.er[7] >= 4
    &&& high == 0x5e ==> can_fetch(v)
}

/// What `JSR` does: the return address is pushed, then the program counter
/// is set to ERn (0x5d, register read after the push), to the 24-bit address
/// in the instruction (0x5e) or to the address stored at the 8-bit absolute
/// address (0x5f).
pub open spec fn jsr_post(old: CpuView, new: CpuView, opcode: u16, r: Result<u8, EmuError>) -> bool {
    let high = high_byte(opcode);
    if high == 0x5d {
        let (p, res) = push_l(old, old.pc);
        let rn = nibble(opcode, 3);
        if res is Err {
            new == p && r == Err::<u8, EmuError>(res->Err_0)
        } else if rn >= 8 {
            new == p && r == Err::<u8, EmuError>(EmuError::InvalidRegister(rn))
        } else {
            new == (CpuView { pc: p.er[rn as int], ..p }) && r == add_cycles(
                cyc(p, StateType::I, 2),
                cycles_result(p.mem, StateType::K, 2, call_access_addr(old)),
            )
        }
    } else if high == 0x5e {
        let v1 = fetched(old);
        let (p, res) = push_l(v1, v1.pc);
        if res is Err {
            new == p && r == Err::<u8, EmuError>(res->Err_0)
        } else {
            new == (CpuView { pc: abs24_target(opcode, fetched_word(old)), ..p }) && r
                == stack_branch_cycles(p, call_access_addr(old))
        }
    } else if high == 0x5f {
        let (p, res) = push_l(old, old.pc);
        let vec = spec_addr_abs8(low_byte(opcode));
        if res is Err {
            new == p && r == Err::<u8, EmuError>(res->Err_0)
        } else {
            match load_l(p.mem, vec) {
                Err(e) => new == p && r == Err::<u8, EmuError>(e),
                Ok(addr) => new == (CpuView { pc: addr, ..p }) && r == add_cycles(
                    add_cycles(cyc(p, StateType::I, 2), cycles_result(p.mem, StateType::J, 2, vec)),
                    cyc(p, StateType::K, 2),
                ),
            }
        }
    } else {
        new == old && r == Err::<u8, EmuError>(EmuError::InvalidOpcode(opcode))
    }
}


impl Cpu {
    /// `JSR`: `@ERn` (0x5d), `@aa:24` (0x5e) or `@@aa:8` (0x5f).
    pub fn jsr(&mut self, opcode: u16) -> (r: Result<u8, EmuError>)
        requires
            old(self).wf(),
            jsr_pre(old(self)@, opcode),
        ensures
            final(self).wf(),
            jsr_post(old(self)@, final(self)@, opcode, r),
    {
        let high = get_high_byte(opcode);
        if high == 0x5d {
            self.jsr_ern(opcode)
        } else if high == 0x5e {
            self.jsr_abs(opcode)
        } else if high == 0x5f {
            self.jsr_indirect(opcode)
        } else {
            Err(EmuError::InvalidOpcode(opcode))
        }
    }

    fn jsr_ern(&mut self, opcode: u16) -> (r: Result<u8, EmuError>)
        requires
            old(self).wf(),
            high_byte(opcode) == 0x5d,
            old(self)@.er[7] >= 4,
        ensures
            final(self).wf(),
            jsr_post(old(self)@, final(self)@, opcode, r),
    {
        let access_addr = (self.er[7] - 4) & ADDRESS_MASK;
        let pc = self.pc;
        match self.write_dec_ern_l(7, pc) {
            Ok(_) => {},
            Err(e) => return Err(e),
        }
        let addr = match self.read_rn_l(Cpu::get_nibble_opcode(opcode, 3).unwrap()) {
            Ok(a) => a,
            Err(e) => return Err(e),
        };
        self.pc = addr;
        proof {
            lemma_small_cycles(self@.mem, StateType::I, 2, self.operating_pc);
            lemma_small_cycles(self@.mem, StateType::K, 2, access_addr);
        }
        let s1 = match self.calc_state(StateType::I, 2) {
            Ok(s) => s,
            Err(e) => return Err(e),
        };
        let s2 = match self.calc_state_with_addr(StateType::K, 2, access_addr) {
            Ok(s) => s,
            Err(e) => return Err(e),
        };
        Ok(s1 + s2)
    }

    fn jsr_abs(&mut self, opcode: u16) -> (r: Result<u8, EmuError>)
        requires
            old(self).wf(),
            high_byte(opcode) == 0x5e,
            old(self)@.er[7] >= 4,
            can_fetch(old(self)@),
        ensures
            final(self).wf(),
            jsr_post(old(self)@, final(self)@, opcode, r),
    {
        let access_addr = (self.er[7] - 4) & ADDRESS_MASK;
        let opcode2 = self.fetch();
        let abs_addr = make_long(opcode & 0x00ff, opcode2);
        let pc = self.pc;
        match self.write_dec_ern_l(7, pc) {
            Ok(_) => {},
            Err(e) => return Err(e),
        }
        self.pc = abs_addr;
        self.stack_branch_states(access_addr)
    }

    fn jsr_indirect(&mut self, opcode: u16) -> (r: Result<u8, EmuError>)
        requires
            old(self).wf(),
            high_byte(opcode) == 0x5f,
            old(self)@.er[7] >= 4,
        ensures
            final(self).wf(),
            jsr_post(old(self)@, final(self)@, opcode, r),
    {
        let abs_addr = get_low_byte(opcode);
        let pc = self.pc;
        match self.write_dec_ern_l(7, pc) {
            Ok(_) => {},
            Err(e) => return Err(e),
        }
        let addr = match self.read_abs8_l(abs_addr) {
            Ok(a) => a,
            Err(e) => return Err(e),
        };
        self.pc = addr;
        let access_addr = self.get_addr_abs8(abs_addr);
        proof {
            lemma_small_cycles(self@.mem, StateType::I, 2, self.operating_pc);
            lemma_small_cycles(self@.mem, StateType::J, 2, access_addr);
            lemma_small_cycles(self@.mem, StateType::K, 2, self.operating_pc);
        }
        let s1 = match self.calc_state(StateType::I, 2) {
            Ok(s) => s,
            Err(e) => return Err(e),
        };
        let s2 = match self.calc_state_with_addr(StateType::J, 2, access_addr) {
            Ok(s) => s,
            Err(e) => return Err(e),
        };
        let s3 = match self.calc_state(StateType::K, 2) {
            Ok(s) => s,
            Err(e) => return Err(e),
        };
        Ok(s1 + s2 + s3)
    }
}

} // verus!
