use vstd::prelude::*;

use crate::cpu::addressing_mode::abs::{load_l, spec_addr_abs8};
use crate::cpu::instruction::{add_cycles, cyc, get_high_byte, get_low_byte, high_byte, lemma_small_cycles, low_byte, make_long, nibble};
use crate::cpu::{can_fetch, cycles_result, fetched, fetched_word, Cpu, CpuView, StateType};
use crate::error::EmuError;

verus! {

/// The 24-bit absolute address of `JMP`/`JSR @aa:24`: the low byte of the
/// first word above the second word.
pub open spec fn abs24_target(opcode: u16, opcode2: u16) -> u32 {
    crate::cpu::addressing_mode::abs::be_long((opcode & 0x00ff) as u16, opcode2)
}

/// `JMP` needs its address word in the absolute form (0x5a).
pub open spec fn jmp_pre(v: CpuView, opcode: u16) -> bool {
    high_byte(opcode) == 0x5a ==> can_fetch(v)
}

/// What `JMP` does: 0x59 jumps to ERn (nibble 3), 0x5a to the 24-bit address
/// that the instruction holds, 0x5b to the address stored at the 8-bit
/// absolute address in the low byte.
pub open spec fn jmp_post(old: CpuView, new: CpuView, opcode: u16, r: Result<u8, EmuError>) -> bool {
    let high = high_byte(opcode);
    if high == 0x59 {
        let rn = nibble(opcode, 3);
        if rn >= 8 {
            new == old && r == Err::<u8, EmuError>(EmuError::InvalidRegister(rn))
        } else {
            new == (CpuView { pc: old.er[rn as int], ..old }) && r == cyc(old, StateType::I, 2)
        }
    } else if high == 0x5a {
        let v1 = fetched(old);
        new == (CpuView { pc: abs24_target(opcode, fetched_word(old)), ..v1 }) && r == add_cycles(
            cyc(v1, StateType::I, 2),
            cyc(v1, StateType::N, 2),
        )
    } else if high == 0x5b {
        match load_l(old.mem, spec_addr_abs8(low_byte(opcode))) {
            Err(e) => new == old && r == Err::<u8, EmuError>(e),
            Ok(addr) => new == (CpuView { pc: addr, ..old }) && r == add_cycles(
                add_cycles(
                    cyc(old, StateType::I, 2),
                    cycles_result(old.mem, StateType::J, 1, spec_addr_abs8(low_byte(opcode))),
                ),
                cyc(old, StateType::N, 2),
            ),
        }
    } else {
        new == old && r == Err::<u8, EmuError>(EmuError::InvalidOpcode(opcode))
    }
}


impl Cpu {
    /// `JMP`: `@ERn` (0x59), `@aa:24` (0x5a) or `@@aa:8` (0x5b).
    pub fn jmp(&mut self, opcode: u16) -> (r: Result<u8, EmuError>)
        requires
            old(self).wf(),
            jmp_pre(old(self)@, opcode),
        ensures
            final(self).wf(),
            jmp_post(old(self)@, final(self)@, opcode, r),
    {
        let high = get_high_byte(opcode);
        if high == 0x59 {
            self.jmp_ern(opcode)
        } else if high == 0x5a {
            self.jmp_abs(opcode)
        } else if high == 0x5b {
            self.jmp_indirect(opcode)
        } else {
            Err(EmuError::InvalidOpcode(opcode))
        }
    }

    fn jmp_ern(&mut self, opcode: u16) -> (r: Result<u8, EmuError>)
        requires
            old(self).wf(),
            high_byte(opcode) == 0x59,
        ensures
            final(self).wf(),
            jmp_post(old(self)@, final(self)@, opcode, r),
    {
        let addr = match self.read_rn_l(Cpu::get_nibble_opcode(opcode, 3).unwrap()) {
            Ok(a) => a,
            Err(e) => return Err(e),
        };
        self.pc = addr;
        proof {
            lemma_small_cycles(self@.mem, StateType::I, 2, self.operating_pc);
        }
        self.calc_state(StateType::I, 2)
    }

    fn jmp_abs(&mut self, opcode: u16) -> (r: Result<u8, EmuError>)
        requires
            old(self).wf(),
            high_byte(opcode) == 0x5a,
            can_fetch(old(self)@),
        ensures
            final(self).wf(),
            jmp_post(old(self)@, final(self)@, opcode, r),
    {
        let opcode2 = self.fetch();
        let abs_addr = make_long(opcode & 0x00ff, opcode2);
        self.pc = abs_addr;
        self.branch_states()
    }

    fn jmp_indirect(&mut self, opcode: u16) -> (r: Result<u8, EmuError>)
        requires
            old(self).wf(),
            high_byte(opcode) == 0x5b,
        ensures
            final(self).wf(),
            jmp_post(old(self)@, final(self)@, opcode, r),
    {
        let addr = match self.read_abs8_l(get_low_byte(opcode)) {
            Ok(a) => a,
            Err(e) => return Err(e),
        };
        self.pc = addr;
        let access_addr = self.get_addr_abs8(get_low_byte(opcode));
        proof {
            lemma_small_cycles(self@.mem, StateType::I, 2, self.operating_pc);
            lemma_small_cycles(self@.mem, StateType::J, 1, access_addr);
            lemma_small_cycles(self@.mem, StateType::N, 2, self.operating_pc);
        }
        let s1 = match self.calc_state(StateType::I, 2) {
            Ok(s) => s,
            Err(e) => return Err(e),
        };
        let s2 = match self.calc_state_with_addr(StateType::J, 1, access_addr) {
            Ok(s) => s,
            Err(e) => return Err(e),
        };
        let s3 = match self.calc_state(StateType::N, 2) {
            Ok(s) => s,
            Err(e) => return Err(e),
        };
        Ok(s1 + s2 + s3)
    }
}

} // verus!
