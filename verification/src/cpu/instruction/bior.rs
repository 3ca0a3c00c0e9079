use vstd::prelude::*;

use crate::cpu::addressing_mode::abs::spec_addr_abs8;
use crate::cpu::addressing_mode::ern::spec_addr_ern;
use crate::cpu::addressing_mode::rn::spec_rn_b;
use crate::cpu::instruction::band::{abs8_byte, ern_byte};
use crate::cpu::instruction::{add_cycles, cyc, lemma_byte_masks, lemma_small_cycles, nibble};
use crate::cpu::{cycles_result, flag_of, with_flag, Cpu, CpuView, StateType, CCR};
use crate::error::EmuError;

verus! {

/// `v` with C set to C OR NOT bit `imm` of `value`.
pub open spec fn bior_state(v: CpuView, value: u8, imm: u8) -> CpuView {
    CpuView {
        ccr: with_flag(v.ccr, CCR::C.spec_bit(), ((!(value >> imm) & 1) | flag_of(v.ccr, CCR::C.spec_bit())) == 1),
        ..v
    }
}

/// The states of a bit instruction on memory: two fetch states and one byte
/// access at `addr`.
pub open spec fn bit_mem_cycles(v: CpuView, addr: u32) -> Result<u8, EmuError> {
    add_cycles(cyc(v, StateType::I, 2), cycles_result(v.mem, StateType::L, 1, addr))
}

/// The state after `BIOR #xx:3, Rd`, from `old` to `new`, and its result `r`.
pub open spec fn bior_rn_post(old: CpuView, new: CpuView, opcode: u16, r: Result<u8, EmuError>) -> bool {
    &&& new == bior_state(old, spec_rn_b(old.er, nibble(opcode, 4)), nibble(opcode, 3) & 7)
    &&& r == cyc(old, StateType::I, 1)
}

/// The state after `BIOR #xx:3, @ERd`, from `old` to `new`, and its result `r`.
pub open spec fn bior_ern_post(old: CpuView, new: CpuView, opcode: u16, opcode2: u16, r: Result<u8, EmuError>) -> bool {
    &&& ({
        let reg = nibble(opcode, 3);
        match ern_byte(old, reg) {
            Err(e) => new == old && r == Err::<u8, EmuError>(e),
            Ok(value) => {
                let next = bior_state(old, value, nibble(opcode2, 3) & 7);
                new == next && r == bit_mem_cycles(next, spec_addr_ern(old.er, reg))
            },
        }
    })
}

/// The state after `BIOR #xx:3, @aa:8`, from `old` to `new`, and its result `r`.
pub open spec fn bior_abs_post(old: CpuView, new: CpuView, opcode: u16, opcode2: u16, r: Result<u8, EmuError>) -> bool {
    &&& ({
        match abs8_byte(old, opcode as u8) {
            Err(e) => new == old && r == Err::<u8, EmuError>(e),
            Ok(value) => {
                let next = bior_state(old, value, nibble(opcode2, 3) & 7);
                new == next && r == bit_mem_cycles(next, spec_addr_abs8(opcode as u8))
            },
        }
    })
}

impl Cpu {
    /// Sets C to C OR NOT bit `imm` of `value`.
    fn bior_proc(&mut self, value: u8, imm: u8)
        requires
            imm < 8,
        ensures
            final(self)@ == bior_state(old(self)@, value, imm),
            final(self).bus == old(self).bus,
    {
        let c = self.read_ccr(CCR::C);
        let bit = (!(value >> imm) & 1) | c;
        assert(bit <= 1) by (bit_vector)
            requires
                bit == (!(value >> imm) & 1) | c,
                c <= 1,
        ;
        self.write_ccr(CCR::C, bit);
    }

    /// Two fetch states plus one byte access at `addr`.
    pub(crate) fn bit_mem_states(&self, addr: u32) -> (r: Result<u8, EmuError>)
        requires
            self.wf(),
        ensures
            r == bit_mem_cycles(self@, addr),
    {
        proof {
            lemma_small_cycles(self@.mem, StateType::I, 2, self.operating_pc);
            lemma_small_cycles(self@.mem, StateType::L, 1, addr);
        }
        let s1 = match self.calc_state(StateType::I, 2) {
            Ok(s) => s,
            Err(e) => return Err(e),
        };
        let s2 = match self.calc_state_with_addr(StateType::L, 1, addr) {
            Ok(s) => s,
            Err(e) => return Err(e),
        };
        Ok(s1 + s2)
    }

    /// `BIOR #xx:3, Rd`: C becomes C OR NOT a bit of the byte register of nibble 4.
    pub fn bior_rn(&mut self, opcode: u16) -> (r: Result<u8, EmuError>)
        requires
            old(self).wf(),
        ensures
            final(self).wf(),
            bior_rn_post(old(self)@, final(self)@, opcode, r),
    {
        let register = Cpu::get_nibble_opcode(opcode, 4).unwrap();
        let value = self.read_rn_b(register).unwrap();
        let imm = Cpu::get_nibble_opcode(opcode, 3).unwrap() & 7;
        proof {
            lemma_byte_masks(nibble(opcode, 3));
        }
        self.bior_proc(value, imm);
        proof {
            lemma_small_cycles(self@.mem, StateType::I, 1, self.operating_pc);
        }
        self.calc_state(StateType::I, 1)
    }

    /// `BIOR #xx:3, @ERd`: C becomes C OR NOT a bit of the byte at `@ERd`.
    pub fn bior_ern(&mut self, opcode: u16, opcode2: u16) -> (r: Result<u8, EmuError>)
        requires
            old(self).wf(),
        ensures
            final(self).wf(),
            bior_ern_post(old(self)@, final(self)@, opcode, opcode2, r),
    {
        let register = Cpu::get_nibble_opcode(opcode, 3).unwrap();
        let access_addr = match self.get_addr_ern(register) {
            Ok(a) => a,
            Err(e) => return Err(e),
        };
        let value = match self.read_ern_b(register) {
            Ok(v) => v,
            Err(e) => return Err(e),
        };
        let imm = Cpu::get_nibble_opcode(opcode2, 3).unwrap() & 7;
        proof {
            lemma_byte_masks(nibble(opcode2, 3));
        }
        self.bior_proc(value, imm);
        self.bit_mem_states(access_addr)
    }

    /// `BIOR #xx:3, @aa:8`: C becomes C OR NOT a bit of the byte at the 8-bit
    /// absolute address in the low byte of `opcode`.
    pub fn bior_abs(&mut self, opcode: u16, opcode2: u16) -> (r: Result<u8, EmuError>)
        requires
            old(self).wf(),
        ensures
            final(self).wf(),
            bior_abs_post(old(self)@, final(self)@, opcode, opcode2, r),
    {
        let imm = Cpu::get_nibble_opcode(opcode2, 3).unwrap() & 7;
        proof {
            lemma_byte_masks(nibble(opcode2, 3));
        }
        let value = match self.read_abs8_b(opcode as u8) {
            Ok(v) => v,
            Err(e) => return Err(e),
        };
        self.bior_proc(value, imm);
        let access_addr = self.get_addr_abs8(opcode as u8);
        self.bit_mem_states(access_addr)
    }
}

} // verus!
