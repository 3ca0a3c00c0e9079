use vstd::prelude::*;

use crate::cpu::addressing_mode::rn::{spec_rn_b, spec_rn_w};
use crate::cpu::instruction::not::{logic_b_state, logic_l_state, logic_w_state};
use crate::cpu::instruction::{cyc, lemma_small_cycles, nibble};
use crate::cpu::{can_fetch, can_fetch2, fetched, fetched_long, fetched_word, Cpu, CpuView, StateType, CCR};
use crate::error::EmuError;

verus! {

/// The state after `XOR.B #xx:8, Rd`, from `old` to `new`, and its result `r`.
pub open spec fn xor_b_imm_post(old: CpuView, new: CpuView, opcode: u16, r: Result<u8, EmuError>) -> bool {
    &&& new == logic_b_state(
        old,
        nibble(opcode, 2),
        spec_rn_b(old.er, nibble(opcode, 2)) ^ (opcode as u8),
    )
    &&& r == cyc(old, StateType::I, 1)
}

/// The state after `XOR.B Rs, Rd`, from `old` to `new`, and its result `r`.
pub open spec fn xor_b_rn_post(old: CpuView, new: CpuView, opcode: u16, r: Result<u8, EmuError>) -> bool {
    &&& new == logic_b_state(
        old,
        nibble(opcode, 4),
        spec_rn_b(old.er, nibble(opcode, 3)) ^ spec_rn_b(old.er, nibble(opcode, 4)),
    )
    &&& r == cyc(old, StateType::I, 1)
}

/// The states in which `XOR.W #xx:16, Rd` can run.
pub open spec fn xor_w_imm_pre(v: CpuView, opcode: u16) -> bool {
    &&& can_fetch(v)
}

/// The state after `XOR.W #xx:16, Rd`, from `old` to `new`, and its result `r`.
pub open spec fn xor_w_imm_post(old: CpuView, new: CpuView, opcode: u16, r: Result<u8, EmuError>) -> bool {
    &&& ({
        let v1 = fetched(old);
        new == logic_w_state(
            v1,
            nibble(opcode, 4),
            spec_rn_w(v1.er, nibble(opcode, 4)) ^ fetched_word(old),
        )
    })
    &&& r == cyc(fetched(old), StateType::I, 2)
}

/// The state after `XOR.W Rs, Rd`, from `old` to `new`, and its result `r`.
pub open spec fn xor_w_rn_post(old: CpuView, new: CpuView, opcode: u16, r: Result<u8, EmuError>) -> bool {
    &&& new == logic_w_state(
        old,
        nibble(opcode, 4),
        spec_rn_w(old.er, nibble(opcode, 3)) ^ spec_rn_w(old.er, nibble(opcode, 4)),
    )
    &&& r == cyc(old, StateType::I, 1)
}

/// The states in which `XOR.L #xx:32, ERd` can run.
pub open spec fn xor_l_imm_pre(v: CpuView, opcode: u16) -> bool {
    &&& can_fetch2(v)
}

/// The state after `XOR.L #xx:32, ERd`, from `old` to `new`, and its result `r`.
pub open spec fn xor_l_imm_post(old: CpuView, new: CpuView, opcode: u16, r: Result<u8, EmuError>) -> bool {
    &&& ({
        let v2 = fetched(fetched(old));
        let rd = nibble(opcode, 4);
        if rd >= 8 {
            new == v2 && r == Err::<u8, EmuError>(EmuError::InvalidRegister(rd))
        } else {
            &&& new == logic_l_state(v2, rd, v2.er[rd as int] ^ fetched_long(old))
            &&& r == cyc(fetched(fetched(old)), StateType::I, 3)
        }
    })
}

/// The state after `XOR.L ERs, ERd`, from `old` to `new`, and its result `r`.
pub open spec fn xor_l_rn_post(old: CpuView, new: CpuView, _opcode: u16, opcode2: u16, r: Result<u8, EmuError>) -> bool {
    &&& ({
        let rs = nibble(opcode2, 3);
        let rd = nibble(opcode2, 4);
        if rs >= 8 {
            new == old && r == Err::<u8, EmuError>(EmuError::InvalidRegister(rs))
        } else if rd >= 8 {
            new == old && r == Err::<u8, EmuError>(EmuError::InvalidRegister(rd))
        } else {
            &&& new == logic_l_state(old, rd, old.er[rs as int] ^ old.er[rd as int])
            &&& r == cyc(old, StateType::I, 2)
        }
    })
}

impl Cpu {
    /// `XOR.B #xx:8, Rd`: Rd (nibble 2) becomes its exclusive OR with the immediate byte.
    pub fn xor_b_imm(&mut self, opcode: u16) -> (r: Result<u8, EmuError>)
        requires
            old(self).wf(),
        ensures
            final(self).wf(),
            xor_b_imm_post(old(self)@, final(self)@, opcode, r),
    {
        let register = Cpu::get_nibble_opcode(opcode, 2).unwrap();
        let result = self.read_rn_b(register).unwrap() ^ opcode as u8;
        self.write_rn_b(register, result).unwrap();
        self.change_ccr(CCR::N, result >= 0x80);
        self.change_ccr(CCR::Z, result == 0);
        self.write_ccr(CCR::V, 0);
        proof {
            lemma_small_cycles(self@.mem, StateType::I, 1, self.operating_pc);
        }
        self.calc_state(StateType::I, 1)
    }

    /// `XOR.B Rs, Rd`: Rd (nibble 4) becomes the exclusive OR of Rs (nibble 3) and Rd.
    pub fn xor_b_rn(&mut self, opcode: u16) -> (r: Result<u8, EmuError>)
        requires
            old(self).wf(),
        ensures
            final(self).wf(),
            xor_b_rn_post(old(self)@, final(self)@, opcode, r),
    {
        let register_src = Cpu::get_nibble_opcode(opcode, 3).unwrap();
        let register_dest = Cpu::get_nibble_opcode(opcode, 4).unwrap();
        let result = self.read_rn_b(register_src).unwrap() ^ self.read_rn_b(register_dest).unwrap();
        self.write_rn_b(register_dest, result).unwrap();
        self.change_ccr(CCR::N, result >= 0x80);
        self.change_ccr(CCR::Z, result == 0);
        self.write_ccr(CCR::V, 0);
        proof {
            lemma_small_cycles(self@.mem, StateType::I, 1, self.operating_pc);
        }
        self.calc_state(StateType::I, 1)
    }

    /// `XOR.W #xx:16, Rd`: Rd (nibble 4) becomes its exclusive OR with the
    /// immediate word that follows.
    pub fn xor_w_imm(&mut self, opcode: u16) -> (r: Result<u8, EmuError>)
        requires
            old(self).wf(),
            xor_w_imm_pre(old(self)@, opcode),
        ensures
            final(self).wf(),
            xor_w_imm_post(old(self)@, final(self)@, opcode, r),
    {
        let opcode2 = self.fetch();
        let register = Cpu::get_nibble_opcode(opcode, 4).unwrap();
        let result = self.read_rn_w(register).unwrap() ^ opcode2;
        self.write_rn_w(register, result).unwrap();
        self.change_ccr(CCR::N, result >= 0x8000);
        self.change_ccr(CCR::Z, result == 0);
        self.write_ccr(CCR::V, 0);
        proof {
            lemma_small_cycles(self@.mem, StateType::I, 2, self.operating_pc);
        }
        self.calc_state(StateType::I, 2)
    }

    /// `XOR.W Rs, Rd`: Rd (nibble 4) becomes the exclusive OR of Rs (nibble 3) and Rd.
    pub fn xor_w_rn(&mut self, opcode: u16) -> (r: Result<u8, EmuError>)
        requires
            old(self).wf(),
        ensures
            final(self).wf(),
            xor_w_rn_post(old(self)@, final(self)@, opcode, r),
    {
        let register_src = Cpu::get_nibble_opcode(opcode, 3).unwrap();
        let register_dest = Cpu::get_nibble_opcode(opcode, 4).unwrap();
        let result = self.read_rn_w(register_src).unwrap() ^ self.read_rn_w(register_dest).unwrap();
        self.write_rn_w(register_dest, result).unwrap();
        self.change_ccr(CCR::N, result >= 0x8000);
        self.change_ccr(CCR::Z, result == 0);
        self.write_ccr(CCR::V, 0);
        proof {
            lemma_small_cycles(self@.mem, StateType::I, 1, self.operating_pc);
        }
        self.calc_state(StateType::I, 1)
    }

    /// `XOR.L #xx:32, ERd`: ERd (nibble 4) becomes its exclusive OR with the
    /// 32-bit immediate that follows.
    pub fn xor_l_imm(&mut self, opcode: u16) -> (r: Result<u8, EmuError>)
        requires
            old(self).wf(),
            xor_l_imm_pre(old(self)@, opcode),
        ensures
            final(self).wf(),
            xor_l_imm_post(old(self)@, final(self)@, opcode, r),
    {
        let imm = ((self.fetch() as u32) << 16) | self.fetch() as u32;
        let register = Cpu::get_nibble_opcode(opcode, 4).unwrap();
        let value = match self.read_rn_l(register) {
            Ok(v) => v,
            Err(e) => return Err(e),
        };
        let result = value ^ imm;
        self.write_rn_l(register, result).unwrap();
        self.change_ccr(CCR::N, result >= 0x8000_0000);
        self.change_ccr(CCR::Z, result == 0);
        self.write_ccr(CCR::V, 0);
        proof {
            lemma_small_cycles(self@.mem, StateType::I, 3, self.operating_pc);
        }
        self.calc_state(StateType::I, 3)
    }

    /// `XOR.L ERs, ERd` (second word `opcode2`): ERd (nibble 4) becomes the
    /// exclusive OR of ERs (nibble 3) and ERd.
    pub fn xor_l_rn(&mut self, _opcode: u16, opcode2: u16) -> (r: Result<u8, EmuError>)
        requires
            old(self).wf(),
        ensures
            final(self).wf(),
            xor_l_rn_post(old(self)@, final(self)@, _opcode, opcode2, r),
    {
        let register_src = Cpu::get_nibble_opcode(opcode2, 3).unwrap();
        let register_dest = Cpu::get_nibble_opcode(opcode2, 4).unwrap();
        let src = match self.read_rn_l(register_src) {
            Ok(v) => v,
            Err(e) => return Err(e),
        };
        let dest = match self.read_rn_l(register_dest) {
            Ok(v) => v,
            Err(e) => return Err(e),
        };
        let result = src ^ dest;
        self.write_rn_l(register_dest, result).unwrap();
        self.change_ccr(CCR::N, result >= 0x8000_0000);
        self.change_ccr(CCR::Z, result == 0);
        self.write_ccr(CCR::V, 0);
        proof {
            lemma_small_cycles(self@.mem, StateType::I, 2, self.operating_pc);
        }
        self.calc_state(StateType::I, 2)
    }
}

} // verus!
