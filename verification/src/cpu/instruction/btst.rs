use vstd::prelude::*;

use crate::cpu::addressing_mode::abs::spec_addr_abs8;
use crate::cpu::addressing_mode::ern::spec_addr_ern;
use crate::cpu::addressing_mode::rn::spec_rn_b;
use crate::cpu::instruction::band::{abs8_byte, ern_byte};
use crate::cpu::instruction::bior::bit_mem_cycles;
use crate::cpu::instruction::{cyc, lemma_small_cycles, nibble};
use crate::cpu::{with_flag, Cpu, CpuView, StateType, CCR};
use crate::error::EmuError;

verus! {

/// `v` with Z set where bit `bit` of `value` is clear.
pub open spec fn btst_state(v: CpuView, value: u8, bit: u8) -> CpuView {
    CpuView { ccr: with_flag(v.ccr, CCR::Z.spec_bit(), (value >> bit) & 1 == 0), ..v }
}

/// What a memory form of `BTST` does, testing bit `bit` of the byte read as
/// `load` from `addr`.
pub open spec fn btst_mem_post(old: CpuView, new: CpuView, load: Result<u8, EmuError>, bit: u8, addr: u32, r: Result<u8, EmuError>) -> bool {
    match load {
        Err(e) => new == old && r == Err::<u8, EmuError>(e),
        Ok(value) => new == btst_state(old, value, bit) && r == bit_mem_cycles(new, addr),
    }
}

/// The states in which `BTST #xx:3, Rd` can run.
pub open spec fn btst_imm_rn_pre(v: CpuView, opcode: u16) -> bool {
    &&& nibble(opcode, 3) < 8
}

/// The state after `BTST #xx:3, Rd`, from `old` to `new`, and its result `r`.
pub open spec fn btst_imm_rn_post(old: CpuView, new: CpuView, opcode: u16, r: Result<u8, EmuError>) -> bool {
    &&& new == btst_state(old, spec_rn_b(old.er, nibble(opcode, 4)), nibble(opcode, 3))
    &&& r == cyc(old, StateType::I, 1)
}

/// The states in which `BTST #xx:3, @ERd` can run.
pub open spec fn btst_imm_ern_pre(v: CpuView, opcode1: u16, opcode2: u16) -> bool {
    &&& ern_byte(v, nibble(opcode1, 3)) is Ok ==> nibble(opcode2, 3) < 8
}

/// The state after `BTST #xx:3, @ERd`, from `old` to `new`, and its result `r`.
pub open spec fn btst_imm_ern_post(old: CpuView, new: CpuView, opcode1: u16, opcode2: u16, r: Result<u8, EmuError>) -> bool {
    &&& btst_mem_post(
        old,
        new,
        ern_byte(old, nibble(opcode1, 3)),
        nibble(opcode2, 3),
        spec_addr_ern(old.er, nibble(opcode1, 3)),
        r,
    )
}

/// The states in which `BTST #xx:3, @aa:8` can run.
pub open spec fn btst_imm_abs_pre(v: CpuView, opcode1: u16, opcode2: u16) -> bool {
    &&& abs8_byte(v, opcode1 as u8) is Ok ==> nibble(opcode2, 3) < 8
}

/// The state after `BTST #xx:3, @aa:8`, from `old` to `new`, and its result `r`.
pub open spec fn btst_imm_abs_post(old: CpuView, new: CpuView, opcode1: u16, opcode2: u16, r: Result<u8, EmuError>) -> bool {
    &&& btst_mem_post(
        old,
        new,
        abs8_byte(old, opcode1 as u8),
        nibble(opcode2, 3),
        spec_addr_abs8(opcode1 as u8),
        r,
    )
}

/// The states in which `BTST Rn, Rd` can run.
pub open spec fn btst_rn_rn_pre(v: CpuView, opcode: u16) -> bool {
    &&& spec_rn_b(v.er, nibble(opcode, 3)) < 8
}

/// The state after `BTST Rn, Rd`, from `old` to `new`, and its result `r`.
pub open spec fn btst_rn_rn_post(old: CpuView, new: CpuView, opcode: u16, r: Result<u8, EmuError>) -> bool {
    &&& new == btst_state(
        old,
        spec_rn_b(old.er, nibble(opcode, 4)),
        spec_rn_b(old.er, nibble(opcode, 3)),
    )
    &&& r == cyc(old, StateType::I, 1)
}

/// The states in which `BTST Rn, @ERd` can run.
pub open spec fn btst_rn_ern_pre(v: CpuView, opcode1: u16, opcode2: u16) -> bool {
    &&& ern_byte(v, nibble(opcode1, 3)) is Ok ==> spec_rn_b(v.er, nibble(opcode2, 3)) < 8
}

/// The state after `BTST Rn, @ERd`, from `old` to `new`, and its result `r`.
pub open spec fn btst_rn_ern_post(old: CpuView, new: CpuView, opcode1: u16, opcode2: u16, r: Result<u8, EmuError>) -> bool {
    &&& btst_mem_post(
        old,
        new,
        ern_byte(old, nibble(opcode1, 3)),
        spec_rn_b(old.er, nibble(opcode2, 3)),
        spec_addr_ern(old.er, nibble(opcode1, 3)),
        r,
    )
}

/// The states in which `BTST Rn, @aa:8` can run.
pub open spec fn btst_rn_abs_pre(v: CpuView, opcode1: u16, opcode2: u16) -> bool {
    &&& abs8_byte(v, opcode1 as u8) is Ok ==> spec_rn_b(v.er, nibble(opcode2, 3)) < 8
}

/// The state after `BTST Rn, @aa:8`, from `old` to `new`, and its result `r`.
pub open spec fn btst_rn_abs_post(old: CpuView, new: CpuView, opcode1: u16, opcode2: u16, r: Result<u8, EmuError>) -> bool {
    &&& btst_mem_post(
        old,
        new,
        abs8_byte(old, opcode1 as u8),
        spec_rn_b(old.er, nibble(opcode2, 3)),
        spec_addr_abs8(opcode1 as u8),
        r,
    )
}

impl Cpu {
    /// `BTST #xx:3, Rd`: Z tells whether bit nibble-3 of the byte register of
    /// nibble 4 is clear. Defined for bit numbers below 8.
    pub fn btst_imm_rn(&mut self, opcode: u16) -> (r: Result<u8, EmuError>)
        requires
            old(self).wf(),
            btst_imm_rn_pre(old(self)@, opcode),
        ensures
            final(self).wf(),
            btst_imm_rn_post(old(self)@, final(self)@, opcode, r),
    {
        let rd = self.read_rn_b(Cpu::get_nibble_opcode(opcode, 4).unwrap()).unwrap();
        let imm = Cpu::get_nibble_opcode(opcode, 3).unwrap();
        self.change_ccr(CCR::Z, (rd >> imm) & 1 == 0);
        proof {
            lemma_small_cycles(self@.mem, StateType::I, 1, self.operating_pc);
        }
        self.calc_state(StateType::I, 1)
    }

    /// `BTST #xx:3, @ERd`: Z tells whether a bit of the byte at `@ERd` is
    /// clear. Defined for bit numbers below 8.
    pub fn btst_imm_ern(&mut self, opcode1: u16, opcode2: u16) -> (r: Result<u8, EmuError>)
        requires
            old(self).wf(),
            btst_imm_ern_pre(old(self)@, opcode1, opcode2),
        ensures
            final(self).wf(),
            btst_imm_ern_post(old(self)@, final(self)@, opcode1, opcode2, r),
    {
        let erd_i = Cpu::get_nibble_opcode(opcode1, 3).unwrap();
        let erd = match self.read_ern_b(erd_i) {
            Ok(v) => v,
            Err(e) => return Err(e),
        };
        let imm = Cpu::get_nibble_opcode(opcode2, 3).unwrap();
        self.change_ccr(CCR::Z, (erd >> imm) & 1 == 0);
        let addr = self.get_addr_ern(erd_i).unwrap();
        self.bit_mem_states(addr)
    }

    /// `BTST #xx:3, @aa:8`: Z tells whether a bit of the byte at the 8-bit
    /// absolute address in the low byte of `opcode1` is clear. Defined for
    /// bit numbers below 8.
    pub fn btst_imm_abs(&mut self, opcode1: u16, opcode2: u16) -> (r: Result<u8, EmuError>)
        requires
            old(self).wf(),
            btst_imm_abs_pre(old(self)@, opcode1, opcode2),
        ensures
            final(self).wf(),
            btst_imm_abs_post(old(self)@, final(self)@, opcode1, opcode2, r),
    {
        let abs8_addr = opcode1 as u8;
        let value = match self.read_abs8_b(abs8_addr) {
            Ok(v) => v,
            Err(e) => return Err(e),
        };
        let imm = Cpu::get_nibble_opcode(opcode2, 3).unwrap();
        self.change_ccr(CCR::Z, (value >> imm) & 1 == 0);
        let addr = self.get_addr_abs8(abs8_addr);
        self.bit_mem_states(addr)
    }

    /// `BTST Rn, Rd`: Z tells whether the bit of the byte register of nibble
    /// 4 that the byte register of nibble 3 numbers is clear. Defined for bit
    /// numbers below 8.
    pub fn btst_rn_rn(&mut self, opcode: u16) -> (r: Result<u8, EmuError>)
        requires
            old(self).wf(),
            btst_rn_rn_pre(old(self)@, opcode),
        ensures
            final(self).wf(),
            btst_rn_rn_post(old(self)@, final(self)@, opcode, r),
    {
        let rn = self.read_rn_b(Cpu::get_nibble_opcode(opcode, 3).unwrap()).unwrap();
        let rd = self.read_rn_b(Cpu::get_nibble_opcode(opcode, 4).unwrap()).unwrap();
        self.change_ccr(CCR::Z, (rd >> rn) & 1 == 0);
        proof {
            lemma_small_cycles(self@.mem, StateType::I, 1, self.operating_pc);
        }
        self.calc_state(StateType::I, 1)
    }

    /// `BTST Rn, @ERd`: Z tells whether a bit of the byte at `@ERd` is clear.
    /// Defined for bit numbers below 8.
    pub fn btst_rn_ern(&mut self, opcode1: u16, opcode2: u16) -> (r: Result<u8, EmuError>)
        requires
            old(self).wf(),
            btst_rn_ern_pre(old(self)@, opcode1, opcode2),
        ensures
            final(self).wf(),
            btst_rn_ern_post(old(self)@, final(self)@, opcode1, opcode2, r),
    {
        let erd_i = Cpu::get_nibble_opcode(opcode1, 3).unwrap();
        let erd = match self.read_ern_b(erd_i) {
            Ok(v) => v,
            Err(e) => return Err(e),
        };
        let rn = self.read_rn_b(Cpu::get_nibble_opcode(opcode2, 3).unwrap()).unwrap();
        self.change_ccr(CCR::Z, (erd >> rn) & 1 == 0);
        let addr = self.get_addr_ern(erd_i).unwrap();
        self.bit_mem_states(addr)
    }

    /// `BTST Rn, @aa:8`: Z tells whether a bit of the byte at the 8-bit
    /// absolute address in the low byte of `opcode1` is clear. Defined for
    /// bit numbers below 8.
    pub fn btst_rn_abs(&mut self, opcode1: u16, opcode2: u16) -> (r: Result<u8, EmuError>)
        requires
            old(self).wf(),
            btst_rn_abs_pre(old(self)@, opcode1, opcode2),
        ensures
            final(self).wf(),
            btst_rn_abs_post(old(self)@, final(self)@, opcode1, opcode2, r),
    {
        let abs8_addr = opcode1 as u8;
        let value = match self.read_abs8_b(abs8_addr) {
            Ok(v) => v,
            Err(e) => return Err(e),
        };
        let rn = self.read_rn_b(Cpu::get_nibble_opcode(opcode2, 3).unwrap()).unwrap();
        self.change_ccr(CCR::Z, (value >> rn) & 1 == 0);
        let addr = self.get_addr_abs8(abs8_addr);
        self.bit_mem_states(addr)
    }
}

} // verus!
