use vstd::prelude::*;

use crate::cpu::addressing_mode::abs::{spec_addr_abs8, store_b};
use crate::cpu::addressing_mode::ern::spec_addr_ern;
use crate::cpu::addressing_mode::rn::{spec_rn_b, spec_set_rn_b};
use crate::cpu::instruction::band::{abs8_byte, ern_byte};
use crate::cpu::instruction::{lemma_byte_masks, nibble};
use crate::cpu::{flag_of, Cpu, CpuView, CCR};
use crate::error::EmuError;

verus! {

/// The byte that `BIST` stores: `value` with bit `imm` replaced by the
/// complement of C, set where C is clear and cleared where C is set.
pub open spec fn bist_value(ccr: u8, value: u8, imm: u8) -> u8 {
    if flag_of(ccr, CCR::C.spec_bit()) == 0 {
        value | (1u8 << imm)
    } else {
        value & !(1u8 << imm)
    }
}

/// The state after `BIST #xx:3, Rd`, from `old` to `new`, and its result `r`.
pub open spec fn bist_rn_post(old: CpuView, new: CpuView, opcode: u16, r: Result<u8, EmuError>) -> bool {
    &&& ({
        let rd = nibble(opcode, 4);
        let value = bist_value(old.ccr, spec_rn_b(old.er, rd), nibble(opcode, 3) & 7);
        new == (CpuView { er: spec_set_rn_b(old.er, rd, value), ..old })
    })
    &&& r == Ok::<u8, EmuError>(2)
}

/// The state after `BIST #xx:3, @ERd`, from `old` to `new`, and its result `r`.
pub open spec fn bist_ern_post(old: CpuView, new: CpuView, opcode: u16, opcode2: u16, r: Result<u8, EmuError>) -> bool {
    &&& ({
        let reg = nibble(opcode, 3);
        match ern_byte(old, reg) {
            Err(e) => new == old && r == Err::<u8, EmuError>(e),
            Ok(value) => {
                let b = bist_value(old.ccr, value, nibble(opcode2, 3) & 7);
                &&& new == (CpuView {
                    mem: store_b(old.mem, spec_addr_ern(old.er, reg), b).0,
                    ..old
                })
                &&& r == Ok::<u8, EmuError>(8)
            },
        }
    })
}

/// The state after `BIST #xx:3, @aa:8`, from `old` to `new`, and its result `r`.
pub open spec fn bist_abs_post(old: CpuView, new: CpuView, opcode: u16, opcode2: u16, r: Result<u8, EmuError>) -> bool {
    &&& ({
        match abs8_byte(old, opcode as u8) {
            Err(e) => new == old && r == Err::<u8, EmuError>(e),
            Ok(value) => {
                let b = bist_value(old.ccr, value, nibble(opcode2, 3) & 7);
                &&& new == (CpuView {
                    mem: store_b(old.mem, spec_addr_abs8(opcode as u8), b).0,
                    ..old
                })
                &&& r == Ok::<u8, EmuError>(8)
            },
        }
    })
}

impl Cpu {
    fn bist_proc(&self, value: u8, imm: u8) -> (r: u8)
        requires
            imm < 8,
        ensures
            r == bist_value(self.ccr, value, imm),
    {
        let c = self.read_ccr(CCR::C);
        if c == 0 {
            value | (1u8 << imm)
        } else {
            value & !(1u8 << imm)
        }
    }

    /// `BIST #xx:3, Rd`: in the byte register of nibble 4, stores the complement
    /// of C into bit nibble-3.
    pub fn bist_rn(&mut self, opcode: u16) -> (r: Result<u8, EmuError>)
        requires
            old(self).wf(),
        ensures
            final(self).wf(),
            bist_rn_post(old(self)@, final(self)@, opcode, r),
    {
        let register = Cpu::get_nibble_opcode(opcode, 4).unwrap();
        let value = self.read_rn_b(register).unwrap();
        let imm = Cpu::get_nibble_opcode(opcode, 3).unwrap() & 7;
        proof {
            lemma_byte_masks(nibble(opcode, 3));
        }
        let result = self.bist_proc(value, imm);
        self.write_rn_b(register, result).unwrap();
        Ok(2)
    }

    /// `BIST #xx:3, @ERd`: stores the complement of C into a bit of
    /// the byte at `@ERd`.
    pub fn bist_ern(&mut self, opcode: u16, opcode2: u16) -> (r: Result<u8, EmuError>)
        requires
            old(self).wf(),
        ensures
            final(self).wf(),
            bist_ern_post(old(self)@, final(self)@, opcode, opcode2, r),
    {
        let register = Cpu::get_nibble_opcode(opcode, 3).unwrap();
        let value = match self.read_ern_b(register) {
            Ok(v) => v,
            Err(e) => return Err(e),
        };
        let imm = Cpu::get_nibble_opcode(opcode2, 3).unwrap() & 7;
        proof {
            lemma_byte_masks(nibble(opcode2, 3));
        }
        let result = self.bist_proc(value, imm);
        match self.write_ern_b(register, result) {
            Ok(_) => {},
            Err(e) => return Err(e),
        }
        Ok(8)
    }

    /// `BIST #xx:3, @aa:8`: in the byte at the 8-bit absolute address in the
    /// low byte of `opcode`, stores the complement of C into a bit.
    pub fn bist_abs(&mut self, opcode: u16, opcode2: u16) -> (r: Result<u8, EmuError>)
        requires
            old(self).wf(),
        ensures
            final(self).wf(),
            bist_abs_post(old(self)@, final(self)@, opcode, opcode2, r),
    {
        let imm = Cpu::get_nibble_opcode(opcode2, 3).unwrap() & 7;
        proof {
            lemma_byte_masks(nibble(opcode2, 3));
        }
        let value = match self.read_abs8_b(opcode as u8) {
            Ok(v) => v,
            Err(e) => return Err(e),
        };
        let result = self.bist_proc(value, imm);
        match self.write_abs8_b(opcode as u8, result) {
            Ok(_) => {},
            Err(e) => return Err(e),
        }
        Ok(8)
    }
}

} // verus!
