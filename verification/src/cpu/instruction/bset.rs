use vstd::prelude::*;

use crate::cpu::addressing_mode::abs::{spec_addr_abs8, store_b};
use crate::cpu::addressing_mode::ern::spec_addr_ern;
use crate::cpu::addressing_mode::rn::{spec_rn_b, spec_set_rn_b};
use crate::cpu::instruction::band::{abs8_byte, ern_byte};
use crate::cpu::instruction::{lemma_byte_masks, nibble};
use crate::cpu::{Cpu, CpuView};
use crate::error::EmuError;

verus! {

/// The number of the bit that the memory forms of `BSET` set: the immediate
/// of nibble 3 of the second word (form 0x70), or the low three bits of the
/// byte register it names (form 0x60).
pub open spec fn bset_mem_bit(v: CpuView, opcode2: u16) -> u8 {
    if opcode2 & 0xff0f == 0x7000 {
        nibble(opcode2, 3) & 7
    } else {
        spec_rn_b(v.er, nibble(opcode2, 3)) & 7
    }
}

/// What a memory form of `BSET` does with the byte read as `load` at `addr`:
/// an opcode of neither form is refused before any access; a read that fails
/// changes nothing; otherwise the byte is stored back with the bit set.
pub open spec fn bset_mem_post(old: CpuView, new: CpuView, opcode: u16, opcode2: u16, load: Result<u8, EmuError>, addr: u32, r: Result<u8, EmuError>) -> bool {
    if opcode2 & 0xff0f != 0x7000 && opcode2 & 0xff0f != 0x6000 {
        new == old && r == Err::<u8, EmuError>(EmuError::InvalidOpcode(opcode))
    } else {
        match load {
            Err(e) => new == old && r == Err::<u8, EmuError>(e),
            Ok(value) => {
                &&& new == (CpuView {
                    mem: store_b(old.mem, addr, value | (1u8 << bset_mem_bit(old, opcode2))).0,
                    ..old
                })
                &&& r == Ok::<u8, EmuError>(8)
            },
        }
    }
}

/// The state after `BSET #xx:3, Rd`, from `old` to `new`, and its result `r`.
pub open spec fn bset_rn_from_imm_post(old: CpuView, new: CpuView, opcode: u16, r: Result<u8, EmuError>) -> bool {
    &&& ({
        let rd = nibble(opcode, 4);
        let value = spec_rn_b(old.er, rd) | (1u8 << (nibble(opcode, 3) & 7));
        new == (CpuView { er: spec_set_rn_b(old.er, rd, value), ..old })
    })
    &&& r == Ok::<u8, EmuError>(2)
}

/// The state after `BSET Rn, Rd`, from `old` to `new`, and its result `r`.
pub open spec fn bset_rn_from_rn_post(old: CpuView, new: CpuView, opcode: u16, r: Result<u8, EmuError>) -> bool {
    &&& ({
        let rd = nibble(opcode, 4);
        let bit = spec_rn_b(old.er, nibble(opcode, 3)) & 7;
        let value = spec_rn_b(old.er, rd) | (1u8 << bit);
        new == (CpuView { er: spec_set_rn_b(old.er, rd, value), ..old })
    })
    &&& r == Ok::<u8, EmuError>(2)
}

/// The state after `BSET #xx:3, @ERd`, from `old` to `new`, and its result `r`.
pub open spec fn bset_ern_post(old: CpuView, new: CpuView, opcode: u16, opcode2: u16, r: Result<u8, EmuError>) -> bool {
    &&& bset_mem_post(
        old,
        new,
        opcode,
        opcode2,
        ern_byte(old, nibble(opcode, 3)),
        spec_addr_ern(old.er, nibble(opcode, 3)),
        r,
    )
}

/// The state after `BSET #xx:3, @aa:8`, from `old` to `new`, and its result `r`.
pub open spec fn bset_abs_post(old: CpuView, new: CpuView, opcode: u16, opcode2: u16, r: Result<u8, EmuError>) -> bool {
    &&& bset_mem_post(
        old,
        new,
        opcode,
        opcode2,
        abs8_byte(old, opcode as u8),
        spec_addr_abs8(opcode as u8),
        r,
    )
}

impl Cpu {
    /// `BSET #xx:3, Rd`: sets bit nibble-3 of the byte register of nibble 4.
    pub fn bset_rn_from_imm(&mut self, opcode: u16) -> (r: Result<u8, EmuError>)
        requires
            old(self).wf(),
        ensures
            final(self).wf(),
            bset_rn_from_imm_post(old(self)@, final(self)@, opcode, r),
    {
        let register = Cpu::get_nibble_opcode(opcode, 4).unwrap();
        let value = self.read_rn_b(register).unwrap();
        let imm = Cpu::get_nibble_opcode(opcode, 3).unwrap() & 7;
        proof {
            lemma_byte_masks(nibble(opcode, 3));
        }
        self.write_rn_b(register, value | (1 << imm)).unwrap();
        Ok(2)
    }

    /// `BSET Rn, Rd`: sets, in the byte register of nibble 4, the bit that the
    /// low three bits of the byte register of nibble 3 number.
    pub fn bset_rn_from_rn(&mut self, opcode: u16) -> (r: Result<u8, EmuError>)
        requires
            old(self).wf(),
        ensures
            final(self).wf(),
            bset_rn_from_rn_post(old(self)@, final(self)@, opcode, r),
    {
        let register_bit = Cpu::get_nibble_opcode(opcode, 3).unwrap();
        let register_value = Cpu::get_nibble_opcode(opcode, 4).unwrap();
        let bit = self.read_rn_b(register_bit).unwrap() & 7;
        proof {
            lemma_byte_masks(spec_rn_b(self@.er, register_bit));
        }
        let value = self.read_rn_b(register_value).unwrap();
        self.write_rn_b(register_value, value | (1 << bit)).unwrap();
        Ok(2)
    }

    /// `BSET #xx:3, @ERd` (second word 0x70_0) or `BSET Rn, @ERd` (0x60_0):
    /// sets a bit of the byte at `@ERd`.
    pub fn bset_ern(&mut self, opcode: u16, opcode2: u16) -> (r: Result<u8, EmuError>)
        requires
            old(self).wf(),
        ensures
            final(self).wf(),
            bset_ern_post(old(self)@, final(self)@, opcode, opcode2, r),
    {
        let kind = opcode2 & 0xff0f;
        if kind == 0x7000 {
            let register = Cpu::get_nibble_opcode(opcode, 3).unwrap();
            let value = match self.read_ern_b(register) {
                Ok(v) => v,
                Err(e) => return Err(e),
            };
            let imm = Cpu::get_nibble_opcode(opcode2, 3).unwrap() & 7;
            proof {
                lemma_byte_masks(nibble(opcode2, 3));
            }
            match self.write_ern_b(register, value | (1 << imm)) {
                Ok(_) => {},
                Err(e) => return Err(e),
            }
        } else if kind == 0x6000 {
            let register_bit = Cpu::get_nibble_opcode(opcode2, 3).unwrap();
            let register_value = Cpu::get_nibble_opcode(opcode, 3).unwrap();
            let bit = self.read_rn_b(register_bit).unwrap() & 7;
            proof {
                lemma_byte_masks(spec_rn_b(self@.er, register_bit));
            }
            let value = match self.read_ern_b(register_value) {
                Ok(v) => v,
                Err(e) => return Err(e),
            };
            match self.write_ern_b(register_value, value | (1 << bit)) {
                Ok(_) => {},
                Err(e) => return Err(e),
            }
        } else {
            return Err(EmuError::InvalidOpcode(opcode));
        }
        Ok(8)
    }

    /// `BSET #xx:3, @aa:8` (second word 0x70_0) or `BSET Rn, @aa:8` (0x60_0):
    /// sets a bit of the byte at the 8-bit absolute address in the low byte
    /// of `opcode`.
    pub fn bset_abs(&mut self, opcode: u16, opcode2: u16) -> (r: Result<u8, EmuError>)
        requires
            old(self).wf(),
        ensures
            final(self).wf(),
            bset_abs_post(old(self)@, final(self)@, opcode, opcode2, r),
    {
        let kind = opcode2 & 0xff0f;
        if kind == 0x7000 {
            let imm = Cpu::get_nibble_opcode(opcode2, 3).unwrap() & 7;
            proof {
                lemma_byte_masks(nibble(opcode2, 3));
            }
            let value = match self.read_abs8_b(opcode as u8) {
                Ok(v) => v,
                Err(e) => return Err(e),
            };
            match self.write_abs8_b(opcode as u8, value | (1 << imm)) {
                Ok(_) => {},
                Err(e) => return Err(e),
            }
        } else if kind == 0x6000 {
            let register = Cpu::get_nibble_opcode(opcode2, 3).unwrap();
            let bit = self.read_rn_b(register).unwrap() & 7;
            proof {
                lemma_byte_masks(spec_rn_b(self@.er, register));
            }
            let value = match self.read_abs8_b(opcode as u8) {
                Ok(v) => v,
                Err(e) => return Err(e),
            };
            match self.write_abs8_b(opcode as u8, value | (1 << bit)) {
                Ok(_) => {},
                Err(e) => return Err(e),
            }
        } else {
            return Err(EmuError::InvalidOpcode(opcode));
        }
        Ok(8)
    }
}

} // verus!
