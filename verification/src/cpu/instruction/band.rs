use vstd::prelude::*;

use crate::cpu::addressing_mode::abs::{load_b, spec_addr_abs8};
use crate::cpu::addressing_mode::disp::load_b_at;
use crate::cpu::addressing_mode::ern::addr_ern_result;
use crate::cpu::addressing_mode::rn::spec_rn_b;
use crate::cpu::instruction::{lemma_byte_masks, nibble};
use crate::cpu::{flag_of, with_flag, Cpu, CpuView, CCR};
use crate::error::EmuError;

verus! {

/// The byte at `@ERn` for register field `reg`, or why it cannot be read.
pub open spec fn ern_byte(v: CpuView, reg: u8) -> Result<u8, EmuError> {
    load_b_at(v.mem, addr_ern_result(v.er, reg))
}

/// The byte at the 8-bit absolute address `addr`, or why it cannot be read.
pub open spec fn abs8_byte(v: CpuView, addr: u8) -> Result<u8, EmuError> {
    load_b(v.mem, spec_addr_abs8(addr))
}

/// `v` with C set to C AND bit `imm` of `value`.
pub open spec fn band_state(v: CpuView, value: u8, imm: u8) -> CpuView {
    CpuView { ccr: with_flag(v.ccr, CCR::C.spec_bit(), ((value >> imm) & flag_of(v.ccr, CCR::C.spec_bit())) == 1), ..v }
}

/// After a bit operation on the byte read as `load`: unchanged with its
/// error where it could not be read, `f(value)` with `states` otherwise.
pub open spec fn on_byte(v: CpuView, load: Result<u8, EmuError>, next: CpuView, states: u8) -> (CpuView, Result<u8, EmuError>) {
    match load {
        Err(e) => (v, Err(e)),
        Ok(_) => (next, Ok(states)),
    }
}

/// The state after `BAND #xx:3, Rd`, from `old` to `new`, and its result `r`.
pub open spec fn band_rn_post(old: CpuView, new: CpuView, opcode: u16, r: Result<u8, EmuError>) -> bool {
    &&& new == band_state(old, spec_rn_b(old.er, nibble(opcode, 4)), nibble(opcode, 3) & 7)
    &&& r == Ok::<u8, EmuError>(2)
}

/// The state after `BAND #xx:3, @ERd`, from `old` to `new`, and its result `r`.
pub open spec fn band_ern_post(old: CpuView, new: CpuView, opcode: u16, opcode2: u16, r: Result<u8, EmuError>) -> bool {
    &&& ({
        let load = ern_byte(old, nibble(opcode, 3));
        (new, r) == on_byte(old, load, band_state(old, load->Ok_0, nibble(opcode2, 3) & 7), 6)
    })
}

/// The state after `BAND #xx:3, @aa:8`, from `old` to `new`, and its result `r`.
pub open spec fn band_abs_post(old: CpuView, new: CpuView, opcode: u16, opcode2: u16, r: Result<u8, EmuError>) -> bool {
    &&& ({
        let load = abs8_byte(old, opcode as u8);
        (new, r) == on_byte(old, load, band_state(old, load->Ok_0, nibble(opcode2, 3) & 7), 6)
    })
}

impl Cpu {
    /// Sets C to C AND bit `imm` of `value`.
    fn band_proc(&mut self, value: u8, imm: u8)
        requires
            imm < 8,
        ensures
            final(self)@ == band_state(old(self)@, value, imm),
            final(self).bus == old(self).bus,
    {
        let c = self.read_ccr(CCR::C);
        let bit = (value >> imm) & c;
        assert(bit <= 1) by (bit_vector)
            requires
                bit == (value >> imm) & c,
                c <= 1,
        ;
        self.write_ccr(CCR::C, bit);
    }

    /// `BAND #xx:3, Rd`: C becomes C AND bit nibble-3 of the byte register of nibble 4.
    pub fn band_rn(&mut self, opcode: u16) -> (r: Result<u8, EmuError>)
        requires
            old(self).wf(),
        ensures
            final(self).wf(),
            band_rn_post(old(self)@, final(self)@, opcode, r),
    {
        let register = Cpu::get_nibble_opcode(opcode, 4).unwrap();
        let value = self.read_rn_b(register).unwrap();
        let imm = Cpu::get_nibble_opcode(opcode, 3).unwrap() & 7;
        proof {
            lemma_byte_masks(nibble(opcode, 3));
        }
        self.band_proc(value, imm);
        Ok(2)
    }

    /// `BAND #xx:3, @ERd`: C becomes C AND a bit of the byte at `@ERd`.
    pub fn band_ern(&mut self, opcode: u16, opcode2: u16) -> (r: Result<u8, EmuError>)
        requires
            old(self).wf(),
        ensures
            final(self).wf(),
            band_ern_post(old(self)@, final(self)@, opcode, opcode2, r),
    {
        let register = Cpu::get_nibble_opcode(opcode, 3).unwrap();
        let value = match self.read_ern_b(register) {
            Ok(v) => v,
            Err(e) => return Err(e),
        };
        let imm = Cpu::get_nibble_opcode(opcode2, 3).unwrap() & 7;
        proof {
            lemma_byte_masks(nibble(opcode2, 3));
        }
        self.band_proc(value, imm);
        Ok(6)
    }

    /// `BAND #xx:3, @aa:8`: C becomes C AND a bit of the byte at the 8-bit
    /// absolute address in the low byte of `opcode`.
    pub fn band_abs(&mut self, opcode: u16, opcode2: u16) -> (r: Result<u8, EmuError>)
        requires
            old(self).wf(),
        ensures
            final(self).wf(),
            band_abs_post(old(self)@, final(self)@, opcode, opcode2, r),
    {
        let imm = Cpu::get_nibble_opcode(opcode2, 3).unwrap() & 7;
        proof {
            lemma_byte_masks(nibble(opcode2, 3));
        }
        let value = match self.read_abs8_b(opcode as u8) {
            Ok(v) => v,
            Err(e) => return Err(e),
        };
        self.band_proc(value, imm);
        Ok(6)
    }
}

} // verus!
