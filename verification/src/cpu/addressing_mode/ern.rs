use vstd::prelude::*;

use crate::cpu::addressing_mode::abs::{load_b, load_l, load_w, store_b, store_l, store_w};
use crate::cpu::{Cpu, CpuView, ADDRESS_MASK};
use crate::error::EmuError;

verus! {

/// The address that register indirect `@ERn` designates: the low 24 bits of ERn.
pub open spec fn spec_addr_ern(er: Seq<u32>, register_field: u8) -> u32 {
    er[register_field as int] & ADDRESS_MASK
}

/// The address of `@ERn`, or the error of a register field beyond ER7.
pub open spec fn addr_ern_result(er: Seq<u32>, register_field: u8) -> Result<u32, EmuError> {
    if register_field < 8 {
        Ok(spec_addr_ern(er, register_field))
    } else {
        Err(EmuError::InvalidRegister(register_field))
    }
}

impl Cpu {
    pub fn get_addr_ern(&self, register_field: u8) -> (r: Result<u32, EmuError>)
        ensures
            r == addr_ern_result(self@.er, register_field),
    {
        match self.read_rn_l(register_field) {
            Ok(addr) => Ok(addr & ADDRESS_MASK),
            Err(e) => Err(e),
        }
    }

    /// Writes the byte `value` at `@ERn`.
    pub fn write_ern_b(&mut self, register_field: u8, value: u8) -> (r: Result<(), EmuError>)
        requires
            old(self).wf(),
        ensures
            final(self).wf(),
            register_field >= 8 ==> r == Err::<(), EmuError>(EmuError::InvalidRegister(register_field))
                && final(self)@ == old(self)@,
            register_field < 8 ==> ({
                let a = spec_addr_ern(old(self)@.er, register_field);
                &&& final(self)@ == (CpuView { mem: store_b(old(self)@.mem, a, value).0, ..old(self)@ })
                &&& r == store_b(old(self)@.mem, a, value).1
            }),
    {
        let addr = match self.get_addr_ern(register_field) {
            Ok(a) => a,
            Err(e) => return Err(e),
        };
        self.write_abs24_b(addr, value)
    }

    /// Reads the byte at `@ERn`.
    pub fn read_ern_b(&self, register_field: u8) -> (r: Result<u8, EmuError>)
        requires
            self.wf(),
        ensures
            register_field >= 8 ==> r == Err::<u8, EmuError>(EmuError::InvalidRegister(register_field)),
            register_field < 8 ==> r == load_b(self@.mem, spec_addr_ern(self@.er, register_field)),
    {
        let addr = match self.get_addr_ern(register_field) {
            Ok(a) => a,
            Err(e) => return Err(e),
        };
        self.read_abs24_b(addr)
    }

    /// Writes the word `value` at `@ERn`.
    pub fn write_ern_w(&mut self, register_field: u8, value: u16) -> (r: Result<(), EmuError>)
        requires
            old(self).wf(),
        ensures
            final(self).wf(),
            register_field >= 8 ==> r == Err::<(), EmuError>(EmuError::InvalidRegister(register_field))
                && final(self)@ == old(self)@,
            register_field < 8 ==> ({
                let a = spec_addr_ern(old(self)@.er, register_field);
                &&& final(self)@ == (CpuView { mem: store_w(old(self)@.mem, a, value).0, ..old(self)@ })
                &&& r == store_w(old(self)@.mem, a, value).1
            }),
    {
        let addr = match self.get_addr_ern(register_field) {
            Ok(a) => a,
            Err(e) => return Err(e),
        };
        self.write_abs24_w(addr, value)
    }

    /// Reads the word at `@ERn`.
    pub fn read_ern_w(&self, register_field: u8) -> (r: Result<u16, EmuError>)
        requires
            self.wf(),
        ensures
            register_field >= 8 ==> r == Err::<u16, EmuError>(EmuError::InvalidRegister(register_field)),
            register_field < 8 ==> r == load_w(self@.mem, spec_addr_ern(self@.er, register_field)),
    {
        let addr = match self.get_addr_ern(register_field) {
            Ok(a) => a,
            Err(e) => return Err(e),
        };
        self.read_abs24_w(addr)
    }

    /// Writes the long word `value` at `@ERn`.
    pub fn write_ern_l(&mut self, register_field: u8, value: u32) -> (r: Result<(), EmuError>)
        requires
            old(self).wf(),
        ensures
            final(self).wf(),
            register_field >= 8 ==> r == Err::<(), EmuError>(EmuError::InvalidRegister(register_field))
                && final(self)@ == old(self)@,
            register_field < 8 ==> ({
                let a = spec_addr_ern(old(self)@.er, register_field);
                &&& final(self)@ == (CpuView { mem: store_l(old(self)@.mem, a, value).0, ..old(self)@ })
                &&& r == store_l(old(self)@.mem, a, value).1
            }),
    {
        let addr = match self.get_addr_ern(register_field) {
            Ok(a) => a,
            Err(e) => return Err(e),
        };
        self.write_abs24_l(addr, value)
    }

    /// Reads the long word at `@ERn`.
    pub fn read_ern_l(&self, register_field: u8) -> (r: Result<u32, EmuError>)
        requires
            self.wf(),
        ensures
            register_field >= 8 ==> r == Err::<u32, EmuError>(EmuError::InvalidRegister(register_field)),
            register_field < 8 ==> r == load_l(self@.mem, spec_addr_ern(self@.er, register_field)),
    {
        let addr = match self.get_addr_ern(register_field) {
            Ok(a) => a,
            Err(e) => return Err(e),
        };
        self.read_abs24_l(addr)
    }
}

} // verus!
