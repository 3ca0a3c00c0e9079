use vstd::prelude::*;

use crate::cpu::addressing_mode::abs::{load_b, load_l, load_w, store_b, store_l, store_w};
use crate::cpu::{Cpu, CpuView, ADDRESS_MASK};
use crate::cpu::addressing_mode::dec_ern::{modified_load, modified_store};
use crate::error::EmuError;

verus! {

/// Popping a long word off the stack (ER7 post-incremented by 4): the state
/// after the pop and the word popped.
pub open spec fn pop_l(v: CpuView) -> (CpuView, Result<u32, EmuError>) {
    let l = load_l(v.mem, v.er[7] & ADDRESS_MASK);
    (modified_load(v, 7, (v.er[7] + 4) as u32, l), l)
}

impl Cpu {
    /// Post-increment: the byte `value` is written where ERn points, then ERn goes up by 1.
    pub fn write_inc_ern_b(&mut self, register_field: u8, value: u8) -> (r: Result<(), EmuError>)
        requires
            old(self).wf(),
            register_field >= 8 || old(self)@.er[register_field as int] + 1 <= u32::MAX,
        ensures
            final(self).wf(),
            register_field >= 8 ==> r == Err::<(), EmuError>(EmuError::InvalidRegister(register_field))
                && final(self)@ == old(self)@,
            register_field < 8 ==> ({
                let w = store_b(old(self)@.mem, (old(self)@.er[register_field as int] & ADDRESS_MASK), value);
                &&& final(self)@ == modified_store(old(self)@, register_field, (old(self)@.er[register_field as int] + 1) as u32, w)
                &&& r == w.1
            }),
    {
        let addr = match self.read_rn_l(register_field) {
            Ok(a) => a,
            Err(e) => return Err(e),
        };
        match self.write_abs24_b(addr & ADDRESS_MASK, value) {
            Ok(_) => {},
            Err(e) => return Err(e),
        }
        self.write_rn_l(register_field, addr + 1)
    }

    /// Post-increment: the byte where ERn points is read, then ERn goes up by 1.
    pub fn read_inc_ern_b(&mut self, register_field: u8) -> (r: Result<u8, EmuError>)
        requires
            old(self).wf(),
            register_field >= 8 || old(self)@.er[register_field as int] + 1 <= u32::MAX,
        ensures
            final(self).wf(),
            register_field >= 8 ==> r == Err::<u8, EmuError>(EmuError::InvalidRegister(register_field))
                && final(self)@ == old(self)@,
            register_field < 8 ==> ({
                let l = load_b(old(self)@.mem, (old(self)@.er[register_field as int] & ADDRESS_MASK));
                &&& final(self)@ == modified_load(old(self)@, register_field, (old(self)@.er[register_field as int] + 1) as u32, l)
                &&& r == l
            }),
    {
        let addr = match self.read_rn_l(register_field) {
            Ok(a) => a,
            Err(e) => return Err(e),
        };
        let value = match self.read_abs24_b(addr & ADDRESS_MASK) {
            Ok(v) => v,
            Err(e) => return Err(e),
        };
        match self.write_rn_l(register_field, addr + 1) {
            Ok(_) => Ok(value),
            Err(e) => Err(e),
        }
    }

    /// Post-increment: the word `value` is written where ERn points, then ERn goes up by 2.
    pub fn write_inc_ern_w(&mut self, register_field: u8, value: u16) -> (r: Result<(), EmuError>)
        requires
            old(self).wf(),
            register_field >= 8 || old(self)@.er[register_field as int] + 2 <= u32::MAX,
        ensures
            final(self).wf(),
            register_field >= 8 ==> r == Err::<(), EmuError>(EmuError::InvalidRegister(register_field))
                && final(self)@ == old(self)@,
            register_field < 8 ==> ({
                let w = store_w(old(self)@.mem, (old(self)@.er[register_field as int] & ADDRESS_MASK), value);
                &&& final(self)@ == modified_store(old(self)@, register_field, (old(self)@.er[register_field as int] + 2) as u32, w)
                &&& r == w.1
            }),
    {
        let addr = match self.read_rn_l(register_field) {
            Ok(a) => a,
            Err(e) => return Err(e),
        };
        match self.write_abs24_w(addr & ADDRESS_MASK, value) {
            Ok(_) => {},
            Err(e) => return Err(e),
        }
        self.write_rn_l(register_field, addr + 2)
    }

    /// Post-increment: the word where ERn points is read, then ERn goes up by 2.
    pub fn read_inc_ern_w(&mut self, register_field: u8) -> (r: Result<u16, EmuError>)
        requires
            old(self).wf(),
            register_field >= 8 || old(self)@.er[register_field as int] + 2 <= u32::MAX,
        ensures
            final(self).wf(),
            register_field >= 8 ==> r == Err::<u16, EmuError>(EmuError::InvalidRegister(register_field))
                && final(self)@ == old(self)@,
            register_field < 8 ==> ({
                let l = load_w(old(self)@.mem, (old(self)@.er[register_field as int] & ADDRESS_MASK));
                &&& final(self)@ == modified_load(old(self)@, register_field, (old(self)@.er[register_field as int] + 2) as u32, l)
                &&& r == l
            }),
    {
        let addr = match self.read_rn_l(register_field) {
            Ok(a) => a,
            Err(e) => return Err(e),
        };
        let value = match self.read_abs24_w(addr & ADDRESS_MASK) {
            Ok(v) => v,
            Err(e) => return Err(e),
        };
        match self.write_rn_l(register_field, addr + 2) {
            Ok(_) => Ok(value),
            Err(e) => Err(e),
        }
    }

    /// Post-increment: the long word `value` is written where ERn points, then ERn goes up by 4.
    pub fn write_inc_ern_l(&mut self, register_field: u8, value: u32) -> (r: Result<(), EmuError>)
        requires
            old(self).wf(),
            register_field >= 8 || old(self)@.er[register_field as int] + 4 <= u32::MAX,
        ensures
            final(self).wf(),
            register_field >= 8 ==> r == Err::<(), EmuError>(EmuError::InvalidRegister(register_field))
                && final(self)@ == old(self)@,
            register_field < 8 ==> ({
                let w = store_l(old(self)@.mem, (old(self)@.er[register_field as int] & ADDRESS_MASK), value);
                &&& final(self)@ == modified_store(old(self)@, register_field, (old(self)@.er[register_field as int] + 4) as u32, w)
                &&& r == w.1
            }),
    {
        let addr = match self.read_rn_l(register_field) {
            Ok(a) => a,
            Err(e) => return Err(e),
        };
        match self.write_abs24_l(addr & ADDRESS_MASK, value) {
            Ok(_) => {},
            Err(e) => return Err(e),
        }
        self.write_rn_l(register_field, addr + 4)
    }

    /// Post-increment: the long word where ERn points is read, then ERn goes up by 4.
    pub fn read_inc_ern_l(&mut self, register_field: u8) -> (r: Result<u32, EmuError>)
        requires
            old(self).wf(),
            register_field >= 8 || old(self)@.er[register_field as int] + 4 <= u32::MAX,
        ensures
            final(self).wf(),
            register_field >= 8 ==> r == Err::<u32, EmuError>(EmuError::InvalidRegister(register_field))
                && final(self)@ == old(self)@,
            register_field < 8 ==> ({
                let l = load_l(old(self)@.mem, (old(self)@.er[register_field as int] & ADDRESS_MASK));
                &&& final(self)@ == modified_load(old(self)@, register_field, (old(self)@.er[register_field as int] + 4) as u32, l)
                &&& r == l
            }),
    {
        let addr = match self.read_rn_l(register_field) {
            Ok(a) => a,
            Err(e) => return Err(e),
        };
        let value = match self.read_abs24_l(addr & ADDRESS_MASK) {
            Ok(v) => v,
            Err(e) => return Err(e),
        };
        match self.write_rn_l(register_field, addr + 4) {
            Ok(_) => Ok(value),
            Err(e) => Err(e),
        }
    }
}

} // verus!
