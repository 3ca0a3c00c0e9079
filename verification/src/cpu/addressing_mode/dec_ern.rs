use vstd::prelude::*;

use crate::cpu::addressing_mode::abs::{load_b, load_l, load_w, store_b, store_l, store_w};
use crate::cpu::{Cpu, CpuView, ADDRESS_MASK};
use crate::error::EmuError;

verus! {

/// The state after a store through an auto-modified register: where the
/// store fails, only what it stored before failing; otherwise the store and
/// ERn set to `new_addr`.
pub open spec fn modified_store(v: CpuView, register_field: u8, new_addr: u32, w: (Map<u32, u8>, Result<(), EmuError>)) -> CpuView {
    if w.1 is Err {
        CpuView { mem: w.0, ..v }
    } else {
        CpuView { mem: w.0, er: v.er.update(register_field as int, new_addr), ..v }
    }
}

/// The state after a load through an auto-modified register: unchanged where
/// the load fails, ERn set to `new_addr` otherwise.
pub open spec fn modified_load<T>(v: CpuView, register_field: u8, new_addr: u32, l: Result<T, EmuError>) -> CpuView {
    if l is Err {
        v
    } else {
        CpuView { er: v.er.update(register_field as int, new_addr), ..v }
    }
}

/// Pushing the long word `value` on the stack (ER7 pre-decremented by 4):
/// the state after the push and its result.
pub open spec fn push_l(v: CpuView, value: u32) -> (CpuView, Result<(), EmuError>) {
    let sp = (v.er[7] - 4) as u32;
    let w = store_l(v.mem, sp & ADDRESS_MASK, value);
    (modified_store(v, 7, sp, w), w.1)
}

impl Cpu {
    /// Pre-decrement: ERn goes down by 1, then the byte `value` is written where it points.
    pub fn write_dec_ern_b(&mut self, register_field: u8, value: u8) -> (r: Result<(), EmuError>)
        requires
            old(self).wf(),
            register_field >= 8 || old(self)@.er[register_field as int] >= 1,
        ensures
            final(self).wf(),
            register_field >= 8 ==> r == Err::<(), EmuError>(EmuError::InvalidRegister(register_field))
                && final(self)@ == old(self)@,
            register_field < 8 ==> ({
                let w = store_b(old(self)@.mem, (((old(self)@.er[register_field as int] - 1) as u32) & ADDRESS_MASK), value);
                &&& final(self)@ == modified_store(old(self)@, register_field, (old(self)@.er[register_field as int] - 1) as u32, w)
                &&& r == w.1
            }),
    {
        let addr = match self.read_rn_l(register_field) {
            Ok(a) => a,
            Err(e) => return Err(e),
        };
        match self.write_abs24_b((addr - 1) & ADDRESS_MASK, value) {
            Ok(_) => {},
            Err(e) => return Err(e),
        }
        self.write_rn_l(register_field, addr - 1)
    }

    /// Pre-decrement: ERn goes down by 1, then the byte where it points is read.
    pub fn read_dec_ern_b(&mut self, register_field: u8) -> (r: Result<u8, EmuError>)
        requires
            old(self).wf(),
            register_field >= 8 || old(self)@.er[register_field as int] >= 1,
        ensures
            final(self).wf(),
            register_field >= 8 ==> r == Err::<u8, EmuError>(EmuError::InvalidRegister(register_field))
                && final(self)@ == old(self)@,
            register_field < 8 ==> ({
                let l = load_b(old(self)@.mem, (((old(self)@.er[register_field as int] - 1) as u32) & ADDRESS_MASK));
                &&& final(self)@ == modified_load(old(self)@, register_field, (old(self)@.er[register_field as int] - 1) as u32, l)
                &&& r == l
            }),
    {
        let addr = match self.read_rn_l(register_field) {
            Ok(a) => a,
            Err(e) => return Err(e),
        };
        let value = match self.read_abs24_b((addr - 1) & ADDRESS_MASK) {
            Ok(v) => v,
            Err(e) => return Err(e),
        };
        match self.write_rn_l(register_field, addr - 1) {
            Ok(_) => Ok(value),
            Err(e) => Err(e),
        }
    }

    /// Pre-decrement: ERn goes down by 2, then the word `value` is written where it points.
    pub fn write_dec_ern_w(&mut self, register_field: u8, value: u16) -> (r: Result<(), EmuError>)
        requires
            old(self).wf(),
            register_field >= 8 || old(self)@.er[register_field as int] >= 2,
        ensures
            final(self).wf(),
            register_field >= 8 ==> r == Err::<(), EmuError>(EmuError::InvalidRegister(register_field))
                && final(self)@ == old(self)@,
            register_field < 8 ==> ({
                let w = store_w(old(self)@.mem, (((old(self)@.er[register_field as int] - 2) as u32) & ADDRESS_MASK), value);
                &&& final(self)@ == modified_store(old(self)@, register_field, (old(self)@.er[register_field as int] - 2) as u32, w)
                &&& r == w.1
            }),
    {
        let addr = match self.read_rn_l(register_field) {
            Ok(a) => a,
            Err(e) => return Err(e),
        };
        match self.write_abs24_w((addr - 2) & ADDRESS_MASK, value) {
            Ok(_) => {},
            Err(e) => return Err(e),
        }
        self.write_rn_l(register_field, addr - 2)
    }

    /// Pre-decrement: ERn goes down by 2, then the word where it points is read.
    pub fn read_dec_ern_w(&mut self, register_field: u8) -> (r: Result<u16, EmuError>)
        requires
            old(self).wf(),
            register_field >= 8 || old(self)@.er[register_field as int] >= 2,
        ensures
            final(self).wf(),
            register_field >= 8 ==> r == Err::<u16, EmuError>(EmuError::InvalidRegister(register_field))
                && final(self)@ == old(self)@,
            register_field < 8 ==> ({
                let l = load_w(old(self)@.mem, (((old(self)@.er[register_field as int] - 2) as u32) & ADDRESS_MASK));
                &&& final(self)@ == modified_load(old(self)@, register_field, (old(self)@.er[register_field as int] - 2) as u32, l)
                &&& r == l
            }),
    {
        let addr = match self.read_rn_l(register_field) {
            Ok(a) => a,
            Err(e) => return Err(e),
        };
        let value = match self.read_abs24_w((addr - 2) & ADDRESS_MASK) {
            Ok(v) => v,
            Err(e) => return Err(e),
        };
        match self.write_rn_l(register_field, addr - 2) {
            Ok(_) => Ok(value),
            Err(e) => Err(e),
        }
    }

    /// Pre-decrement: ERn goes down by 4, then the long word `value` is written where it points.
    pub fn write_dec_ern_l(&mut self, register_field: u8, value: u32) -> (r: Result<(), EmuError>)
        requires
            old(self).wf(),
            register_field >= 8 || old(self)@.er[register_field as int] >= 4,
        ensures
            final(self).wf(),
            register_field >= 8 ==> r == Err::<(), EmuError>(EmuError::InvalidRegister(register_field))
                && final(self)@ == old(self)@,
            register_field < 8 ==> ({
                let w = store_l(old(self)@.mem, (((old(self)@.er[register_field as int] - 4) as u32) & ADDRESS_MASK), value);
                &&& final(self)@ == modified_store(old(self)@, register_field, (old(self)@.er[register_field as int] - 4) as u32, w)
                &&& r == w.1
            }),
    {
        let addr = match self.read_rn_l(register_field) {
            Ok(a) => a,
            Err(e) => return Err(e),
        };
        match self.write_abs24_l((addr - 4) & ADDRESS_MASK, value) {
            Ok(_) => {},
            Err(e) => return Err(e),
        }
        self.write_rn_l(register_field, addr - 4)
    }

    /// Pre-decrement: ERn goes down by 4, then the long word where it points is read.
    pub fn read_dec_ern_l(&mut self, register_field: u8) -> (r: Result<u32, EmuError>)
        requires
            old(self).wf(),
            register_field >= 8 || old(self)@.er[register_field as int] >= 4,
        ensures
            final(self).wf(),
            register_field >= 8 ==> r == Err::<u32, EmuError>(EmuError::InvalidRegister(register_field))
                && final(self)@ == old(self)@,
            register_field < 8 ==> ({
                let l = load_l(old(self)@.mem, (((old(self)@.er[register_field as int] - 4) as u32) & ADDRESS_MASK));
                &&& final(self)@ == modified_load(old(self)@, register_field, (old(self)@.er[register_field as int] - 4) as u32, l)
                &&& r == l
            }),
    {
        let addr = match self.read_rn_l(register_field) {
            Ok(a) => a,
            Err(e) => return Err(e),
        };
        let value = match self.read_abs24_l((addr - 4) & ADDRESS_MASK) {
            Ok(v) => v,
            Err(e) => return Err(e),
        };
        match self.write_rn_l(register_field, addr - 4) {
            Ok(_) => Ok(value),
            Err(e) => Err(e),
        }
    }
}

} // verus!
