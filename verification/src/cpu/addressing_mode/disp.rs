use vstd::prelude::*;

use crate::cpu::addressing_mode::abs::{load_b, load_l, load_w, store_b, store_l, store_w};
use crate::cpu::{Cpu, CpuView, ADDRESS_MASK};
use crate::error::EmuError;

verus! {

/// The signed value of a 16-bit displacement.
pub open spec fn sext16(disp: u16) -> int {
    if disp < 0x8000 {
        disp as int
    } else {
        disp - 0x10000
    }
}

/// The address that `@(d:16, ERn)` designates: ERn plus the sign-extended
/// displacement, cut to 24 bits; the sum must not leave the 32-bit range.
pub open spec fn addr_disp16_result(er: Seq<u32>, register_field: u8, disp: u16) -> Result<u32, EmuError> {
    if register_field >= 8 {
        Err(EmuError::InvalidRegister(register_field))
    } else {
        let s = er[register_field as int] + sext16(disp);
        if s < 0 || s > u32::MAX {
            Err(EmuError::AddressOverflow)
        } else {
            Ok((s as u32) & ADDRESS_MASK)
        }
    }
}

/// The inputs on which forming `@(d:24, ERn)` stays within the 32-bit
/// arithmetic in which it is computed.
pub open spec fn disp24_in_range(er: Seq<u32>, register_field: u8, disp: u32) -> bool {
    register_field >= 8 || if disp & 0x800000 == 0 {
        er[register_field as int] + disp <= u32::MAX
    } else {
        disp <= 0xffffff
    }
}

/// The address that `@(d:24, ERn)` designates: ERn plus the 24-bit
/// displacement sign-extended by its bit 23, cut to 24 bits.
pub open spec fn addr_disp24_result(er: Seq<u32>, register_field: u8, disp: u32) -> Result<u32, EmuError> {
    if register_field >= 8 {
        Err(EmuError::InvalidRegister(register_field))
    } else if disp & 0x800000 == 0 {
        Ok(((er[register_field as int] + disp) as u32) & ADDRESS_MASK)
    } else {
        let s = er[register_field as int] + disp - 0x1000000;
        if s < 0 {
            Err(EmuError::AddressOverflow)
        } else {
            Ok((s as u32) & ADDRESS_MASK)
        }
    }
}

/// What reading through an effective address gives: the address's error, or the read.
pub open spec fn load_b_at(mem: Map<u32, u8>, addr: Result<u32, EmuError>) -> Result<u8, EmuError> {
    match addr {
        Ok(a) => load_b(mem, a),
        Err(e) => Err(e),
    }
}

pub open spec fn load_w_at(mem: Map<u32, u8>, addr: Result<u32, EmuError>) -> Result<u16, EmuError> {
    match addr {
        Ok(a) => load_w(mem, a),
        Err(e) => Err(e),
    }
}

pub open spec fn load_l_at(mem: Map<u32, u8>, addr: Result<u32, EmuError>) -> Result<u32, EmuError> {
    match addr {
        Ok(a) => load_l(mem, a),
        Err(e) => Err(e),
    }
}

/// What writing through an effective address does: nothing where the
/// address cannot be formed, the store otherwise.
pub open spec fn store_b_at(mem: Map<u32, u8>, addr: Result<u32, EmuError>, v: u8) -> (Map<u32, u8>, Result<(), EmuError>) {
    match addr {
        Ok(a) => store_b(mem, a, v),
        Err(e) => (mem, Err(e)),
    }
}

pub open spec fn store_w_at(mem: Map<u32, u8>, addr: Result<u32, EmuError>, v: u16) -> (Map<u32, u8>, Result<(), EmuError>) {
    match addr {
        Ok(a) => store_w(mem, a, v),
        Err(e) => (mem, Err(e)),
    }
}

pub open spec fn store_l_at(mem: Map<u32, u8>, addr: Result<u32, EmuError>, v: u32) -> (Map<u32, u8>, Result<(), EmuError>) {
    match addr {
        Ok(a) => store_l(mem, a, v),
        Err(e) => (mem, Err(e)),
    }
}

impl Cpu {
    pub fn get_addr_disp16(&self, register_field: u8, disp: u16) -> (r: Result<u32, EmuError>)
        ensures
            r == addr_disp16_result(self@.er, register_field, disp),
    {
        let addr = match self.read_rn_l(register_field) {
            Ok(a) => a,
            Err(e) => return Err(e),
        };
        let signed: i32 = if disp & 0x8000 == 0 {
            disp as i32
        } else {
            disp as i32 - 0x10000
        };
        assert(signed == sext16(disp)) by (bit_vector)
            requires
                signed == (if disp & 0x8000 == 0 { disp as i32 } else { (disp as i32 - 0x10000) as i32 }),
        ;
        match addr.checked_add_signed(signed) {
            Some(s) => Ok(s & ADDRESS_MASK),
            None => Err(EmuError::AddressOverflow),
        }
    }

    pub fn get_addr_disp24(&self, register_field: u8, disp: u32) -> (r: Result<u32, EmuError>)
        requires
            disp24_in_range(self@.er, register_field, disp),
        ensures
            r == addr_disp24_result(self@.er, register_field, disp),
    {
        let addr = match self.read_rn_l(register_field) {
            Ok(a) => a,
            Err(e) => return Err(e),
        };
        if disp & 0x800000 == 0x000000 {
            Ok((addr + disp) & ADDRESS_MASK)
        } else {
            let signed: i32 = disp as i32 - 0x1000000;
            match addr.checked_add_signed(signed) {
                Some(s) => Ok(s & ADDRESS_MASK),
                None => Err(EmuError::AddressOverflow),
            }
        }
    }

    /// Writes the byte `value` at `@(d:16, ERn)`.
    pub fn write_disp16_ern_b(&mut self, register_field: u8, disp: u16, value: u8) -> (r: Result<(), EmuError>)
        requires
            old(self).wf(),
        ensures
            final(self).wf(),
            ({
                let w = store_b_at(old(self)@.mem, addr_disp16_result(old(self)@.er, register_field, disp), value);
                final(self)@ == (CpuView { mem: w.0, ..old(self)@ }) && r == w.1
            }),
    {
        let addr = match self.get_addr_disp16(register_field, disp) {
            Ok(a) => a,
            Err(e) => return Err(e),
        };
        self.write_abs24_b(addr, value)
    }

    /// Reads the byte at `@(d:16, ERn)`.
    pub fn read_disp16_ern_b(&self, register_field: u8, disp: u16) -> (r: Result<u8, EmuError>)
        requires
            self.wf(),
        ensures
            r == load_b_at(self@.mem, addr_disp16_result(self@.er, register_field, disp)),
    {
        let addr = match self.get_addr_disp16(register_field, disp) {
            Ok(a) => a,
            Err(e) => return Err(e),
        };
        self.read_abs24_b(addr)
    }

    /// Writes the word `value` at `@(d:16, ERn)`.
    pub fn write_disp16_ern_w(&mut self, register_field: u8, disp: u16, value: u16) -> (r: Result<(), EmuError>)
        requires
            old(self).wf(),
        ensures
            final(self).wf(),
            ({
                let w = store_w_at(old(self)@.mem, addr_disp16_result(old(self)@.er, register_field, disp), value);
                final(self)@ == (CpuView { mem: w.0, ..old(self)@ }) && r == w.1
            }),
    {
        let addr = match self.get_addr_disp16(register_field, disp) {
            Ok(a) => a,
            Err(e) => return Err(e),
        };
        self.write_abs24_w(addr, value)
    }

    /// Reads the word at `@(d:16, ERn)`.
    pub fn read_disp16_ern_w(&self, register_field: u8, disp: u16) -> (r: Result<u16, EmuError>)
        requires
            self.wf(),
        ensures
            r == load_w_at(self@.mem, addr_disp16_result(self@.er, register_field, disp)),
    {
        let addr = match self.get_addr_disp16(register_field, disp) {
            Ok(a) => a,
            Err(e) => return Err(e),
        };
        self.read_abs24_w(addr)
    }

    /// Writes the long word `value` at `@(d:16, ERn)`.
    pub fn write_disp16_ern_l(&mut self, register_field: u8, disp: u16, value: u32) -> (r: Result<(), EmuError>)
        requires
            old(self).wf(),
        ensures
            final(self).wf(),
            ({
                let w = store_l_at(old(self)@.mem, addr_disp16_result(old(self)@.er, register_field, disp), value);
                final(self)@ == (CpuView { mem: w.0, ..old(self)@ }) && r == w.1
            }),
    {
        let addr = match self.get_addr_disp16(register_field, disp) {
            Ok(a) => a,
            Err(e) => return Err(e),
        };
        self.write_abs24_l(addr, value)
    }

    /// Reads the long word at `@(d:16, ERn)`.
    pub fn read_disp16_ern_l(&self, register_field: u8, disp: u16) -> (r: Result<u32, EmuError>)
        requires
            self.wf(),
        ensures
            r == load_l_at(self@.mem, addr_disp16_result(self@.er, register_field, disp)),
    {
        let addr = match self.get_addr_disp16(register_field, disp) {
            Ok(a) => a,
            Err(e) => return Err(e),
        };
        self.read_abs24_l(addr)
    }

    /// Writes the byte `value` at `@(d:24, ERn)`.
    pub fn write_disp24_ern_b(&mut self, register_field: u8, disp: u32, value: u8) -> (r: Result<(), EmuError>)
        requires
            old(self).wf(),
            disp24_in_range(old(self)@.er, register_field, disp),
        ensures
            final(self).wf(),
            ({
                let w = store_b_at(old(self)@.mem, addr_disp24_result(old(self)@.er, register_field, disp), value);
                final(self)@ == (CpuView { mem: w.0, ..old(self)@ }) && r == w.1
            }),
    {
        let addr = match self.get_addr_disp24(register_field, disp) {
            Ok(a) => a,
            Err(e) => return Err(e),
        };
        self.write_abs24_b(addr, value)
    }

    /// Reads the byte at `@(d:24, ERn)`.
    pub fn read_disp24_ern_b(&self, register_field: u8, disp: u32) -> (r: Result<u8, EmuError>)
        requires
            self.wf(),
            disp24_in_range(self@.er, register_field, disp),
        ensures
            r == load_b_at(self@.mem, addr_disp24_result(self@.er, register_field, disp)),
    {
        let addr = match self.get_addr_disp24(register_field, disp) {
            Ok(a) => a,
            Err(e) => return Err(e),
        };
        self.read_abs24_b(addr)
    }

    /// Writes the word `value` at `@(d:24, ERn)`.
    pub fn write_disp24_ern_w(&mut self, register_field: u8, disp: u32, value: u16) -> (r: Result<(), EmuError>)
        requires
            old(self).wf(),
            disp24_in_range(old(self)@.er, register_field, disp),
        ensures
            final(self).wf(),
            ({
                let w = store_w_at(old(self)@.mem, addr_disp24_result(old(self)@.er, register_field, disp), value);
                final(self)@ == (CpuView { mem: w.0, ..old(self)@ }) && r == w.1
            }),
    {
        let addr = match self.get_addr_disp24(register_field, disp) {
            Ok(a) => a,
            Err(e) => return Err(e),
        };
        self.write_abs24_w(addr, value)
    }

    /// Reads the word at `@(d:24, ERn)`.
    pub fn read_disp24_ern_w(&self, register_field: u8, disp: u32) -> (r: Result<u16, EmuError>)
        requires
            self.wf(),
            disp24_in_range(self@.er, register_field, disp),
        ensures
            r == load_w_at(self@.mem, addr_disp24_result(self@.er, register_field, disp)),
    {
        let addr = match self.get_addr_disp24(register_field, disp) {
            Ok(a) => a,
            Err(e) => return Err(e),
        };
        self.read_abs24_w(addr)
    }

    /// Writes the long word `value` at `@(d:24, ERn)`.
    pub fn write_disp24_ern_l(&mut self, register_field: u8, disp: u32, value: u32) -> (r: Result<(), EmuError>)
        requires
            old(self).wf(),
            disp24_in_range(old(self)@.er, register_field, disp),
        ensures
            final(self).wf(),
            ({
                let w = store_l_at(old(self)@.mem, addr_disp24_result(old(self)@.er, register_field, disp), value);
                final(self)@ == (CpuView { mem: w.0, ..old(self)@ }) && r == w.1
            }),
    {
        let addr = match self.get_addr_disp24(register_field, disp) {
            Ok(a) => a,
            Err(e) => return Err(e),
        };
        self.write_abs24_l(addr, value)
    }

    /// Reads the long word at `@(d:24, ERn)`.
    pub fn read_disp24_ern_l(&self, register_field: u8, disp: u32) -> (r: Result<u32, EmuError>)
        requires
            self.wf(),
            disp24_in_range(self@.er, register_field, disp),
        ensures
            r == load_l_at(self@.mem, addr_disp24_result(self@.er, register_field, disp)),
    {
        let addr = match self.get_addr_disp24(register_field, disp) {
            Ok(a) => a,
            Err(e) => return Err(e),
        };
        self.read_abs24_l(addr)
    }
}

} // verus!
