use vstd::prelude::*;

use crate::cpu::{Cpu, CpuView};
use crate::error::EmuError;

verus! {

/// Byte register `r` of the register file `er`: R0H to R7H for 0 to 7, R0L to
/// R7L for 8 to 15.
pub open spec fn spec_rn_b(er: Seq<u32>, r: u8) -> u8 {
    if r < 8 {
        (er[r as int] >> 8u32) as u8
    } else {
        er[r - 8] as u8
    }
}

/// The register file `er` with byte register `r` set to `v`.
pub open spec fn spec_set_rn_b(er: Seq<u32>, r: u8, v: u8) -> Seq<u32> {
    if r < 8 {
        er.update(r as int, (er[r as int] & 0xffff00ff) | ((v as u32) << 8u32))
    } else {
        er.update(r - 8, (er[r - 8] & 0xffffff00) | (v as u32))
    }
}

/// Long register `r` (ER0 to ER7) of the register file `er`.
pub open spec fn spec_rn_l(er: Seq<u32>, r: u8) -> u32 {
    er[r as int]
}

/// Word register `r` of the register file `er`: R0 to R7 for 0 to 7, E0 to
/// E7 for 8 to 15.
pub open spec fn spec_rn_w(er: Seq<u32>, r: u8) -> u16 {
    if r < 8 {
        er[r as int] as u16
    } else {
        (er[r - 8] >> 16u32) as u16
    }
}

/// The register file `er` with word register `r` set to `v`.
pub open spec fn spec_set_rn_w(er: Seq<u32>, r: u8, v: u16) -> Seq<u32> {
    if r < 8 {
        er.update(r as int, (er[r as int] & 0xffff0000) | (v as u32))
    } else {
        er.update(r - 8, (er[r - 8] & 0x0000ffff) | ((v as u32) << 16u32))
    }
}

/// Writing a byte register and reading it back gives the value written; the
/// other fifteen byte registers keep their values.
pub proof fn lemma_rn_b_write_read(er: Seq<u32>, r: u8, v: u8, other: u8)
    requires
        er.len() == 8,
        r < 16,
        other < 16,
    ensures
        spec_rn_b(spec_set_rn_b(er, r, v), r) == v,
        other != r ==> spec_rn_b(spec_set_rn_b(er, r, v), other) == spec_rn_b(er, other),
{
    let e = if r < 8 { er[r as int] } else { er[r - 8] };
    assert((((e & 0xffff00ff) | ((v as u32) << 8u32)) >> 8u32) as u8 == v
        && ((e & 0xffffff00) | (v as u32)) as u8 == v
        && ((e & 0xffff00ff) | ((v as u32) << 8u32)) as u8 == e as u8
        && (((e & 0xffffff00) | (v as u32)) >> 8u32) as u8 == (e >> 8u32) as u8) by (bit_vector);
}

/// Writing a word register and reading it back gives the value written; the
/// other fifteen word registers keep their values.
pub proof fn lemma_rn_w_write_read(er: Seq<u32>, r: u8, v: u16, other: u8)
    requires
        er.len() == 8,
        r < 16,
        other < 16,
    ensures
        spec_rn_w(spec_set_rn_w(er, r, v), r) == v,
        other != r ==> spec_rn_w(spec_set_rn_w(er, r, v), other) == spec_rn_w(er, other),
{
    let e = if r < 8 { er[r as int] } else { er[r - 8] };
    assert(((e & 0xffff0000) | (v as u32)) as u16 == v
        && (((e & 0x0000ffff) | ((v as u32) << 16u32)) >> 16u32) as u16 == v
        && (((e & 0xffff0000) | (v as u32)) >> 16u32) as u16 == (e >> 16u32) as u16
        && ((e & 0x0000ffff) | ((v as u32) << 16u32)) as u16 == e as u16) by (bit_vector);
}

/// A word register is made of two byte registers: Rn is RnH:RnL.
pub proof fn lemma_rn_w_is_bytes(er: Seq<u32>, n: u8)
    requires
        er.len() == 8,
        n < 8,
    ensures
        spec_rn_w(er, n) == (spec_rn_b(er, n) as u16) * 256 + spec_rn_b(er, (n + 8) as u8) as u16,
{
    let e = er[n as int];
    assert((e as u16) == (((e >> 8u32) as u8) as u16) * 256 + ((e as u8) as u16)) by (bit_vector);
}

impl Cpu {
    /// Writes byte register `register_field` (R0H-R7H, R0L-R7L).
    pub fn write_rn_b(&mut self, register_field: u8, value: u8) -> (r: Result<(), EmuError>)
        ensures
            register_field < 16 ==> r == Ok::<(), EmuError>(()) && final(self)@ == (CpuView {
                er: spec_set_rn_b(old(self)@.er, register_field, value),
                ..old(self)@
            }),
            register_field >= 16 ==> r == Err::<(), EmuError>(EmuError::InvalidRegister(register_field))
                && final(self)@ == old(self)@,
            final(self).bus == old(self).bus,
    {
        if register_field < 8 {
            let i = register_field as usize;
            self.er[i] = (self.er[i] & 0xffff00ff) | ((value as u32) << 8);
        } else if register_field < 16 {
            let i = (register_field - 8) as usize;
            self.er[i] = (self.er[i] & 0xffffff00) | (value as u32);
        } else {
            return Err(EmuError::InvalidRegister(register_field));
        }
        assert(self@.er =~= spec_set_rn_b(old(self)@.er, register_field, value));
        Ok(())
    }

    /// Reads byte register `register_field` (R0H-R7H, R0L-R7L).
    pub fn read_rn_b(&self, register_field: u8) -> (r: Result<u8, EmuError>)
        ensures
            register_field < 16 ==> r == Ok::<u8, EmuError>(spec_rn_b(self@.er, register_field)),
            register_field >= 16 ==> r == Err::<u8, EmuError>(EmuError::InvalidRegister(register_field)),
    {
        if register_field < 8 {
            Ok((self.er[register_field as usize] >> 8) as u8)
        } else if register_field < 16 {
            Ok(self.er[(register_field - 8) as usize] as u8)
        } else {
            Err(EmuError::InvalidRegister(register_field))
        }
    }

    /// Writes word register `register_field` (R0-R7, E0-E7).
    pub fn write_rn_w(&mut self, register_field: u8, value: u16) -> (r: Result<(), EmuError>)
        ensures
            register_field < 16 ==> r == Ok::<(), EmuError>(()) && final(self)@ == (CpuView {
                er: spec_set_rn_w(old(self)@.er, register_field, value),
                ..old(self)@
            }),
            register_field >= 16 ==> r == Err::<(), EmuError>(EmuError::InvalidRegister(register_field))
                && final(self)@ == old(self)@,
            final(self).bus == old(self).bus,
    {
        if register_field < 8 {
            let i = register_field as usize;
            self.er[i] = (self.er[i] & 0xffff0000) | (value as u32);
        } else if register_field < 16 {
            let i = (register_field - 8) as usize;
            self.er[i] = (self.er[i] & 0x0000ffff) | ((value as u32) << 16);
        } else {
            return Err(EmuError::InvalidRegister(register_field));
        }
        assert(self@.er =~= spec_set_rn_w(old(self)@.er, register_field, value));
        Ok(())
    }

    /// Reads word register `register_field` (R0-R7, E0-E7).
    pub fn read_rn_w(&self, register_field: u8) -> (r: Result<u16, EmuError>)
        ensures
            register_field < 16 ==> r == Ok::<u16, EmuError>(spec_rn_w(self@.er, register_field)),
            register_field >= 16 ==> r == Err::<u16, EmuError>(EmuError::InvalidRegister(register_field)),
    {
        if register_field < 8 {
            Ok(self.er[register_field as usize] as u16)
        } else if register_field < 16 {
            Ok((self.er[(register_field - 8) as usize] >> 16) as u16)
        } else {
            Err(EmuError::InvalidRegister(register_field))
        }
    }

    /// Writes long register `register_field` (ER0-ER7).
    pub fn write_rn_l(&mut self, register_field: u8, value: u32) -> (r: Result<(), EmuError>)
        ensures
            register_field < 8 ==> r == Ok::<(), EmuError>(()) && final(self)@ == (CpuView {
                er: old(self)@.er.update(register_field as int, value),
                ..old(self)@
            }),
            register_field >= 8 ==> r == Err::<(), EmuError>(EmuError::InvalidRegister(register_field))
                && final(self)@ == old(self)@,
            final(self).bus == old(self).bus,
    {
        if register_field < 8 {
            self.er[register_field as usize] = value;
        } else {
            return Err(EmuError::InvalidRegister(register_field));
        }
        assert(self@.er =~= old(self)@.er.update(register_field as int, value));
        Ok(())
    }

    /// Reads long register `register_field` (ER0-ER7).
    pub fn read_rn_l(&self, register_field: u8) -> (r: Result<u32, EmuError>)
        ensures
            register_field < 8 ==> r == Ok::<u32, EmuError>(self@.er[register_field as int]),
            register_field >= 8 ==> r == Err::<u32, EmuError>(EmuError::InvalidRegister(register_field)),
    {
        if register_field < 8 {
            Ok(self.er[register_field as usize])
        } else {
            Err(EmuError::InvalidRegister(register_field))
        }
    }
}

} // verus!
