use vstd::prelude::*;

use crate::bus::is_mapped;
use crate::cpu::{Cpu, CpuView};
use crate::error::EmuError;

verus! {

/// The big-endian word made of `hi` and `lo`.
pub open spec fn be_word(hi: u8, lo: u8) -> u16 {
    ((hi as u16) << 8u16) | (lo as u16)
}

/// The big-endian long word made of the words `hi` and `lo`.
pub open spec fn be_long(hi: u16, lo: u16) -> u32 {
    ((hi as u32) << 16u32) | (lo as u32)
}

/// Reading the byte at `a`: its value, or the address where no device answers.
pub open spec fn load_b(mem: Map<u32, u8>, a: u32) -> Result<u8, EmuError> {
    if is_mapped(a) {
        Ok(mem[a])
    } else {
        Err(EmuError::InvalidAddress(a))
    }
}

/// Reading the big-endian word at `a`: the byte at `a` first, then the one at `a + 1`.
pub open spec fn load_w(mem: Map<u32, u8>, a: u32) -> Result<u16, EmuError> {
    if !is_mapped(a) {
        Err(EmuError::InvalidAddress(a))
    } else if !is_mapped((a + 1) as u32) {
        Err(EmuError::InvalidAddress((a + 1) as u32))
    } else {
        Ok(be_word(mem[a], mem[(a + 1) as u32]))
    }
}

/// Reading the big-endian long word at `a`: the word at `a` first, then the one at `a + 2`.
pub open spec fn load_l(mem: Map<u32, u8>, a: u32) -> Result<u32, EmuError> {
    match load_w(mem, a) {
        Err(e) => Err(e),
        Ok(hi) => match load_w(mem, (a + 2) as u32) {
            Err(e) => Err(e),
            Ok(lo) => Ok(be_long(hi, lo)),
        },
    }
}

/// Storing the byte `v` at `a`: the memory after the store, and whether it succeeded.
pub open spec fn store_b(mem: Map<u32, u8>, a: u32, v: u8) -> (Map<u32, u8>, Result<(), EmuError>) {
    if is_mapped(a) {
        (mem.insert(a, v), Ok(()))
    } else {
        (mem, Err(EmuError::InvalidAddress(a)))
    }
}

/// Storing the word `v` big-endian at `a`, byte by byte; a store that fails
/// leaves the bytes stored before it.
pub open spec fn store_w(mem: Map<u32, u8>, a: u32, v: u16) -> (Map<u32, u8>, Result<(), EmuError>) {
    let (m1, r1) = store_b(mem, a, (v >> 8u16) as u8);
    if r1 is Err {
        (m1, r1)
    } else {
        store_b(m1, (a + 1) as u32, v as u8)
    }
}

/// Storing the long word `v` big-endian at `a`, word by word; a store that
/// fails leaves the bytes stored before it.
pub open spec fn store_l(mem: Map<u32, u8>, a: u32, v: u32) -> (Map<u32, u8>, Result<(), EmuError>) {
    let (m1, r1) = store_w(mem, a, (v >> 16u32) as u16);
    if r1 is Err {
        (m1, r1)
    } else {
        store_w(m1, (a + 2) as u32, v as u16)
    }
}

/// The address that an 8-bit absolute address designates: the top page.
pub open spec fn spec_addr_abs8(addr: u8) -> u32 {
    0xffff00u32 | (addr as u32)
}

/// The address that a 16-bit absolute address designates: sign-extended to 24 bits.
pub open spec fn spec_addr_abs16(addr: u16) -> u32 {
    if addr & 0x8000 == 0 {
        addr as u32
    } else {
        0xff0000u32 | (addr as u32)
    }
}

/// A word stored and read back at the same address gives the value stored.
pub proof fn lemma_store_load_w(mem: Map<u32, u8>, a: u32, v: u16)
    requires
        store_w(mem, a, v).1 is Ok,
    ensures
        load_w(store_w(mem, a, v).0, a) == Ok::<u16, EmuError>(v),
{
    assert(a != (a + 1) as u32);
    assert(be_word((v >> 8u16) as u8, v as u8) == v) by (bit_vector);
}

/// A long word stored and read back at the same address gives the value stored.
pub proof fn lemma_store_load_l(mem: Map<u32, u8>, a: u32, v: u32)
    requires
        store_l(mem, a, v).1 is Ok,
    ensures
        load_l(store_l(mem, a, v).0, a) == Ok::<u32, EmuError>(v),
{
    let hi = (v >> 16u32) as u16;
    let lo = v as u16;
    let m1 = store_w(mem, a, hi).0;
    lemma_store_load_w(mem, a, hi);
    lemma_store_load_w(m1, (a + 2) as u32, lo);
    assert((a + 2) as u32 != a && (a + 2) as u32 != (a + 1) as u32);
    assert((a + 3) as u32 != a && (a + 3) as u32 != (a + 1) as u32);
    assert(be_word((hi >> 8u16) as u8, hi as u8) == hi) by (bit_vector);
    assert(be_long(hi, lo) == v) by (bit_vector)
        requires
            hi == (v >> 16u32) as u16,
            lo == v as u16,
    ;
}

/// A store changes no byte but those it stores.
pub proof fn lemma_store_l_frame(mem: Map<u32, u8>, a: u32, v: u32, b: u32)
    requires
        b != a,
        b != (a + 1) as u32,
        b != (a + 2) as u32,
        b != (a + 3) as u32,
    ensures
        store_l(mem, a, v).0.contains_key(b) == mem.contains_key(b),
        store_l(mem, a, v).0[b] == mem[b],
        store_w(mem, a, (v >> 16u32) as u16).0.contains_key(b) == mem.contains_key(b),
{
}

impl Cpu {
    pub fn get_addr_abs8(&self, addr: u8) -> (r: u32)
        ensures
            r == spec_addr_abs8(addr),
    {
        0xffff00 | addr as u32
    }

    pub fn get_addr_abs16(&self, addr: u16) -> (r: u32)
        ensures
            r == spec_addr_abs16(addr),
    {
        if addr & 0x8000 == 0x0000 {
            addr as u32
        } else {
            0xff0000 | addr as u32
        }
    }

    /// Writes the byte `value` at the 24-bit address `addr`.
    pub fn write_abs24_b(&mut self, addr: u32, value: u8) -> (r: Result<(), EmuError>)
        requires
            old(self).wf(),
        ensures
            final(self).wf(),
            final(self)@ == (CpuView { mem: store_b(old(self)@.mem, addr, value).0, ..old(self)@ }),
            r == store_b(old(self)@.mem, addr, value).1,
    {
        self.bus.write(addr, value)
    }

    /// Reads the byte at the 24-bit address `addr`.
    pub fn read_abs24_b(&self, addr: u32) -> (r: Result<u8, EmuError>)
        requires
            self.wf(),
        ensures
            r == load_b(self@.mem, addr),
    {
        self.bus.read(addr)
    }

    /// Writes the byte `value` at the 8-bit absolute address `addr`.
    pub fn write_abs8_b(&mut self, addr: u8, value: u8) -> (r: Result<(), EmuError>)
        requires
            old(self).wf(),
        ensures
            final(self).wf(),
            final(self)@ == (CpuView {
                mem: store_b(old(self)@.mem, spec_addr_abs8(addr), value).0,
                ..old(self)@
            }),
            r == store_b(old(self)@.mem, spec_addr_abs8(addr), value).1,
    {
        let real_addr = self.get_addr_abs8(addr);
        self.write_abs24_b(real_addr, value)
    }

    /// Reads the byte at the 8-bit absolute address `addr`.
    pub fn read_abs8_b(&self, addr: u8) -> (r: Result<u8, EmuError>)
        requires
            self.wf(),
        ensures
            r == load_b(self@.mem, spec_addr_abs8(addr)),
    {
        let real_addr = self.get_addr_abs8(addr);
        self.read_abs24_b(real_addr)
    }

    /// Writes the byte `value` at the 16-bit absolute address `addr`.
    pub fn write_abs16_b(&mut self, addr: u16, value: u8) -> (r: Result<(), EmuError>)
        requires
            old(self).wf(),
        ensures
            final(self).wf(),
            final(self)@ == (CpuView {
                mem: store_b(old(self)@.mem, spec_addr_abs16(addr), value).0,
                ..old(self)@
            }),
            r == store_b(old(self)@.mem, spec_addr_abs16(addr), value).1,
    {
        let real_addr = self.get_addr_abs16(addr);
        self.write_abs24_b(real_addr, value)
    }

    /// Reads the byte at the 16-bit absolute address `addr`.
    pub fn read_abs16_b(&self, addr: u16) -> (r: Result<u8, EmuError>)
        requires
            self.wf(),
        ensures
            r == load_b(self@.mem, spec_addr_abs16(addr)),
    {
        let real_addr = self.get_addr_abs16(addr);
        self.read_abs24_b(real_addr)
    }

    /// Writes the word `value` big-endian at the 24-bit address `addr`.
    pub fn write_abs24_w(&mut self, addr: u32, value: u16) -> (r: Result<(), EmuError>)
        requires
            old(self).wf(),
        ensures
            final(self).wf(),
            final(self)@ == (CpuView { mem: store_w(old(self)@.mem, addr, value).0, ..old(self)@ }),
            r == store_w(old(self)@.mem, addr, value).1,
    {
        match self.bus.write(addr, (value >> 8) as u8) {
            Ok(_) => {},
            Err(e) => return Err(e),
        }
        self.bus.write(addr + 1, value as u8)
    }

    /// Reads the big-endian word at the 24-bit address `addr`.
    pub fn read_abs24_w(&self, addr: u32) -> (r: Result<u16, EmuError>)
        requires
            self.wf(),
        ensures
            r == load_w(self@.mem, addr),
    {
        let hi = match self.bus.read(addr) {
            Ok(v) => v,
            Err(e) => return Err(e),
        };
        let lo = match self.bus.read(addr + 1) {
            Ok(v) => v,
            Err(e) => return Err(e),
        };
        Ok((hi as u16) << 8 | lo as u16)
    }

    /// Writes the word `value` at the 8-bit absolute address `addr`.
    pub fn write_abs8_w(&mut self, addr: u8, value: u16) -> (r: Result<(), EmuError>)
        requires
            old(self).wf(),
        ensures
            final(self).wf(),
            final(self)@ == (CpuView {
                mem: store_w(old(self)@.mem, spec_addr_abs8(addr), value).0,
                ..old(self)@
            }),
            r == store_w(old(self)@.mem, spec_addr_abs8(addr), value).1,
    {
        let real_addr = self.get_addr_abs8(addr);
        self.write_abs24_w(real_addr, value)
    }

    /// Reads the word at the 8-bit absolute address `addr`.
    pub fn read_abs8_w(&self, addr: u8) -> (r: Result<u16, EmuError>)
        requires
            self.wf(),
        ensures
            r == load_w(self@.mem, spec_addr_abs8(addr)),
    {
        let real_addr = self.get_addr_abs8(addr);
        self.read_abs24_w(real_addr)
    }

    /// Writes the word `value` at the 16-bit absolute address `addr`.
    pub fn write_abs16_w(&mut self, addr: u16, value: u16) -> (r: Result<(), EmuError>)
        requires
            old(self).wf(),
        ensures
            final(self).wf(),
            final(self)@ == (CpuView {
                mem: store_w(old(self)@.mem, spec_addr_abs16(addr), value).0,
                ..old(self)@
            }),
            r == store_w(old(self)@.mem, spec_addr_abs16(addr), value).1,
    {
        let real_addr = self.get_addr_abs16(addr);
        self.write_abs24_w(real_addr, value)
    }

    /// Reads the word at the 16-bit absolute address `addr`.
    pub fn read_abs16_w(&self, addr: u16) -> (r: Result<u16, EmuError>)
        requires
            self.wf(),
        ensures
            r == load_w(self@.mem, spec_addr_abs16(addr)),
    {
        let real_addr = self.get_addr_abs16(addr);
        self.read_abs24_w(real_addr)
    }

    /// Writes the long word `value` big-endian at the 24-bit address `addr`.
    pub fn write_abs24_l(&mut self, addr: u32, value: u32) -> (r: Result<(), EmuError>)
        requires
            old(self).wf(),
        ensures
            final(self).wf(),
            final(self)@ == (CpuView { mem: store_l(old(self)@.mem, addr, value).0, ..old(self)@ }),
            r == store_l(old(self)@.mem, addr, value).1,
    {
        match self.write_abs24_w(addr, (value >> 16) as u16) {
            Ok(_) => {},
            Err(e) => return Err(e),
        }
        self.write_abs24_w(addr + 2, value as u16)
    }

    /// Reads the big-endian long word at the 24-bit address `addr`.
    pub fn read_abs24_l(&self, addr: u32) -> (r: Result<u32, EmuError>)
        requires
            self.wf(),
        ensures
            r == load_l(self@.mem, addr),
    {
        let hi = match self.read_abs24_w(addr) {
            Ok(v) => v,
            Err(e) => return Err(e),
        };
        let lo = match self.read_abs24_w(addr + 2) {
            Ok(v) => v,
            Err(e) => return Err(e),
        };
        Ok((hi as u32) << 16 | lo as u32)
    }

    /// Writes the long word `value` at the 8-bit absolute address `addr`.
    pub fn write_abs8_l(&mut self, addr: u8, value: u32) -> (r: Result<(), EmuError>)
        requires
            old(self).wf(),
        ensures
            final(self).wf(),
            final(self)@ == (CpuView {
                mem: store_l(old(self)@.mem, spec_addr_abs8(addr), value).0,
                ..old(self)@
            }),
            r == store_l(old(self)@.mem, spec_addr_abs8(addr), value).1,
    {
        let real_addr = self.get_addr_abs8(addr);
        self.write_abs24_l(real_addr, value)
    }

    /// Reads the long word at the 8-bit absolute address `addr`.
    pub fn read_abs8_l(&self, addr: u8) -> (r: Result<u32, EmuError>)
        requires
            self.wf(),
        ensures
            r == load_l(self@.mem, spec_addr_abs8(addr)),
    {
        let real_addr = self.get_addr_abs8(addr);
        self.read_abs24_l(real_addr)
    }

    /// Writes the long word `value` at the 16-bit absolute address `addr`.
    pub fn write_abs16_l(&mut self, addr: u16, value: u32) -> (r: Result<(), EmuError>)
        requires
            old(self).wf(),
        ensures
            final(self).wf(),
            final(self)@ == (CpuView {
                mem: store_l(old(self)@.mem, spec_addr_abs16(addr), value).0,
                ..old(self)@
            }),
            r == store_l(old(self)@.mem, spec_addr_abs16(addr), value).1,
    {
        let real_addr = self.get_addr_abs16(addr);
        self.write_abs24_l(real_addr, value)
    }

    /// Reads the long word at the 16-bit absolute address `addr`.
    pub fn read_abs16_l(&self, addr: u16) -> (r: Result<u32, EmuError>)
        requires
            self.wf(),
        ensures
            r == load_l(self@.mem, spec_addr_abs16(addr)),
    {
        let real_addr = self.get_addr_abs16(addr);
        self.read_abs24_l(real_addr)
    }
}

} // verus!
