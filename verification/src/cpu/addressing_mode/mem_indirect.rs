use vstd::prelude::*;

use crate::cpu::addressing_mode::abs::load_l;
use crate::cpu::addressing_mode::disp::{load_b_at, load_l_at, load_w_at, store_b_at, store_l_at, store_w_at};
use crate::cpu::{Cpu, CpuView, ADDRESS_MASK};
use crate::error::EmuError;

verus! {

/// The address that memory indirect `@@aa:8` designates: the low 24 bits of
/// the long word stored at `aa`.
pub open spec fn addr_mem_indirect_result(mem: Map<u32, u8>, abs_addr: u8) -> Result<u32, EmuError> {
    match load_l(mem, abs_addr as u32) {
        Ok(a) => Ok(a & ADDRESS_MASK),
        Err(e) => Err(e),
    }
}

impl Cpu {
    fn get_addr_mem_indirect(&self, abs_addr: u8) -> (r: Result<u32, EmuError>)
        requires
            self.wf(),
        ensures
            r == addr_mem_indirect_result(self@.mem, abs_addr),
    {
        match self.read_abs24_l(abs_addr as u32) {
            Ok(a) => Ok(a & 0x00ffffff),
            Err(e) => Err(e),
        }
    }

    /// Writes the byte `value` at `@@aa:8`.
    pub fn write_mem_indirect_b(&mut self, abs_addr: u8, value: u8) -> (r: Result<(), EmuError>)
        requires
            old(self).wf(),
        ensures
            final(self).wf(),
            ({
                let w = store_b_at(old(self)@.mem, addr_mem_indirect_result(old(self)@.mem, abs_addr), value);
                final(self)@ == (CpuView { mem: w.0, ..old(self)@ }) && r == w.1
            }),
    {
        let addr = match self.get_addr_mem_indirect(abs_addr) {
            Ok(a) => a,
            Err(e) => return Err(e),
        };
        self.write_abs24_b(addr, value)
    }

    /// Reads the byte at `@@aa:8`.
    pub fn read_mem_indirect_b(&self, abs_addr: u8) -> (r: Result<u8, EmuError>)
        requires
            self.wf(),
        ensures
            r == load_b_at(self@.mem, addr_mem_indirect_result(self@.mem, abs_addr)),
    {
        let addr = match self.get_addr_mem_indirect(abs_addr) {
            Ok(a) => a,
            Err(e) => return Err(e),
        };
        self.read_abs24_b(addr)
    }

    /// Writes the word `value` at `@@aa:8`.
    pub fn write_mem_indirect_w(&mut self, abs_addr: u8, value: u16) -> (r: Result<(), EmuError>)
        requires
            old(self).wf(),
        ensures
            final(self).wf(),
            ({
                let w = store_w_at(old(self)@.mem, addr_mem_indirect_result(old(self)@.mem, abs_addr), value);
                final(self)@ == (CpuView { mem: w.0, ..old(self)@ }) && r == w.1
            }),
    {
        let addr = match self.get_addr_mem_indirect(abs_addr) {
            Ok(a) => a,
            Err(e) => return Err(e),
        };
        self.write_abs24_w(addr, value)
    }

    /// Reads the word at `@@aa:8`.
    pub fn read_mem_indirect_w(&self, abs_addr: u8) -> (r: Result<u16, EmuError>)
        requires
            self.wf(),
        ensures
            r == load_w_at(self@.mem, addr_mem_indirect_result(self@.mem, abs_addr)),
    {
        let addr = match self.get_addr_mem_indirect(abs_addr) {
            Ok(a) => a,
            Err(e) => return Err(e),
        };
        self.read_abs24_w(addr)
    }

    /// Writes the long word `value` at `@@aa:8`.
    pub fn write_mem_indirect_l(&mut self, abs_addr: u8, value: u32) -> (r: Result<(), EmuError>)
        requires
            old(self).wf(),
        ensures
            final(self).wf(),
            ({
                let w = store_l_at(old(self)@.mem, addr_mem_indirect_result(old(self)@.mem, abs_addr), value);
                final(self)@ == (CpuView { mem: w.0, ..old(self)@ }) && r == w.1
            }),
    {
        let addr = match self.get_addr_mem_indirect(abs_addr) {
            Ok(a) => a,
            Err(e) => return Err(e),
        };
        self.write_abs24_l(addr, value)
    }

    /// Reads the long word at `@@aa:8`.
    pub fn read_mem_indirect_l(&self, abs_addr: u8) -> (r: Result<u32, EmuError>)
        requires
            self.wf(),
        ensures
            r == load_l_at(self@.mem, addr_mem_indirect_result(self@.mem, abs_addr)),
    {
        let addr = match self.get_addr_mem_indirect(abs_addr) {
            Ok(a) => a,
            Err(e) => return Err(e),
        };
        self.read_abs24_l(addr)
    }
}

} // verus!
