use vstd::prelude::*;

use crate::error::EmuError;
use crate::memory::{MEMORY_END_ADDR, MEMORY_SIZE, MEMORY_START_ADDR};
use crate::registers::DRCRA;

verus! {

pub const VENCTOR_START_ADDR: u32 = 0;
pub const VENCTOR_END_ADDR: u32 = 0xff;
pub const VENCTOR_SIZE: usize = 0x100;

pub const AREA0_START_ADDR: u32 = 0;
pub const AREA0_END_ADDR: u32 = 0x1fffff;
pub const AREA1_START_ADDR: u32 = 0x200000;
pub const AREA1_END_ADDR: u32 = 0x3fffff;
/// Area 2 holds the external DRAM.
pub const AREA2_START_ADDR: u32 = 0x400000;
pub const AREA2_END_ADDR: u32 = 0x5fffff;
pub const AREA2_SIZE: usize = 0x200000;
pub const AREA3_START_ADDR: u32 = 0x600000;
pub const AREA3_END_ADDR: u32 = 0x7fffff;
pub const AREA4_START_ADDR: u32 = 0x800000;
pub const AREA4_END_ADDR: u32 = 0x9fffff;
pub const AREA5_START_ADDR: u32 = 0xa00000;
pub const AREA5_END_ADDR: u32 = 0xbfffff;
pub const AREA6_START_ADDR: u32 = 0xc00000;
pub const AREA6_END_ADDR: u32 = 0xdfffff;
pub const AREA7_START_ADDR: u32 = 0xe00000;
pub const AREA7_END_ADDR: u32 = 0xffffff;
/// Size in bytes of each of the eight external areas.
pub const AREA_SIZE: u32 = 0x200000;

pub const IO_REGISTERS1_START_ADDR: u32 = 0xfee000;
pub const IO_REGISTERS1_END_ADDR: u32 = 0xfee0ff;
pub const IO_REGISTERS1_SIZE: usize = 0x100;

pub const IO_REGISTERS2_EMC1_START_ADDR: u32 = 0xffff20;
pub const IO_REGISTERS2_EMC1_END_ADDR: u32 = 0xffffe9;
pub const IO_REGISTERS2_EMC1_SIZE: usize = 0xca;

pub const IO_PORT_SIZE: usize = 11;

/// The address space of the microcontroller: the exception vector table, the
/// on-chip I/O registers, the external DRAM of area 2 and the on-chip RAM.
/// `outbox` holds the messages that the bus sends to its observer, oldest first.
#[derive(Clone)]
pub struct Bus {
    pub memory: Vec<u8>,
    pub exception_handling_vector: Vec<u8>,
    pub dram: Vec<u8>,
    pub io_registrs1: Vec<u8>,
    pub io_registrs2: Vec<u8>,
    pub io_port_in: [u8; IO_PORT_SIZE],
    pub outbox: Vec<String>,
}

/// The addresses that some device of the bus answers.
pub open spec fn is_mapped(addr: u32) -> bool {
    ||| addr <= VENCTOR_END_ADDR
    ||| IO_REGISTERS1_START_ADDR <= addr <= IO_REGISTERS1_END_ADDR
    ||| AREA2_START_ADDR <= addr <= AREA2_END_ADDR
    ||| MEMORY_START_ADDR <= addr <= MEMORY_END_ADDR
    ||| IO_REGISTERS2_EMC1_START_ADDR <= addr <= IO_REGISTERS2_EMC1_END_ADDR
}

/// Whether area `area_index` is DRAM space, given the value of DRCRA.
pub open spec fn spec_dram_area(drcra: u8, area_index: u8) -> bool {
    let register = drcra >> 5;
    if area_index == 2 {
        register >= 1
    } else if area_index == 3 {
        register >= 2
    } else if area_index == 4 {
        register >= 4
    } else if area_index == 5 {
        register >= 5
    } else {
        false
    }
}

impl Bus {
    /// Each device holds as many bytes as its address range covers.
    pub open spec fn wf(&self) -> bool {
        &&& self.memory@.len() == MEMORY_SIZE
        &&& self.exception_handling_vector@.len() == VENCTOR_SIZE
        &&& self.dram@.len() == AREA2_SIZE
        &&& self.io_registrs1@.len() == IO_REGISTERS1_SIZE
        &&& self.io_registrs2@.len() == IO_REGISTERS2_EMC1_SIZE
    }

    /// The byte that the device answering `addr` holds there.
    pub open spec fn spec_byte(&self, addr: u32) -> u8 {
        if addr <= VENCTOR_END_ADDR {
            self.exception_handling_vector@[addr as int]
        } else if IO_REGISTERS1_START_ADDR <= addr <= IO_REGISTERS1_END_ADDR {
            self.io_registrs1@[addr - IO_REGISTERS1_START_ADDR]
        } else if AREA2_START_ADDR <= addr <= AREA2_END_ADDR {
            self.dram@[addr - AREA2_START_ADDR]
        } else if MEMORY_START_ADDR <= addr <= MEMORY_END_ADDR {
            self.memory@[addr - MEMORY_START_ADDR]
        } else {
            self.io_registrs2@[addr - IO_REGISTERS2_EMC1_START_ADDR]
        }
    }
}

impl View for Bus {
    type V = Map<u32, u8>;

    /// The address space as a map from each mapped address to its byte.
    open spec fn view(&self) -> Map<u32, u8> {
        Map::new(|a: u32| is_mapped(a), |a: u32| self.spec_byte(a))
    }
}

impl Bus {
    /// A bus with every byte zero and no pending message.
    pub fn new() -> (bus: Self)
        ensures
            bus.wf(),
            forall|a: u32| is_mapped(a) ==> #[trigger] bus@[a] == 0,
            bus@.dom() == Set::new(|a: u32| is_mapped(a)),
            forall|i: int| 0 <= i < IO_PORT_SIZE ==> #[trigger] bus.io_port_in@[i] == 0,
            bus.outbox@.len() == 0,
    {
        let bus = Bus {
            memory: vec![0u8; MEMORY_SIZE],
            exception_handling_vector: vec![0u8; VENCTOR_SIZE],
            dram: vec![0u8; AREA2_SIZE],
            io_registrs1: vec![0u8; IO_REGISTERS1_SIZE],
            io_registrs2: vec![0u8; IO_REGISTERS2_EMC1_SIZE],
            io_port_in: [0u8; 11],
            outbox: Vec::new(),
        };
        assert(bus@.dom() =~= Set::new(|a: u32| is_mapped(a)));
        bus
    }

    /// Stores `value` at `addr`; fails, changing nothing, where no device
    /// answers `addr`.
    pub fn write(&mut self, addr: u32, value: u8) -> (r: Result<(), EmuError>)
        requires
            old(self).wf(),
        ensures
            final(self).wf(),
            r == (if is_mapped(addr) { Ok::<(), EmuError>(()) } else { Err(EmuError::InvalidAddress(addr)) }),
            is_mapped(addr) ==> final(self)@ == old(self)@.insert(addr, value),
            !is_mapped(addr) ==> *final(self) == *old(self),
            final(self).io_port_in == old(self).io_port_in,
            final(self).outbox == old(self).outbox,
    {
        if addr <= VENCTOR_END_ADDR {
            self.exception_handling_vector.set(addr as usize, value);
        } else if IO_REGISTERS1_START_ADDR <= addr && addr <= IO_REGISTERS1_END_ADDR {
            self.io_registrs1.set((addr - IO_REGISTERS1_START_ADDR) as usize, value);
        } else if AREA2_START_ADDR <= addr && addr <= AREA2_END_ADDR {
            self.dram.set((addr - AREA2_START_ADDR) as usize, value);
        } else if MEMORY_START_ADDR <= addr && addr <= MEMORY_END_ADDR {
            self.memory.set((addr - MEMORY_START_ADDR) as usize, value);
        } else if IO_REGISTERS2_EMC1_START_ADDR <= addr && addr <= IO_REGISTERS2_EMC1_END_ADDR {
            self.io_registrs2.set((addr - IO_REGISTERS2_EMC1_START_ADDR) as usize, value);
        } else {
            return Err(EmuError::InvalidAddress(addr));
        }
        assert(self@ =~= old(self)@.insert(addr, value));
        Ok(())
    }

    /// The byte at `addr`; fails where no device answers `addr`.
    pub fn read(&self, addr: u32) -> (r: Result<u8, EmuError>)
        requires
            self.wf(),
        ensures
            is_mapped(addr) ==> r == Ok::<u8, EmuError>(self@[addr]),
            !is_mapped(addr) ==> r == Err::<u8, EmuError>(EmuError::InvalidAddress(addr)),
    {
        if addr <= VENCTOR_END_ADDR {
            Ok(self.exception_handling_vector[addr as usize])
        } else if IO_REGISTERS1_START_ADDR <= addr && addr <= IO_REGISTERS1_END_ADDR {
            Ok(self.io_registrs1[(addr - IO_REGISTERS1_START_ADDR) as usize])
        } else if AREA2_START_ADDR <= addr && addr <= AREA2_END_ADDR {
            Ok(self.dram[(addr - AREA2_START_ADDR) as usize])
        } else if MEMORY_START_ADDR <= addr && addr <= MEMORY_END_ADDR {
            Ok(self.memory[(addr - MEMORY_START_ADDR) as usize])
        } else if IO_REGISTERS2_EMC1_START_ADDR <= addr && addr <= IO_REGISTERS2_EMC1_END_ADDR {
            Ok(self.io_registrs2[(addr - IO_REGISTERS2_EMC1_START_ADDR) as usize])
        } else {
            Err(EmuError::InvalidAddress(addr))
        }
    }

    /// The index (0 to 7) of the external area that holds `target_addr`.
    pub fn get_area_index(target_addr: u32) -> (r: Result<u8, EmuError>)
        ensures
            target_addr <= AREA7_END_ADDR ==> r == Ok::<u8, EmuError>(
                (target_addr / AREA_SIZE) as u8,
            ),
            target_addr > AREA7_END_ADDR ==> r == Err::<u8, EmuError>(
                EmuError::InvalidAddress(target_addr),
            ),
    {
        if target_addr <= AREA0_END_ADDR {
            Ok(0)
        } else if target_addr <= AREA1_END_ADDR {
            Ok(1)
        } else if target_addr <= AREA2_END_ADDR {
            Ok(2)
        } else if target_addr <= AREA3_END_ADDR {
            Ok(3)
        } else if target_addr <= AREA4_END_ADDR {
            Ok(4)
        } else if target_addr <= AREA5_END_ADDR {
            Ok(5)
        } else if target_addr <= AREA6_END_ADDR {
            Ok(6)
        } else if target_addr <= AREA7_END_ADDR {
            Ok(7)
        } else {
            Err(EmuError::InvalidAddress(target_addr))
        }
    }

    /// Whether area `area_index` is configured as DRAM space by DRCRA.
    pub fn check_dram_area(&self, area_index: u8) -> (r: Result<bool, EmuError>)
        requires
            self.wf(),
        ensures
            r == Ok::<bool, EmuError>(spec_dram_area(self@[DRCRA], area_index)),
    {
        let register = match self.read(DRCRA) {
            Ok(v) => v >> 5,
            Err(e) => return Err(e),
        };
        if area_index == 2 {
            Ok(register >= 1)
        } else if area_index == 3 {
            Ok(register >= 2)
        } else if area_index == 4 {
            Ok(register >= 4)
        } else if area_index == 5 {
            Ok(register >= 5)
        } else {
            Ok(false)
        }
    }
}

} // verus!
