use vstd::prelude::*;

use crate::bus::{is_mapped, spec_dram_area, Bus, AREA7_END_ADDR};
use crate::cpu::addressing_mode::abs::be_word;
use crate::error::EmuError;
use crate::memory::{MEMORY_END_ADDR, MEMORY_START_ADDR};
use crate::registers::{ABWCR, ASTCR, DRCRA, WCRH, WCRL};

pub mod addressing_mode;
pub mod exec;
pub mod instruction;
pub mod interrupt_controller;
pub mod messages;
pub mod ready;
pub mod run;

use crate::cpu::interrupt_controller::InterruptController;

verus! {

/// The CPU drives the bus with 24-bit addresses.
pub const ADDRESS_MASK: u32 = 0x00ffffff;

/// Clock frequency of the emulated CPU in Hz.
pub const CPU_CLOCK: usize = 20_000_000;

/// The H8/300H CPU core: eight 32-bit general registers ER0 to ER7 (ER7 is the
/// stack pointer), the program counter, the condition code register and the
/// bus it is attached to.
#[derive(Clone)]
pub struct Cpu {
    pub bus: Bus,
    pub pc: u32,
    /// Address of the instruction being executed.
    pub operating_pc: u32,
    pub ccr: u8,
    pub er: [u32; 8],
    /// Address of the program's `___exit` routine.
    pub exit_addr: u32,
    pub interrupt_controller: InterruptController,
    /// Bytes that the program wrote to its console, not yet shown.
    pub console: Vec<u8>,
}

/// Bits of the condition code register, from bit 0 upwards.
#[derive(Debug, Clone, Copy, PartialEq, Eq, Structural)]
pub enum CCR {
    C,
    V,
    Z,
    N,
    U,
    H,
    UI,
    I,
}

/// The kinds of bus cycle by which the manual counts the states of an
/// instruction: I instruction fetch, J branch address read, K stack access,
/// L byte data access, M word data access, N internal operation.
#[derive(Debug, Clone, Copy, PartialEq, Eq, Structural)]
pub enum StateType {
    I,
    J,
    K,
    L,
    M,
    N,
}

/// What the contracts of the CPU speak of.
#[verifier::ext_equal]
pub struct CpuView {
    pub mem: Map<u32, u8>,
    pub er: Seq<u32>,
    pub pc: u32,
    pub operating_pc: u32,
    pub ccr: u8,
    pub exit_addr: u32,
    pub interrupts: Seq<u8>,
    pub console: Seq<u8>,
    pub outbox: Seq<String>,
    pub ports: Seq<u8>,
}

impl View for Cpu {
    type V = CpuView;

    open spec fn view(&self) -> CpuView {
        CpuView {
            mem: self.bus@,
            er: self.er@,
            pc: self.pc,
            operating_pc: self.operating_pc,
            ccr: self.ccr,
            exit_addr: self.exit_addr,
            interrupts: self.interrupt_controller@,
            console: self.console@,
            outbox: self.bus.outbox@,
            ports: self.bus.io_port_in@,
        }
    }
}

impl CCR {
    /// The position of the flag in the condition code register.
    pub open spec fn spec_bit(self) -> u8 {
        match self {
            CCR::C => 0,
            CCR::V => 1,
            CCR::Z => 2,
            CCR::N => 3,
            CCR::U => 4,
            CCR::H => 5,
            CCR::UI => 6,
            CCR::I => 7,
        }
    }

    /// The position of the flag in the condition code register.
    pub fn bit(&self) -> (b: u8)
        ensures
            b == self.spec_bit(),
    {
        match self {
            CCR::C => 0,
            CCR::V => 1,
            CCR::Z => 2,
            CCR::N => 3,
            CCR::U => 4,
            CCR::H => 5,
            CCR::UI => 6,
            CCR::I => 7,
        }
    }
}

/// The value (0 or 1) of bit `bit` of `ccr`.
pub open spec fn flag_of(ccr: u8, bit: u8) -> u8 {
    (ccr >> bit) & 1
}

/// `ccr` with bit `bit` set to `on`.
pub open spec fn with_flag(ccr: u8, bit: u8, on: bool) -> u8 {
    if on {
        ccr | (1u8 << bit)
    } else {
        ccr & !(1u8 << bit)
    }
}

/// Two bits of a byte read at most 3.
pub proof fn lemma_two_bits(v: u8, s: u8)
    ensures
        (v >> s) & 3 <= 3,
{
    assert((v >> s) & 3 <= 3) by (bit_vector);
}

/// A flag reads 0 or 1.
pub proof fn lemma_flag_le_1(ccr: u8, bit: u8)
    ensures
        flag_of(ccr, bit) <= 1,
{
    assert((ccr >> bit) & 1 <= 1) by (bit_vector);
}

/// Setting a flag and reading it back gives the value set; the other flags
/// keep their values.
pub proof fn lemma_flag_write_read(ccr: u8, bit: u8, on: bool, other: u8)
    requires
        bit < 8,
        other < 8,
    ensures
        flag_of(with_flag(ccr, bit, on), bit) == (if on { 1u8 } else { 0u8 }),
        other != bit ==> flag_of(with_flag(ccr, bit, on), other) == flag_of(ccr, other),
{
    assert(((ccr | (1u8 << bit)) >> bit) & 1 == 1u8 && ((ccr & !(1u8 << bit)) >> bit) & 1 == 0u8)
        by (bit_vector)
        requires
            bit < 8,
    ;
    assert(other != bit ==> ((ccr | (1u8 << bit)) >> other) & 1 == (ccr >> other) & 1 && ((ccr & !(1u8
        << bit)) >> other) & 1 == (ccr >> other) & 1) by (bit_vector)
        requires
            bit < 8,
            other < 8,
    ;
}

/// The wait states that WCRH/WCRL give external area `area_index`.
pub open spec fn spec_wait_state(mem: Map<u32, u8>, area_index: u8) -> u8 {
    if area_index < 4 {
        (mem[WCRL] >> (area_index * 2)) & 3
    } else {
        (mem[WCRH] >> ((area_index - 4) as u8 * 2)) & 3
    }
}

/// The number of clock states that `state` cycles of type `state_type` take
/// at `addr`, given the bus controller registers in `mem`; `None` where
/// `addr` lies outside the 24-bit address space.
pub open spec fn spec_cycles(mem: Map<u32, u8>, state_type: StateType, state: u8, addr: u32) -> Option<int> {
    if state_type == StateType::N {
        Some(state as int)
    } else if MEMORY_START_ADDR <= addr <= MEMORY_END_ADDR {
        Some(2 * state)
    } else if addr <= AREA7_END_ADDR {
        let area = (addr / 0x200000) as u8;
        let wait = spec_wait_state(mem, area) as int;
        let byte_access = state_type == StateType::L;
        if (mem[ABWCR] >> area) & 1 == 1 {
            // 8-bit bus
            if spec_dram_area(mem[DRCRA], area) {
                Some(if byte_access { state * (4 + wait) } else { state * (8 + 2 * wait) })
            } else if (mem[ASTCR] >> area) & 1 == 0 {
                Some(if byte_access { 2 * state } else { 4 * state })
            } else {
                Some(if byte_access { state * (3 + wait) } else { state * (6 + 2 * wait) })
            }
        } else {
            // 16-bit bus
            if spec_dram_area(mem[DRCRA], area) {
                Some(state * (4 + wait))
            } else if (mem[ASTCR] >> area) & 1 == 0 {
                Some(2 * state)
            } else {
                Some(state * (3 + wait))
            }
        }
    } else {
        None
    }
}

/// The cycle count fits the `u8` in which it is returned.
pub open spec fn cycles_fit(mem: Map<u32, u8>, state_type: StateType, state: u8, addr: u32) -> bool {
    match spec_cycles(mem, state_type, state, addr) {
        Some(c) => c <= 255,
        None => true,
    }
}

/// What `calc_state_with_addr` returns.
pub open spec fn cycles_result(mem: Map<u32, u8>, state_type: StateType, state: u8, addr: u32) -> Result<u8, EmuError> {
    match spec_cycles(mem, state_type, state, addr) {
        Some(c) => Ok(c as u8),
        None => Err(EmuError::InvalidAddress(addr)),
    }
}

/// What `calc_state` returns at the instruction address `pc`: types L and M
/// are refused, as they need an address of their own.
pub open spec fn calc_state_result(mem: Map<u32, u8>, state_type: StateType, state: u8, pc: u32) -> Result<u8, EmuError> {
    if state_type == StateType::L || state_type == StateType::M {
        Err(EmuError::StateTypeNeedsAddress)
    } else {
        cycles_result(mem, state_type, state, pc)
    }
}

/// For the types that need no address of their own, the count at the
/// instruction is the count at the instruction's address: `calc_state`
/// gives what `calc_state_with_addr` gives at the operating address.
pub proof fn law_calc_state_at_pc(mem: Map<u32, u8>, state_type: StateType, state: u8, pc: u32)
    requires
        state_type != StateType::L,
        state_type != StateType::M,
    ensures
        calc_state_result(mem, state_type, state, pc) == cycles_result(mem, state_type, state, pc),
{
}

/// No access takes more than 14 states per cycle.
pub proof fn lemma_cycles_bound(mem: Map<u32, u8>, state_type: StateType, state: u8, addr: u32)
    ensures
        spec_cycles(mem, state_type, state, addr) matches Some(c) ==> 0 <= c <= 14 * state,
{
    if addr <= AREA7_END_ADDR && state_type != StateType::N && !(MEMORY_START_ADDR <= addr
        <= MEMORY_END_ADDR) {
        let area = (addr / 0x200000) as u8;
        let w = spec_wait_state(mem, area);
        assert(w <= 3) by {
            let a = mem[WCRL];
            let b = mem[WCRH];
            assert forall|s: u8| #![auto] (a >> s) & 3 <= 3 && (b >> s) & 3 <= 3 by {
                lemma_two_bits(a, s);
                lemma_two_bits(b, s);
            }
        }
        assert(state * (8 + 2 * w) <= 14 * state) by (nonlinear_arith)
            requires
                w <= 3,
        ;
        assert(state * (6 + 2 * w) <= 14 * state) by (nonlinear_arith)
            requires
                w <= 3,
        ;
        assert(state * (4 + w) <= 14 * state) by (nonlinear_arith)
            requires
                w <= 3,
        ;
        assert(state * (3 + w) <= 14 * state) by (nonlinear_arith)
            requires
                w <= 3,
        ;
    }
}

/// The address from which an instruction word is fetched: the program
/// counter with its lowest bit cleared.
pub open spec fn fetch_addr(pc: u32) -> u32 {
    pc & 0xfffffffe
}

/// The instruction word can be fetched: both of its bytes are mapped.
pub open spec fn can_fetch(v: CpuView) -> bool {
    is_mapped(fetch_addr(v.pc)) && is_mapped((fetch_addr(v.pc) + 1) as u32)
}

/// The word that a fetch reads.
pub open spec fn fetched_word(v: CpuView) -> u16 {
    be_word(v.mem[fetch_addr(v.pc)], v.mem[(fetch_addr(v.pc) + 1) as u32])
}

/// The state after a fetch: the program counter moved past the word, which
/// becomes the operating address.
pub open spec fn fetched(v: CpuView) -> CpuView {
    CpuView { pc: (v.pc + 2) as u32, operating_pc: fetch_addr(v.pc), ..v }
}

/// Two words can be fetched one after the other.
pub open spec fn can_fetch2(v: CpuView) -> bool {
    can_fetch(v) && can_fetch(fetched(v))
}

/// Three words can be fetched one after the other.
pub open spec fn can_fetch3(v: CpuView) -> bool {
    can_fetch(v) && can_fetch2(fetched(v))
}

/// The long word made of the next two instruction words.
pub open spec fn fetched_long(v: CpuView) -> u32 {
    ((fetched_word(v) as u32) << 16u32) | (fetched_word(fetched(v)) as u32)
}

impl Cpu {
    /// The CPU's state is well formed when its bus is.
    pub open spec fn wf(&self) -> bool {
        self.bus.wf()
    }

    /// A CPU with every register, flag and byte of memory zero and the
    /// program counter at the start of on-chip memory.
    pub fn new() -> (cpu: Self)
        ensures
            cpu.wf(),
            forall|a: u32| is_mapped(a) ==> #[trigger] cpu@.mem[a] == 0,
            cpu@.mem.dom() == Set::new(|a: u32| is_mapped(a)),
            cpu@.er == seq![0u32; 8],
            cpu@.pc == MEMORY_START_ADDR,
            cpu@.operating_pc == 0,
            cpu@.ccr == 0,
            cpu@.exit_addr == 0,
            cpu@.interrupts.len() == 0,
            cpu@.console.len() == 0,
            cpu@.outbox.len() == 0,
    {
        let cpu = Cpu {
            bus: Bus::new(),
            pc: MEMORY_START_ADDR,
            operating_pc: 0,
            ccr: 0,
            er: [0u32; 8],
            exit_addr: 0,
            interrupt_controller: InterruptController::new(),
            console: Vec::new(),
        };
        assert(cpu@.er =~= seq![0u32; 8]);
        cpu
    }

    /// Sets (`val == 1`) or clears (`val == 0`) flag `target`.
    pub fn write_ccr(&mut self, target: CCR, val: u8)
        requires
            val <= 1,
        ensures
            final(self)@ == (CpuView {
                ccr: with_flag(old(self).ccr, target.spec_bit(), val == 1),
                ..old(self)@
            }),
            final(self).bus == old(self).bus,
    {
        let bit = target.bit();
        if val == 0 {
            self.ccr = self.ccr & !(1u8 << bit);
        } else {
            self.ccr = self.ccr | (1u8 << bit);
        }
    }

    /// Sets flag `target` where `on` holds, clears it otherwise.
    pub fn change_ccr(&mut self, target: CCR, on: bool)
        ensures
            final(self)@ == (CpuView { ccr: with_flag(old(self).ccr, target.spec_bit(), on), ..old(self)@ }),
            final(self).bus == old(self).bus,
    {
        if on {
            self.write_ccr(target, 1);
        } else {
            self.write_ccr(target, 0);
        }
    }

    /// The value (0 or 1) of flag `target`.
    pub fn read_ccr(&self, target: CCR) -> (r: u8)
        ensures
            r == flag_of(self.ccr, target.spec_bit()),
            r <= 1,
    {
        let c = self.ccr;
        let b = target.bit();
        proof {
            lemma_flag_le_1(c, b);
        }
        (c >> b) & 1
    }

    pub fn read_pc(&self) -> (r: u32)
        ensures
            r == self.pc,
    {
        self.pc
    }

    /// Reads the instruction word at the program counter (lowest bit
    /// cleared) and moves the program counter past it.
    pub fn fetch(&mut self) -> (r: u16)
        requires
            old(self).wf(),
            can_fetch(old(self)@),
        ensures
            final(self).wf(),
            final(self).bus == old(self).bus,
            final(self)@ == fetched(old(self)@),
            r == fetched_word(old(self)@),
    {
        let cur = self.pc;
        let pc = cur & 0xfffffffe;
        assert(pc <= cur && cur <= pc + 1) by (bit_vector)
            requires
                pc == cur & 0xfffffffe,
        ;
        self.operating_pc = pc;
        let hi = self.bus.read(pc).unwrap();
        let lo = self.bus.read(pc + 1).unwrap();
        self.pc = self.pc + 2;
        ((hi as u16) << 8) | (lo as u16)
    }

    /// The wait states of external area `area_index` (0 to 7).
    pub fn get_wait_state(&self, area_index: u8) -> (r: Result<u8, EmuError>)
        requires
            self.wf(),
        ensures
            area_index <= 7 ==> r == Ok::<u8, EmuError>(spec_wait_state(self@.mem, area_index)),
            r matches Ok(w) ==> w <= 3,
            area_index > 7 ==> r == Err::<u8, EmuError>(EmuError::InvalidAreaIndex(area_index)),
    {
        if area_index <= 3 {
            match self.bus.read(WCRL) {
                Ok(v) => {
                    let w = (v >> (area_index * 2)) & 0x3;
                    proof {
                        lemma_two_bits(v, (area_index * 2) as u8);
                    }
                    Ok(w)
                },
                Err(e) => Err(e),
            }
        } else if area_index <= 7 {
            match self.bus.read(WCRH) {
                Ok(v) => {
                    let shift: u8 = (area_index - 4) * 2;
                    let w = (v >> shift) & 0x3;
                    proof {
                        lemma_two_bits(v, shift);
                    }
                    Ok(w)
                },
                Err(e) => Err(e),
            }
        } else {
            Err(EmuError::InvalidAreaIndex(area_index))
        }
    }

    /// The states that `state` cycles of type `state_type` take at the
    /// address of the current instruction; types L and M need an address of
    /// their own and are refused.
    pub fn calc_state(&self, state_type: StateType, state: u8) -> (r: Result<u8, EmuError>)
        requires
            self.wf(),
            cycles_fit(self@.mem, state_type, state, self.operating_pc),
        ensures
            r == calc_state_result(self@.mem, state_type, state, self.operating_pc),
    {
        if state_type == StateType::L || state_type == StateType::M {
            return Err(EmuError::StateTypeNeedsAddress);
        }
        self.calc_state_with_addr(state_type, state, self.operating_pc)
    }

    /// The states that `state` cycles of type `state_type` take at
    /// `target_addr`, by the bus width, access states, wait states and DRAM
    /// settings of the area that holds it.
    pub fn calc_state_with_addr(&self, state_type: StateType, state: u8, target_addr: u32) -> (r:
        Result<u8, EmuError>)
        requires
            self.wf(),
            cycles_fit(self@.mem, state_type, state, target_addr),
        ensures
            r == cycles_result(self@.mem, state_type, state, target_addr),
    {
        if state_type == StateType::N {
            return Ok(state);
        }
        if MEMORY_START_ADDR <= target_addr && target_addr <= MEMORY_END_ADDR {
            return Ok(state * 2);
        }
        if target_addr > AREA7_END_ADDR {
            return Err(EmuError::InvalidAddress(target_addr));
        }
        let area_index = match Bus::get_area_index(target_addr) {
            Ok(i) => i,
            Err(e) => return Err(e),
        };
        let abwcr = match self.bus.read(ABWCR) {
            Ok(v) => v,
            Err(e) => return Err(e),
        };
        let astcr = match self.bus.read(ASTCR) {
            Ok(v) => v,
            Err(e) => return Err(e),
        };
        let is_dram = match self.bus.check_dram_area(area_index) {
            Ok(b) => b,
            Err(e) => return Err(e),
        };
        let wait_state = match self.get_wait_state(area_index) {
            Ok(w) => w,
            Err(e) => return Err(e),
        };
        let byte_access = state_type == StateType::L;
        if (abwcr >> area_index) & 1 == 1 {
            // 8-bit bus
            if is_dram {
                if byte_access {
                    Ok(state * (4 + wait_state))
                } else {
                    Ok(state * (8 + 2 * wait_state))
                }
            } else if (astcr >> area_index) & 1 == 0 {
                if byte_access {
                    Ok(state * 2)
                } else {
                    Ok(state * 4)
                }
            } else {
                if byte_access {
                    Ok(state * (3 + wait_state))
                } else {
                    Ok(state * (6 + 2 * wait_state))
                }
            }
        } else {
            // 16-bit bus
            if is_dram {
                Ok(state * (4 + wait_state))
            } else if (astcr >> area_index) & 1 == 0 {
                Ok(state * 2)
            } else {
                Ok(state * (3 + wait_state))
            }
        }
    }

    /// Sets the bus controller registers to the values the program expects:
    /// 8-bit access everywhere, three-state access except in area 2, three
    /// wait states except in area 2, and area 2 as DRAM space.
    pub fn init_registers(&mut self) -> (r: Result<(), EmuError>)
        requires
            old(self).wf(),
        ensures
            final(self).wf(),
            r is Ok,
            final(self)@ == (CpuView {
                mem: old(self)@.mem.insert(ABWCR, 0xff).insert(ASTCR, 0xfb).insert(WCRH, 0xff).insert(
                    WCRL,
                    0xcf,
                ).insert(DRCRA, 0xe0),
                ..old(self)@
            }),
    {
        match self.bus.write(ABWCR, 0xff) {
            Ok(_) => {},
            Err(e) => return Err(e),
        }
        match self.bus.write(ASTCR, 0xfb) {
            Ok(_) => {},
            Err(e) => return Err(e),
        }
        match self.bus.write(WCRH, 0xff) {
            Ok(_) => {},
            Err(e) => return Err(e),
        }
        match self.bus.write(WCRL, 0xcf) {
            Ok(_) => {},
            Err(e) => return Err(e),
        }
        match self.bus.write(DRCRA, 0xe0) {
            Ok(_) => {},
            Err(e) => return Err(e),
        }
        Ok(())
    }
}

} // verus!
