use vstd::prelude::*;

use crate::cpu::addressing_mode::abs::{spec_addr_abs16, store_w};
use crate::cpu::addressing_mode::dec_ern::modified_store;
use crate::cpu::addressing_mode::disp::{addr_disp16_result, addr_disp24_result, disp24_in_range, store_w_at};
use crate::cpu::addressing_mode::rn::spec_set_rn_b;
use crate::cpu::instruction::{add_cycles, cyc, data_cycles, lemma_byte_masks, lemma_small_cycles, make_long, nibble};
use crate::cpu::{can_fetch, can_fetch2, can_fetch3, fetched, fetched_long, fetched_word, Cpu, CpuView, StateType, ADDRESS_MASK};
use crate::error::EmuError;

verus! {

/// CCR stored as a word at `addr`, by an instruction of `fetch` words whose
/// data access is counted at `count_addr`; a store that fails keeps what it
/// stored before failing.
pub open spec fn stc_w_post(
    old: CpuView,
    new: CpuView,
    r: Result<u8, EmuError>,
    addr: Result<u32, EmuError>,
    fetch: u8,
    count_addr: u32,
) -> bool {
    let (m, res) = store_w_at(old.mem, addr, old.ccr as u16);
    &&& new == (CpuView { mem: m, ..old })
    &&& r == if res is Err {
        Err::<u8, EmuError>(res->Err_0)
    } else {
        data_cycles(new, fetch, StateType::M, 1, count_addr)
    }
}

/// What `STC.W CCR, @ERd` does with second word `opcode2`; the access is
/// counted at the full value of ERd.
pub open spec fn stc_w_ern_post(old: CpuView, new: CpuView, opcode2: u16, r: Result<u8, EmuError>) -> bool {
    let erd = nibble(opcode2, 3) & 7;
    stc_w_post(old, new, r, Ok(old.er[erd as int] & ADDRESS_MASK), 2, old.er[erd as int])
}

/// What `STC.W CCR, @(d:16, ERd)` does.
pub open spec fn stc_w_disp16_post(old: CpuView, new: CpuView, opcode2: u16, r: Result<u8, EmuError>) -> bool {
    let v1 = fetched(old);
    let a = addr_disp16_result(v1.er, nibble(opcode2, 3) & 7, fetched_word(old));
    stc_w_post(v1, new, r, a, 3, a->Ok_0)
}

/// What `STC.W CCR, @(d:24, ERd)` needs: the third word and the two
/// displacement words, and a displacement that keeps the address within 32 bits.
pub open spec fn stc_w_disp24_pre(v: CpuView, opcode2: u16) -> bool {
    can_fetch3(v) && disp24_in_range(fetched(fetched(fetched(v))).er, nibble(opcode2, 3), fetched_long(fetched(v)))
}

/// What `STC.W CCR, @(d:24, ERd)` does: the third word is skipped, the
/// displacement is the two words after it.
pub open spec fn stc_w_disp24_post(old: CpuView, new: CpuView, opcode2: u16, r: Result<u8, EmuError>) -> bool {
    let v3 = fetched(fetched(fetched(old)));
    let a = addr_disp24_result(v3.er, nibble(opcode2, 3), fetched_long(fetched(old)));
    stc_w_post(v3, new, r, a, 5, a->Ok_0)
}

/// What the store form with second word 0x6d__ does: CCR is written where
/// ERd points, then ERd goes up by 2.
pub open spec fn stc_w_inc_ern_post(old: CpuView, new: CpuView, opcode2: u16, r: Result<u8, EmuError>) -> bool {
    let erd = nibble(opcode2, 3) & 7;
    let base = old.er[erd as int];
    let w = store_w(old.mem, base & ADDRESS_MASK, old.ccr as u16);
    let p = modified_store(old, erd, (base + 2) as u32, w);
    &&& new == p
    &&& r == if w.1 is Err {
        Err::<u8, EmuError>(w.1->Err_0)
    } else {
        add_cycles(data_cycles(p, 2, StateType::M, 1, base), cyc(p, StateType::N, 2))
    }
}

/// The state after `STC.B CCR, Rd`, from `old` to `new`, and its result `r`.
pub open spec fn stc_b_post(old: CpuView, new: CpuView, opcode: u16, r: Result<u8, EmuError>) -> bool {
    &&& new == (CpuView { er: spec_set_rn_b(old.er, nibble(opcode, 4), old.ccr), ..old })
    &&& r == cyc(old, StateType::I, 1)
}

/// The states in which `STC.W CCR, @(d:16, ERd)` can run.
pub open spec fn stc_w_disp16_pre(v: CpuView, opcode2: u16) -> bool {
    &&& can_fetch(v)
}

/// The states in which the store form of `STC.W` with second word 0x6d_ can run.
pub open spec fn stc_w_inc_ern_pre(v: CpuView, opcode2: u16) -> bool {
    &&& v.er[(nibble(opcode2, 3) & 7) as int] + 2 <= u32::MAX
}

/// The states in which `STC.W CCR, @aa:16` can run.
pub open spec fn stc_abs16_pre(v: CpuView) -> bool {
    &&& can_fetch(v)
}

/// The state after `STC.W CCR, @aa:16`, from `old` to `new`, and its result `r`.
pub open spec fn stc_abs16_post(old: CpuView, new: CpuView, r: Result<u8, EmuError>) -> bool {
    &&& ({
        let a = spec_addr_abs16(fetched_word(old));
        stc_w_post(fetched(old), new, r, Ok(a), 3, a)
    })
}

/// The states in which `STC.W CCR, @aa:24` can run.
pub open spec fn stc_abs24_pre(v: CpuView) -> bool {
    &&& can_fetch2(v)
}

/// The state after `STC.W CCR, @aa:24`, from `old` to `new`, and its result `r`.
pub open spec fn stc_abs24_post(old: CpuView, new: CpuView, r: Result<u8, EmuError>) -> bool {
    &&& ({
        let a = fetched_long(old);
        stc_w_post(fetched(fetched(old)), new, r, Ok(a), 4, a)
    })
}

impl Cpu {
    /// `STC.B CCR, Rd`: byte register Rd (nibble 4) becomes CCR.
    pub fn stc_b(&mut self, opcode: u16) -> (r: Result<u8, EmuError>)
        requires
            old(self).wf(),
        ensures
            final(self).wf(),
            stc_b_post(old(self)@, final(self)@, opcode, r),
    {
        let rd = Cpu::get_nibble_opcode(opcode, 4).unwrap();
        let ccr = self.ccr;
        self.write_rn_b(rd, ccr).unwrap();
        proof {
            lemma_small_cycles(self@.mem, StateType::I, 1, self.operating_pc);
        }
        self.calc_state(StateType::I, 1)
    }

    /// `STC.W CCR, @ERd` (second word 0x69 with bit 7 set).
    pub fn stc_w_ern(&mut self, opcode2: u16) -> (r: Result<u8, EmuError>)
        requires
            old(self).wf(),
        ensures
            final(self).wf(),
            stc_w_ern_post(old(self)@, final(self)@, opcode2, r),
    {
        let n3 = Cpu::get_nibble_opcode(opcode2, 3).unwrap();
        proof {
            lemma_byte_masks(n3);
        }
        let erd = n3 & 0b111;
        let addr = self.read_rn_l(erd).unwrap();
        let ccr = self.ccr;
        match self.write_ern_w(erd, ccr as u16) {
            Ok(_) => {},
            Err(e) => return Err(e),
        }
        self.data_states(2, StateType::M, 1, addr)
    }

    /// `STC.W CCR, @(d:16, ERd)` (second word 0x6f with bit 7 set).
    pub fn stc_w_disp16(&mut self, opcode2: u16) -> (r: Result<u8, EmuError>)
        requires
            old(self).wf(),
            stc_w_disp16_pre(old(self)@, opcode2),
        ensures
            final(self).wf(),
            stc_w_disp16_post(old(self)@, final(self)@, opcode2, r),
    {
        let erd = Cpu::get_nibble_opcode(opcode2, 3).unwrap() & 0b111;
        let disp = self.fetch();
        let addr = match self.get_addr_disp16(erd, disp) {
            Ok(a) => a,
            Err(e) => return Err(e),
        };
        let ccr = self.ccr;
        match self.write_abs24_w(addr, ccr as u16) {
            Ok(_) => {},
            Err(e) => return Err(e),
        }
        self.data_states(3, StateType::M, 1, addr)
    }

    /// `STC.W CCR, @(d:24, ERd)` (second word 0x78).
    pub fn stc_w_disp24(&mut self, opcode2: u16) -> (r: Result<u8, EmuError>)
        requires
            old(self).wf(),
            stc_w_disp24_pre(old(self)@, opcode2),
        ensures
            final(self).wf(),
            stc_w_disp24_post(old(self)@, final(self)@, opcode2, r),
    {
        let erd = Cpu::get_nibble_opcode(opcode2, 3).unwrap();
        let _opcode3 = self.fetch();
        let hi = self.fetch();
        let lo = self.fetch();
        let disp = make_long(hi, lo);
        let addr = match self.get_addr_disp24(erd, disp) {
            Ok(a) => a,
            Err(e) => return Err(e),
        };
        let ccr = self.ccr;
        match self.write_abs24_w(addr, ccr as u16) {
            Ok(_) => {},
            Err(e) => return Err(e),
        }
        self.data_states(5, StateType::M, 1, addr)
    }

    /// The store form with second word 0x6d and bit 7 set: CCR is written
    /// where ERd points, then ERd goes up by 2.
    pub fn stc_w_inc_ern(&mut self, opcode2: u16) -> (r: Result<u8, EmuError>)
        requires
            old(self).wf(),
            stc_w_inc_ern_pre(old(self)@, opcode2),
        ensures
            final(self).wf(),
            stc_w_inc_ern_post(old(self)@, final(self)@, opcode2, r),
    {
        let n3 = Cpu::get_nibble_opcode(opcode2, 3).unwrap();
        proof {
            lemma_byte_masks(n3);
        }
        let erd = n3 & 0b111;
        let addr = self.read_rn_l(erd).unwrap();
        let ccr = self.ccr;
        match self.write_inc_ern_w(erd, ccr as u16) {
            Ok(_) => {},
            Err(e) => return Err(e),
        }
        let s1 = match self.data_states(2, StateType::M, 1, addr) {
            Ok(s) => s,
            Err(e) => return Err(e),
        };
        let s2 = match self.calc_state(StateType::N, 2) {
            Ok(s) => s,
            Err(e) => return Err(e),
        };
        Ok(s1 + s2)
    }

    /// `STC.W CCR, @aa:16`.
    pub fn stc_abs16(&mut self) -> (r: Result<u8, EmuError>)
        requires
            old(self).wf(),
            stc_abs16_pre(old(self)@),
        ensures
            final(self).wf(),
            stc_abs16_post(old(self)@, final(self)@, r),
    {
        let addr = self.fetch();
        let read_addr = self.get_addr_abs16(addr);
        let ccr = self.ccr;
        match self.write_abs16_w(addr, ccr as u16) {
            Ok(_) => {},
            Err(e) => return Err(e),
        }
        self.data_states(3, StateType::M, 1, read_addr)
    }

    /// `STC.W CCR, @aa:24`.
    pub fn stc_abs24(&mut self) -> (r: Result<u8, EmuError>)
        requires
            old(self).wf(),
            stc_abs24_pre(old(self)@),
        ensures
            final(self).wf(),
            stc_abs24_post(old(self)@, final(self)@, r),
    {
        let hi = self.fetch();
        let lo = self.fetch();
        let addr = make_long(hi, lo);
        let ccr = self.ccr;
        match self.write_abs24_w(addr, ccr as u16) {
            Ok(_) => {},
            Err(e) => return Err(e),
        }
        self.data_states(4, StateType::M, 1, addr)
    }
}

} // verus!
