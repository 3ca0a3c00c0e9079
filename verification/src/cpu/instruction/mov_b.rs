use vstd::prelude::*;

use crate::cpu::addressing_mode::abs::{load_b, spec_addr_abs16, spec_addr_abs8, store_b};
use crate::cpu::addressing_mode::dec_ern::modified_store;
use crate::cpu::addressing_mode::disp::{addr_disp16_result, addr_disp24_result, disp24_in_range, load_b_at, store_b_at};
use crate::cpu::addressing_mode::ern::addr_ern_result;
use crate::cpu::addressing_mode::rn::spec_rn_b;
use crate::cpu::instruction::not::{logic_b_state, logic_ccr};
use crate::cpu::instruction::{add_cycles, cyc, data_cycles, get_high_byte, get_low_byte, high_byte, lemma_byte_masks, low_byte, make_long, nibble};
use crate::cpu::{can_fetch, can_fetch2, cycles_result, fetched, fetched_long, fetched_word, Cpu, CpuView, StateType, ADDRESS_MASK, CCR};
use crate::error::EmuError;

verus! {

/// `v` with the flags that moving `value` sets: N its sign, Z whether it is
/// zero, V cleared.
pub open spec fn mov_b_flags(v: CpuView, value: u8) -> CpuView {
    CpuView { ccr: logic_ccr(v.ccr, value >= 0x80, value == 0), ..v }
}

/// A byte moved from the memory at `addr` into byte register `rd`, by an
/// instruction of `fetch` words: nothing changes where the address cannot be
/// formed or read.
pub open spec fn mov_b_load_post(
    old: CpuView,
    new: CpuView,
    r: Result<u8, EmuError>,
    addr: Result<u32, EmuError>,
    rd: u8,
    fetch: u8,
) -> bool {
    match load_b_at(old.mem, addr) {
        Err(e) => new == old && r == Err::<u8, EmuError>(e),
        Ok(x) => new == logic_b_state(old, rd, x) && r == data_cycles(old, fetch, StateType::L, 1, addr->Ok_0),
    }
}

/// The byte `value` moved into the memory at `addr` by an instruction of
/// `fetch` words; the states are counted with the memory as the move left it.
pub open spec fn mov_b_store_post(
    old: CpuView,
    new: CpuView,
    r: Result<u8, EmuError>,
    addr: Result<u32, EmuError>,
    value: u8,
    fetch: u8,
) -> bool {
    let (m, res) = store_b_at(old.mem, addr, value);
    if res is Err {
        new == (CpuView { mem: m, ..old }) && r == Err::<u8, EmuError>(res->Err_0)
    } else {
        new == mov_b_flags(CpuView { mem: m, ..old }, value) && r == data_cycles(
            CpuView { mem: m, ..old },
            fetch,
            StateType::L,
            1,
            addr->Ok_0,
        )
    }
}

/// `MOV.B @ERs+, Rd` (bit 7 clear) needs room to increment ERs; `MOV.B Rs,
/// @-ERd` needs ERd to be at least 1.
pub open spec fn mov_b_inc_dec_pre(v: CpuView, opcode: u16) -> bool {
    if opcode & 0x80 == 0 {
        nibble(opcode, 3) < 8 ==> v.er[nibble(opcode, 3) as int] + 1 <= u32::MAX
    } else {
        v.er[(nibble(opcode, 3) & 7) as int] >= 1
    }
}

/// What `MOV.B @ERs+, Rd` and `MOV.B Rs, @-ERd` do.
pub open spec fn mov_b_inc_dec_post(old: CpuView, new: CpuView, opcode: u16, r: Result<u8, EmuError>) -> bool {
    let rd = nibble(opcode, 4);
    if opcode & 0x80 == 0 {
        let rs = nibble(opcode, 3);
        if rs >= 8 {
            new == old && r == Err::<u8, EmuError>(EmuError::InvalidRegister(rs))
        } else {
            let a = old.er[rs as int] & ADDRESS_MASK;
            match load_b(old.mem, a) {
                Err(e) => new == old && r == Err::<u8, EmuError>(e),
                Ok(x) => new == logic_b_state(
                    CpuView { er: old.er.update(rs as int, (old.er[rs as int] + 1) as u32), ..old },
                    rd,
                    x,
                ) && r == add_cycles(data_cycles(old, 1, StateType::L, 1, a), cyc(old, StateType::N, 2)),
            }
        }
    } else {
        let ern = nibble(opcode, 3) & 7;
        let x = spec_rn_b(old.er, rd);
        let na = (old.er[ern as int] - 1) as u32;
        let w = store_b(old.mem, na & ADDRESS_MASK, x);
        let p = modified_store(old, ern, na, w);
        if w.1 is Err {
            new == p && r == Err::<u8, EmuError>(w.1->Err_0)
        } else {
            new == mov_b_flags(p, x) && r == add_cycles(
                data_cycles(p, 1, StateType::L, 1, na & ADDRESS_MASK),
                cyc(p, StateType::N, 2),
            )
        }
    }
}

/// What `MOV.B` needs: the words that follow the first, and room to move ERn.
pub open spec fn mov_b_pre(v: CpuView, opcode: u16) -> bool {
    let high = high_byte(opcode);
    let sub = opcode & 0xfff0;
    &&& high == 0x6e ==> can_fetch(v)
    &&& high == 0x6c ==> mov_b_inc_dec_pre(v, opcode)
    &&& (sub == 0x6a00 || sub == 0x6a80) ==> can_fetch(v)
    &&& (sub == 0x6a20 || sub == 0x6aa0) ==> can_fetch2(v)
}

/// What `MOV.B` does, by the high byte of its first word.
pub open spec fn mov_b_post(old: CpuView, new: CpuView, opcode: u16, r: Result<u8, EmuError>) -> bool {
    let high = high_byte(opcode);
    let n2 = nibble(opcode, 2);
    let n3 = nibble(opcode, 3);
    let n4 = nibble(opcode, 4);
    let load = opcode & 0x80 == 0;
    if high == 0x0c {
        new == logic_b_state(old, n4, spec_rn_b(old.er, n3)) && r == cyc(old, StateType::I, 1)
    } else if high >= 0xf0 {
        new == logic_b_state(old, n2, low_byte(opcode)) && r == cyc(old, StateType::I, 1)
    } else if high == 0x68 {
        if load {
            mov_b_load_post(old, new, r, addr_ern_result(old.er, n3), n4, 1)
        } else {
            mov_b_store_post(old, new, r, addr_ern_result(old.er, n3 & 7), spec_rn_b(old.er, n4), 1)
        }
    } else if high == 0x6e {
        let v1 = fetched(old);
        let d = fetched_word(old);
        if load {
            mov_b_load_post(v1, new, r, addr_disp16_result(v1.er, n3, d), n4, 2)
        } else {
            mov_b_store_post(v1, new, r, addr_disp16_result(v1.er, n3 & 7, d), spec_rn_b(v1.er, n4), 2)
        }
    } else if high == 0x6c {
        mov_b_inc_dec_post(old, new, opcode, r)
    } else if 0x20 <= high <= 0x3f {
        let a = Ok::<u32, EmuError>(spec_addr_abs8(low_byte(opcode)));
        if high < 0x30 {
            mov_b_load_post(old, new, r, a, n2, 1)
        } else {
            mov_b_store_post(old, new, r, a, spec_rn_b(old.er, n2), 1)
        }
    } else if high == 0x6a {
        let sub = opcode & 0xfff0;
        if sub == 0x6a00 || sub == 0x6a80 {
            let v1 = fetched(old);
            let a = Ok::<u32, EmuError>(spec_addr_abs16(fetched_word(old)));
            if sub == 0x6a00 {
                mov_b_load_post(v1, new, r, a, n4, 2)
            } else {
                mov_b_store_post(v1, new, r, a, spec_rn_b(v1.er, n4), 2)
            }
        } else if sub == 0x6a20 || sub == 0x6aa0 {
            let v2 = fetched(fetched(old));
            let a = Ok::<u32, EmuError>(fetched_long(old));
            if sub == 0x6a20 {
                mov_b_load_post(v2, new, r, a, n4, 3)
            } else {
                mov_b_store_post(v2, new, r, a, spec_rn_b(v2.er, n4), 3)
            }
        } else {
            new == old && r == Err::<u8, EmuError>(EmuError::InvalidOpcode(opcode))
        }
    } else {
        new == old && r == Err::<u8, EmuError>(EmuError::InvalidOpcode(opcode))
    }
}

/// What `MOV.B` with a 24-bit displacement needs: the two displacement words,
/// and a displacement that keeps the address within 32 bits.
pub open spec fn mov_b_disp24_pre(v: CpuView, opcode: u16, opcode2: u16) -> bool {
    let ern = if opcode2 & 0xfff0 == 0x6a20 { nibble(opcode, 3) } else { nibble(opcode, 3) & 7 };
    can_fetch2(v) && disp24_in_range(fetched(fetched(v)).er, ern, fetched_long(v))
}

/// What `MOV.B @(d:24, ERs), Rd` (second word 0x6a2_) and `MOV.B Rs,
/// @(d:24, ERd)` do.
pub open spec fn mov_b_disp24_post(old: CpuView, new: CpuView, opcode: u16, opcode2: u16, r: Result<u8, EmuError>) -> bool {
    let v2 = fetched(fetched(old));
    let disp = fetched_long(old);
    let rd = nibble(opcode2, 4);
    if opcode2 & 0xfff0 == 0x6a20 {
        mov_b_load_post(v2, new, r, addr_disp24_result(v2.er, nibble(opcode, 3), disp), rd, 4)
    } else {
        mov_b_store_post(v2, new, r, addr_disp24_result(v2.er, nibble(opcode, 3) & 7, disp), spec_rn_b(v2.er, rd), 4)
    }
}


impl Cpu {
    /// `MOV.B`, by the high byte of its first word.
    pub fn mov_b(&mut self, opcode: u16) -> (r: Result<u8, EmuError>)
        requires
            old(self).wf(),
            mov_b_pre(old(self)@, opcode),
        ensures
            final(self).wf(),
            mov_b_post(old(self)@, final(self)@, opcode, r),
    {
        let high = get_high_byte(opcode);
        if high == 0x0c {
            self.mov_b_rn(opcode)
        } else if high >= 0xf0 {
            self.mov_b_imm(opcode)
        } else if high == 0x68 {
            self.mov_b_ern(opcode)
        } else if high == 0x6e {
            self.mov_b_disp16(opcode)
        } else if high == 0x6c {
            self.mov_b_inc_or_dec(opcode)
        } else if 0x20 <= high && high <= 0x3f {
            self.mov_b_abs8(opcode)
        } else if high == 0x6a {
            self.mov_b_abs_16_or_24(opcode)
        } else {
            Err(EmuError::InvalidOpcode(opcode))
        }
    }

    /// Sets N and Z by the byte `src` and clears V.
    fn mov_b_proc_pcc(&mut self, src: u8)
        ensures
            final(self)@ == mov_b_flags(old(self)@, src),
            final(self).bus == old(self).bus,
    {
        self.change_ccr(CCR::N, src >= 0x80);
        self.change_ccr(CCR::Z, src == 0);
        self.write_ccr(CCR::V, 0);
    }

    /// Moves the byte at `addr` into byte register `rd`.
    fn mov_b_load(&mut self, addr: u32, rd: u8, fetch: u8) -> (r: Result<u8, EmuError>)
        requires
            old(self).wf(),
            rd < 16,
            fetch <= 4,
        ensures
            final(self).wf(),
            mov_b_load_post(old(self)@, final(self)@, r, Ok(addr), rd, fetch),
    {
        let value = match self.read_abs24_b(addr) {
            Ok(v) => v,
            Err(e) => return Err(e),
        };
        self.write_rn_b(rd, value).unwrap();
        self.mov_b_proc_pcc(value);
        self.data_states(fetch, StateType::L, 1, addr)
    }

    /// Moves the byte `value` into the memory at `addr`.
    fn mov_b_store(&mut self, addr: u32, value: u8, fetch: u8) -> (r: Result<u8, EmuError>)
        requires
            old(self).wf(),
            fetch <= 4,
        ensures
            final(self).wf(),
            mov_b_store_post(old(self)@, final(self)@, r, Ok(addr), value, fetch),
    {
        match self.write_abs24_b(addr, value) {
            Ok(_) => {},
            Err(e) => return Err(e),
        }
        self.mov_b_proc_pcc(value);
        self.data_states(fetch, StateType::L, 1, addr)
    }

    fn mov_b_rn(&mut self, opcode: u16) -> (r: Result<u8, EmuError>)
        requires
            old(self).wf(),
            high_byte(opcode) == 0x0c,
        ensures
            final(self).wf(),
            mov_b_post(old(self)@, final(self)@, opcode, r),
    {
        let value = self.read_rn_b(Cpu::get_nibble_opcode(opcode, 3).unwrap()).unwrap();
        self.write_rn_b(Cpu::get_nibble_opcode(opcode, 4).unwrap(), value).unwrap();
        self.mov_b_proc_pcc(value);
        proof {
            crate::cpu::instruction::lemma_small_cycles(self@.mem, StateType::I, 1, self.operating_pc);
        }
        self.calc_state(StateType::I, 1)
    }

    fn mov_b_imm(&mut self, opcode: u16) -> (r: Result<u8, EmuError>)
        requires
            old(self).wf(),
            high_byte(opcode) >= 0xf0,
        ensures
            final(self).wf(),
            mov_b_post(old(self)@, final(self)@, opcode, r),
    {
        let value = get_low_byte(opcode);
        self.write_rn_b(Cpu::get_nibble_opcode(opcode, 2).unwrap(), value).unwrap();
        self.mov_b_proc_pcc(value);
        proof {
            crate::cpu::instruction::lemma_small_cycles(self@.mem, StateType::I, 1, self.operating_pc);
        }
        self.calc_state(StateType::I, 1)
    }

    fn mov_b_ern(&mut self, opcode: u16) -> (r: Result<u8, EmuError>)
        requires
            old(self).wf(),
            high_byte(opcode) == 0x68,
        ensures
            final(self).wf(),
            mov_b_post(old(self)@, final(self)@, opcode, r),
    {
        let n3 = Cpu::get_nibble_opcode(opcode, 3).unwrap();
        let n4 = Cpu::get_nibble_opcode(opcode, 4).unwrap();
        if opcode & 0x0080 == 0 {
            let access_addr = match self.get_addr_ern(n3) {
                Ok(a) => a,
                Err(e) => return Err(e),
            };
            self.mov_b_load(access_addr, n4, 1)
        } else {
            let value = self.read_rn_b(n4).unwrap();
            let access_addr = match self.get_addr_ern(n3 & 0x07) {
                Ok(a) => a,
                Err(e) => return Err(e),
            };
            self.mov_b_store(access_addr, value, 1)
        }
    }

    fn mov_b_disp16(&mut self, opcode: u16) -> (r: Result<u8, EmuError>)
        requires
            old(self).wf(),
            high_byte(opcode) == 0x6e,
            can_fetch(old(self)@),
        ensures
            final(self).wf(),
            mov_b_post(old(self)@, final(self)@, opcode, r),
    {
        let disp = self.fetch();
        let n3 = Cpu::get_nibble_opcode(opcode, 3).unwrap();
        let n4 = Cpu::get_nibble_opcode(opcode, 4).unwrap();
        if opcode & 0x0080 == 0 {
            let access_addr = match self.get_addr_disp16(n3, disp) {
                Ok(a) => a,
                Err(e) => return Err(e),
            };
            self.mov_b_load(access_addr, n4, 2)
        } else {
            let access_addr = match self.get_addr_disp16(n3 & 0x07, disp) {
                Ok(a) => a,
                Err(e) => return Err(e),
            };
            let value = self.read_rn_b(n4).unwrap();
            self.mov_b_store(access_addr, value, 2)
        }
    }

    /// `MOV.B` with a 24-bit displacement; `opcode2` is the second word
    /// (0x6a2_ loads, 0x6aa_ stores).
    pub fn mov_b_disp24(&mut self, opcode: u16, opcode2: u16) -> (r: Result<u8, EmuError>)
        requires
            old(self).wf(),
            mov_b_disp24_pre(old(self)@, opcode, opcode2),
        ensures
            final(self).wf(),
            mov_b_disp24_post(old(self)@, final(self)@, opcode, opcode2, r),
    {
        let hi = self.fetch();
        let lo = self.fetch();
        let disp = make_long(hi, lo);
        let n3 = Cpu::get_nibble_opcode(opcode, 3).unwrap();
        let rd = Cpu::get_nibble_opcode(opcode2, 4).unwrap();
        if opcode2 & 0xfff0 == 0x6a20 {
            let access_addr = match self.get_addr_disp24(n3, disp) {
                Ok(a) => a,
                Err(e) => return Err(e),
            };
            self.mov_b_load(access_addr, rd, 4)
        } else {
            let access_addr = match self.get_addr_disp24(n3 & 0x07, disp) {
                Ok(a) => a,
                Err(e) => return Err(e),
            };
            let value = self.read_rn_b(rd).unwrap();
            self.mov_b_store(access_addr, value, 4)
        }
    }

    fn mov_b_inc_or_dec(&mut self, opcode: u16) -> (r: Result<u8, EmuError>)
        requires
            old(self).wf(),
            high_byte(opcode) == 0x6c,
            mov_b_inc_dec_pre(old(self)@, opcode),
        ensures
            final(self).wf(),
            mov_b_post(old(self)@, final(self)@, opcode, r),
    {
        let n3 = Cpu::get_nibble_opcode(opcode, 3).unwrap();
        let n4 = Cpu::get_nibble_opcode(opcode, 4).unwrap();
        if opcode & 0x0080 == 0 {
            let base = match self.read_rn_l(n3) {
                Ok(a) => a,
                Err(e) => return Err(e),
            };
            let access_addr = base & ADDRESS_MASK;
            let value = match self.read_inc_ern_b(n3) {
                Ok(v) => v,
                Err(e) => return Err(e),
            };
            self.write_rn_b(n4, value).unwrap();
            self.mov_b_proc_pcc(value);
            self.inc_dec_states(access_addr)
        } else {
            let ern = n3 & 0x07;
            proof {
                lemma_byte_masks(n3);
            }
            let base = self.read_rn_l(ern).unwrap();
            let access_addr = (base - 1) & ADDRESS_MASK;
            let value = self.read_rn_b(n4).unwrap();
            match self.write_dec_ern_b(ern, value) {
                Ok(_) => {},
                Err(e) => return Err(e),
            }
            self.mov_b_proc_pcc(value);
            self.inc_dec_states(access_addr)
        }
    }

    /// One fetch state, one byte access at `addr` and two internal states.
    fn inc_dec_states(&self, addr: u32) -> (r: Result<u8, EmuError>)
        requires
            self.wf(),
        ensures
            r == add_cycles(data_cycles(self@, 1, StateType::L, 1, addr), cyc(self@, StateType::N, 2)),
    {
        let s1 = match self.data_states(1, StateType::L, 1, addr) {
            Ok(s) => s,
            Err(e) => return Err(e),
        };
        let s2 = match self.calc_state(StateType::N, 2) {
            Ok(s) => s,
            Err(e) => return Err(e),
        };
        Ok(s1 + s2)
    }

    fn mov_b_abs8(&mut self, opcode: u16) -> (r: Result<u8, EmuError>)
        requires
            old(self).wf(),
            0x20 <= high_byte(opcode) <= 0x3f,
        ensures
            final(self).wf(),
            mov_b_post(old(self)@, final(self)@, opcode, r),
    {
        let access_addr = self.get_addr_abs8(get_low_byte(opcode));
        let n2 = Cpu::get_nibble_opcode(opcode, 2).unwrap();
        assert((opcode & 0xf000 == 0x2000 ==> high_byte(opcode) < 0x30) && (opcode & 0xf000 != 0x2000 && 0x20
            <= high_byte(opcode) && high_byte(opcode) <= 0x3f ==> high_byte(opcode) >= 0x30)) by (bit_vector);
        if opcode & 0xf000 == 0x2000 {
            self.mov_b_load(access_addr, n2, 1)
        } else {
            let value = self.read_rn_b(n2).unwrap();
            self.mov_b_store(access_addr, value, 1)
        }
    }

    fn mov_b_abs_16_or_24(&mut self, opcode: u16) -> (r: Result<u8, EmuError>)
        requires
            old(self).wf(),
            high_byte(opcode) == 0x6a,
            mov_b_pre(old(self)@, opcode),
        ensures
            final(self).wf(),
            mov_b_post(old(self)@, final(self)@, opcode, r),
    {
        let sub = opcode & 0xfff0;
        if sub == 0x6a00 || sub == 0x6a80 {
            self.mov_b_abs16(opcode)
        } else if sub == 0x6a20 || sub == 0x6aa0 {
            self.mov_b_abs24(opcode)
        } else {
            Err(EmuError::InvalidOpcode(opcode))
        }
    }

    fn mov_b_abs16(&mut self, opcode: u16) -> (r: Result<u8, EmuError>)
        requires
            old(self).wf(),
            high_byte(opcode) == 0x6a,
            opcode & 0xfff0 == 0x6a00 || opcode & 0xfff0 == 0x6a80,
            can_fetch(old(self)@),
        ensures
            final(self).wf(),
            mov_b_post(old(self)@, final(self)@, opcode, r),
    {
        let abs_addr = self.fetch();
        let access_addr = self.get_addr_abs16(abs_addr);
        let n4 = Cpu::get_nibble_opcode(opcode, 4).unwrap();
        if opcode & 0xfff0 == 0x6a00 {
            self.mov_b_load(access_addr, n4, 2)
        } else {
            let value = self.read_rn_b(n4).unwrap();
            self.mov_b_store(access_addr, value, 2)
        }
    }

    fn mov_b_abs24(&mut self, opcode: u16) -> (r: Result<u8, EmuError>)
        requires
            old(self).wf(),
            high_byte(opcode) == 0x6a,
            opcode & 0xfff0 == 0x6a20 || opcode & 0xfff0 == 0x6aa0,
            can_fetch2(old(self)@),
        ensures
            final(self).wf(),
            mov_b_post(old(self)@, final(self)@, opcode, r),
    {
        let hi = self.fetch();
        let lo = self.fetch();
        let abs_addr = make_long(hi, lo);
        let n4 = Cpu::get_nibble_opcode(opcode, 4).unwrap();
        if opcode & 0xfff0 == 0x6a20 {
            self.mov_b_load(abs_addr, n4, 3)
        } else {
            let value = self.read_rn_b(n4).unwrap();
            self.mov_b_store(abs_addr, value, 3)
        }
    }
}

} // verus!
