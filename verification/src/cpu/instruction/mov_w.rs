use vstd::prelude::*;

use crate::cpu::addressing_mode::abs::{load_w, spec_addr_abs16, store_w};
use crate::cpu::addressing_mode::dec_ern::modified_store;
use crate::cpu::addressing_mode::disp::{addr_disp16_result, addr_disp24_result, disp24_in_range, load_w_at, store_w_at};
use crate::cpu::addressing_mode::ern::addr_ern_result;
use crate::cpu::addressing_mode::rn::spec_rn_w;
use crate::cpu::instruction::not::{logic_ccr, logic_w_state};
use crate::cpu::instruction::{get_high_byte, high_byte, lemma_byte_masks, make_long, nibble};
use crate::cpu::{can_fetch, can_fetch2, fetched, fetched_long, fetched_word, Cpu, CpuView, ADDRESS_MASK, CCR};
use crate::error::EmuError;

verus! {

/// `v` with the flags that moving the word `value` sets.
pub open spec fn mov_w_flags(v: CpuView, value: u16) -> CpuView {
    CpuView { ccr: logic_ccr(v.ccr, value >= 0x8000, value == 0), ..v }
}

/// A word moved from the memory at `addr` into word register `rd`, taking
/// `states` states.
pub open spec fn mov_w_load_post(
    old: CpuView,
    new: CpuView,
    r: Result<u8, EmuError>,
    addr: Result<u32, EmuError>,
    rd: u8,
    states: u8,
) -> bool {
    match load_w_at(old.mem, addr) {
        Err(e) => new == old && r == Err::<u8, EmuError>(e),
        Ok(x) => new == logic_w_state(old, rd, x) && r == Ok::<u8, EmuError>(states),
    }
}

/// The word `value` moved into the memory at `addr`, taking `states` states;
/// a store that fails keeps what it stored before failing.
pub open spec fn mov_w_store_post(
    old: CpuView,
    new: CpuView,
    r: Result<u8, EmuError>,
    addr: Result<u32, EmuError>,
    value: u16,
    states: u8,
) -> bool {
    let (m, res) = store_w_at(old.mem, addr, value);
    if res is Err {
        new == (CpuView { mem: m, ..old }) && r == Err::<u8, EmuError>(res->Err_0)
    } else {
        new == mov_w_flags(CpuView { mem: m, ..old }, value) && r == Ok::<u8, EmuError>(states)
    }
}

/// `MOV.W @ERs+, Rd` needs room to increment ERs; `MOV.W Rs, @-ERd` needs
/// ERd to be at least 2.
pub open spec fn mov_w_inc_dec_pre(v: CpuView, opcode: u16) -> bool {
    if opcode & 0x80 == 0 {
        nibble(opcode, 3) < 8 ==> v.er[nibble(opcode, 3) as int] + 2 <= u32::MAX
    } else {
        v.er[(nibble(opcode, 3) & 7) as int] >= 2
    }
}

/// What `MOV.W @ERs+, Rd` and `MOV.W Rs, @-ERd` do.
pub open spec fn mov_w_inc_dec_post(old: CpuView, new: CpuView, opcode: u16, r: Result<u8, EmuError>) -> bool {
    let rd = nibble(opcode, 4);
    if opcode & 0x80 == 0 {
        let rs = nibble(opcode, 3);
        if rs >= 8 {
            new == old && r == Err::<u8, EmuError>(EmuError::InvalidRegister(rs))
        } else {
            match load_w(old.mem, old.er[rs as int] & ADDRESS_MASK) {
                Err(e) => new == old && r == Err::<u8, EmuError>(e),
                Ok(x) => new == logic_w_state(
                    CpuView { er: old.er.update(rs as int, (old.er[rs as int] + 2) as u32), ..old },
                    rd,
                    x,
                ) && r == Ok::<u8, EmuError>(6),
            }
        }
    } else {
        let ern = nibble(opcode, 3) & 7;
        let x = spec_rn_w(old.er, rd);
        let na = (old.er[ern as int] - 2) as u32;
        let w = store_w(old.mem, na & ADDRESS_MASK, x);
        let p = modified_store(old, ern, na, w);
        if w.1 is Err {
            new == p && r == Err::<u8, EmuError>(w.1->Err_0)
        } else {
            new == mov_w_flags(p, x) && r == Ok::<u8, EmuError>(6)
        }
    }
}

/// What `MOV.W` needs: the words that follow the first, and room to move ERn.
pub open spec fn mov_w_pre(v: CpuView, opcode: u16) -> bool {
    let high = high_byte(opcode);
    let sub = opcode & 0xfff0;
    &&& (high == 0x79 || high == 0x6f) ==> can_fetch(v)
    &&& high == 0x6d ==> mov_w_inc_dec_pre(v, opcode)
    &&& (sub == 0x6b00 || sub == 0x6b80) ==> can_fetch(v)
    &&& (sub == 0x6b20 || sub == 0x6ba0) ==> can_fetch2(v)
}

/// What `MOV.W` does, by the high byte of its first word.
pub open spec fn mov_w_post(old: CpuView, new: CpuView, opcode: u16, r: Result<u8, EmuError>) -> bool {
    let high = high_byte(opcode);
    let n3 = nibble(opcode, 3);
    let n4 = nibble(opcode, 4);
    let load = opcode & 0x80 == 0;
    if high == 0x0d {
        new == logic_w_state(old, n4, spec_rn_w(old.er, n3)) && r == Ok::<u8, EmuError>(2)
    } else if high == 0x79 {
        new == logic_w_state(fetched(old), n4, fetched_word(old)) && r == Ok::<u8, EmuError>(4)
    } else if high == 0x69 {
        if load {
            mov_w_load_post(old, new, r, addr_ern_result(old.er, n3), n4, 4)
        } else {
            mov_w_store_post(old, new, r, addr_ern_result(old.er, n3 & 7), spec_rn_w(old.er, n4), 4)
        }
    } else if high == 0x6f {
        let v1 = fetched(old);
        let d = fetched_word(old);
        if load {
            mov_w_load_post(v1, new, r, addr_disp16_result(v1.er, n3, d), n4, 6)
        } else {
            mov_w_store_post(v1, new, r, addr_disp16_result(v1.er, n3 & 7, d), spec_rn_w(v1.er, n4), 6)
        }
    } else if high == 0x6d {
        mov_w_inc_dec_post(old, new, opcode, r)
    } else if high == 0x6b {
        let sub = opcode & 0xfff0;
        if sub == 0x6b00 || sub == 0x6b80 {
            let v1 = fetched(old);
            let a = Ok::<u32, EmuError>(spec_addr_abs16(fetched_word(old)));
            if sub == 0x6b00 {
                mov_w_load_post(v1, new, r, a, n4, 6)
            } else {
                mov_w_store_post(v1, new, r, a, spec_rn_w(v1.er, n4), 6)
            }
        } else if sub == 0x6b20 || sub == 0x6ba0 {
            let v2 = fetched(fetched(old));
            let a = Ok::<u32, EmuError>(fetched_long(old));
            if sub == 0x6b20 {
                mov_w_load_post(v2, new, r, a, n4, 8)
            } else {
                mov_w_store_post(v2, new, r, a, spec_rn_w(v2.er, n4), 8)
            }
        } else {
            new == old && r == Err::<u8, EmuError>(EmuError::InvalidOpcode(opcode))
        }
    } else {
        new == old && r == Err::<u8, EmuError>(EmuError::InvalidOpcode(opcode))
    }
}

/// What `MOV.W` with a 24-bit displacement needs: the two displacement words,
/// and a displacement that keeps the address within 32 bits.
pub open spec fn mov_w_disp24_pre(v: CpuView, opcode: u16, opcode2: u16) -> bool {
    let ern = if opcode2 & 0xfff0 == 0x6b20 { nibble(opcode, 3) } else { nibble(opcode, 3) & 7 };
    can_fetch2(v) && disp24_in_range(fetched(fetched(v)).er, ern, fetched_long(v))
}

/// What `MOV.W @(d:24, ERs), Rd` (second word 0x6b2_) and `MOV.W Rs,
/// @(d:24, ERd)` do.
pub open spec fn mov_w_disp24_post(old: CpuView, new: CpuView, opcode: u16, opcode2: u16, r: Result<u8, EmuError>) -> bool {
    let v2 = fetched(fetched(old));
    let disp = fetched_long(old);
    let rd = nibble(opcode2, 4);
    if opcode2 & 0xfff0 == 0x6b20 {
        mov_w_load_post(v2, new, r, addr_disp24_result(v2.er, nibble(opcode, 3), disp), rd, 10)
    } else {
        mov_w_store_post(v2, new, r, addr_disp24_result(v2.er, nibble(opcode, 3) & 7, disp), spec_rn_w(v2.er, rd), 10)
    }
}


impl Cpu {
    /// `MOV.W`, by the high byte of its first word.
    pub fn mov_w(&mut self, opcode: u16) -> (r: Result<u8, EmuError>)
        requires
            old(self).wf(),
            mov_w_pre(old(self)@, opcode),
        ensures
            final(self).wf(),
            mov_w_post(old(self)@, final(self)@, opcode, r),
    {
        let high = get_high_byte(opcode);
        if high == 0x0d {
            self.mov_w_rn(opcode)
        } else if high == 0x79 {
            self.mov_w_imm(opcode)
        } else if high == 0x69 {
            self.mov_w_ern(opcode)
        } else if high == 0x6f {
            self.mov_w_disp16(opcode)
        } else if high == 0x6d {
            self.mov_w_inc_or_dec(opcode)
        } else if high == 0x6b {
            self.mov_w_abs(opcode)
        } else {
            Err(EmuError::InvalidOpcode(opcode))
        }
    }

    /// Sets N and Z by the word `src` and clears V.
    fn mov_w_proc_pcc(&mut self, src: u16)
        ensures
            final(self)@ == mov_w_flags(old(self)@, src),
            final(self).bus == old(self).bus,
    {
        self.change_ccr(CCR::N, src >= 0x8000);
        self.change_ccr(CCR::Z, src == 0);
        self.write_ccr(CCR::V, 0);
    }

    /// Moves the word at `addr` into word register `rd`.
    fn mov_w_load(&mut self, addr: u32, rd: u8, states: u8) -> (r: Result<u8, EmuError>)
        requires
            old(self).wf(),
            rd < 16,
        ensures
            final(self).wf(),
            mov_w_load_post(old(self)@, final(self)@, r, Ok(addr), rd, states),
    {
        let value = match self.read_abs24_w(addr) {
            Ok(v) => v,
            Err(e) => return Err(e),
        };
        self.write_rn_w(rd, value).unwrap();
        self.mov_w_proc_pcc(value);
        Ok(states)
    }

    /// Moves the word `value` into the memory at `addr`.
    fn mov_w_store(&mut self, addr: u32, value: u16, states: u8) -> (r: Result<u8, EmuError>)
        requires
            old(self).wf(),
        ensures
            final(self).wf(),
            mov_w_store_post(old(self)@, final(self)@, r, Ok(addr), value, states),
    {
        match self.write_abs24_w(addr, value) {
            Ok(_) => {},
            Err(e) => return Err(e),
        }
        self.mov_w_proc_pcc(value);
        Ok(states)
    }

    fn mov_w_rn(&mut self, opcode: u16) -> (r: Result<u8, EmuError>)
        requires
            old(self).wf(),
            high_byte(opcode) == 0x0d,
        ensures
            final(self).wf(),
            mov_w_post(old(self)@, final(self)@, opcode, r),
    {
        let value = self.read_rn_w(Cpu::get_nibble_opcode(opcode, 3).unwrap()).unwrap();
        self.write_rn_w(Cpu::get_nibble_opcode(opcode, 4).unwrap(), value).unwrap();
        self.mov_w_proc_pcc(value);
        Ok(2)
    }

    fn mov_w_imm(&mut self, opcode: u16) -> (r: Result<u8, EmuError>)
        requires
            old(self).wf(),
            high_byte(opcode) == 0x79,
            can_fetch(old(self)@),
        ensures
            final(self).wf(),
            mov_w_post(old(self)@, final(self)@, opcode, r),
    {
        let imm = self.fetch();
        self.write_rn_w(Cpu::get_nibble_opcode(opcode, 4).unwrap(), imm).unwrap();
        self.mov_w_proc_pcc(imm);
        Ok(4)
    }

    fn mov_w_ern(&mut self, opcode: u16) -> (r: Result<u8, EmuError>)
        requires
            old(self).wf(),
            high_byte(opcode) == 0x69,
        ensures
            final(self).wf(),
            mov_w_post(old(self)@, final(self)@, opcode, r),
    {
        let n3 = Cpu::get_nibble_opcode(opcode, 3).unwrap();
        let n4 = Cpu::get_nibble_opcode(opcode, 4).unwrap();
        if opcode & 0x0080 == 0 {
            let addr = match self.get_addr_ern(n3) {
                Ok(a) => a,
                Err(e) => return Err(e),
            };
            self.mov_w_load(addr, n4, 4)
        } else {
            let value = self.read_rn_w(n4).unwrap();
            let addr = match self.get_addr_ern(n3 & 0x07) {
                Ok(a) => a,
                Err(e) => return Err(e),
            };
            self.mov_w_store(addr, value, 4)
        }
    }

    fn mov_w_disp16(&mut self, opcode: u16) -> (r: Result<u8, EmuError>)
        requires
            old(self).wf(),
            high_byte(opcode) == 0x6f,
            can_fetch(old(self)@),
        ensures
            final(self).wf(),
            mov_w_post(old(self)@, final(self)@, opcode, r),
    {
        let disp = self.fetch();
        let n3 = Cpu::get_nibble_opcode(opcode, 3).unwrap();
        let n4 = Cpu::get_nibble_opcode(opcode, 4).unwrap();
        if opcode & 0x0080 == 0 {
            let addr = match self.get_addr_disp16(n3, disp) {
                Ok(a) => a,
                Err(e) => return Err(e),
            };
            self.mov_w_load(addr, n4, 6)
        } else {
            let value = self.read_rn_w(n4).unwrap();
            let addr = match self.get_addr_disp16(n3 & 0x07, disp) {
                Ok(a) => a,
                Err(e) => return Err(e),
            };
            self.mov_w_store(addr, value, 6)
        }
    }

    /// `MOV.W` with a 24-bit displacement; `opcode2` is the second word
    /// (0x6b2_ loads, 0x6ba_ stores).
    pub fn mov_w_disp24(&mut self, opcode: u16, opcode2: u16) -> (r: Result<u8, EmuError>)
        requires
            old(self).wf(),
            mov_w_disp24_pre(old(self)@, opcode, opcode2),
        ensures
            final(self).wf(),
            mov_w_disp24_post(old(self)@, final(self)@, opcode, opcode2, r),
    {
        let hi = self.fetch();
        let lo = self.fetch();
        let disp = make_long(hi, lo);
        let n3 = Cpu::get_nibble_opcode(opcode, 3).unwrap();
        let rd = Cpu::get_nibble_opcode(opcode2, 4).unwrap();
        if opcode2 & 0xfff0 == 0x6b20 {
            let addr = match self.get_addr_disp24(n3, disp) {
                Ok(a) => a,
                Err(e) => return Err(e),
            };
            self.mov_w_load(addr, rd, 10)
        } else {
            let value = self.read_rn_w(rd).unwrap();
            let addr = match self.get_addr_disp24(n3 & 0x07, disp) {
                Ok(a) => a,
                Err(e) => return Err(e),
            };
            self.mov_w_store(addr, value, 10)
        }
    }

    fn mov_w_inc_or_dec(&mut self, opcode: u16) -> (r: Result<u8, EmuError>)
        requires
            old(self).wf(),
            high_byte(opcode) == 0x6d,
            mov_w_inc_dec_pre(old(self)@, opcode),
        ensures
            final(self).wf(),
            mov_w_post(old(self)@, final(self)@, opcode, r),
    {
        let n3 = Cpu::get_nibble_opcode(opcode, 3).unwrap();
        let n4 = Cpu::get_nibble_opcode(opcode, 4).unwrap();
        if opcode & 0x0080 == 0 {
            let value = match self.read_inc_ern_w(n3) {
                Ok(v) => v,
                Err(e) => return Err(e),
            };
            self.write_rn_w(n4, value).unwrap();
            self.mov_w_proc_pcc(value);
        } else {
            proof {
                lemma_byte_masks(n3);
            }
            let value = self.read_rn_w(n4).unwrap();
            match self.write_dec_ern_w(n3 & 0x07, value) {
                Ok(_) => {},
                Err(e) => return Err(e),
            }
            self.mov_w_proc_pcc(value);
        }
        Ok(6)
    }

    fn mov_w_abs(&mut self, opcode: u16) -> (r: Result<u8, EmuError>)
        requires
            old(self).wf(),
            high_byte(opcode) == 0x6b,
            mov_w_pre(old(self)@, opcode),
        ensures
            final(self).wf(),
            mov_w_post(old(self)@, final(self)@, opcode, r),
    {
        let sub = opcode & 0xfff0;
        let n4 = Cpu::get_nibble_opcode(opcode, 4).unwrap();
        if sub == 0x6b00 || sub == 0x6b80 {
            let abs_addr = self.fetch();
            let addr = self.get_addr_abs16(abs_addr);
            if sub == 0x6b00 {
                self.mov_w_load(addr, n4, 6)
            } else {
                let value = self.read_rn_w(n4).unwrap();
                self.mov_w_store(addr, value, 6)
            }
        } else if sub == 0x6b20 || sub == 0x6ba0 {
            let hi = self.fetch();
            let lo = self.fetch();
            let addr = make_long(hi, lo);
            if sub == 0x6b20 {
                self.mov_w_load(addr, n4, 8)
            } else {
                let value = self.read_rn_w(n4).unwrap();
                self.mov_w_store(addr, value, 8)
            }
        } else {
            Err(EmuError::InvalidOpcode(opcode))
        }
    }
}

} // verus!
