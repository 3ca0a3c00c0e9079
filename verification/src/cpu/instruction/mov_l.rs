use vstd::prelude::*;

use crate::cpu::addressing_mode::abs::{load_l, spec_addr_abs16, store_l};
use crate::cpu::addressing_mode::dec_ern::modified_store;
use crate::cpu::addressing_mode::disp::{addr_disp16_result, addr_disp24_result, disp24_in_range, load_l_at, store_l_at};
use crate::cpu::addressing_mode::ern::addr_ern_result;
use crate::cpu::instruction::not::{logic_ccr, logic_l_state};
use crate::cpu::instruction::{get_high_byte, high_byte, lemma_byte_masks, make_long, nibble};
use crate::cpu::{can_fetch, can_fetch2, can_fetch3, fetched, fetched_long, fetched_word, Cpu, CpuView, ADDRESS_MASK, CCR};
use crate::error::EmuError;

verus! {

/// `v` with the flags that moving the long word `value` sets.
pub open spec fn mov_l_flags(v: CpuView, value: u32) -> CpuView {
    CpuView { ccr: logic_ccr(v.ccr, value >= 0x8000_0000, value == 0), ..v }
}

/// A long word moved from the memory at `addr` into ERd (`rd`), taking
/// `states` states; a register field beyond ER7 is refused after the read.
pub open spec fn mov_l_load_post(
    old: CpuView,
    new: CpuView,
    r: Result<u8, EmuError>,
    addr: Result<u32, EmuError>,
    rd: u8,
    states: u8,
) -> bool {
    match load_l_at(old.mem, addr) {
        Err(e) => new == old && r == Err::<u8, EmuError>(e),
        Ok(x) => if rd >= 8 {
            new == old && r == Err::<u8, EmuError>(EmuError::InvalidRegister(rd))
        } else {
            new == logic_l_state(old, rd, x) && r == Ok::<u8, EmuError>(states)
        },
    }
}

/// ERs (`rs`) moved into the memory at `addr`, taking `states` states; a
/// register field beyond ER7 is refused first, and a store that fails keeps
/// what it stored before failing.
pub open spec fn mov_l_store_post(
    old: CpuView,
    new: CpuView,
    r: Result<u8, EmuError>,
    addr: Result<u32, EmuError>,
    rs: u8,
    states: u8,
) -> bool {
    if rs >= 8 {
        new == old && r == Err::<u8, EmuError>(EmuError::InvalidRegister(rs))
    } else {
        let x = old.er[rs as int];
        let (m, res) = store_l_at(old.mem, addr, x);
        if res is Err {
            new == (CpuView { mem: m, ..old }) && r == Err::<u8, EmuError>(res->Err_0)
        } else {
            new == mov_l_flags(CpuView { mem: m, ..old }, x) && r == Ok::<u8, EmuError>(states)
        }
    }
}

/// Both forms with second word 0x6d__ post-increment ERn by 4, which must
/// stay within 32 bits.
pub open spec fn mov_l_inc_pre(v: CpuView, opcode2: u16) -> bool {
    if opcode2 & 0x80 == 0 {
        nibble(opcode2, 3) < 8 ==> v.er[nibble(opcode2, 3) as int] + 4 <= u32::MAX
    } else {
        v.er[(nibble(opcode2, 3) & 7) as int] + 4 <= u32::MAX
    }
}

/// What `MOV.L @ERs+, ERd` does, and the store form of the same second word,
/// which writes ERs where ERd points and then increments ERd.
pub open spec fn mov_l_inc_post(old: CpuView, new: CpuView, opcode2: u16, r: Result<u8, EmuError>) -> bool {
    let n4 = nibble(opcode2, 4);
    if opcode2 & 0x80 == 0 {
        let rs = nibble(opcode2, 3);
        if rs >= 8 {
            new == old && r == Err::<u8, EmuError>(EmuError::InvalidRegister(rs))
        } else {
            match load_l(old.mem, old.er[rs as int] & ADDRESS_MASK) {
                Err(e) => new == old && r == Err::<u8, EmuError>(e),
                Ok(x) => {
                    let p = CpuView { er: old.er.update(rs as int, (old.er[rs as int] + 4) as u32), ..old };
                    if n4 >= 8 {
                        new == p && r == Err::<u8, EmuError>(EmuError::InvalidRegister(n4))
                    } else {
                        new == logic_l_state(p, n4, x) && r == Ok::<u8, EmuError>(10)
                    }
                },
            }
        }
    } else if n4 >= 8 {
        new == old && r == Err::<u8, EmuError>(EmuError::InvalidRegister(n4))
    } else {
        let ern = nibble(opcode2, 3) & 7;
        let x = old.er[n4 as int];
        let w = store_l(old.mem, old.er[ern as int] & ADDRESS_MASK, x);
        let p = modified_store(old, ern, (old.er[ern as int] + 4) as u32, w);
        if w.1 is Err {
            new == p && r == Err::<u8, EmuError>(w.1->Err_0)
        } else {
            new == mov_l_flags(p, x) && r == Ok::<u8, EmuError>(10)
        }
    }
}

/// The register of the 24-bit displacement forms: nibble 3 of the second
/// word, its low three bits in the store form.
pub open spec fn mov_l_disp24_ern(opcode2: u16) -> u8 {
    if opcode2 & 0x80 == 0 {
        nibble(opcode2, 3)
    } else {
        nibble(opcode2, 3) & 7
    }
}

/// What the forms with a second word need, from the state `v1` after that
/// word was fetched.
pub open spec fn mov_l_pre2(v1: CpuView, opcode2: u16) -> bool {
    let high = high_byte(opcode2);
    let sub = opcode2 & 0xfff0;
    &&& high == 0x6f ==> can_fetch(v1)
    &&& high == 0x78 ==> can_fetch3(v1) && disp24_in_range(
        fetched(fetched(fetched(v1))).er,
        mov_l_disp24_ern(opcode2),
        fetched_long(fetched(v1)),
    )
    &&& high == 0x6d ==> mov_l_inc_pre(v1, opcode2)
    &&& (sub == 0x6b00 || sub == 0x6b80) ==> can_fetch(v1)
    &&& (sub == 0x6b20 || sub == 0x6ba0) ==> can_fetch2(v1)
}

/// What `MOV.L` needs: the words that follow the first, and room to move ERn.
pub open spec fn mov_l_pre(v: CpuView, opcode: u16) -> bool {
    if opcode & 0xff00 == 0x0f00 {
        true
    } else if opcode & 0xfff8 == 0x7a00 {
        can_fetch2(v)
    } else {
        can_fetch(v) && mov_l_pre2(fetched(v), fetched_word(v))
    }
}

/// What the forms with a second word `opcode2` do, from the state `v1` after
/// it was fetched.
pub open spec fn mov_l_post2(v1: CpuView, new: CpuView, opcode2: u16, r: Result<u8, EmuError>) -> bool {
    let high = high_byte(opcode2);
    let n3 = nibble(opcode2, 3);
    let n4 = nibble(opcode2, 4);
    let load = opcode2 & 0x80 == 0;
    if high == 0x69 {
        if load {
            mov_l_load_post(v1, new, r, addr_ern_result(v1.er, n3), n4, 8)
        } else {
            mov_l_store_post(v1, new, r, addr_ern_result(v1.er, n3 & 7), n4, 8)
        }
    } else if high == 0x6f {
        let v2 = fetched(v1);
        let d = fetched_word(v1);
        if load {
            mov_l_load_post(v2, new, r, addr_disp16_result(v2.er, n3, d), n4, 10)
        } else {
            mov_l_store_post(v2, new, r, addr_disp16_result(v2.er, n3 & 7, d), n4, 10)
        }
    } else if high == 0x78 {
        let v2 = fetched(v1);
        let opcode3 = fetched_word(v1);
        let v4 = fetched(fetched(v2));
        let a = addr_disp24_result(v4.er, mov_l_disp24_ern(opcode2), fetched_long(v2));
        if load {
            mov_l_load_post(v4, new, r, a, nibble(opcode3, 4), 14)
        } else {
            mov_l_store_post(v4, new, r, a, nibble(opcode3, 4), 14)
        }
    } else if high == 0x6d {
        mov_l_inc_post(v1, new, opcode2, r)
    } else if high == 0x6b {
        let sub = opcode2 & 0xfff0;
        if sub == 0x6b00 || sub == 0x6b80 {
            let v2 = fetched(v1);
            let a = Ok::<u32, EmuError>(spec_addr_abs16(fetched_word(v1)));
            if sub == 0x6b00 {
                mov_l_load_post(v2, new, r, a, n4, 10)
            } else {
                mov_l_store_post(v2, new, r, a, n4, 10)
            }
        } else if sub == 0x6b20 || sub == 0x6ba0 {
            let v3 = fetched(fetched(v1));
            let a = Ok::<u32, EmuError>(fetched_long(v1));
            if sub == 0x6b20 {
                mov_l_load_post(v3, new, r, a, n4, 12)
            } else {
                mov_l_store_post(v3, new, r, a, n4, 12)
            }
        } else {
            new == v1 && r == Err::<u8, EmuError>(EmuError::InvalidOpcode(opcode2))
        }
    } else {
        new == v1 && r == Err::<u8, EmuError>(EmuError::InvalidOpcode(opcode2))
    }
}

/// What `MOV.L` does: 0x0f__ between registers, 0x7a0_ from an immediate
/// long word, otherwise by its second word.
pub open spec fn mov_l_post(old: CpuView, new: CpuView, opcode: u16, r: Result<u8, EmuError>) -> bool {
    if opcode & 0xff00 == 0x0f00 {
        let rd = nibble(opcode, 4);
        if rd >= 8 {
            new == old && r == Err::<u8, EmuError>(EmuError::InvalidRegister(rd))
        } else {
            new == logic_l_state(old, rd, old.er[(nibble(opcode, 3) & 7) as int]) && r == Ok::<u8, EmuError>(2)
        }
    } else if opcode & 0xfff8 == 0x7a00 {
        new == logic_l_state(fetched(fetched(old)), nibble(opcode, 4), fetched_long(old)) && r == Ok::<u8, EmuError>(6)
    } else {
        mov_l_post2(fetched(old), new, fetched_word(old), r)
    }
}


impl Cpu {
    /// `MOV.L`: between registers (0x0f__), from an immediate (0x7a0_), or
    /// by the second word that follows a 0x0100 prefix.
    pub fn mov_l(&mut self, opcode: u16) -> (r: Result<u8, EmuError>)
        requires
            old(self).wf(),
            mov_l_pre(old(self)@, opcode),
        ensures
            final(self).wf(),
            mov_l_post(old(self)@, final(self)@, opcode, r),
    {
        if opcode & 0xff00 == 0x0f00 {
            return self.mov_l_rn(opcode);
        }
        if opcode & 0xfff8 == 0x7a00 {
            return self.mov_l_imm(opcode);
        }
        let opcode2 = self.fetch();
        let high = get_high_byte(opcode2);
        if high == 0x69 {
            self.mov_l_ern(opcode2)
        } else if high == 0x6f {
            self.mov_l_disp16(opcode2)
        } else if high == 0x78 {
            self.mov_l_disp24(opcode2)
        } else if high == 0x6d {
            self.mov_l_inc(opcode2)
        } else if high == 0x6b {
            self.mov_l_abs(opcode2)
        } else {
            Err(EmuError::InvalidOpcode(opcode2))
        }
    }

    /// Sets N and Z by the long word `src` and clears V.
    fn mov_l_proc_pcc(&mut self, src: u32)
        ensures
            final(self)@ == mov_l_flags(old(self)@, src),
            final(self).bus == old(self).bus,
    {
        self.change_ccr(CCR::N, src >= 0x8000_0000);
        self.change_ccr(CCR::Z, src == 0);
        self.write_ccr(CCR::V, 0);
    }

    /// Moves the long word at `addr` into ERd.
    fn mov_l_load(&mut self, addr: u32, rd: u8, states: u8) -> (r: Result<u8, EmuError>)
        requires
            old(self).wf(),
        ensures
            final(self).wf(),
            mov_l_load_post(old(self)@, final(self)@, r, Ok(addr), rd, states),
    {
        let value = match self.read_abs24_l(addr) {
            Ok(v) => v,
            Err(e) => return Err(e),
        };
        match self.write_rn_l(rd, value) {
            Ok(_) => {},
            Err(e) => return Err(e),
        }
        self.mov_l_proc_pcc(value);
        Ok(states)
    }

    /// Moves ERs into the memory at `addr`.
    fn mov_l_store(&mut self, addr: u32, rs: u8, states: u8) -> (r: Result<u8, EmuError>)
        requires
            old(self).wf(),
        ensures
            final(self).wf(),
            mov_l_store_post(old(self)@, final(self)@, r, Ok(addr), rs, states),
    {
        let value = match self.read_rn_l(rs) {
            Ok(v) => v,
            Err(e) => return Err(e),
        };
        match self.write_abs24_l(addr, value) {
            Ok(_) => {},
            Err(e) => return Err(e),
        }
        self.mov_l_proc_pcc(value);
        Ok(states)
    }

    fn mov_l_rn(&mut self, opcode: u16) -> (r: Result<u8, EmuError>)
        requires
            old(self).wf(),
            opcode & 0xff00 == 0x0f00,
        ensures
            final(self).wf(),
            mov_l_post(old(self)@, final(self)@, opcode, r),
    {
        let n3 = Cpu::get_nibble_opcode(opcode, 3).unwrap();
        proof {
            lemma_byte_masks(n3);
        }
        let value = self.read_rn_l(n3 & 0x07).unwrap();
        match self.write_rn_l(Cpu::get_nibble_opcode(opcode, 4).unwrap(), value) {
            Ok(_) => {},
            Err(e) => return Err(e),
        }
        self.mov_l_proc_pcc(value);
        Ok(2)
    }

    fn mov_l_imm(&mut self, opcode: u16) -> (r: Result<u8, EmuError>)
        requires
            old(self).wf(),
            opcode & 0xfff8 == 0x7a00,
            can_fetch2(old(self)@),
        ensures
            final(self).wf(),
            mov_l_post(old(self)@, final(self)@, opcode, r),
    {
        let hi = self.fetch();
        let lo = self.fetch();
        let imm = make_long(hi, lo);
        let rd = Cpu::get_nibble_opcode(opcode, 4).unwrap();
        assert(rd < 8) by (bit_vector)
            requires
                rd == ((opcode >> 0u16) as u8) & 0xf,
                opcode & 0xfff8 == 0x7a00,
        ;
        assert(opcode & 0xff00 != 0x0f00) by (bit_vector)
            requires
                opcode & 0xfff8 == 0x7a00,
        ;
        self.write_rn_l(rd, imm).unwrap();
        self.mov_l_proc_pcc(imm);
        Ok(6)
    }

    fn mov_l_ern(&mut self, opcode2: u16) -> (r: Result<u8, EmuError>)
        requires
            old(self).wf(),
            high_byte(opcode2) == 0x69,
        ensures
            final(self).wf(),
            mov_l_post2(old(self)@, final(self)@, opcode2, r),
    {
        let n3 = Cpu::get_nibble_opcode(opcode2, 3).unwrap();
        let n4 = Cpu::get_nibble_opcode(opcode2, 4).unwrap();
        if opcode2 & 0x0080 == 0 {
            let addr = match self.get_addr_ern(n3) {
                Ok(a) => a,
                Err(e) => return Err(e),
            };
            self.mov_l_load(addr, n4, 8)
        } else {
            if n4 >= 8 {
                return Err(EmuError::InvalidRegister(n4));
            }
            let addr = match self.get_addr_ern(n3 & 0x07) {
                Ok(a) => a,
                Err(e) => return Err(e),
            };
            self.mov_l_store(addr, n4, 8)
        }
    }

    fn mov_l_disp16(&mut self, opcode2: u16) -> (r: Result<u8, EmuError>)
        requires
            old(self).wf(),
            high_byte(opcode2) == 0x6f,
            can_fetch(old(self)@),
        ensures
            final(self).wf(),
            mov_l_post2(old(self)@, final(self)@, opcode2, r),
    {
        let disp = self.fetch();
        let n3 = Cpu::get_nibble_opcode(opcode2, 3).unwrap();
        let n4 = Cpu::get_nibble_opcode(opcode2, 4).unwrap();
        if opcode2 & 0x0080 == 0 {
            let addr = match self.get_addr_disp16(n3, disp) {
                Ok(a) => a,
                Err(e) => return Err(e),
            };
            self.mov_l_load(addr, n4, 10)
        } else {
            if n4 >= 8 {
                return Err(EmuError::InvalidRegister(n4));
            }
            let addr = match self.get_addr_disp16(n3 & 0x07, disp) {
                Ok(a) => a,
                Err(e) => return Err(e),
            };
            self.mov_l_store(addr, n4, 10)
        }
    }

    fn mov_l_disp24(&mut self, opcode2: u16) -> (r: Result<u8, EmuError>)
        requires
            old(self).wf(),
            high_byte(opcode2) == 0x78,
            can_fetch3(old(self)@),
            disp24_in_range(
                fetched(fetched(fetched(old(self)@))).er,
                mov_l_disp24_ern(opcode2),
                fetched_long(fetched(old(self)@)),
            ),
        ensures
            final(self).wf(),
            mov_l_post2(old(self)@, final(self)@, opcode2, r),
    {
        let opcode3 = self.fetch();
        let hi = self.fetch();
        let lo = self.fetch();
        let disp = make_long(hi, lo);
        let n3 = Cpu::get_nibble_opcode(opcode2, 3).unwrap();
        let reg = Cpu::get_nibble_opcode(opcode3, 4).unwrap();
        if opcode2 & 0x0080 == 0 {
            let addr = match self.get_addr_disp24(n3, disp) {
                Ok(a) => a,
                Err(e) => return Err(e),
            };
            self.mov_l_load(addr, reg, 14)
        } else {
            if reg >= 8 {
                return Err(EmuError::InvalidRegister(reg));
            }
            let addr = match self.get_addr_disp24(n3 & 0x07, disp) {
                Ok(a) => a,
                Err(e) => return Err(e),
            };
            self.mov_l_store(addr, reg, 14)
        }
    }

    fn mov_l_inc(&mut self, opcode2: u16) -> (r: Result<u8, EmuError>)
        requires
            old(self).wf(),
            high_byte(opcode2) == 0x6d,
            mov_l_inc_pre(old(self)@, opcode2),
        ensures
            final(self).wf(),
            mov_l_post2(old(self)@, final(self)@, opcode2, r),
    {
        let n3 = Cpu::get_nibble_opcode(opcode2, 3).unwrap();
        let n4 = Cpu::get_nibble_opcode(opcode2, 4).unwrap();
        if opcode2 & 0x0080 == 0 {
            let value = match self.read_inc_ern_l(n3) {
                Ok(v) => v,
                Err(e) => return Err(e),
            };
            match self.write_rn_l(n4, value) {
                Ok(_) => {},
                Err(e) => return Err(e),
            }
            self.mov_l_proc_pcc(value);
        } else {
            proof {
                lemma_byte_masks(n3);
            }
            let value = match self.read_rn_l(n4) {
                Ok(v) => v,
                Err(e) => return Err(e),
            };
            match self.write_inc_ern_l(n3 & 0x07, value) {
                Ok(_) => {},
                Err(e) => return Err(e),
            }
            self.mov_l_proc_pcc(value);
        }
        Ok(10)
    }

    fn mov_l_abs(&mut self, opcode2: u16) -> (r: Result<u8, EmuError>)
        requires
            old(self).wf(),
            high_byte(opcode2) == 0x6b,
            mov_l_pre2(old(self)@, opcode2),
        ensures
            final(self).wf(),
            mov_l_post2(old(self)@, final(self)@, opcode2, r),
    {
        let sub = opcode2 & 0xfff0;
        let n4 = Cpu::get_nibble_opcode(opcode2, 4).unwrap();
        if sub == 0x6b00 || sub == 0x6b80 {
            let abs_addr = self.fetch();
            let addr = self.get_addr_abs16(abs_addr);
            if sub == 0x6b00 {
                self.mov_l_load(addr, n4, 10)
            } else {
                self.mov_l_store(addr, n4, 10)
            }
        } else if sub == 0x6b20 || sub == 0x6ba0 {
            let hi = self.fetch();
            let lo = self.fetch();
            let addr = make_long(hi, lo);
            if sub == 0x6b20 {
                self.mov_l_load(addr, n4, 12)
            } else {
                self.mov_l_store(addr, n4, 12)
            }
        } else {
            Err(EmuError::InvalidOpcode(opcode2))
        }
    }
}

} // verus!
