use vstd::prelude::*;

use crate::bus::is_mapped;
use crate::cpu::addressing_mode::abs::be_word;
use crate::cpu::addressing_mode::disp::disp24_in_range;
use crate::cpu::addressing_mode::pc::sext8;
use crate::cpu::addressing_mode::rn::{spec_rn_b, spec_rn_w};
use crate::cpu::exec::{bit_mem_pre, exec_pre, group_0a_0b_pre, group_79_pre, group_7a_pre, prefix_01_pre, prefix_78_pre, stc_w_pre};
use crate::cpu::instruction::bsr::bsr_pre;
use crate::cpu::instruction::mov_b::{mov_b_disp24_pre, mov_b_inc_dec_pre, mov_b_pre};
use crate::cpu::instruction::mov_l::{mov_l_disp24_ern, mov_l_inc_pre, mov_l_pre, mov_l_pre2};
use crate::cpu::instruction::mov_w::{mov_w_disp24_pre, mov_w_inc_dec_pre, mov_w_pre};
use crate::cpu::instruction::trapa::{syscall_pre, SYSCALL_SET_HANDLER};
use crate::cpu::instruction::{get_high_byte, get_low_byte, high_byte, lemma_byte_masks, low_byte, make_long, nibble, sx32};
use crate::cpu::{can_fetch, fetch_addr, fetched, fetched_word, Cpu, CpuView};

verus! {

/// The instruction word at `pc` can be fetched.
pub open spec fn fetchable_at(mem: Map<u32, u8>, pc: u32) -> bool {
    is_mapped(fetch_addr(pc)) && is_mapped((fetch_addr(pc) + 1) as u32)
}

/// The instruction word at `pc`.
pub open spec fn word_at(mem: Map<u32, u8>, pc: u32) -> u16 {
    be_word(mem[fetch_addr(pc)], mem[(fetch_addr(pc) + 1) as u32])
}

/// How the masks by which instructions are decoded relate to the high byte.
proof fn lemma_opcode_fields(opcode: u16)
    ensures
        (opcode & 0xfff0 == 0x6a00 || opcode & 0xfff0 == 0x6a80 || opcode & 0xfff0 == 0x6a20
            || opcode & 0xfff0 == 0x6aa0) ==> high_byte(opcode) == 0x6a,
        (opcode & 0xfff0 == 0x6b00 || opcode & 0xfff0 == 0x6b80 || opcode & 0xfff0 == 0x6b20
            || opcode & 0xfff0 == 0x6ba0) ==> high_byte(opcode) == 0x6b,
        opcode & 0xff00 == 0x0f00 ==> high_byte(opcode) == 0x0f,
        opcode & 0xfff8 == 0x7a00 ==> high_byte(opcode) == 0x7a,
{
    assert(((opcode & 0xfff0 == 0x6a00 || opcode & 0xfff0 == 0x6a80 || opcode & 0xfff0 == 0x6a20
        || opcode & 0xfff0 == 0x6aa0) ==> ((opcode >> 8u16) as u8) == 0x6a) && ((opcode & 0xfff0 == 0x6b00
        || opcode & 0xfff0 == 0x6b80 || opcode & 0xfff0 == 0x6b20 || opcode & 0xfff0 == 0x6ba0) ==> ((opcode
        >> 8u16) as u8) == 0x6b) && (opcode & 0xff00 == 0x0f00 ==> ((opcode >> 8u16) as u8) == 0x0f) && (
    opcode & 0xfff8 == 0x7a00 ==> ((opcode >> 8u16) as u8) == 0x7a)) by (bit_vector);
}

/// The program counter lies within a byte of the address it fetches from.
pub(crate) proof fn lemma_fetch_addr(pc: u32)
    ensures
        fetch_addr(pc) <= pc <= fetch_addr(pc) + 1,
{
    assert((pc & 0xfffffffe) <= pc && pc <= (pc & 0xfffffffe) + 1) by (bit_vector);
}

impl Cpu {
    /// Whether the instruction word at `pc` can be fetched.
    fn fetchable(&self, pc: u32) -> (b: bool)
        requires
            self.wf(),
        ensures
            b == fetchable_at(self@.mem, pc),
            b ==> pc <= 0x0100_0000,
    {
        let a = pc & 0xfffffffe;
        proof {
            lemma_fetch_addr(pc);
        }
        if self.bus.read(a).is_err() {
            return false;
        }
        self.bus.read(a + 1).is_ok()
    }

    /// The instruction word at `pc`.
    fn word(&self, pc: u32) -> (w: u16)
        requires
            self.wf(),
            fetchable_at(self@.mem, pc),
        ensures
            w == word_at(self@.mem, pc),
    {
        let a = pc & 0xfffffffe;
        let hi = self.bus.read(a).unwrap();
        let lo = self.bus.read(a + 1).unwrap();
        ((hi as u16) << 8) | (lo as u16)
    }

    /// Whether a 24-bit displacement added to ERn stays within 32 bits.
    fn disp24_ok(&self, ern: u8, disp: u32) -> (b: bool)
        ensures
            b == disp24_in_range(self@.er, ern, disp),
    {
        if ern >= 8 {
            true
        } else if disp & 0x800000 == 0 {
            self.er[ern as usize] <= u32::MAX - disp
        } else {
            disp <= 0xffffff
        }
    }

    fn mov_b_ready(&self, opcode: u16) -> (b: bool)
        requires
            self.wf(),
        ensures
            b == mov_b_pre(self@, opcode),
    {
        proof {
            lemma_opcode_fields(opcode);
            lemma_fetch_addr(self.pc);
        }
        let high = get_high_byte(opcode);
        let sub = opcode & 0xfff0;
        let pc = self.pc;
        if high == 0x6e {
            self.fetchable(pc)
        } else if high == 0x6c {
            let n3 = Cpu::get_nibble_opcode(opcode, 3).unwrap();
            proof {
                lemma_byte_masks(n3);
            }
            if opcode & 0x80 == 0 {
                n3 >= 8 || self.er[n3 as usize] < u32::MAX
            } else {
                self.er[(n3 & 7) as usize] >= 1
            }
        } else if sub == 0x6a00 || sub == 0x6a80 {
            self.fetchable(pc)
        } else if sub == 0x6a20 || sub == 0x6aa0 {
            self.fetchable(pc) && self.fetchable(pc + 2)
        } else {
            true
        }
    }

    fn mov_w_ready(&self, opcode: u16) -> (b: bool)
        requires
            self.wf(),
        ensures
            b == mov_w_pre(self@, opcode),
    {
        proof {
            lemma_opcode_fields(opcode);
            lemma_fetch_addr(self.pc);
        }
        let high = get_high_byte(opcode);
        let sub = opcode & 0xfff0;
        let pc = self.pc;
        if high == 0x79 || high == 0x6f {
            self.fetchable(pc)
        } else if high == 0x6d {
            let n3 = Cpu::get_nibble_opcode(opcode, 3).unwrap();
            proof {
                lemma_byte_masks(n3);
            }
            if opcode & 0x80 == 0 {
                n3 >= 8 || self.er[n3 as usize] <= u32::MAX - 2
            } else {
                self.er[(n3 & 7) as usize] >= 2
            }
        } else if sub == 0x6b00 || sub == 0x6b80 {
            self.fetchable(pc)
        } else if sub == 0x6b20 || sub == 0x6ba0 {
            self.fetchable(pc) && self.fetchable(pc + 2)
        } else {
            true
        }
    }

    fn mov_l_ready(&self, opcode: u16) -> (b: bool)
        requires
            self.wf(),
        ensures
            b == mov_l_pre(self@, opcode),
    {
        proof {
            lemma_opcode_fields(opcode);
            lemma_fetch_addr(self.pc);
        }
        let pc = self.pc;
        if opcode & 0xff00 == 0x0f00 {
            return true;
        }
        if opcode & 0xfff8 == 0x7a00 {
            return self.fetchable(pc) && self.fetchable(pc + 2);
        }
        if !self.fetchable(pc) {
            return false;
        }
        let opcode2 = self.word(pc);
        proof {
            lemma_opcode_fields(opcode2);
        }
        let pc1 = pc + 2;
        let high = get_high_byte(opcode2);
        let sub = opcode2 & 0xfff0;
        let n3 = Cpu::get_nibble_opcode(opcode2, 3).unwrap();
        proof {
            lemma_byte_masks(n3);
        }
        if high == 0x6f {
            self.fetchable(pc1)
        } else if high == 0x78 {
            if !(self.fetchable(pc1) && self.fetchable(pc1 + 2) && self.fetchable(pc1 + 4)) {
                return false;
            }
            let disp = make_long(self.word(pc1 + 2), self.word(pc1 + 4));
            let ern = if opcode2 & 0x80 == 0 { n3 } else { n3 & 7 };
            self.disp24_ok(ern, disp)
        } else if high == 0x6d {
            if opcode2 & 0x80 == 0 {
                n3 >= 8 || self.er[n3 as usize] <= u32::MAX - 4
            } else {
                self.er[(n3 & 7) as usize] <= u32::MAX - 4
            }
        } else if sub == 0x6b00 || sub == 0x6b80 {
            self.fetchable(pc1)
        } else if sub == 0x6b20 || sub == 0x6ba0 {
            self.fetchable(pc1) && self.fetchable(pc1 + 2)
        } else {
            true
        }
    }

    /// Whether the 24-bit displacement move with words `opcode` and
    /// `opcode2`, the latter fetched, can run.
    fn disp24_move_ready(&self, opcode: u16, opcode2: u16, load_form: u16) -> (b: bool)
        requires
            self.wf(),
            can_fetch(self@),
        ensures
            b == (can_fetch(fetched(self@)) && can_fetch(fetched(fetched(self@))) && disp24_in_range(
                self@.er,
                if opcode2 & 0xfff0 == load_form { nibble(opcode, 3) } else { nibble(opcode, 3) & 7 },
                crate::cpu::fetched_long(fetched(self@)),
            )),
    {
        proof {
            lemma_opcode_fields(opcode);
            lemma_fetch_addr(self.pc);
        }
        let pc1 = self.pc + 2;
        if !(self.fetchable(pc1) && self.fetchable(pc1 + 2)) {
            return false;
        }
        let disp = make_long(self.word(pc1), self.word(pc1 + 2));
        let n3 = Cpu::get_nibble_opcode(opcode, 3).unwrap();
        let ern = if opcode2 & 0xfff0 == load_form { n3 } else { n3 & 7 };
        self.disp24_ok(ern, disp)
    }

    fn stc_w_ready(&self, opcode2: u16) -> (b: bool)
        requires
            self.wf(),
            can_fetch(self@),
        ensures
            b == stc_w_pre(fetched(self@), opcode2),
    {
        proof {
            lemma_opcode_fields(opcode2);
            lemma_fetch_addr(self.pc);
        }
        let pc1 = self.pc + 2;
        let h2 = get_high_byte(opcode2);
        let store = opcode2 & 0x80 != 0;
        if h2 == 0x6f && store {
            self.fetchable(pc1)
        } else if h2 == 0x78 {
            if !(self.fetchable(pc1) && self.fetchable(pc1 + 2) && self.fetchable(pc1 + 4)) {
                return false;
            }
            let disp = make_long(self.word(pc1 + 2), self.word(pc1 + 4));
            self.disp24_ok(Cpu::get_nibble_opcode(opcode2, 3).unwrap(), disp)
        } else if h2 == 0x6d && store {
            let n3 = Cpu::get_nibble_opcode(opcode2, 3).unwrap();
            proof {
                lemma_byte_masks(n3);
            }
            self.er[(n3 & 7) as usize] <= u32::MAX - 2
        } else if opcode2 & 0xfff0 == 0x6b80 {
            self.fetchable(pc1)
        } else if opcode2 & 0xfff0 == 0x6ba0 {
            self.fetchable(pc1) && self.fetchable(pc1 + 2)
        } else {
            true
        }
    }

    fn syscall_ready(&self) -> (b: bool)
        requires
            self.wf(),
        ensures
            b == syscall_pre(self@),
    {
        if self.er[0] != SYSCALL_SET_HANDLER {
            return true;
        }
        let a = self.er[1];
        let arg0 = match self.read_abs24_l(a) {
            Ok(v) => v,
            Err(_) => return true,
        };
        let arg1 = match self.read_abs24_l(a + 4) {
            Ok(v) => v,
            Err(_) => return true,
        };
        !(1 <= arg0 && arg0 < 64) || arg1 <= u32::MAX - 0x5a000000
    }

    /// Whether a subroutine branch by `disp` from the program counter `pc`
    /// can run.
    fn bsr_ready(&self, pc: u32, disp: i32) -> (b: bool)
        ensures
            b == (self@.er[7] >= 4 && -0x8000_0000 <= sx32(pc) + disp <= 0x7fff_ffff),
    {
        let base: i64 = if pc < 0x8000_0000 { pc as i64 } else { pc as i64 - 0x1_0000_0000 };
        let t = base + disp as i64;
        self.er[7] >= 4 && -0x8000_0000 <= t && t <= 0x7fff_ffff
    }

    /// Whether the instruction whose first word `opcode` was just fetched can
    /// run: the words that follow it can be fetched, and the registers and
    /// memory it computes with keep its arithmetic within its integer types.
    pub fn can_exec(&self, opcode: u16) -> (b: bool)
        requires
            self.wf(),
        ensures
            b == exec_pre(self@, opcode),
    {
        proof {
            lemma_opcode_fields(opcode);
            lemma_fetch_addr(self.pc);
        }
        let h = get_high_byte(opcode);
        let l = get_low_byte(opcode);
        let pc = self.pc;
        if h == 0x0c || h >= 0xf0 || h == 0x68 || h == 0x6e || h == 0x6c || (0x20 <= h && h <= 0x3f)
            || h == 0x6a {
            self.mov_b_ready(opcode)
        } else if h == 0x0d || h == 0x69 || h == 0x6f || h == 0x6d || h == 0x6b {
            self.mov_w_ready(opcode)
        } else if h == 0x0f {
            self.mov_l_ready(opcode)
        } else if h == 0x01 {
            assert(prefix_01_pre(self@, opcode) == exec_pre(self@, opcode));
            if l == 0x00 {
                self.mov_l_ready(opcode)
            } else if l == 0x40 {
                self.fetchable(pc) && self.stc_w_ready(self.word(pc))
            } else if l == 0xf0 {
                self.fetchable(pc)
            } else {
                true
            }
        } else if h == 0x55 {
            let d: i32 = if l < 0x80 { l as i32 } else { l as i32 - 0x100 };
            assert(d == sext8(low_byte(opcode)));
            self.bsr_ready(pc, d)
        } else if h == 0x5c {
            if !self.fetchable(pc) {
                return false;
            }
            let w = self.word(pc);
            let d: i32 = if w < 0x8000 { w as i32 } else { w as i32 - 0x10000 };
            assert(d == crate::cpu::addressing_mode::disp::sext16(w));
            self.bsr_ready(pc + 2, d)
        } else if h == 0x63 {
            let rs = Cpu::get_nibble_opcode(opcode, 3).unwrap();
            self.read_rn_b(rs).unwrap() < 8
        } else if h == 0x73 {
            Cpu::get_nibble_opcode(opcode, 3).unwrap() < 8
        } else if h == 0x78 {
            if !self.fetchable(pc) {
                return false;
            }
            let w2 = self.word(pc);
            let h2 = get_high_byte(w2);
            if h2 == 0x6a {
                self.disp24_move_ready(opcode, w2, 0x6a20)
            } else if h2 == 0x6b {
                self.disp24_move_ready(opcode, w2, 0x6b20)
            } else {
                true
            }
        } else {
            self.can_exec_rest(opcode)
        }
    }

    fn can_exec_rest(&self, opcode: u16) -> (b: bool)
        requires
            self.wf(),
            !crate::cpu::exec::is_mov_b(high_byte(opcode)),
            !crate::cpu::exec::is_mov_w(high_byte(opcode)),
            high_byte(opcode) != 0x0f && high_byte(opcode) != 0x01 && high_byte(opcode) != 0x55,
            high_byte(opcode) != 0x5c && high_byte(opcode) != 0x63 && high_byte(opcode) != 0x73,
            high_byte(opcode) != 0x78,
        ensures
            b == exec_pre(self@, opcode),
    {
        proof {
            lemma_opcode_fields(opcode);
            lemma_fetch_addr(self.pc);
        }
        let h = get_high_byte(opcode);
        let l = get_low_byte(opcode);
        let pc = self.pc;
        if h == 0x79 {
            let op = opcode & 0x00f0;
            if op == 0x00 {
                self.mov_w_ready(opcode)
            } else if op == 0x20 || op == 0x30 || op == 0x40 || op == 0x50 || op == 0x60 {
                self.fetchable(pc)
            } else {
                true
            }
        } else if h == 0x7a {
            let op = opcode & 0x00f0;
            if op == 0x00 {
                self.mov_l_ready(opcode)
            } else if op == 0x20 {
                Cpu::get_nibble_opcode(opcode, 4).unwrap() >= 8 || (self.fetchable(pc) && self.fetchable(pc + 2))
            } else if op == 0x10 || op == 0x30 || op == 0x40 || op == 0x50 || op == 0x60 {
                self.fetchable(pc) && self.fetchable(pc + 2)
            } else {
                true
            }
        } else if 0x7c <= h && h <= 0x7f {
            if !self.fetchable(pc) {
                return false;
            }
            let w2 = self.word(pc);
            let sel = w2 & 0xff80;
            let n3 = Cpu::get_nibble_opcode(opcode, 3).unwrap();
            let bit_ok = if sel == 0x7300 {
                Cpu::get_nibble_opcode(w2, 3).unwrap() < 8
            } else {
                self.read_rn_b(Cpu::get_nibble_opcode(w2, 3).unwrap()).unwrap() < 8
            };
            if h == 0x7c && (sel == 0x6300 || sel == 0x6380 || sel == 0x7300) {
                match self.get_addr_ern(n3) {
                    Err(_) => true,
                    Ok(a) => self.read_abs24_b(a).is_err() || bit_ok,
                }
            } else if h == 0x7e && (sel == 0x6300 || sel == 0x6380 || sel == 0x7300) {
                self.read_abs8_b(get_low_byte(opcode)).is_err() || bit_ok
            } else {
                true
            }
        } else if h == 0x0a {
            if l <= 0x0f {
                self.read_rn_b(Cpu::get_nibble_opcode(opcode, 4).unwrap()).unwrap() < 0xff
            } else {
                true
            }
        } else if h == 0x0b {
            let rd = Cpu::get_nibble_opcode(opcode, 4).unwrap();
            if (0x50 <= l && l <= 0x5f) || (0xd0 <= l && l <= 0xdf) {
                self.read_rn_w(rd).unwrap() < 0xffff
            } else if (0x70 <= l && l <= 0x77) || (0xf0 <= l && l <= 0xf7) {
                rd >= 8 || self.er[rd as usize] < 0xffff_ffff
            } else {
                true
            }
        } else if h == 0x19 || h == 0x1a {
            true
        } else if 0x59 <= h && h <= 0x5b {
            h != 0x5a || self.fetchable(pc)
        } else if 0x5d <= h && h <= 0x5f {
            self.er[7] >= 4 && (h != 0x5e || self.fetchable(pc))
        } else if (0x40 <= h && h <= 0x4f) || h == 0x58 {
            h != 0x58 || l % 16 != 0 || self.fetchable(pc)
        } else if h == 0x54 || h == 0x56 {
            self.er[7] <= u32::MAX - 4
        } else if h == 0x57 {
            if Cpu::get_nibble_opcode(opcode, 3).unwrap() == 0 {
                self.syscall_ready()
            } else {
                self.er[7] >= 4
            }
        } else {
            true
        }
    }
}

} // verus!
