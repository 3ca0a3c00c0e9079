use vstd::prelude::*;

use crate::cpu::addressing_mode::disp::sext16;
use crate::cpu::addressing_mode::pc::{branch, sext8};
use crate::cpu::instruction::{add_cycles, cyc, get_high_byte, get_low_byte, high_byte, lemma_small_cycles, low_byte};
use crate::cpu::{can_fetch, fetched, fetched_word, flag_of, Cpu, CpuView, StateType, CCR};
use crate::error::EmuError;

verus! {

/// Whether the branch of condition number `cond` (the low nibble of the
/// 8-bit forms' first byte) is taken with condition codes `ccr`.
pub open spec fn branch_condition(ccr: u8, cond: u8) -> bool {
    let c = flag_of(ccr, CCR::C.spec_bit());
    let z = flag_of(ccr, CCR::Z.spec_bit());
    let v = flag_of(ccr, CCR::V.spec_bit());
    let n = flag_of(ccr, CCR::N.spec_bit());
        if cond == 0 {
            true
        } else if cond == 1 {
            false
        } else if cond == 2 {
            c | z == 0
        } else if cond == 3 {
            c | z == 1
        } else if cond == 4 {
            c == 0
        } else if cond == 5 {
            c == 1
        } else if cond == 6 {
            z == 0
        } else if cond == 7 {
            z == 1
        } else if cond == 8 {
            v == 0
        } else if cond == 9 {
            v == 1
        } else if cond == 10 {
            n == 0
        } else if cond == 11 {
            n == 1
        } else if cond == 12 {
            (n ^ v) == 0
        } else if cond == 13 {
            (n ^ v) == 1
        } else if cond == 14 {
            z | (n ^ v) == 0
        } else if cond == 15 {
            z | (n ^ v) == 1
        } else {
            false
        }
}

/// What a conditional branch does once its displacement `disp` is known in
/// state `v`: where taken, the program counter moves by it (see `branch`);
/// the states are counted where the move succeeds or is not taken.
pub open spec fn branch_post(v: CpuView, new: CpuView, taken: bool, disp: int, states: Result<u8, EmuError>, r: Result<u8, EmuError>) -> bool {
    if taken {
        let (moved, res) = branch(v, disp);
        new == moved && r == (if res is Err { Err::<u8, EmuError>(res->Err_0) } else { states })
    } else {
        new == v && r == states
    }
}

/// What `Bcc d:8` with condition `cond` does; the displacement is the low byte of `opcode`.
pub open spec fn bcc8_post(old: CpuView, new: CpuView, opcode: u16, cond: u8, r: Result<u8, EmuError>) -> bool {
    let taken = branch_condition(old.ccr, cond);
    let after = if taken { branch(old, sext8(low_byte(opcode))).0 } else { old };
    branch_post(old, new, taken, sext8(low_byte(opcode)), cyc(after, StateType::I, 2), r)
}

/// What `Bcc d:16` with condition `cond` does; the displacement is the word that follows.
pub open spec fn bcc16_post(old: CpuView, new: CpuView, cond: u8, r: Result<u8, EmuError>) -> bool {
    let v1 = fetched(old);
    let taken = branch_condition(v1.ccr, cond);
    let after = if taken { branch(v1, sext16(fetched_word(old))).0 } else { v1 };
    branch_post(
        v1,
        new,
        taken,
        sext16(fetched_word(old)),
        add_cycles(cyc(after, StateType::I, 2), cyc(after, StateType::N, 2)),
        r,
    )
}

/// `Bcc` needs its displacement word in the 16-bit forms (first byte 0x58,
/// second byte a multiple of 16); the other second bytes are refused before
/// anything is fetched.
pub open spec fn bcc_pre(v: CpuView, opcode: u16) -> bool {
    high_byte(opcode) == 0x58 && low_byte(opcode) % 16 == 0 ==> can_fetch(v)
}

/// What `Bcc` does: first bytes 0x40 to 0x4f are the 8-bit forms, with the
/// condition in the low nibble; first byte 0x58 with a second byte that is a multiple of 16 the
/// 16-bit forms, with the condition in the high nibble of the second byte.
pub open spec fn bcc_post(old: CpuView, new: CpuView, opcode: u16, r: Result<u8, EmuError>) -> bool {
    let high = high_byte(opcode);
    let low = low_byte(opcode);
    if 0x40 <= high <= 0x4f {
        bcc8_post(old, new, opcode, (high - 0x40) as u8, r)
    } else if high == 0x58 && low % 16 == 0 {
        bcc16_post(old, new, low / 16, r)
    } else {
        new == old && r == Err::<u8, EmuError>(EmuError::InvalidOpcode(opcode))
    }
}


impl Cpu {
    /// `Bcc`: the sixteen conditional branches, 8-bit and 16-bit forms.
    pub fn bcc(&mut self, opcode: u16) -> (r: Result<u8, EmuError>)
        requires
            old(self).wf(),
            bcc_pre(old(self)@, opcode),
        ensures
            final(self).wf(),
            bcc_post(old(self)@, final(self)@, opcode, r),
    {
        let high = get_high_byte(opcode);
        let low = get_low_byte(opcode);
        if high == 0x40 {
            self.bra8(opcode)
        } else if high == 0x41 {
            self.brn8()
        } else if high == 0x42 {
            self.bhi8(opcode)
        } else if high == 0x43 {
            self.bls8(opcode)
        } else if high == 0x44 {
            self.bcc8(opcode)
        } else if high == 0x45 {
            self.bcs8(opcode)
        } else if high == 0x46 {
            self.bne8(opcode)
        } else if high == 0x47 {
            self.beq8(opcode)
        } else if high == 0x48 {
            self.bvc8(opcode)
        } else if high == 0x49 {
            self.bvs8(opcode)
        } else if high == 0x4a {
            self.bpl8(opcode)
        } else if high == 0x4b {
            self.bmi8(opcode)
        } else if high == 0x4c {
            self.bge8(opcode)
        } else if high == 0x4d {
            self.blt8(opcode)
        } else if high == 0x4e {
            self.bgt8(opcode)
        } else if high == 0x4f {
            self.ble8(opcode)
        } else if high == 0x58 && low == 0x00 {
            self.bra16()
        } else if high == 0x58 && low == 0x10 {
            self.brn16()
        } else if high == 0x58 && low == 0x20 {
            self.bhi16()
        } else if high == 0x58 && low == 0x30 {
            self.bls16()
        } else if high == 0x58 && low == 0x40 {
            self.bcc16()
        } else if high == 0x58 && low == 0x50 {
            self.bcs16()
        } else if high == 0x58 && low == 0x60 {
            self.bne16()
        } else if high == 0x58 && low == 0x70 {
            self.beq16()
        } else if high == 0x58 && low == 0x80 {
            self.bvc16()
        } else if high == 0x58 && low == 0x90 {
            self.bvs16()
        } else if high == 0x58 && low == 0xa0 {
            self.bpl16()
        } else if high == 0x58 && low == 0xb0 {
            self.bmi16()
        } else if high == 0x58 && low == 0xc0 {
            self.bge16()
        } else if high == 0x58 && low == 0xd0 {
            self.blt16()
        } else if high == 0x58 && low == 0xe0 {
            self.bgt16()
        } else if high == 0x58 && low == 0xf0 {
            self.ble16()
        } else {
            Err(EmuError::InvalidOpcode(opcode))
        }
    }

    /// `BRA d:8`: branches by the low byte of `opcode` always.
    fn bra8(&mut self, opcode: u16) -> (r: Result<u8, EmuError>)
        requires
            old(self).wf(),
        ensures
            final(self).wf(),
            bcc8_post(old(self)@, final(self)@, opcode, 0, r),
    {
        match self.pc_disp8(get_low_byte(opcode)) {
            Ok(_) => {},
            Err(e) => return Err(e),
        }
        proof {
            lemma_small_cycles(self@.mem, StateType::I, 2, self.operating_pc);
        }
        self.calc_state(StateType::I, 2)
    }

    /// `BRA d:16`: branches by the word that follows always.
    fn bra16(&mut self) -> (r: Result<u8, EmuError>)
        requires
            old(self).wf(),
            can_fetch(old(self)@),
        ensures
            final(self).wf(),
            bcc16_post(old(self)@, final(self)@, 0, r),
    {
        let opcode2 = self.fetch();
        match self.pc_disp16(opcode2) {
            Ok(_) => {},
            Err(e) => return Err(e),
        }
        self.branch_states()
    }

    /// `BRN d:8`: never branches.
    fn brn8(&mut self) -> (r: Result<u8, EmuError>)
        requires
            old(self).wf(),
        ensures
            final(self).wf(),
            final(self)@ == old(self)@,
            r == cyc(old(self)@, StateType::I, 2),
    {
        proof {
            lemma_small_cycles(self@.mem, StateType::I, 2, self.operating_pc);
        }
        self.calc_state(StateType::I, 2)
    }

    /// `BRN d:16`: branches by the word that follows never.
    fn brn16(&mut self) -> (r: Result<u8, EmuError>)
        requires
            old(self).wf(),
            can_fetch(old(self)@),
        ensures
            final(self).wf(),
            bcc16_post(old(self)@, final(self)@, 1, r),
    {
        let _opcode2 = self.fetch();
        self.branch_states()
    }

    /// `BHI d:8`: branches by the low byte of `opcode` where C | Z is 0.
    fn bhi8(&mut self, opcode: u16) -> (r: Result<u8, EmuError>)
        requires
            old(self).wf(),
        ensures
            final(self).wf(),
            bcc8_post(old(self)@, final(self)@, opcode, 2, r),
    {
        if self.read_ccr(CCR::C) | self.read_ccr(CCR::Z) == 0 {
            match self.pc_disp8(get_low_byte(opcode)) {
                Ok(_) => {},
                Err(e) => return Err(e),
            }
        }
        proof {
            lemma_small_cycles(self@.mem, StateType::I, 2, self.operating_pc);
        }
        self.calc_state(StateType::I, 2)
    }

    /// `BHI d:16`: branches by the word that follows where C | Z is 0.
    fn bhi16(&mut self) -> (r: Result<u8, EmuError>)
        requires
            old(self).wf(),
            can_fetch(old(self)@),
        ensures
            final(self).wf(),
            bcc16_post(old(self)@, final(self)@, 2, r),
    {
        let opcode2 = self.fetch();
        if self.read_ccr(CCR::C) | self.read_ccr(CCR::Z) == 0 {
            match self.pc_disp16(opcode2) {
                Ok(_) => {},
                Err(e) => return Err(e),
            }
        }
        self.branch_states()
    }

    /// `BLS d:8`: branches by the low byte of `opcode` where C | Z is 1.
    fn bls8(&mut self, opcode: u16) -> (r: Result<u8, EmuError>)
        requires
            old(self).wf(),
        ensures
            final(self).wf(),
            bcc8_post(old(self)@, final(self)@, opcode, 3, r),
    {
        if self.read_ccr(CCR::C) | self.read_ccr(CCR::Z) == 1 {
            match self.pc_disp8(get_low_byte(opcode)) {
                Ok(_) => {},
                Err(e) => return Err(e),
            }
        }
        proof {
            lemma_small_cycles(self@.mem, StateType::I, 2, self.operating_pc);
        }
        self.calc_state(StateType::I, 2)
    }

    /// `BLS d:16`: branches by the word that follows where C | Z is 1.
    fn bls16(&mut self) -> (r: Result<u8, EmuError>)
        requires
            old(self).wf(),
            can_fetch(old(self)@),
        ensures
            final(self).wf(),
            bcc16_post(old(self)@, final(self)@, 3, r),
    {
        let opcode2 = self.fetch();
        if self.read_ccr(CCR::C) | self.read_ccr(CCR::Z) == 1 {
            match self.pc_disp16(opcode2) {
                Ok(_) => {},
                Err(e) => return Err(e),
            }
        }
        self.branch_states()
    }

    /// `BCC d:8`: branches by the low byte of `opcode` where C is 0.
    fn bcc8(&mut self, opcode: u16) -> (r: Result<u8, EmuError>)
        requires
            old(self).wf(),
        ensures
            final(self).wf(),
            bcc8_post(old(self)@, final(self)@, opcode, 4, r),
    {
        if self.read_ccr(CCR::C) == 0 {
            match self.pc_disp8(get_low_byte(opcode)) {
                Ok(_) => {},
                Err(e) => return Err(e),
            }
        }
        proof {
            lemma_small_cycles(self@.mem, StateType::I, 2, self.operating_pc);
        }
        self.calc_state(StateType::I, 2)
    }

    /// `BCC d:16`: branches by the word that follows where C is 0.
    fn bcc16(&mut self) -> (r: Result<u8, EmuError>)
        requires
            old(self).wf(),
            can_fetch(old(self)@),
        ensures
            final(self).wf(),
            bcc16_post(old(self)@, final(self)@, 4, r),
    {
        let opcode2 = self.fetch();
        if self.read_ccr(CCR::C) == 0 {
            match self.pc_disp16(opcode2) {
                Ok(_) => {},
                Err(e) => return Err(e),
            }
        }
        self.branch_states()
    }

    /// `BCS d:8`: branches by the low byte of `opcode` where C is 1.
    fn bcs8(&mut self, opcode: u16) -> (r: Result<u8, EmuError>)
        requires
            old(self).wf(),
        ensures
            final(self).wf(),
            bcc8_post(old(self)@, final(self)@, opcode, 5, r),
    {
        if self.read_ccr(CCR::C) == 1 {
            match self.pc_disp8(get_low_byte(opcode)) {
                Ok(_) => {},
                Err(e) => return Err(e),
            }
        }
        proof {
            lemma_small_cycles(self@.mem, StateType::I, 2, self.operating_pc);
        }
        self.calc_state(StateType::I, 2)
    }

    /// `BCS d:16`: branches by the word that follows where C is 1.
    fn bcs16(&mut self) -> (r: Result<u8, EmuError>)
        requires
            old(self).wf(),
            can_fetch(old(self)@),
        ensures
            final(self).wf(),
            bcc16_post(old(self)@, final(self)@, 5, r),
    {
        let opcode2 = self.fetch();
        if self.read_ccr(CCR::C) == 1 {
            match self.pc_disp16(opcode2) {
                Ok(_) => {},
                Err(e) => return Err(e),
            }
        }
        self.branch_states()
    }

    /// `BNE d:8`: branches by the low byte of `opcode` where Z is 0.
    fn bne8(&mut self, opcode: u16) -> (r: Result<u8, EmuError>)
        requires
            old(self).wf(),
        ensures
            final(self).wf(),
            bcc8_post(old(self)@, final(self)@, opcode, 6, r),
    {
        if self.read_ccr(CCR::Z) == 0 {
            match self.pc_disp8(get_low_byte(opcode)) {
                Ok(_) => {},
                Err(e) => return Err(e),
            }
        }
        proof {
            lemma_small_cycles(self@.mem, StateType::I, 2, self.operating_pc);
        }
        self.calc_state(StateType::I, 2)
    }

    /// `BNE d:16`: branches by the word that follows where Z is 0.
    fn bne16(&mut self) -> (r: Result<u8, EmuError>)
        requires
            old(self).wf(),
            can_fetch(old(self)@),
        ensures
            final(self).wf(),
            bcc16_post(old(self)@, final(self)@, 6, r),
    {
        let opcode2 = self.fetch();
        if self.read_ccr(CCR::Z) == 0 {
            match self.pc_disp16(opcode2) {
                Ok(_) => {},
                Err(e) => return Err(e),
            }
        }
        self.branch_states()
    }

    /// `BEQ d:8`: branches by the low byte of `opcode` where Z is 1.
    fn beq8(&mut self, opcode: u16) -> (r: Result<u8, EmuError>)
        requires
            old(self).wf(),
        ensures
            final(self).wf(),
            bcc8_post(old(self)@, final(self)@, opcode, 7, r),
    {
        if self.read_ccr(CCR::Z) == 1 {
            match self.pc_disp8(get_low_byte(opcode)) {
                Ok(_) => {},
                Err(e) => return Err(e),
            }
        }
        proof {
            lemma_small_cycles(self@.mem, StateType::I, 2, self.operating_pc);
        }
        self.calc_state(StateType::I, 2)
    }

    /// `BEQ d:16`: branches by the word that follows where Z is 1.
    fn beq16(&mut self) -> (r: Result<u8, EmuError>)
        requires
            old(self).wf(),
            can_fetch(old(self)@),
        ensures
            final(self).wf(),
            bcc16_post(old(self)@, final(self)@, 7, r),
    {
        let opcode2 = self.fetch();
        if self.read_ccr(CCR::Z) == 1 {
            match self.pc_disp16(opcode2) {
                Ok(_) => {},
                Err(e) => return Err(e),
            }
        }
        self.branch_states()
    }

    /// `BVC d:8`: branches by the low byte of `opcode` where V is 0.
    fn bvc8(&mut self, opcode: u16) -> (r: Result<u8, EmuError>)
        requires
            old(self).wf(),
        ensures
            final(self).wf(),
            bcc8_post(old(self)@, final(self)@, opcode, 8, r),
    {
        if self.read_ccr(CCR::V) == 0 {
            match self.pc_disp8(get_low_byte(opcode)) {
                Ok(_) => {},
                Err(e) => return Err(e),
            }
        }
        proof {
            lemma_small_cycles(self@.mem, StateType::I, 2, self.operating_pc);
        }
        self.calc_state(StateType::I, 2)
    }

    /// `BVC d:16`: branches by the word that follows where V is 0.
    fn bvc16(&mut self) -> (r: Result<u8, EmuError>)
        requires
            old(self).wf(),
            can_fetch(old(self)@),
        ensures
            final(self).wf(),
            bcc16_post(old(self)@, final(self)@, 8, r),
    {
        let opcode2 = self.fetch();
        if self.read_ccr(CCR::V) == 0 {
            match self.pc_disp16(opcode2) {
                Ok(_) => {},
                Err(e) => return Err(e),
            }
        }
        self.branch_states()
    }

    /// `BVS d:8`: branches by the low byte of `opcode` where V is 1.
    fn bvs8(&mut self, opcode: u16) -> (r: Result<u8, EmuError>)
        requires
            old(self).wf(),
        ensures
            final(self).wf(),
            bcc8_post(old(self)@, final(self)@, opcode, 9, r),
    {
        if self.read_ccr(CCR::V) == 1 {
            match self.pc_disp8(get_low_byte(opcode)) {
                Ok(_) => {},
                Err(e) => return Err(e),
            }
        }
        proof {
            lemma_small_cycles(self@.mem, StateType::I, 2, self.operating_pc);
        }
        self.calc_state(StateType::I, 2)
    }

    /// `BVS d:16`: branches by the word that follows where V is 1.
    fn bvs16(&mut self) -> (r: Result<u8, EmuError>)
        requires
            old(self).wf(),
            can_fetch(old(self)@),
        ensures
            final(self).wf(),
            bcc16_post(old(self)@, final(self)@, 9, r),
    {
        let opcode2 = self.fetch();
        if self.read_ccr(CCR::V) == 1 {
            match self.pc_disp16(opcode2) {
                Ok(_) => {},
                Err(e) => return Err(e),
            }
        }
        self.branch_states()
    }

    /// `BPL d:8`: branches by the low byte of `opcode` where N is 0.
    fn bpl8(&mut self, opcode: u16) -> (r: Result<u8, EmuError>)
        requires
            old(self).wf(),
        ensures
            final(self).wf(),
            bcc8_post(old(self)@, final(self)@, opcode, 10, r),
    {
        if self.read_ccr(CCR::N) == 0 {
            match self.pc_disp8(get_low_byte(opcode)) {
                Ok(_) => {},
                Err(e) => return Err(e),
            }
        }
        proof {
            lemma_small_cycles(self@.mem, StateType::I, 2, self.operating_pc);
        }
        self.calc_state(StateType::I, 2)
    }

    /// `BPL d:16`: branches by the word that follows where N is 0.
    fn bpl16(&mut self) -> (r: Result<u8, EmuError>)
        requires
            old(self).wf(),
            can_fetch(old(self)@),
        ensures
            final(self).wf(),
            bcc16_post(old(self)@, final(self)@, 10, r),
    {
        let opcode2 = self.fetch();
        if self.read_ccr(CCR::N) == 0 {
            match self.pc_disp16(opcode2) {
                Ok(_) => {},
                Err(e) => return Err(e),
            }
        }
        self.branch_states()
    }

    /// `BMI d:8`: branches by the low byte of `opcode` where N is 1.
    fn bmi8(&mut self, opcode: u16) -> (r: Result<u8, EmuError>)
        requires
            old(self).wf(),
        ensures
            final(self).wf(),
            bcc8_post(old(self)@, final(self)@, opcode, 11, r),
    {
        if self.read_ccr(CCR::N) == 1 {
            match self.pc_disp8(get_low_byte(opcode)) {
                Ok(_) => {},
                Err(e) => return Err(e),
            }
        }
        proof {
            lemma_small_cycles(self@.mem, StateType::I, 2, self.operating_pc);
        }
        self.calc_state(StateType::I, 2)
    }

    /// `BMI d:16`: branches by the word that follows where N is 1.
    fn bmi16(&mut self) -> (r: Result<u8, EmuError>)
        requires
            old(self).wf(),
            can_fetch(old(self)@),
        ensures
            final(self).wf(),
            bcc16_post(old(self)@, final(self)@, 11, r),
    {
        let opcode2 = self.fetch();
        if self.read_ccr(CCR::N) == 1 {
            match self.pc_disp16(opcode2) {
                Ok(_) => {},
                Err(e) => return Err(e),
            }
        }
        self.branch_states()
    }

    /// `BGE d:8`: branches by the low byte of `opcode` where N ^ V is 0.
    fn bge8(&mut self, opcode: u16) -> (r: Result<u8, EmuError>)
        requires
            old(self).wf(),
        ensures
            final(self).wf(),
            bcc8_post(old(self)@, final(self)@, opcode, 12, r),
    {
        if (self.read_ccr(CCR::N) ^ self.read_ccr(CCR::V)) == 0 {
            match self.pc_disp8(get_low_byte(opcode)) {
                Ok(_) => {},
                Err(e) => return Err(e),
            }
        }
        proof {
            lemma_small_cycles(self@.mem, StateType::I, 2, self.operating_pc);
        }
        self.calc_state(StateType::I, 2)
    }

    /// `BGE d:16`: branches by the word that follows where N ^ V is 0.
    fn bge16(&mut self) -> (r: Result<u8, EmuError>)
        requires
            old(self).wf(),
            can_fetch(old(self)@),
        ensures
            final(self).wf(),
            bcc16_post(old(self)@, final(self)@, 12, r),
    {
        let opcode2 = self.fetch();
        if (self.read_ccr(CCR::N) ^ self.read_ccr(CCR::V)) == 0 {
            match self.pc_disp16(opcode2) {
                Ok(_) => {},
                Err(e) => return Err(e),
            }
        }
        self.branch_states()
    }

    /// `BLT d:8`: branches by the low byte of `opcode` where N ^ V is 1.
    fn blt8(&mut self, opcode: u16) -> (r: Result<u8, EmuError>)
        requires
            old(self).wf(),
        ensures
            final(self).wf(),
            bcc8_post(old(self)@, final(self)@, opcode, 13, r),
    {
        if (self.read_ccr(CCR::N) ^ self.read_ccr(CCR::V)) == 1 {
            match self.pc_disp8(get_low_byte(opcode)) {
                Ok(_) => {},
                Err(e) => return Err(e),
            }
        }
        proof {
            lemma_small_cycles(self@.mem, StateType::I, 2, self.operating_pc);
        }
        self.calc_state(StateType::I, 2)
    }

    /// `BLT d:16`: branches by the word that follows where N ^ V is 1.
    fn blt16(&mut self) -> (r: Result<u8, EmuError>)
        requires
            old(self).wf(),
            can_fetch(old(self)@),
        ensures
            final(self).wf(),
            bcc16_post(old(self)@, final(self)@, 13, r),
    {
        let opcode2 = self.fetch();
        if (self.read_ccr(CCR::N) ^ self.read_ccr(CCR::V)) == 1 {
            match self.pc_disp16(opcode2) {
                Ok(_) => {},
                Err(e) => return Err(e),
            }
        }
        self.branch_states()
    }

    /// `BGT d:8`: branches by the low byte of `opcode` where Z | (N ^ V) is 0.
    fn bgt8(&mut self, opcode: u16) -> (r: Result<u8, EmuError>)
        requires
            old(self).wf(),
        ensures
            final(self).wf(),
            bcc8_post(old(self)@, final(self)@, opcode, 14, r),
    {
        if self.read_ccr(CCR::Z) | (self.read_ccr(CCR::N) ^ self.read_ccr(CCR::V)) == 0 {
            match self.pc_disp8(get_low_byte(opcode)) {
                Ok(_) => {},
                Err(e) => return Err(e),
            }
        }
        proof {
            lemma_small_cycles(self@.mem, StateType::I, 2, self.operating_pc);
        }
        self.calc_state(StateType::I, 2)
    }

    /// `BGT d:16`: branches by the word that follows where Z | (N ^ V) is 0.
    fn bgt16(&mut self) -> (r: Result<u8, EmuError>)
        requires
            old(self).wf(),
            can_fetch(old(self)@),
        ensures
            final(self).wf(),
            bcc16_post(old(self)@, final(self)@, 14, r),
    {
        let opcode2 = self.fetch();
        if self.read_ccr(CCR::Z) | (self.read_ccr(CCR::N) ^ self.read_ccr(CCR::V)) == 0 {
            match self.pc_disp16(opcode2) {
                Ok(_) => {},
                Err(e) => return Err(e),
            }
        }
        self.branch_states()
    }

    /// `BLE d:8`: branches by the low byte of `opcode` where Z | (N ^ V) is 1.
    fn ble8(&mut self, opcode: u16) -> (r: Result<u8, EmuError>)
        requires
            old(self).wf(),
        ensures
            final(self).wf(),
            bcc8_post(old(self)@, final(self)@, opcode, 15, r),
    {
        if self.read_ccr(CCR::Z) | (self.read_ccr(CCR::N) ^ self.read_ccr(CCR::V)) == 1 {
            match self.pc_disp8(get_low_byte(opcode)) {
                Ok(_) => {},
                Err(e) => return Err(e),
            }
        }
        proof {
            lemma_small_cycles(self@.mem, StateType::I, 2, self.operating_pc);
        }
        self.calc_state(StateType::I, 2)
    }

    /// `BLE d:16`: branches by the word that follows where Z | (N ^ V) is 1.
    fn ble16(&mut self) -> (r: Result<u8, EmuError>)
        requires
            old(self).wf(),
            can_fetch(old(self)@),
        ensures
            final(self).wf(),
            bcc16_post(old(self)@, final(self)@, 15, r),
    {
        let opcode2 = self.fetch();
        if self.read_ccr(CCR::Z) | (self.read_ccr(CCR::N) ^ self.read_ccr(CCR::V)) == 1 {
            match self.pc_disp16(opcode2) {
                Ok(_) => {},
                Err(e) => return Err(e),
            }
        }
        self.branch_states()
    }

    /// Two fetch states and two internal states, the count of the 16-bit branches.
    pub(crate) fn branch_states(&self) -> (r: Result<u8, EmuError>)
        requires
            self.wf(),
        ensures
            r == add_cycles(cyc(self@, StateType::I, 2), cyc(self@, StateType::N, 2)),
    {
        proof {
            lemma_small_cycles(self@.mem, StateType::I, 2, self.operating_pc);
            lemma_small_cycles(self@.mem, StateType::N, 2, self.operating_pc);
        }
        let s1 = match self.calc_state(StateType::I, 2) {
            Ok(s) => s,
            Err(e) => return Err(e),
        };
        let s2 = match self.calc_state(StateType::N, 2) {
            Ok(s) => s,
            Err(e) => return Err(e),
        };
        Ok(s1 + s2)
    }
}

} // verus!
