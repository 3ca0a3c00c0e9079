use vstd::prelude::*;

use crate::cpu::addressing_mode::rn::{spec_rn_b, spec_rn_w, spec_set_rn_w};
use crate::cpu::instruction::{add_cycles, cyc, lemma_small_cycles, nibble};
use crate::cpu::{lemma_cycles_bound, Cpu, CpuView, StateType};
use crate::error::EmuError;

verus! {

/// The state after `MULXU.B Rs, Rd`, from `old` to `new`, and its result `r`.
pub open spec fn mulxu_b_post(old: CpuView, new: CpuView, opcode: u16, r: Result<u8, EmuError>) -> bool {
    &&& ({
        let rd = nibble(opcode, 4);
        let product = (spec_rn_w(old.er, rd) & 0xff) * spec_rn_b(old.er, nibble(opcode, 3));
        new == (CpuView { er: spec_set_rn_w(old.er, rd, product as u16), ..old })
    })
    &&& r == add_cycles(cyc(old, StateType::I, 1), cyc(old, StateType::N, 12))
}

/// The state after `MULXU.W Rs, ERd`, from `old` to `new`, and its result `r`.
pub open spec fn mulxu_w_post(old: CpuView, new: CpuView, opcode: u16, r: Result<u8, EmuError>) -> bool {
    &&& ({
        let rd = nibble(opcode, 4);
        if rd >= 8 {
            new == old && r == Err::<u8, EmuError>(EmuError::InvalidRegister(rd))
        } else {
            let product = (old.er[rd as int] & 0xffff) * spec_rn_w(old.er, nibble(opcode, 3));
            &&& new == (CpuView { er: old.er.update(rd as int, product as u32), ..old })
            &&& r == add_cycles(cyc(old, StateType::I, 1), cyc(old, StateType::N, 20))
        }
    })
}

impl Cpu {
    /// `MULXU.B Rs, Rd`: Rd (nibble 4) becomes its low byte times RsL/RsH
    /// (nibble 3), unsigned; no flag changes.
    pub fn mulxu_b(&mut self, opcode: u16) -> (r: Result<u8, EmuError>)
        requires
            old(self).wf(),
        ensures
            final(self).wf(),
            mulxu_b_post(old(self)@, final(self)@, opcode, r),
    {
        let rs_i = Cpu::get_nibble_opcode(opcode, 3).unwrap();
        let rd_i = Cpu::get_nibble_opcode(opcode, 4).unwrap();
        let rs = self.read_rn_b(rs_i).unwrap();
        let word = self.read_rn_w(rd_i).unwrap();
        let rd = word & 0xff;
        assert(rd <= 0xff) by (bit_vector)
            requires
                rd == word & 0xff,
        ;
        assert(rd * (rs as u16) <= 0xff * 0xff) by (nonlinear_arith)
            requires
                rd <= 0xff,
                rs <= 0xff,
        ;
        let result = rd * (rs as u16);
        self.write_rn_w(rd_i, result).unwrap();
        proof {
            lemma_small_cycles(self@.mem, StateType::I, 1, self.operating_pc);
            lemma_cycles_bound(self@.mem, StateType::N, 12, self.operating_pc);
        }
        let s1 = match self.calc_state(StateType::I, 1) {
            Ok(s) => s,
            Err(e) => return Err(e),
        };
        let s2 = match self.calc_state(StateType::N, 12) {
            Ok(s) => s,
            Err(e) => return Err(e),
        };
        Ok(s1 + s2)
    }

    /// `MULXU.W Rs, ERd`: ERd (nibble 4) becomes its low word times Rs/Es
    /// (nibble 3), unsigned; no flag changes.
    pub fn mulxu_w(&mut self, opcode: u16) -> (r: Result<u8, EmuError>)
        requires
            old(self).wf(),
        ensures
            final(self).wf(),
            mulxu_w_post(old(self)@, final(self)@, opcode, r),
    {
        let rs_i = Cpu::get_nibble_opcode(opcode, 3).unwrap();
        let erd_i = Cpu::get_nibble_opcode(opcode, 4).unwrap();
        let rs = self.read_rn_w(rs_i).unwrap();
        let value = match self.read_rn_l(erd_i) {
            Ok(v) => v,
            Err(e) => return Err(e),
        };
        let erd = value & 0xffff;
        assert(erd <= 0xffff) by (bit_vector)
            requires
                erd == value & 0xffff,
        ;
        assert(erd * (rs as u32) <= 0xffff * 0xffff) by (nonlinear_arith)
            requires
                erd <= 0xffff,
                rs <= 0xffff,
        ;
        let result = erd * (rs as u32);
        self.write_rn_l(erd_i, result).unwrap();
        proof {
            lemma_small_cycles(self@.mem, StateType::I, 1, self.operating_pc);
            lemma_cycles_bound(self@.mem, StateType::N, 20, self.operating_pc);
        }
        let s1 = match self.calc_state(StateType::I, 1) {
            Ok(s) => s,
            Err(e) => return Err(e),
        };
        let s2 = match self.calc_state(StateType::N, 20) {
            Ok(s) => s,
            Err(e) => return Err(e),
        };
        Ok(s1 + s2)
    }
}

} // verus!
