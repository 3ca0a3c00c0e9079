use vstd::prelude::*;

use crate::cpu::{cycles_fit, cycles_result, lemma_cycles_bound, spec_cycles, Cpu, CpuView, StateType};
use crate::error::EmuError;

pub mod add_b;
pub mod add_l;
pub mod adds;
pub mod addx;
pub mod and;
pub mod band;
pub mod bcc;
pub mod bior;
pub mod bist;
pub mod bset;
pub mod bsr;
pub mod btst;
pub mod cmp_b;
pub mod cmp_l;
pub mod cmp_w;
pub mod dec;
pub mod divxu;
pub mod extu;
pub mod inc;
pub mod jmp;
pub mod jsr;
pub mod mov_b;
pub mod mov_l;
pub mod mov_w;
pub mod mulxu;
pub mod neg;
pub mod not;
pub mod or;
pub mod rotl;
pub mod rotr;
pub mod rotxl;
pub mod rte;
pub mod rts;
pub mod shal;
pub mod stc;
pub mod sub_b;
pub mod sub_l;
pub mod sub_w;
pub mod subs;
pub mod trapa;
pub mod xor;

verus! {

/// Nibble `order` of `opcode`, counting 1 to 4 from the most significant.
pub open spec fn nibble(opcode: u16, order: u8) -> u8 {
    ((opcode >> (4 * (4 - order)) as u16) as u8) & 0xf
}

/// The four nibbles of an opcode make it up again.
pub proof fn lemma_nibbles_compose(opcode: u16)
    ensures
        opcode == ((nibble(opcode, 1) as u16) << 12u16) | ((nibble(opcode, 2) as u16) << 8u16) | ((
        nibble(opcode, 3) as u16) << 4u16) | (nibble(opcode, 4) as u16),
        nibble(opcode, 1) < 16 && nibble(opcode, 2) < 16 && nibble(opcode, 3) < 16 && nibble(opcode, 4) < 16,
{
    assert(opcode == ((((((opcode >> 12u16) as u8) & 0xf) as u16) << 12u16) | (((((opcode >> 8u16) as u8)
        & 0xf) as u16) << 8u16) | (((((opcode >> 4u16) as u8) & 0xf) as u16) << 4u16) | ((((opcode
        >> 0u16) as u8) & 0xf) as u16)) && ((opcode >> 12u16) as u8) & 0xf < 16 && ((opcode >> 8u16) as u8) & 0xf < 16 && ((opcode
        >> 4u16) as u8) & 0xf < 16 && ((opcode >> 0u16) as u8) & 0xf < 16) by (bit_vector);
}

/// The low byte of a word.
pub open spec fn low_byte(x: u16) -> u8 {
    x as u8
}

/// The high byte of a word.
pub open spec fn high_byte(x: u16) -> u8 {
    (x >> 8u16) as u8
}

/// The low byte of `x`.
pub fn get_low_byte(x: u16) -> (r: u8)
    ensures
        r == low_byte(x),
{
    x as u8
}

/// The high byte of `x`.
pub fn get_high_byte(x: u16) -> (r: u8)
    ensures
        r == high_byte(x),
        r as u16 == x >> 8u16,
{
    let r = (x >> 8) as u8;
    assert(r as u16 == x >> 8u16) by (bit_vector)
        requires
            r == (x >> 8u16) as u8,
    ;
    r
}

/// The long word whose high half is `hi` and low half `lo`.
pub fn make_long(hi: u16, lo: u16) -> (r: u32)
    ensures
        r == crate::cpu::addressing_mode::abs::be_long(hi, lo),
{
    ((hi as u32) << 16) | (lo as u32)
}

/// The signed value of a byte.
pub open spec fn sx8(x: u8) -> int {
    if x < 0x80 {
        x as int
    } else {
        x - 0x100
    }
}

/// The signed value of a word.
pub open spec fn sx16(x: u16) -> int {
    if x < 0x8000 {
        x as int
    } else {
        x - 0x10000
    }
}

/// The signed value of a long word.
pub open spec fn sx32(x: u32) -> int {
    if x < 0x8000_0000 {
        x as int
    } else {
        x - 0x1_0000_0000
    }
}

/// Facts about masking a byte that register fields and flag arithmetic rely on.
pub proof fn lemma_byte_masks(x: u8)
    ensures
        x & 0x7 < 8,
        x & 0x0f <= 0x0f,
        x & 1 <= 1,
{
    assert(x & 0x7 < 8 && x & 0x0f <= 0x0f && x & 1 <= 1) by (bit_vector);
}

/// The states that `state` cycles of type `state_type` take at the address of
/// the instruction being executed in `v`.
pub open spec fn cyc(v: CpuView, state_type: StateType, state: u8) -> Result<u8, EmuError> {
    cycles_result(v.mem, state_type, state, v.operating_pc)
}

/// The sum of two cycle counts, or the first error of the two.
pub open spec fn add_cycles(a: Result<u8, EmuError>, b: Result<u8, EmuError>) -> Result<u8, EmuError> {
    match a {
        Err(e) => Err(e),
        Ok(x) => match b {
            Err(e) => Err(e),
            Ok(y) => Ok((x + y) as u8),
        },
    }
}

/// The cycle counts of one instruction are small enough to add up in a byte.
pub proof fn lemma_small_cycles(mem: Map<u32, u8>, state_type: StateType, state: u8, addr: u32)
    requires
        state <= 5,
    ensures
        cycles_fit(mem, state_type, state, addr),
        spec_cycles(mem, state_type, state, addr) matches Some(c) ==> c <= 70,
{
    lemma_cycles_bound(mem, state_type, state, addr);
}

/// `fetch` instruction fetch states plus `k` states of type `t` at `addr`.
pub open spec fn data_cycles(v: CpuView, fetch: u8, t: StateType, k: u8, addr: u32) -> Result<u8, EmuError> {
    add_cycles(cyc(v, StateType::I, fetch), cycles_result(v.mem, t, k, addr))
}

impl Cpu {
    /// Nibble `order` (1 to 4, most significant first) of `opcode`.
    pub fn get_nibble_opcode(opcode: u16, order: u8) -> (r: Result<u8, EmuError>)
        ensures
            1 <= order <= 4 ==> r == Ok::<u8, EmuError>(nibble(opcode, order)),
            1 <= order <= 4 ==> nibble(opcode, order) < 16,
            !(1 <= order <= 4) ==> r == Err::<u8, EmuError>(EmuError::InvalidOrder(order)),
    {
        if 1 <= order && order <= 4 {
            let shift: u16 = (4 * (4 - order)) as u16;
            let n = ((opcode >> shift) as u8) & 0xf;
            assert(n < 16) by (bit_vector)
                requires
                    n == ((opcode >> shift) as u8) & 0xf,
            ;
            Ok(n)
        } else {
            Err(EmuError::InvalidOrder(order))
        }
    }

    /// `fetch` instruction fetch states plus `k` states of type `t` at `addr`.
    pub(crate) fn data_states(&self, fetch: u8, t: StateType, k: u8, addr: u32) -> (r: Result<u8, EmuError>)
        requires
            self.wf(),
            fetch <= 5,
            k <= 5,
        ensures
            r == data_cycles(self@, fetch, t, k, addr),
            r matches Ok(c) ==> c <= 140,
    {
        proof {
            lemma_small_cycles(self@.mem, StateType::I, fetch, self.operating_pc);
            lemma_small_cycles(self@.mem, t, k, addr);
        }
        let s1 = match self.calc_state(StateType::I, fetch) {
            Ok(s) => s,
            Err(e) => return Err(e),
        };
        let s2 = match self.calc_state_with_addr(t, k, addr) {
            Ok(s) => s,
            Err(e) => return Err(e),
        };
        Ok(s1 + s2)
    }
}

} // verus!
