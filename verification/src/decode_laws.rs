//! What the decoder makes of a first instruction word: for the register
//! forms of the data moves, the logical and arithmetic operations, the
//! compares and the 8-bit branches, the effect that the H8/300H opcode map
//! gives the first byte.

use vstd::prelude::*;

use crate::cpu::addressing_mode::rn::{spec_rn_b, spec_rn_w};
use crate::cpu::exec::exec_post;
use crate::cpu::instruction::bcc::branch_condition;
use crate::cpu::instruction::{high_byte, low_byte, nibble};
use crate::cpu::{flag_of, CpuView, CCR};
use crate::error::EmuError;
use crate::instruction_laws::{
    signed_byte, signed_word,
    byte_result, law_and_b_rn, law_and_w_rn, law_bcc8, law_cmp_b_rn, law_cmp_w_rn, law_mov_b_rn, law_mov_w_rn,
    law_or_b_rn, law_or_w_rn, law_sub_b_rn, law_sub_w_rn, law_xor_b_rn, law_xor_w_rn, word_result,
};

verus! {

/// The high byte of a word, widened back, is the word shifted right by 8.
proof fn lemma_high_byte(x: u16)
    ensures
        (high_byte(x) as u16) == x >> 8u16,
{
    assert(((x >> 8u16) as u8) as u16 == x >> 8u16) by (bit_vector);
}

/// The register-to-register moves and logical operations by their first
/// byte: 0x0c `MOV.B`, 0x0d `MOV.W`, 0x14 `OR.B`, 0x15 `XOR.B`, 0x16
/// `AND.B`, 0x64 `OR.W`, 0x65 `XOR.W` and 0x66 `AND.W`, each from the
/// register of nibble 3 into the one of nibble 4.
pub proof fn law_decode_logic(old: CpuView, new: CpuView, opcode: u16, r: Result<u8, EmuError>)
    requires
        old.er.len() == 8,
        exec_post(old, new, opcode, r),
    ensures
        ({
            let h = high_byte(opcode);
            let s = nibble(opcode, 3);
            let d = nibble(opcode, 4);
            &&& h == 0x0c ==> byte_result(old, new, d, spec_rn_b(old.er, s))
            &&& h == 0x0d ==> word_result(old, new, d, spec_rn_w(old.er, s))
            &&& h == 0x14 ==> byte_result(old, new, d, spec_rn_b(old.er, s) | spec_rn_b(old.er, d))
            &&& h == 0x15 ==> byte_result(old, new, d, spec_rn_b(old.er, s) ^ spec_rn_b(old.er, d))
            &&& h == 0x16 ==> byte_result(old, new, d, spec_rn_b(old.er, s) & spec_rn_b(old.er, d))
            &&& h == 0x64 ==> word_result(old, new, d, spec_rn_w(old.er, s) | spec_rn_w(old.er, d))
            &&& h == 0x65 ==> word_result(old, new, d, spec_rn_w(old.er, s) ^ spec_rn_w(old.er, d))
            &&& h == 0x66 ==> word_result(old, new, d, spec_rn_w(old.er, s) & spec_rn_w(old.er, d))
        }),
{
    let h = high_byte(opcode);
    if h == 0x0c {
        law_mov_b_rn(old, new, opcode, r);
    } else if h == 0x0d {
        law_mov_w_rn(old, new, opcode, r);
    } else if h == 0x14 {
        law_or_b_rn(old, new, opcode, r);
    } else if h == 0x15 {
        law_xor_b_rn(old, new, opcode, r);
    } else if h == 0x16 {
        law_and_b_rn(old, new, opcode, r);
    } else if h == 0x64 {
        law_or_w_rn(old, new, opcode, r);
    } else if h == 0x65 {
        law_xor_w_rn(old, new, opcode, r);
    } else if h == 0x66 {
        law_and_w_rn(old, new, opcode, r);
    }
}

/// The register-to-register subtractions and compares by their first byte:
/// 0x18 `SUB.B` and 0x19 `SUB.W` leave Rd (nibble 4) minus Rs (nibble 3);
/// 0x1c `CMP.B` and 0x1d `CMP.W` change no register. All four set C exactly
/// where Rd is below Rs unsigned, Z where they are equal, and N unlike V
/// where Rd is below Rs signed.
pub proof fn law_decode_subtract(old: CpuView, new: CpuView, opcode: u16, r: Result<u8, EmuError>)
    requires
        old.er.len() == 8,
        exec_post(old, new, opcode, r),
    ensures
        ({
            let h = high_byte(opcode);
            let rd = nibble(opcode, 4);
            let db = spec_rn_b(old.er, rd);
            let sb = spec_rn_b(old.er, nibble(opcode, 3));
            let dw = spec_rn_w(old.er, rd);
            let sw = spec_rn_w(old.er, nibble(opcode, 3));
            &&& h == 0x18 ==> (spec_rn_b(new.er, rd) + sb) % 0x100 == db
            &&& h == 0x19 ==> (spec_rn_w(new.er, rd) + sw) % 0x1_0000 == dw
            &&& (h == 0x1c || h == 0x1d) ==> new.er == old.er && new.mem == old.mem
            &&& (h == 0x18 || h == 0x1c) ==> {
                &&& flag_of(new.ccr, CCR::C.spec_bit()) == (if db < sb { 1u8 } else { 0u8 })
                &&& flag_of(new.ccr, CCR::Z.spec_bit()) == (if db == sb { 1u8 } else { 0u8 })
                &&& (flag_of(new.ccr, CCR::N.spec_bit()) != flag_of(new.ccr, CCR::V.spec_bit())) == (signed_byte(db) < signed_byte(sb))
            }
            &&& (h == 0x19 || h == 0x1d) ==> {
                &&& flag_of(new.ccr, CCR::C.spec_bit()) == (if dw < sw { 1u8 } else { 0u8 })
                &&& flag_of(new.ccr, CCR::Z.spec_bit()) == (if dw == sw { 1u8 } else { 0u8 })
                &&& (flag_of(new.ccr, CCR::N.spec_bit()) != flag_of(new.ccr, CCR::V.spec_bit())) == (signed_word(dw) < signed_word(sw))
            }
        }),
{
    let h = high_byte(opcode);
    lemma_high_byte(opcode);
    if h == 0x18 {
        law_sub_b_rn(old, new, opcode, r);
    } else if h == 0x19 {
        law_sub_w_rn(old, new, opcode, r);
    } else if h == 0x1c {
        law_cmp_b_rn(old, new, opcode, r);
    } else if h == 0x1d {
        law_cmp_w_rn(old, new, opcode, r);
    }
}

/// First bytes 0x40 to 0x4f are the 8-bit branches, the low nibble of the
/// first byte naming the condition (0 `BRA` to 15 `BLE`): where it fails
/// nothing changes, where it holds the program counter moves by the signed
/// low byte.
pub proof fn law_decode_branch(old: CpuView, new: CpuView, opcode: u16, r: Result<u8, EmuError>)
    requires
        exec_post(old, new, opcode, r),
        0x40 <= high_byte(opcode) <= 0x4f,
    ensures
        !branch_condition(old.ccr, (high_byte(opcode) - 0x40) as u8) ==> new == old,
        ({
            let d = low_byte(opcode);
            let target = if d < 0x80 { old.pc + d } else { old.pc + d - 0x100 };
            branch_condition(old.ccr, (high_byte(opcode) - 0x40) as u8) && 0 <= target <= u32::MAX ==> new.pc == target
                && new.er == old.er && new.ccr == old.ccr
        }),
{
    law_bcc8(old, new, opcode, (high_byte(opcode) - 0x40) as u8, r);
}

} // verus!
