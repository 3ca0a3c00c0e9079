//! What the register instructions compute, stated over what a program can
//! observe: the values of the registers and the flags before and after.

use vstd::prelude::*;

use crate::cpu::addressing_mode::rn::{lemma_rn_b_write_read, lemma_rn_w_write_read, spec_rn_b, spec_rn_l, spec_rn_w};
use crate::cpu::instruction::and::{and_b_rn_post, and_w_rn_post};
use crate::cpu::instruction::mov_w::mov_w_post;
use crate::cpu::instruction::not::logic_ccr;
use crate::cpu::instruction::or::{or_b_rn_post, or_w_rn_post};
use crate::cpu::instruction::xor::{xor_b_rn_post, xor_w_rn_post};
use crate::cpu::instruction::sub_w::{sub_w_ccr, sub_w_post};
use crate::cpu::instruction::cmp_w::cmp_w_rn_post;
use crate::cpu::instruction::bcc::{bcc8_post, branch_condition};
use crate::cpu::instruction::add_b::add_b_ccr;
use crate::cpu::instruction::add_l::add_l_ccr;
use crate::cpu::instruction::addx::addx_ccr;
use crate::cpu::instruction::sub_b::sub_b_ccr;
use crate::cpu::instruction::sub_l::sub_l_ccr;
use crate::cpu::instruction::mov_b::mov_b_post;
use crate::cpu::instruction::add_b::add_b_post;
use crate::cpu::instruction::add_l::add_l_post;
use crate::cpu::instruction::sub_b::sub_b_post;
use crate::cpu::instruction::sub_l::sub_l_post;
use crate::cpu::instruction::cmp_b::cmp_b_rn_post;
use crate::cpu::instruction::cmp_l::{cmp_l_imm_post, cmp_l_rn_post};
use crate::cpu::instruction::cmp_b::cmp_b_imm_post;
use crate::cpu::instruction::cmp_w::cmp_w_imm_post;
use crate::cpu::instruction::mov_w::{mov_w_load_post, mov_w_store_post};
use crate::cpu::instruction::mov_l::{mov_l_load_post, mov_l_store_post};
use crate::cpu::instruction::mulxu::{mulxu_b_post, mulxu_w_post};
use crate::cpu::addressing_mode::abs::{lemma_store_load_l, lemma_store_load_w};
use crate::cpu::instruction::not::{not_b_post, not_l_post, not_w_post};
use crate::cpu::instruction::neg::{neg_b_post, neg_l_post, neg_w_post};
use crate::cpu::instruction::inc::{inc_b_post, inc_l_post, inc_w_post};
use crate::cpu::instruction::dec::{dec_b_post, dec_l_post, dec_w_post};
use crate::cpu::instruction::extu::{extu_l_post, extu_w_post};
use crate::cpu::instruction::adds::adds_post;
use crate::cpu::instruction::subs::subs_post;
use crate::cpu::instruction::bcc::bcc16_post;
use crate::cpu::{fetched, fetched_word};
use crate::cpu::instruction::mov_l::mov_l_post;
use crate::cpu::instruction::and::and_l_rn_post;
use crate::cpu::instruction::and::{and_b_imm_post, and_l_imm_post, and_w_imm_post};
use crate::cpu::instruction::or::{or_b_imm_post, or_l_imm_post, or_w_imm_post};
use crate::cpu::instruction::xor::{xor_b_imm_post, xor_l_imm_post, xor_w_imm_post};
use crate::cpu::instruction::or::or_l_rn_post;
use crate::cpu::instruction::xor::xor_l_rn_post;
use crate::cpu::instruction::low_byte;
use crate::cpu::instruction::{high_byte, lemma_nibbles_compose, nibble};
use crate::cpu::{flag_of, lemma_flag_write_read, with_flag, CpuView, CCR};
use crate::cpu::instruction::shal::{shal_b_post, shal_l_post, shal_w_post};
use crate::cpu::instruction::rotxl::{rotxl_b_post, rotxl_l_post, rotxl_w_post};
use crate::cpu::instruction::divxu::{div_ccr, divxu_b_post, divxu_b_result, divxu_w_post};
use crate::error::EmuError;

verus! {

/// The value of a byte read as a two's-complement signed number.
pub open spec fn signed_byte(x: u8) -> int {
    if x < 0x80 {
        x as int
    } else {
        x - 0x100
    }
}

/// The value of a word read as a two's-complement signed number.
pub open spec fn signed_word(x: u16) -> int {
    if x < 0x8000 {
        x as int
    } else {
        x - 0x1_0000
    }
}

/// The value of a long word read as a two's-complement signed number.
pub open spec fn signed_long(x: u32) -> int {
    if x < 0x8000_0000 {
        x as int
    } else {
        x - 0x1_0000_0000
    }
}

/// The flags that a logical result sets: N its sign, Z whether it is zero,
/// V clear; C keeps its value.
proof fn lemma_logic_flags(ccr: u8, negative: bool, zero: bool)
    ensures
        flag_of(logic_ccr(ccr, negative, zero), CCR::N.spec_bit()) == (if negative { 1u8 } else { 0u8 }),
        flag_of(logic_ccr(ccr, negative, zero), CCR::Z.spec_bit()) == (if zero { 1u8 } else { 0u8 }),
        flag_of(logic_ccr(ccr, negative, zero), CCR::V.spec_bit()) == 0,
        flag_of(logic_ccr(ccr, negative, zero), CCR::C.spec_bit()) == flag_of(ccr, CCR::C.spec_bit()),
{
    let c1 = crate::cpu::with_flag(ccr, 3, negative);
    let c2 = crate::cpu::with_flag(c1, 2, zero);
    lemma_flag_write_read(c2, 1, false, 1);
    lemma_flag_write_read(c2, 1, false, 2);
    lemma_flag_write_read(c2, 1, false, 3);
    lemma_flag_write_read(c2, 1, false, 0);
    lemma_flag_write_read(c1, 2, zero, 2);
    lemma_flag_write_read(c1, 2, zero, 3);
    lemma_flag_write_read(c1, 2, zero, 0);
    lemma_flag_write_read(ccr, 3, negative, 3);
    lemma_flag_write_read(ccr, 3, negative, 0);
}

/// What a program sees after an instruction writes `value` to word register
/// `rd` as a logical result: `rd` reads `value`, every other word register
/// reads as before, N and Z follow `value`, V is clear, C keeps its value, and
/// the memory and the program counter are unchanged.
pub open spec fn word_result(old: CpuView, new: CpuView, rd: u8, value: u16) -> bool {
    &&& spec_rn_w(new.er, rd) == value
    &&& forall|k: u8| k < 16 && k != rd ==> #[trigger] spec_rn_w(new.er, k) == spec_rn_w(old.er, k)
    &&& flag_of(new.ccr, CCR::N.spec_bit()) == value / 0x8000
    &&& flag_of(new.ccr, CCR::Z.spec_bit()) == (if value == 0 { 1u8 } else { 0u8 })
    &&& flag_of(new.ccr, CCR::V.spec_bit()) == 0
    &&& flag_of(new.ccr, CCR::C.spec_bit()) == flag_of(old.ccr, CCR::C.spec_bit())
    &&& new.mem == old.mem
    &&& new.pc == old.pc
}

/// The byte-register counterpart of `word_result`.
pub open spec fn byte_result(old: CpuView, new: CpuView, rd: u8, value: u8) -> bool {
    &&& spec_rn_b(new.er, rd) == value
    &&& forall|k: u8| k < 16 && k != rd ==> #[trigger] spec_rn_b(new.er, k) == spec_rn_b(old.er, k)
    &&& flag_of(new.ccr, CCR::N.spec_bit()) == value / 0x80
    &&& flag_of(new.ccr, CCR::Z.spec_bit()) == (if value == 0 { 1u8 } else { 0u8 })
    &&& flag_of(new.ccr, CCR::V.spec_bit()) == 0
    &&& flag_of(new.ccr, CCR::C.spec_bit()) == flag_of(old.ccr, CCR::C.spec_bit())
    &&& new.mem == old.mem
    &&& new.pc == old.pc
}

/// Writing a logical result to a word register gives `word_result`.
pub(crate) proof fn lemma_word_result(old: CpuView, rd: u8, value: u16)
    requires
        old.er.len() == 8,
        rd < 16,
    ensures
        word_result(old, crate::cpu::instruction::not::logic_w_state(old, rd, value), rd, value),
{
    let new = crate::cpu::instruction::not::logic_w_state(old, rd, value);
    lemma_rn_w_write_read(old.er, rd, value, rd);
    assert forall|k: u8| k < 16 && k != rd implies #[trigger] spec_rn_w(new.er, k) == spec_rn_w(old.er, k) by {
        lemma_rn_w_write_read(old.er, rd, value, k);
    }
    lemma_logic_flags(old.ccr, value >= 0x8000, value == 0);
}

/// Writing a logical result to a byte register gives `byte_result`.
pub(crate) proof fn lemma_byte_result(old: CpuView, rd: u8, value: u8)
    requires
        old.er.len() == 8,
        rd < 16,
    ensures
        byte_result(old, crate::cpu::instruction::not::logic_b_state(old, rd, value), rd, value),
{
    let new = crate::cpu::instruction::not::logic_b_state(old, rd, value);
    lemma_rn_b_write_read(old.er, rd, value, rd);
    assert forall|k: u8| k < 16 && k != rd implies #[trigger] spec_rn_b(new.er, k) == spec_rn_b(old.er, k) by {
        lemma_rn_b_write_read(old.er, rd, value, k);
    }
    lemma_logic_flags(old.ccr, value >= 0x80, value == 0);
}

/// `MOV.W Rs, Rd` (first byte 0x0d) copies the source word register (nibble
/// 3) into the destination (nibble 4): the destination reads the old source,
/// every other word register (the source among them, where it differs)
/// reads as before, and N, Z and V follow the value moved.
pub proof fn law_mov_w_rn(old: CpuView, new: CpuView, opcode: u16, r: Result<u8, EmuError>)
    requires
        old.er.len() == 8,
        high_byte(opcode) == 0x0d,
        mov_w_post(old, new, opcode, r),
    ensures
        word_result(old, new, nibble(opcode, 4), spec_rn_w(old.er, nibble(opcode, 3))),
        r == Ok::<u8, EmuError>(2),
{
    lemma_nibbles_compose(opcode);
    lemma_word_result(old, nibble(opcode, 4), spec_rn_w(old.er, nibble(opcode, 3)));
}

/// `AND.W Rs, Rd`: Rd becomes the bitwise AND of the old Rs and Rd.
pub proof fn law_and_w_rn(old: CpuView, new: CpuView, opcode: u16, r: Result<u8, EmuError>)
    requires
        old.er.len() == 8,
        and_w_rn_post(old, new, opcode, r),
    ensures
        word_result(
            old,
            new,
            nibble(opcode, 4),
            spec_rn_w(old.er, nibble(opcode, 3)) & spec_rn_w(old.er, nibble(opcode, 4)),
        ),
{
    lemma_nibbles_compose(opcode);
    lemma_word_result(old, nibble(opcode, 4), spec_rn_w(old.er, nibble(opcode, 3)) & spec_rn_w(old.er, nibble(opcode, 4)));
}

/// `OR.W Rs, Rd`: Rd becomes the bitwise OR of the old Rs and Rd.
pub proof fn law_or_w_rn(old: CpuView, new: CpuView, opcode: u16, r: Result<u8, EmuError>)
    requires
        old.er.len() == 8,
        or_w_rn_post(old, new, opcode, r),
    ensures
        word_result(
            old,
            new,
            nibble(opcode, 4),
            spec_rn_w(old.er, nibble(opcode, 3)) | spec_rn_w(old.er, nibble(opcode, 4)),
        ),
{
    lemma_nibbles_compose(opcode);
    lemma_word_result(old, nibble(opcode, 4), spec_rn_w(old.er, nibble(opcode, 3)) | spec_rn_w(old.er, nibble(opcode, 4)));
}

/// `XOR.W Rs, Rd`: Rd becomes the bitwise exclusive OR of the old Rs and Rd.
pub proof fn law_xor_w_rn(old: CpuView, new: CpuView, opcode: u16, r: Result<u8, EmuError>)
    requires
        old.er.len() == 8,
        xor_w_rn_post(old, new, opcode, r),
    ensures
        word_result(
            old,
            new,
            nibble(opcode, 4),
            spec_rn_w(old.er, nibble(opcode, 3)) ^ spec_rn_w(old.er, nibble(opcode, 4)),
        ),
{
    lemma_nibbles_compose(opcode);
    lemma_word_result(old, nibble(opcode, 4), spec_rn_w(old.er, nibble(opcode, 3)) ^ spec_rn_w(old.er, nibble(opcode, 4)));
}

/// `AND.B Rs, Rd`: Rd becomes the bitwise AND of the old Rs and Rd.
pub proof fn law_and_b_rn(old: CpuView, new: CpuView, opcode: u16, r: Result<u8, EmuError>)
    requires
        old.er.len() == 8,
        and_b_rn_post(old, new, opcode, r),
    ensures
        byte_result(
            old,
            new,
            nibble(opcode, 4),
            spec_rn_b(old.er, nibble(opcode, 3)) & spec_rn_b(old.er, nibble(opcode, 4)),
        ),
{
    lemma_nibbles_compose(opcode);
    lemma_byte_result(old, nibble(opcode, 4), spec_rn_b(old.er, nibble(opcode, 3)) & spec_rn_b(old.er, nibble(opcode, 4)));
}

/// `OR.B Rs, Rd`: Rd becomes the bitwise OR of the old Rs and Rd.
pub proof fn law_or_b_rn(old: CpuView, new: CpuView, opcode: u16, r: Result<u8, EmuError>)
    requires
        old.er.len() == 8,
        or_b_rn_post(old, new, opcode, r),
    ensures
        byte_result(
            old,
            new,
            nibble(opcode, 4),
            spec_rn_b(old.er, nibble(opcode, 3)) | spec_rn_b(old.er, nibble(opcode, 4)),
        ),
{
    lemma_nibbles_compose(opcode);
    lemma_byte_result(old, nibble(opcode, 4), spec_rn_b(old.er, nibble(opcode, 3)) | spec_rn_b(old.er, nibble(opcode, 4)));
}

/// `XOR.B Rs, Rd`: Rd becomes the bitwise exclusive OR of the old Rs and Rd.
pub proof fn law_xor_b_rn(old: CpuView, new: CpuView, opcode: u16, r: Result<u8, EmuError>)
    requires
        old.er.len() == 8,
        xor_b_rn_post(old, new, opcode, r),
    ensures
        byte_result(
            old,
            new,
            nibble(opcode, 4),
            spec_rn_b(old.er, nibble(opcode, 3)) ^ spec_rn_b(old.er, nibble(opcode, 4)),
        ),
{
    lemma_nibbles_compose(opcode);
    lemma_byte_result(old, nibble(opcode, 4), spec_rn_b(old.er, nibble(opcode, 3)) ^ spec_rn_b(old.er, nibble(opcode, 4)));
}

/// The flags that an arithmetic result sets, H, N, Z, V and C in that
/// order, read back; the other three flags keep their values.
proof fn lemma_arith_flags(ccr: u8, h: bool, n: bool, z: bool, v: bool, c: bool)
    ensures
        ({
            let f = with_flag(with_flag(with_flag(with_flag(with_flag(ccr, 5, h), 3, n), 2, z), 1, v), 0, c);
            &&& flag_of(f, 0) == (if c { 1u8 } else { 0u8 })
            &&& flag_of(f, 1) == (if v { 1u8 } else { 0u8 })
            &&& flag_of(f, 2) == (if z { 1u8 } else { 0u8 })
            &&& flag_of(f, 3) == (if n { 1u8 } else { 0u8 })
            &&& flag_of(f, 5) == (if h { 1u8 } else { 0u8 })
        }),
{
    let c0 = with_flag(ccr, 5, h);
    let c1 = with_flag(c0, 3, n);
    let c2 = with_flag(c1, 2, z);
    let c3 = with_flag(c2, 1, v);
    lemma_flag_write_read(c3, 0, c, 0);
    lemma_flag_write_read(c3, 0, c, 1);
    lemma_flag_write_read(c3, 0, c, 2);
    lemma_flag_write_read(c3, 0, c, 3);
    lemma_flag_write_read(c3, 0, c, 5);
    lemma_flag_write_read(c2, 1, v, 1);
    lemma_flag_write_read(c2, 1, v, 2);
    lemma_flag_write_read(c2, 1, v, 3);
    lemma_flag_write_read(c2, 1, v, 5);
    lemma_flag_write_read(c1, 2, z, 2);
    lemma_flag_write_read(c1, 2, z, 3);
    lemma_flag_write_read(c1, 2, z, 5);
    lemma_flag_write_read(c0, 3, n, 3);
    lemma_flag_write_read(c0, 3, n, 5);
    lemma_flag_write_read(ccr, 5, h, 5);
}

/// After the word subtraction `dest - src`: C is set exactly where it
/// borrows (`dest < src` unsigned), Z exactly where the operands are equal,
/// and N differs from V exactly where `dest < src` as signed words.
pub proof fn law_sub_w_flags(ccr: u8, dest: u16, src: u16)
    ensures
        flag_of(sub_w_ccr(ccr, dest, src), CCR::C.spec_bit()) == (if dest < src { 1u8 } else { 0u8 }),
        flag_of(sub_w_ccr(ccr, dest, src), CCR::Z.spec_bit()) == (if dest == src { 1u8 } else { 0u8 }),
        (flag_of(sub_w_ccr(ccr, dest, src), CCR::N.spec_bit()) != flag_of(sub_w_ccr(ccr, dest, src), CCR::V.spec_bit()))
            == (signed_word(dest) < signed_word(src)),
{
    let res = dest.wrapping_sub(src);
    lemma_arith_flags(
        ccr,
        (dest & 0x0fff) < (src & 0x0fff),
        res >= 0x8000,
        res == 0,
        signed_word(dest) - signed_word(src) > 0x7fff || signed_word(dest) - signed_word(src) < -0x8000,
        dest < src,
    );
}

/// `CMP.W Rs, Rd` changes no register, and leaves C set exactly where Rd is
/// below Rs unsigned, Z exactly where they are equal, and N unlike V exactly
/// where Rd is below Rs signed.
pub proof fn law_cmp_w_rn(old: CpuView, new: CpuView, opcode: u16, r: Result<u8, EmuError>)
    requires
        cmp_w_rn_post(old, new, opcode, r),
    ensures
        new.er == old.er,
        new.mem == old.mem,
        new.pc == old.pc,
        ({
            let d = spec_rn_w(old.er, nibble(opcode, 4));
            let s = spec_rn_w(old.er, nibble(opcode, 3));
            &&& flag_of(new.ccr, CCR::C.spec_bit()) == (if d < s { 1u8 } else { 0u8 })
            &&& flag_of(new.ccr, CCR::Z.spec_bit()) == (if d == s { 1u8 } else { 0u8 })
            &&& (flag_of(new.ccr, CCR::N.spec_bit()) != flag_of(new.ccr, CCR::V.spec_bit())) == (signed_word(d) < signed_word(s))
        }),
{
    law_sub_w_flags(old.ccr, spec_rn_w(old.er, nibble(opcode, 4)), spec_rn_w(old.er, nibble(opcode, 3)));
}

/// `SUB.W Rs, Rd` (first byte 0x19): Rd becomes Rd minus Rs modulo 2^16,
/// every other word register reads as before, and the flags are those of
/// the comparison of Rd with Rs.
pub proof fn law_sub_w_rn(old: CpuView, new: CpuView, opcode: u16, r: Result<u8, EmuError>)
    requires
        old.er.len() == 8,
        opcode >> 8u16 == 0x19,
        sub_w_post(old, new, opcode, r),
    ensures
        ({
            let rd = nibble(opcode, 4);
            let d = spec_rn_w(old.er, rd);
            let s = spec_rn_w(old.er, nibble(opcode, 3));
            &&& (spec_rn_w(new.er, rd) + s) % 0x10000 == d
            &&& forall|k: u8| k < 16 && k != rd ==> #[trigger] spec_rn_w(new.er, k) == spec_rn_w(old.er, k)
            &&& flag_of(new.ccr, CCR::C.spec_bit()) == (if d < s { 1u8 } else { 0u8 })
            &&& flag_of(new.ccr, CCR::Z.spec_bit()) == (if d == s { 1u8 } else { 0u8 })
            &&& (flag_of(new.ccr, CCR::N.spec_bit()) != flag_of(new.ccr, CCR::V.spec_bit())) == (signed_word(d) < signed_word(s))
        }),
{
    lemma_nibbles_compose(opcode);
    let rd = nibble(opcode, 4);
    let d = spec_rn_w(old.er, rd);
    let s = spec_rn_w(old.er, nibble(opcode, 3));
    let res = d.wrapping_sub(s);
    lemma_rn_w_write_read(old.er, rd, res, rd);
    assert forall|k: u8| k < 16 && k != rd implies #[trigger] spec_rn_w(new.er, k) == spec_rn_w(old.er, k) by {
        lemma_rn_w_write_read(old.er, rd, res, k);
    }
    law_sub_w_flags(old.ccr, d, s);
}

/// Which branch each condition number takes, by the flags: BRA always, BRN
/// never, BHI where neither C nor Z, BLS where C or Z, BCC/BCS by C, BNE/BEQ
/// by Z, BVC/BVS by V, BPL/BMI by N, BGE where N equals V, BLT where they
/// differ, BGT where Z is clear and N equals V, BLE where Z is set or N and V
/// differ.
pub proof fn law_branch_conditions(ccr: u8)
    ensures
        ({
            let c = flag_of(ccr, CCR::C.spec_bit()) == 1;
            let z = flag_of(ccr, CCR::Z.spec_bit()) == 1;
            let v = flag_of(ccr, CCR::V.spec_bit()) == 1;
            let n = flag_of(ccr, CCR::N.spec_bit()) == 1;
            &&& branch_condition(ccr, 0)
            &&& !branch_condition(ccr, 1)
            &&& branch_condition(ccr, 2) == (!c && !z)
            &&& branch_condition(ccr, 3) == (c || z)
            &&& branch_condition(ccr, 4) == !c
            &&& branch_condition(ccr, 5) == c
            &&& branch_condition(ccr, 6) == !z
            &&& branch_condition(ccr, 7) == z
            &&& branch_condition(ccr, 8) == !v
            &&& branch_condition(ccr, 9) == v
            &&& branch_condition(ccr, 10) == !n
            &&& branch_condition(ccr, 11) == n
            &&& branch_condition(ccr, 12) == (n == v)
            &&& branch_condition(ccr, 13) == (n != v)
            &&& branch_condition(ccr, 14) == (!z && n == v)
            &&& branch_condition(ccr, 15) == (z || n != v)
        }),
{
    crate::cpu::lemma_flag_le_1(ccr, CCR::C.spec_bit());
    crate::cpu::lemma_flag_le_1(ccr, CCR::Z.spec_bit());
    crate::cpu::lemma_flag_le_1(ccr, CCR::V.spec_bit());
    crate::cpu::lemma_flag_le_1(ccr, CCR::N.spec_bit());
    let c = flag_of(ccr, CCR::C.spec_bit());
    let z = flag_of(ccr, CCR::Z.spec_bit());
    let v = flag_of(ccr, CCR::V.spec_bit());
    let n = flag_of(ccr, CCR::N.spec_bit());
    assert(c <= 1 && z <= 1 && v <= 1 && n <= 1 ==> ((c | z == 0) == (c == 0 && z == 0) && (c | z == 1) == (c == 1
        || z == 1) && ((n ^ v) == 0) == (n == v) && ((n ^ v) == 1) == (n != v) && (z | (n ^ v) == 0) == (z == 0
        && n == v) && (z | (n ^ v) == 1) == (z == 1 || n != v))) by (bit_vector);
}

/// A conditional branch after `CMP.W` (or `SUB.W`) of `src` from `dest`
/// decides by the comparison: BHI where `dest > src` unsigned, BLS where
/// `dest <= src`, BCC where `dest >= src`, BCS where `dest < src`, BNE and BEQ
/// by equality, and BGE, BLT, BGT, BLE by the signed comparison.
pub proof fn law_compare_then_branch_w(ccr: u8, dest: u16, src: u16)
    ensures
        ({
            let f = sub_w_ccr(ccr, dest, src);
            &&& branch_condition(f, 2) == (dest > src)
            &&& branch_condition(f, 3) == (dest <= src)
            &&& branch_condition(f, 4) == (dest >= src)
            &&& branch_condition(f, 5) == (dest < src)
            &&& branch_condition(f, 6) == (dest != src)
            &&& branch_condition(f, 7) == (dest == src)
            &&& branch_condition(f, 12) == (signed_word(dest) >= signed_word(src))
            &&& branch_condition(f, 13) == (signed_word(dest) < signed_word(src))
            &&& branch_condition(f, 14) == (signed_word(dest) > signed_word(src))
            &&& branch_condition(f, 15) == (signed_word(dest) <= signed_word(src))
        }),
{
    let f = sub_w_ccr(ccr, dest, src);
    law_sub_w_flags(ccr, dest, src);
    law_branch_conditions(f);
    crate::cpu::lemma_flag_le_1(f, CCR::N.spec_bit());
    crate::cpu::lemma_flag_le_1(f, CCR::V.spec_bit());
}

/// `Bcc d:8`: where the condition holds the program counter moves by the
/// sign-extended low byte of the opcode (a target outside the 32-bit range
/// moves nothing); where it does not, nothing changes.
pub proof fn law_bcc8(old: CpuView, new: CpuView, opcode: u16, cond: u8, r: Result<u8, EmuError>)
    requires
        bcc8_post(old, new, opcode, cond, r),
    ensures
        !branch_condition(old.ccr, cond) ==> new == old,
        ({
            let d = low_byte(opcode);
            let target = if d < 0x80 { old.pc + d } else { old.pc + d - 0x100 };
            branch_condition(old.ccr, cond) && 0 <= target <= u32::MAX ==> new.pc == target && new.er == old.er
                && new.ccr == old.ccr && new.mem == old.mem
        }),
{
}

/// After the byte subtraction `dest - src`: C is set exactly where it
/// borrows, Z exactly where the operands are equal, and N differs from V
/// exactly where `dest < src` as signed bytes.
pub proof fn law_sub_b_flags(ccr: u8, dest: u8, src: u8)
    ensures
        flag_of(sub_b_ccr(ccr, dest, src), CCR::C.spec_bit()) == (if dest < src { 1u8 } else { 0u8 }),
        flag_of(sub_b_ccr(ccr, dest, src), CCR::Z.spec_bit()) == (if dest == src { 1u8 } else { 0u8 }),
        (flag_of(sub_b_ccr(ccr, dest, src), CCR::N.spec_bit()) != flag_of(sub_b_ccr(ccr, dest, src), CCR::V.spec_bit()))
            == (signed_byte(dest) < signed_byte(src)),
{
    let res = dest.wrapping_sub(src);
    lemma_arith_flags(
        ccr,
        (dest & 0x0f) < (src & 0x0f),
        res >= 0x80,
        res == 0,
        signed_byte(dest) - signed_byte(src) > 127 || signed_byte(dest) - signed_byte(src) < -128,
        dest < src,
    );
}

/// After the long subtraction `dest - src`: C is set exactly where it
/// borrows, Z exactly where the operands are equal, and N differs from V
/// exactly where `dest < src` as signed long words.
pub proof fn law_sub_l_flags(ccr: u8, dest: u32, src: u32)
    ensures
        flag_of(sub_l_ccr(ccr, dest, src), CCR::C.spec_bit()) == (if dest < src { 1u8 } else { 0u8 }),
        flag_of(sub_l_ccr(ccr, dest, src), CCR::Z.spec_bit()) == (if dest == src { 1u8 } else { 0u8 }),
        (flag_of(sub_l_ccr(ccr, dest, src), CCR::N.spec_bit()) != flag_of(sub_l_ccr(ccr, dest, src), CCR::V.spec_bit()))
            == (signed_long(dest) < signed_long(src)),
{
    let res = dest.wrapping_sub(src);
    lemma_arith_flags(
        ccr,
        (dest & 0x0fff_ffff) < (src & 0x0fff_ffff),
        res >= 0x8000_0000,
        res == 0,
        signed_long(dest) - signed_long(src) > 0x7fff_ffff || signed_long(dest) - signed_long(src) < -0x8000_0000,
        dest < src,
    );
}

/// A conditional branch after `CMP.B` of `src` from `dest` decides by the
/// comparison, unsigned for BHI, BLS, BCC, BCS, signed for BGE, BLT, BGT, BLE.
pub proof fn law_compare_then_branch_b(ccr: u8, dest: u8, src: u8)
    ensures
        ({
            let f = sub_b_ccr(ccr, dest, src);
            &&& branch_condition(f, 2) == (dest > src)
            &&& branch_condition(f, 3) == (dest <= src)
            &&& branch_condition(f, 4) == (dest >= src)
            &&& branch_condition(f, 5) == (dest < src)
            &&& branch_condition(f, 6) == (dest != src)
            &&& branch_condition(f, 7) == (dest == src)
            &&& branch_condition(f, 12) == (signed_byte(dest) >= signed_byte(src))
            &&& branch_condition(f, 13) == (signed_byte(dest) < signed_byte(src))
            &&& branch_condition(f, 14) == (signed_byte(dest) > signed_byte(src))
            &&& branch_condition(f, 15) == (signed_byte(dest) <= signed_byte(src))
        }),
{
    let f = sub_b_ccr(ccr, dest, src);
    law_sub_b_flags(ccr, dest, src);
    law_branch_conditions(f);
    crate::cpu::lemma_flag_le_1(f, CCR::N.spec_bit());
    crate::cpu::lemma_flag_le_1(f, CCR::V.spec_bit());
}

/// A conditional branch after `CMP.L` of `src` from `dest` decides by the
/// comparison, unsigned for BHI, BLS, BCC, BCS, signed for BGE, BLT, BGT, BLE.
pub proof fn law_compare_then_branch_l(ccr: u8, dest: u32, src: u32)
    ensures
        ({
            let f = sub_l_ccr(ccr, dest, src);
            &&& branch_condition(f, 2) == (dest > src)
            &&& branch_condition(f, 3) == (dest <= src)
            &&& branch_condition(f, 4) == (dest >= src)
            &&& branch_condition(f, 5) == (dest < src)
            &&& branch_condition(f, 6) == (dest != src)
            &&& branch_condition(f, 7) == (dest == src)
            &&& branch_condition(f, 12) == (signed_long(dest) >= signed_long(src))
            &&& branch_condition(f, 13) == (signed_long(dest) < signed_long(src))
            &&& branch_condition(f, 14) == (signed_long(dest) > signed_long(src))
            &&& branch_condition(f, 15) == (signed_long(dest) <= signed_long(src))
        }),
{
    let f = sub_l_ccr(ccr, dest, src);
    law_sub_l_flags(ccr, dest, src);
    law_branch_conditions(f);
    crate::cpu::lemma_flag_le_1(f, CCR::N.spec_bit());
    crate::cpu::lemma_flag_le_1(f, CCR::V.spec_bit());
}

/// After the byte addition `dest + src`: C is the carry out (the sum passes
/// 0xff), Z whether the sum modulo 256 is zero, N its top bit, V whether the
/// signed sum leaves the signed byte range.
pub proof fn law_add_b_flags(ccr: u8, dest: u8, src: u8)
    ensures
        flag_of(add_b_ccr(ccr, dest, src), CCR::C.spec_bit()) == (if dest + src > 0xff { 1u8 } else { 0u8 }),
        flag_of(add_b_ccr(ccr, dest, src), CCR::Z.spec_bit()) == (if (dest + src) % 0x100 == 0 { 1u8 } else { 0u8 }),
        flag_of(add_b_ccr(ccr, dest, src), CCR::N.spec_bit()) == (if (dest + src) % 0x100 >= 0x80 { 1u8 } else { 0u8 }),
        flag_of(add_b_ccr(ccr, dest, src), CCR::V.spec_bit()) == (if -128 <= signed_byte(dest) + signed_byte(src) <= 127 { 0u8 } else { 1u8 }),
{
    let res = dest.wrapping_add(src);
    lemma_arith_flags(
        ccr,
        (dest & 0x0f) + (src & 0x0f) > 0x0f,
        res >= 0x80,
        res == 0,
        signed_byte(dest) + signed_byte(src) > 127 || signed_byte(dest) + signed_byte(src) < -128,
        dest + src > 0xff,
    );
}

/// After `ADDX`, which adds `src` and the carry to `dest`: C is the carry out
/// of the whole sum, N its top bit, V whether the signed sum (carry
/// included) leaves the signed byte range.
pub proof fn law_addx_flags(ccr: u8, dest: u8, src: u8)
    ensures
        ({
            let carry = flag_of(ccr, CCR::C.spec_bit());
            let f = addx_ccr(ccr, dest, src);
            &&& flag_of(f, CCR::C.spec_bit()) == (if dest + src + carry > 0xff { 1u8 } else { 0u8 })
            &&& flag_of(f, CCR::N.spec_bit()) == (if (dest + src + carry) % 0x100 >= 0x80 { 1u8 } else { 0u8 })
            &&& flag_of(f, CCR::V.spec_bit()) == (if -128 <= signed_byte(dest) + signed_byte(src) + carry <= 127 { 0u8 } else { 1u8 })
        }),
{
    let carry = flag_of(ccr, CCR::C.spec_bit());
    crate::cpu::lemma_flag_le_1(ccr, CCR::C.spec_bit());
    let res = crate::cpu::instruction::addx::addx_result(ccr, dest, src);
    let signed = signed_byte(dest) + signed_byte(src) + carry;
    lemma_arith_flags(
        ccr,
        (dest & 0x0f) + (src & 0x0f) + carry > 0x0f,
        res >= 0x80,
        res == 0,
        signed > 127 || signed < -128,
        dest + src + carry > 0xff,
    );
}

/// After the long addition `dest + src`: C is the carry out of bit 31, Z
/// whether the sum modulo 2^32 is zero, N its top bit, V whether the signed
/// sum leaves the signed range.
pub proof fn law_add_l_flags(ccr: u8, dest: u32, src: u32)
    ensures
        flag_of(add_l_ccr(ccr, dest, src), CCR::C.spec_bit()) == (if dest + src > 0xffff_ffff { 1u8 } else { 0u8 }),
        flag_of(add_l_ccr(ccr, dest, src), CCR::Z.spec_bit()) == (if (dest + src) % 0x1_0000_0000 == 0 { 1u8 } else { 0u8 }),
        flag_of(add_l_ccr(ccr, dest, src), CCR::N.spec_bit()) == (if (dest + src) % 0x1_0000_0000 >= 0x8000_0000 { 1u8 } else { 0u8 }),
        flag_of(add_l_ccr(ccr, dest, src), CCR::V.spec_bit()) == (if -0x8000_0000 <= signed_long(dest) + signed_long(src) <= 0x7fff_ffff { 0u8 } else { 1u8 }),
{
    let res = dest.wrapping_add(src);
    lemma_arith_flags(
        ccr,
        (dest & 0x0fff_ffff) + (src & 0x0fff_ffff) > 0x0fff_ffff,
        res >= 0x8000_0000,
        res == 0,
        signed_long(dest) + signed_long(src) > 0x7fff_ffff || signed_long(dest) + signed_long(src) < -0x8000_0000,
        dest + src > 0xffff_ffff,
    );
}

/// `MOV.B Rs, Rd` (first byte 0x0c) copies byte register Rs (nibble 3) into
/// Rd (nibble 4); the other byte registers read as before.
pub proof fn law_mov_b_rn(old: CpuView, new: CpuView, opcode: u16, r: Result<u8, EmuError>)
    requires
        old.er.len() == 8,
        high_byte(opcode) == 0x0c,
        mov_b_post(old, new, opcode, r),
    ensures
        byte_result(old, new, nibble(opcode, 4), spec_rn_b(old.er, nibble(opcode, 3))),
{
    lemma_nibbles_compose(opcode);
    lemma_byte_result(old, nibble(opcode, 4), spec_rn_b(old.er, nibble(opcode, 3)));
}

/// What a program sees after an instruction writes `value` to long register
/// `rd` as a logical result.
pub open spec fn long_result(old: CpuView, new: CpuView, rd: u8, value: u32) -> bool {
    &&& new.er[rd as int] == value
    &&& forall|k: int| 0 <= k < 8 && k != rd ==> #[trigger] new.er[k] == old.er[k]
    &&& new.er.len() == old.er.len()
    &&& flag_of(new.ccr, CCR::N.spec_bit()) == value / 0x8000_0000
    &&& flag_of(new.ccr, CCR::Z.spec_bit()) == (if value == 0 { 1u8 } else { 0u8 })
    &&& flag_of(new.ccr, CCR::V.spec_bit()) == 0
    &&& flag_of(new.ccr, CCR::C.spec_bit()) == flag_of(old.ccr, CCR::C.spec_bit())
    &&& new.mem == old.mem
    &&& new.pc == old.pc
}

/// Writing a logical result to a long register gives `long_result`.
pub(crate) proof fn lemma_long_result(old: CpuView, rd: u8, value: u32)
    requires
        old.er.len() == 8,
        rd < 8,
    ensures
        long_result(old, crate::cpu::instruction::not::logic_l_state(old, rd, value), rd, value),
{
    lemma_logic_flags(old.ccr, value >= 0x8000_0000, value == 0);
}

/// `MOV.L ERs, ERd` (first byte 0x0f) copies ERs (nibble 3, low three bits)
/// into ERd (nibble 4); an ERd above 7 is refused.
pub proof fn law_mov_l_rn(old: CpuView, new: CpuView, opcode: u16, r: Result<u8, EmuError>)
    requires
        old.er.len() == 8,
        opcode & 0xff00 == 0x0f00,
        mov_l_post(old, new, opcode, r),
    ensures
        nibble(opcode, 4) < 8 ==> long_result(old, new, nibble(opcode, 4), old.er[(nibble(opcode, 3) & 7) as int]),
        nibble(opcode, 4) >= 8 ==> new == old && r == Err::<u8, EmuError>(EmuError::InvalidRegister(nibble(opcode, 4))),
{
    if nibble(opcode, 4) < 8 {
        lemma_long_result(old, nibble(opcode, 4), old.er[(nibble(opcode, 3) & 7) as int]);
    }
}

/// `AND.L ERs, ERd` (second word `opcode2`): ERd becomes the bitwise AND of
/// the old ERs and ERd.
pub proof fn law_and_l_rn(old: CpuView, new: CpuView, opcode: u16, opcode2: u16, r: Result<u8, EmuError>)
    requires
        old.er.len() == 8,
        nibble(opcode2, 3) < 8,
        nibble(opcode2, 4) < 8,
        and_l_rn_post(old, new, opcode, opcode2, r),
    ensures
        long_result(old, new, nibble(opcode2, 4), old.er[nibble(opcode2, 3) as int] & old.er[nibble(opcode2, 4) as int]),
{
    lemma_long_result(old, nibble(opcode2, 4), old.er[nibble(opcode2, 3) as int] & old.er[nibble(opcode2, 4) as int]);
}

/// `OR.L ERs, ERd` (second word `opcode2`): ERd becomes the bitwise OR of
/// the old ERs and ERd.
pub proof fn law_or_l_rn(old: CpuView, new: CpuView, opcode: u16, opcode2: u16, r: Result<u8, EmuError>)
    requires
        old.er.len() == 8,
        nibble(opcode2, 3) < 8,
        nibble(opcode2, 4) < 8,
        or_l_rn_post(old, new, opcode, opcode2, r),
    ensures
        long_result(old, new, nibble(opcode2, 4), old.er[nibble(opcode2, 3) as int] | old.er[nibble(opcode2, 4) as int]),
{
    lemma_long_result(old, nibble(opcode2, 4), old.er[nibble(opcode2, 3) as int] | old.er[nibble(opcode2, 4) as int]);
}

/// `XOR.L ERs, ERd` (second word `opcode2`): ERd becomes the bitwise
/// exclusive OR of the old ERs and ERd.
pub proof fn law_xor_l_rn(old: CpuView, new: CpuView, opcode: u16, opcode2: u16, r: Result<u8, EmuError>)
    requires
        old.er.len() == 8,
        nibble(opcode2, 3) < 8,
        nibble(opcode2, 4) < 8,
        xor_l_rn_post(old, new, opcode, opcode2, r),
    ensures
        long_result(old, new, nibble(opcode2, 4), old.er[nibble(opcode2, 3) as int] ^ old.er[nibble(opcode2, 4) as int]),
{
    lemma_long_result(old, nibble(opcode2, 4), old.er[nibble(opcode2, 3) as int] ^ old.er[nibble(opcode2, 4) as int]);
}

/// `ADD.B Rs, Rd` (first byte 0x08): Rd becomes Rd plus Rs modulo 256, the
/// other byte registers read as before, and C is the carry out of the sum.
pub proof fn law_add_b_rn(old: CpuView, new: CpuView, opcode: u16, r: Result<u8, EmuError>)
    requires
        old.er.len() == 8,
        opcode >> 8u16 == 0x08,
        add_b_post(old, new, opcode, r),
    ensures
        ({
            let rd = nibble(opcode, 4);
            let d = spec_rn_b(old.er, rd);
            let s = spec_rn_b(old.er, nibble(opcode, 3));
            &&& spec_rn_b(new.er, rd) == (d + s) % 0x100
            &&& forall|k: u8| k < 16 && k != rd ==> #[trigger] spec_rn_b(new.er, k) == spec_rn_b(old.er, k)
            &&& flag_of(new.ccr, CCR::C.spec_bit()) == (if d + s > 0xff { 1u8 } else { 0u8 })
            &&& flag_of(new.ccr, CCR::Z.spec_bit()) == (if (d + s) % 0x100 == 0 { 1u8 } else { 0u8 })
            &&& new.mem == old.mem && new.pc == old.pc
        }),
{
    lemma_nibbles_compose(opcode);
    let rd = nibble(opcode, 4);
    let d = spec_rn_b(old.er, rd);
    let s = spec_rn_b(old.er, nibble(opcode, 3));
    let res = d.wrapping_add(s);
    lemma_rn_b_write_read(old.er, rd, res, rd);
    assert forall|k: u8| k < 16 && k != rd implies #[trigger] spec_rn_b(new.er, k) == spec_rn_b(old.er, k) by {
        lemma_rn_b_write_read(old.er, rd, res, k);
    }
    law_add_b_flags(old.ccr, d, s);
}

/// `ADD.B #xx:8, Rd` (first byte 0x8_): Rd (nibble 2) becomes Rd plus the
/// low byte of the opcode modulo 256, and C is the carry out of the sum.
pub proof fn law_add_b_imm(old: CpuView, new: CpuView, opcode: u16, r: Result<u8, EmuError>)
    requires
        old.er.len() == 8,
        0x80 <= opcode >> 8u16 <= 0x8f,
        add_b_post(old, new, opcode, r),
    ensures
        ({
            let rd = nibble(opcode, 2);
            let d = spec_rn_b(old.er, rd);
            let s = low_byte(opcode);
            &&& spec_rn_b(new.er, rd) == (d + s) % 0x100
            &&& forall|k: u8| k < 16 && k != rd ==> #[trigger] spec_rn_b(new.er, k) == spec_rn_b(old.er, k)
            &&& flag_of(new.ccr, CCR::C.spec_bit()) == (if d + s > 0xff { 1u8 } else { 0u8 })
            &&& flag_of(new.ccr, CCR::Z.spec_bit()) == (if (d + s) % 0x100 == 0 { 1u8 } else { 0u8 })
        }),
{
    lemma_nibbles_compose(opcode);
    let rd = nibble(opcode, 2);
    let d = spec_rn_b(old.er, rd);
    let s = low_byte(opcode);
    assert(s == opcode as u8);
    let res = d.wrapping_add(s);
    lemma_rn_b_write_read(old.er, rd, res, rd);
    assert forall|k: u8| k < 16 && k != rd implies #[trigger] spec_rn_b(new.er, k) == spec_rn_b(old.er, k) by {
        lemma_rn_b_write_read(old.er, rd, res, k);
    }
    law_add_b_flags(old.ccr, d, s);
}

/// `SUB.B Rs, Rd`: Rd becomes Rd minus Rs modulo 256, the other byte
/// registers read as before, C is the borrow and Z the equality.
pub proof fn law_sub_b_rn(old: CpuView, new: CpuView, opcode: u16, r: Result<u8, EmuError>)
    requires
        old.er.len() == 8,
        sub_b_post(old, new, opcode, r),
    ensures
        ({
            let rd = nibble(opcode, 4);
            let d = spec_rn_b(old.er, rd);
            let s = spec_rn_b(old.er, nibble(opcode, 3));
            &&& (spec_rn_b(new.er, rd) + s) % 0x100 == d
            &&& forall|k: u8| k < 16 && k != rd ==> #[trigger] spec_rn_b(new.er, k) == spec_rn_b(old.er, k)
            &&& flag_of(new.ccr, CCR::C.spec_bit()) == (if d < s { 1u8 } else { 0u8 })
            &&& flag_of(new.ccr, CCR::Z.spec_bit()) == (if d == s { 1u8 } else { 0u8 })
            &&& (flag_of(new.ccr, CCR::N.spec_bit()) != flag_of(new.ccr, CCR::V.spec_bit())) == (signed_byte(d) < signed_byte(s))
        }),
{
    lemma_nibbles_compose(opcode);
    let rd = nibble(opcode, 4);
    let d = spec_rn_b(old.er, rd);
    let s = spec_rn_b(old.er, nibble(opcode, 3));
    let res = d.wrapping_sub(s);
    lemma_rn_b_write_read(old.er, rd, res, rd);
    assert forall|k: u8| k < 16 && k != rd implies #[trigger] spec_rn_b(new.er, k) == spec_rn_b(old.er, k) by {
        lemma_rn_b_write_read(old.er, rd, res, k);
    }
    law_sub_b_flags(old.ccr, d, s);
}

/// `ADD.L ERs, ERd` (first byte 0x0a): ERd becomes ERd plus ERs modulo 2^32,
/// the other long registers are unchanged, C is the carry out of bit 31.
pub proof fn law_add_l_rn(old: CpuView, new: CpuView, opcode: u16, r: Result<u8, EmuError>)
    requires
        old.er.len() == 8,
        opcode >> 8u16 == 0x0a,
        nibble(opcode, 4) < 8,
        add_l_post(old, new, opcode, r),
    ensures
        ({
            let rd = nibble(opcode, 4) as int;
            let d = old.er[rd];
            let s = old.er[(nibble(opcode, 3) & 7) as int];
            &&& new.er[rd] == (d + s) % 0x1_0000_0000
            &&& forall|k: int| 0 <= k < 8 && k != rd ==> #[trigger] new.er[k] == old.er[k]
            &&& flag_of(new.ccr, CCR::C.spec_bit()) == (if d + s > 0xffff_ffff { 1u8 } else { 0u8 })
            &&& flag_of(new.ccr, CCR::Z.spec_bit()) == (if (d + s) % 0x1_0000_0000 == 0 { 1u8 } else { 0u8 })
            &&& r is Ok
        }),
{
    let rd = nibble(opcode, 4) as int;
    law_add_l_flags(old.ccr, old.er[rd], old.er[(nibble(opcode, 3) & 7) as int]);
}

/// `SUB.L ERs, ERd` (first byte 0x1a): ERd becomes ERd minus ERs modulo
/// 2^32, the other long registers are unchanged, C is the borrow and Z the
/// equality.
pub proof fn law_sub_l_rn(old: CpuView, new: CpuView, opcode: u16, r: Result<u8, EmuError>)
    requires
        old.er.len() == 8,
        opcode >> 8u16 == 0x1a,
        nibble(opcode, 4) < 8,
        sub_l_post(old, new, opcode, r),
    ensures
        ({
            let rd = nibble(opcode, 4) as int;
            let d = old.er[rd];
            let s = old.er[(nibble(opcode, 3) & 7) as int];
            &&& (new.er[rd] + s) % 0x1_0000_0000 == d
            &&& forall|k: int| 0 <= k < 8 && k != rd ==> #[trigger] new.er[k] == old.er[k]
            &&& flag_of(new.ccr, CCR::C.spec_bit()) == (if d < s { 1u8 } else { 0u8 })
            &&& flag_of(new.ccr, CCR::Z.spec_bit()) == (if d == s { 1u8 } else { 0u8 })
        }),
{
    let rd = nibble(opcode, 4) as int;
    law_sub_l_flags(old.ccr, old.er[rd], old.er[(nibble(opcode, 3) & 7) as int]);
}

/// `CMP.B Rs, Rd` changes no register; C is set where Rd is below Rs
/// unsigned, Z where they are equal, and N unlike V where Rd is below Rs
/// signed.
pub proof fn law_cmp_b_rn(old: CpuView, new: CpuView, opcode: u16, r: Result<u8, EmuError>)
    requires
        cmp_b_rn_post(old, new, opcode, r),
    ensures
        new.er == old.er,
        new.mem == old.mem,
        new.pc == old.pc,
        ({
            let d = spec_rn_b(old.er, nibble(opcode, 4));
            let s = spec_rn_b(old.er, nibble(opcode, 3));
            &&& flag_of(new.ccr, CCR::C.spec_bit()) == (if d < s { 1u8 } else { 0u8 })
            &&& flag_of(new.ccr, CCR::Z.spec_bit()) == (if d == s { 1u8 } else { 0u8 })
            &&& (flag_of(new.ccr, CCR::N.spec_bit()) != flag_of(new.ccr, CCR::V.spec_bit())) == (signed_byte(d) < signed_byte(s))
        }),
{
    law_sub_b_flags(old.ccr, spec_rn_b(old.er, nibble(opcode, 4)), spec_rn_b(old.er, nibble(opcode, 3)));
}

/// `CMP.L ERs, ERd` changes no register; C is set where ERd is below ERs
/// unsigned, Z where they are equal, and N unlike V where ERd is below ERs
/// signed.
pub proof fn law_cmp_l_rn(old: CpuView, new: CpuView, opcode: u16, r: Result<u8, EmuError>)
    requires
        nibble(opcode, 4) < 8,
        cmp_l_rn_post(old, new, opcode, r),
    ensures
        new.er == old.er,
        new.mem == old.mem,
        new.pc == old.pc,
        ({
            let d = spec_rn_l(old.er, nibble(opcode, 4));
            let s = spec_rn_l(old.er, nibble(opcode, 3) & 7);
            &&& flag_of(new.ccr, CCR::C.spec_bit()) == (if d < s { 1u8 } else { 0u8 })
            &&& flag_of(new.ccr, CCR::Z.spec_bit()) == (if d == s { 1u8 } else { 0u8 })
            &&& (flag_of(new.ccr, CCR::N.spec_bit()) != flag_of(new.ccr, CCR::V.spec_bit())) == (signed_long(d) < signed_long(s))
        }),
{
    law_sub_l_flags(old.ccr, spec_rn_l(old.er, nibble(opcode, 4)), spec_rn_l(old.er, nibble(opcode, 3) & 7));
}

/// The complement of a value and the value add up to all ones, and the low
/// byte (word) of a value is what the mask 0xff (0xffff) keeps.
proof fn lemma_complements(a8: u8, a16: u16, a32: u32)
    ensures
        (!a8) as int + a8 == 0xff,
        (!a16) as int + a16 == 0xffff,
        (!a32) as int + a32 == 0xffff_ffff,
        a16 & 0x00ff == a16 % 0x100,
        a32 & 0x0000_ffff == a32 % 0x1_0000,
{
    assert((!a8) as int + a8 == 0xff && (!a16) as int + a16 == 0xffff && (!a32) as int + a32 == 0xffff_ffff && a16
        & 0x00ff == a16 % 0x100 && a32 & 0x0000_ffff == a32 % 0x1_0000) by (bit_vector);
}

/// A byte register written with `x`: it reads `x`, the others as before.
proof fn lemma_byte_write(er: Seq<u32>, rd: u8, x: u8)
    requires
        er.len() == 8,
        rd < 16,
    ensures
        spec_rn_b(crate::cpu::addressing_mode::rn::spec_set_rn_b(er, rd, x), rd) == x,
        forall|k: u8| k < 16 && k != rd ==> #[trigger] spec_rn_b(crate::cpu::addressing_mode::rn::spec_set_rn_b(er, rd, x), k)
            == spec_rn_b(er, k),
{
    lemma_rn_b_write_read(er, rd, x, rd);
    assert forall|k: u8| k < 16 && k != rd implies #[trigger] spec_rn_b(
        crate::cpu::addressing_mode::rn::spec_set_rn_b(er, rd, x),
        k,
    ) == spec_rn_b(er, k) by {
        lemma_rn_b_write_read(er, rd, x, k);
    }
}

/// A word register written with `x`: it reads `x`, the others as before.
proof fn lemma_word_write(er: Seq<u32>, rd: u8, x: u16)
    requires
        er.len() == 8,
        rd < 16,
    ensures
        spec_rn_w(crate::cpu::addressing_mode::rn::spec_set_rn_w(er, rd, x), rd) == x,
        forall|k: u8| k < 16 && k != rd ==> #[trigger] spec_rn_w(crate::cpu::addressing_mode::rn::spec_set_rn_w(er, rd, x), k)
            == spec_rn_w(er, k),
{
    lemma_rn_w_write_read(er, rd, x, rd);
    assert forall|k: u8| k < 16 && k != rd implies #[trigger] spec_rn_w(
        crate::cpu::addressing_mode::rn::spec_set_rn_w(er, rd, x),
        k,
    ) == spec_rn_w(er, k) by {
        lemma_rn_w_write_read(er, rd, x, k);
    }
}

/// `NOT.B Rd`: Rd and its old value add up to 0xff; the other byte registers
/// read as before.
pub proof fn law_not_b(old: CpuView, new: CpuView, opcode: u16, r: Result<u8, EmuError>)
    requires
        old.er.len() == 8,
        not_b_post(old, new, opcode, r),
    ensures
        spec_rn_b(new.er, nibble(opcode, 4)) + spec_rn_b(old.er, nibble(opcode, 4)) == 0xff,
        forall|k: u8| k < 16 && k != nibble(opcode, 4) ==> #[trigger] spec_rn_b(new.er, k) == spec_rn_b(old.er, k),
{
    lemma_nibbles_compose(opcode);
    let x = spec_rn_b(old.er, nibble(opcode, 4));
    lemma_byte_write(old.er, nibble(opcode, 4), !x);
    lemma_complements(x, 0, 0);
}

/// `NOT.W Rd`: Rd and its old value add up to 0xffff; the other word
/// registers read as before.
pub proof fn law_not_w(old: CpuView, new: CpuView, opcode: u16, r: Result<u8, EmuError>)
    requires
        old.er.len() == 8,
        not_w_post(old, new, opcode, r),
    ensures
        spec_rn_w(new.er, nibble(opcode, 4)) + spec_rn_w(old.er, nibble(opcode, 4)) == 0xffff,
        forall|k: u8| k < 16 && k != nibble(opcode, 4) ==> #[trigger] spec_rn_w(new.er, k) == spec_rn_w(old.er, k),
{
    lemma_nibbles_compose(opcode);
    let x = spec_rn_w(old.er, nibble(opcode, 4));
    lemma_word_write(old.er, nibble(opcode, 4), !x);
    lemma_complements(0, x, 0);
}

/// `NOT.L ERd`: ERd and its old value add up to 0xffffffff; the other long
/// registers are unchanged.
pub proof fn law_not_l(old: CpuView, new: CpuView, opcode: u16, r: Result<u8, EmuError>)
    requires
        old.er.len() == 8,
        nibble(opcode, 4) < 8,
        not_l_post(old, new, opcode, r),
    ensures
        new.er[nibble(opcode, 4) as int] + old.er[nibble(opcode, 4) as int] == 0xffff_ffff,
        forall|k: int| 0 <= k < 8 && k != nibble(opcode, 4) ==> #[trigger] new.er[k] == old.er[k],
{
    lemma_complements(0, 0, old.er[nibble(opcode, 4) as int]);
}

/// `NEG.B Rd`: Rd and its old value add up to a multiple of 256; the other
/// byte registers read as before.
pub proof fn law_neg_b(old: CpuView, new: CpuView, opcode: u16, r: Result<u8, EmuError>)
    requires
        old.er.len() == 8,
        neg_b_post(old, new, opcode, r),
    ensures
        (spec_rn_b(new.er, nibble(opcode, 4)) + spec_rn_b(old.er, nibble(opcode, 4))) % 0x100 == 0,
        forall|k: u8| k < 16 && k != nibble(opcode, 4) ==> #[trigger] spec_rn_b(new.er, k) == spec_rn_b(old.er, k),
{
    lemma_nibbles_compose(opcode);
    lemma_byte_write(old.er, nibble(opcode, 4), 0u8.wrapping_sub(spec_rn_b(old.er, nibble(opcode, 4))));
}

/// `NEG.W Rd`: Rd and its old value add up to a multiple of 2^16; the other
/// word registers read as before.
pub proof fn law_neg_w(old: CpuView, new: CpuView, opcode: u16, r: Result<u8, EmuError>)
    requires
        old.er.len() == 8,
        neg_w_post(old, new, opcode, r),
    ensures
        (spec_rn_w(new.er, nibble(opcode, 4)) + spec_rn_w(old.er, nibble(opcode, 4))) % 0x1_0000 == 0,
        forall|k: u8| k < 16 && k != nibble(opcode, 4) ==> #[trigger] spec_rn_w(new.er, k) == spec_rn_w(old.er, k),
{
    lemma_nibbles_compose(opcode);
    lemma_word_write(old.er, nibble(opcode, 4), 0u16.wrapping_sub(spec_rn_w(old.er, nibble(opcode, 4))));
}

/// `NEG.L ERd`: ERd and its old value add up to a multiple of 2^32; the other
/// long registers are unchanged.
pub proof fn law_neg_l(old: CpuView, new: CpuView, opcode: u16, r: Result<u8, EmuError>)
    requires
        old.er.len() == 8,
        nibble(opcode, 4) < 8,
        neg_l_post(old, new, opcode, r),
    ensures
        (new.er[nibble(opcode, 4) as int] + old.er[nibble(opcode, 4) as int]) % 0x1_0000_0000 == 0,
        forall|k: int| 0 <= k < 8 && k != nibble(opcode, 4) ==> #[trigger] new.er[k] == old.er[k],
{
}

/// `INC.B Rd`: Rd grows by one; the other byte registers read as before.
pub proof fn law_inc_b(old: CpuView, new: CpuView, opcode: u16, r: Result<u8, EmuError>)
    requires
        old.er.len() == 8,
        spec_rn_b(old.er, nibble(opcode, 4)) < 0xff,
        inc_b_post(old, new, opcode, r),
    ensures
        spec_rn_b(new.er, nibble(opcode, 4)) == spec_rn_b(old.er, nibble(opcode, 4)) + 1,
        forall|k: u8| k < 16 && k != nibble(opcode, 4) ==> #[trigger] spec_rn_b(new.er, k) == spec_rn_b(old.er, k),
{
    lemma_nibbles_compose(opcode);
    lemma_byte_write(old.er, nibble(opcode, 4), (spec_rn_b(old.er, nibble(opcode, 4)) + 1) as u8);
}

/// `INC.W #1, Rd` and `INC.W #2, Rd`: Rd grows by one or by two (modulo
/// 2^16); the other word registers read as before.
pub proof fn law_inc_w(old: CpuView, new: CpuView, opcode: u16, second: bool, r: Result<u8, EmuError>)
    requires
        old.er.len() == 8,
        spec_rn_w(old.er, nibble(opcode, 4)) < 0xffff,
        inc_w_post(old, new, opcode, second, r),
    ensures
        spec_rn_w(new.er, nibble(opcode, 4)) == (spec_rn_w(old.er, nibble(opcode, 4)) + if second { 2int } else {
            1int
        }) % 0x1_0000,
        forall|k: u8| k < 16 && k != nibble(opcode, 4) ==> #[trigger] spec_rn_w(new.er, k) == spec_rn_w(old.er, k),
{
    lemma_nibbles_compose(opcode);
    let x = spec_rn_w(old.er, nibble(opcode, 4));
    lemma_word_write(old.er, nibble(opcode, 4), if second { x.wrapping_add(2) } else { (x + 1) as u16 });
}

/// `INC.L #1, ERd` and `INC.L #2, ERd`: ERd grows by one or by two (modulo
/// 2^32); the other long registers are unchanged.
pub proof fn law_inc_l(old: CpuView, new: CpuView, opcode: u16, second: bool, r: Result<u8, EmuError>)
    requires
        old.er.len() == 8,
        nibble(opcode, 4) < 8,
        old.er[nibble(opcode, 4) as int] < 0xffff_ffff,
        inc_l_post(old, new, opcode, second, r),
    ensures
        new.er[nibble(opcode, 4) as int] == (old.er[nibble(opcode, 4) as int] + if second { 2int } else { 1int })
            % 0x1_0000_0000,
        forall|k: int| 0 <= k < 8 && k != nibble(opcode, 4) ==> #[trigger] new.er[k] == old.er[k],
{
}

/// `DEC.B Rd`: Rd shrinks by one, modulo 256; the other byte registers read
/// as before.
pub proof fn law_dec_b(old: CpuView, new: CpuView, opcode: u16, r: Result<u8, EmuError>)
    requires
        old.er.len() == 8,
        dec_b_post(old, new, opcode, r),
    ensures
        (spec_rn_b(new.er, nibble(opcode, 4)) + 1) % 0x100 == spec_rn_b(old.er, nibble(opcode, 4)),
        forall|k: u8| k < 16 && k != nibble(opcode, 4) ==> #[trigger] spec_rn_b(new.er, k) == spec_rn_b(old.er, k),
{
    lemma_nibbles_compose(opcode);
    lemma_byte_write(old.er, nibble(opcode, 4), spec_rn_b(old.er, nibble(opcode, 4)).wrapping_sub(1));
}

/// `DEC.W #k, Rd`: Rd shrinks by `k`, modulo 2^16; the other word registers
/// read as before.
pub proof fn law_dec_w(old: CpuView, new: CpuView, opcode: u16, k: u16, r: Result<u8, EmuError>)
    requires
        old.er.len() == 8,
        dec_w_post(old, new, opcode, k, r),
    ensures
        (spec_rn_w(new.er, nibble(opcode, 4)) + k) % 0x1_0000 == spec_rn_w(old.er, nibble(opcode, 4)),
        forall|j: u8| j < 16 && j != nibble(opcode, 4) ==> #[trigger] spec_rn_w(new.er, j) == spec_rn_w(old.er, j),
{
    lemma_nibbles_compose(opcode);
    lemma_word_write(old.er, nibble(opcode, 4), spec_rn_w(old.er, nibble(opcode, 4)).wrapping_sub(k));
}

/// `DEC.L #k, ERd`: ERd shrinks by `k`, modulo 2^32; the other long
/// registers are unchanged.
pub proof fn law_dec_l(old: CpuView, new: CpuView, opcode: u16, k: u32, r: Result<u8, EmuError>)
    requires
        old.er.len() == 8,
        nibble(opcode, 4) < 8,
        dec_l_post(old, new, opcode, k, r),
    ensures
        (new.er[nibble(opcode, 4) as int] + k) % 0x1_0000_0000 == old.er[nibble(opcode, 4) as int],
        forall|j: int| 0 <= j < 8 && j != nibble(opcode, 4) ==> #[trigger] new.er[j] == old.er[j],
{
}

/// `EXTU.W Rd`: Rd keeps its low byte and its upper byte becomes zero; the
/// other word registers read as before.
pub proof fn law_extu_w(old: CpuView, new: CpuView, opcode: u16, r: Result<u8, EmuError>)
    requires
        old.er.len() == 8,
        extu_w_post(old, new, opcode, r),
    ensures
        spec_rn_w(new.er, nibble(opcode, 4)) == spec_rn_w(old.er, nibble(opcode, 4)) % 0x100,
        forall|k: u8| k < 16 && k != nibble(opcode, 4) ==> #[trigger] spec_rn_w(new.er, k) == spec_rn_w(old.er, k),
{
    lemma_nibbles_compose(opcode);
    let x = spec_rn_w(old.er, nibble(opcode, 4));
    lemma_word_write(old.er, nibble(opcode, 4), x & 0x00ff);
    lemma_complements(0, x, 0);
}

/// `EXTU.L ERd`: ERd keeps its low word and its upper word becomes zero; the
/// other long registers are unchanged.
pub proof fn law_extu_l(old: CpuView, new: CpuView, opcode: u16, r: Result<u8, EmuError>)
    requires
        old.er.len() == 8,
        nibble(opcode, 4) < 8,
        extu_l_post(old, new, opcode, r),
    ensures
        new.er[nibble(opcode, 4) as int] == old.er[nibble(opcode, 4) as int] % 0x1_0000,
        forall|k: int| 0 <= k < 8 && k != nibble(opcode, 4) ==> #[trigger] new.er[k] == old.er[k],
{
    lemma_complements(0, 0, old.er[nibble(opcode, 4) as int]);
}

/// `ADDS #k, ERd`: ERd grows by `k`, modulo 2^32, and no flag changes.
pub proof fn law_adds(old: CpuView, new: CpuView, opcode: u16, k: u32, r: Result<u8, EmuError>)
    requires
        old.er.len() == 8,
        nibble(opcode, 4) < 8,
        adds_post(old, new, opcode, k, r),
    ensures
        new.er[nibble(opcode, 4) as int] == (old.er[nibble(opcode, 4) as int] + k) % 0x1_0000_0000,
        forall|j: int| 0 <= j < 8 && j != nibble(opcode, 4) ==> #[trigger] new.er[j] == old.er[j],
        new.ccr == old.ccr,
{
}

/// `SUBS #k, ERd` (given as the negative `k`): ERd shrinks by the amount,
/// modulo 2^32, and no flag changes.
pub proof fn law_subs(old: CpuView, new: CpuView, opcode: u16, k: i32, r: Result<u8, EmuError>)
    requires
        old.er.len() == 8,
        nibble(opcode, 4) < 8,
        -4 <= k < 0,
        subs_post(old, new, opcode, k, r),
    ensures
        (new.er[nibble(opcode, 4) as int] - k) % 0x1_0000_0000 == old.er[nibble(opcode, 4) as int],
        forall|j: int| 0 <= j < 8 && j != nibble(opcode, 4) ==> #[trigger] new.er[j] == old.er[j],
        new.ccr == old.ccr,
{
}

/// `Bcc d:16`: where the condition holds the program counter, past the
/// displacement word, moves by that word sign-extended; where it does not,
/// only the fetch of the word happens.
pub proof fn law_bcc16(old: CpuView, new: CpuView, cond: u8, r: Result<u8, EmuError>)
    requires
        bcc16_post(old, new, cond, r),
    ensures
        !branch_condition(old.ccr, cond) ==> new == fetched(old),
        ({
            let d = fetched_word(old);
            let target = if d < 0x8000 { fetched(old).pc + d } else { fetched(old).pc + d - 0x1_0000 };
            branch_condition(old.ccr, cond) && 0 <= target <= u32::MAX ==> new.pc == target && new.er == old.er
                && new.ccr == old.ccr && new.mem == old.mem
        }),
{
}

/// `AND.B #xx:8, Rd`: Rd (nibble 2) becomes its bitwise AND with the low
/// byte of the opcode.
pub proof fn law_and_b_imm(old: CpuView, new: CpuView, opcode: u16, r: Result<u8, EmuError>)
    requires
        old.er.len() == 8,
        and_b_imm_post(old, new, opcode, r),
    ensures
        byte_result(old, new, nibble(opcode, 2), spec_rn_b(old.er, nibble(opcode, 2)) & low_byte(opcode)),
{
    lemma_nibbles_compose(opcode);
    assert(low_byte(opcode) == opcode as u8);
    lemma_byte_result(old, nibble(opcode, 2), spec_rn_b(old.er, nibble(opcode, 2)) & low_byte(opcode));
}

/// `AND.W #xx:16, Rd`: Rd (nibble 4) becomes its bitwise AND with the word
/// that follows the opcode.
pub proof fn law_and_w_imm(old: CpuView, new: CpuView, opcode: u16, r: Result<u8, EmuError>)
    requires
        old.er.len() == 8,
        and_w_imm_post(old, new, opcode, r),
    ensures
        word_result(fetched(old), new, nibble(opcode, 4), spec_rn_w(old.er, nibble(opcode, 4)) & fetched_word(old)),
{
    lemma_nibbles_compose(opcode);
    lemma_word_result(fetched(old), nibble(opcode, 4), spec_rn_w(old.er, nibble(opcode, 4)) & fetched_word(old));
}

/// `AND.L #xx:32, ERd`: ERd (nibble 4) becomes its bitwise AND with the long
/// word that follows the opcode.
pub proof fn law_and_l_imm(old: CpuView, new: CpuView, opcode: u16, r: Result<u8, EmuError>)
    requires
        old.er.len() == 8,
        nibble(opcode, 4) < 8,
        and_l_imm_post(old, new, opcode, r),
    ensures
        long_result(
            fetched(fetched(old)),
            new,
            nibble(opcode, 4),
            old.er[nibble(opcode, 4) as int] & crate::cpu::fetched_long(old),
        ),
{
    lemma_long_result(fetched(fetched(old)), nibble(opcode, 4), old.er[nibble(opcode, 4) as int] & crate::cpu::fetched_long(old));
}

/// `OR.B #xx:8, Rd`: Rd (nibble 2) becomes its bitwise OR with the low
/// byte of the opcode.
pub proof fn law_or_b_imm(old: CpuView, new: CpuView, opcode: u16, r: Result<u8, EmuError>)
    requires
        old.er.len() == 8,
        or_b_imm_post(old, new, opcode, r),
    ensures
        byte_result(old, new, nibble(opcode, 2), spec_rn_b(old.er, nibble(opcode, 2)) | low_byte(opcode)),
{
    lemma_nibbles_compose(opcode);
    assert(low_byte(opcode) == opcode as u8);
    lemma_byte_result(old, nibble(opcode, 2), spec_rn_b(old.er, nibble(opcode, 2)) | low_byte(opcode));
}

/// `OR.W #xx:16, Rd`: Rd (nibble 4) becomes its bitwise OR with the word
/// that follows the opcode.
pub proof fn law_or_w_imm(old: CpuView, new: CpuView, opcode: u16, r: Result<u8, EmuError>)
    requires
        old.er.len() == 8,
        or_w_imm_post(old, new, opcode, r),
    ensures
        word_result(fetched(old), new, nibble(opcode, 4), spec_rn_w(old.er, nibble(opcode, 4)) | fetched_word(old)),
{
    lemma_nibbles_compose(opcode);
    lemma_word_result(fetched(old), nibble(opcode, 4), spec_rn_w(old.er, nibble(opcode, 4)) | fetched_word(old));
}

/// `OR.L #xx:32, ERd`: ERd (nibble 4) becomes its bitwise OR with the long
/// word that follows the opcode.
pub proof fn law_or_l_imm(old: CpuView, new: CpuView, opcode: u16, r: Result<u8, EmuError>)
    requires
        old.er.len() == 8,
        nibble(opcode, 4) < 8,
        or_l_imm_post(old, new, opcode, r),
    ensures
        long_result(
            fetched(fetched(old)),
            new,
            nibble(opcode, 4),
            old.er[nibble(opcode, 4) as int] | crate::cpu::fetched_long(old),
        ),
{
    lemma_long_result(fetched(fetched(old)), nibble(opcode, 4), old.er[nibble(opcode, 4) as int] | crate::cpu::fetched_long(old));
}

/// `XOR.B #xx:8, Rd`: Rd (nibble 2) becomes its bitwise XOR with the low
/// byte of the opcode.
pub proof fn law_xor_b_imm(old: CpuView, new: CpuView, opcode: u16, r: Result<u8, EmuError>)
    requires
        old.er.len() == 8,
        xor_b_imm_post(old, new, opcode, r),
    ensures
        byte_result(old, new, nibble(opcode, 2), spec_rn_b(old.er, nibble(opcode, 2)) ^ low_byte(opcode)),
{
    lemma_nibbles_compose(opcode);
    assert(low_byte(opcode) == opcode as u8);
    lemma_byte_result(old, nibble(opcode, 2), spec_rn_b(old.er, nibble(opcode, 2)) ^ low_byte(opcode));
}

/// `XOR.W #xx:16, Rd`: Rd (nibble 4) becomes its bitwise XOR with the word
/// that follows the opcode.
pub proof fn law_xor_w_imm(old: CpuView, new: CpuView, opcode: u16, r: Result<u8, EmuError>)
    requires
        old.er.len() == 8,
        xor_w_imm_post(old, new, opcode, r),
    ensures
        word_result(fetched(old), new, nibble(opcode, 4), spec_rn_w(old.er, nibble(opcode, 4)) ^ fetched_word(old)),
{
    lemma_nibbles_compose(opcode);
    lemma_word_result(fetched(old), nibble(opcode, 4), spec_rn_w(old.er, nibble(opcode, 4)) ^ fetched_word(old));
}

/// `XOR.L #xx:32, ERd`: ERd (nibble 4) becomes its bitwise XOR with the long
/// word that follows the opcode.
pub proof fn law_xor_l_imm(old: CpuView, new: CpuView, opcode: u16, r: Result<u8, EmuError>)
    requires
        old.er.len() == 8,
        nibble(opcode, 4) < 8,
        xor_l_imm_post(old, new, opcode, r),
    ensures
        long_result(
            fetched(fetched(old)),
            new,
            nibble(opcode, 4),
            old.er[nibble(opcode, 4) as int] ^ crate::cpu::fetched_long(old),
        ),
{
    lemma_long_result(fetched(fetched(old)), nibble(opcode, 4), old.er[nibble(opcode, 4) as int] ^ crate::cpu::fetched_long(old));
}

/// A word that `MOV.W` stores at an address, `MOV.W` loads back from it.
pub proof fn law_mov_w_store_load(
    v: CpuView,
    mid: CpuView,
    new: CpuView,
    a: u32,
    value: u16,
    rd: u8,
    f1: u8,
    f2: u8,
    r1: Result<u8, EmuError>,
    r2: Result<u8, EmuError>,
)
    requires
        v.er.len() == 8,
        rd < 16,
        mov_w_store_post(v, mid, r1, Ok(a), value, f1),
        r1 is Ok,
        mov_w_load_post(mid, new, r2, Ok(a), rd, f2),
    ensures
        spec_rn_w(new.er, rd) == value,
        r2 is Ok,
{
    lemma_store_load_w(v.mem, a, value);
    lemma_rn_w_write_read(mid.er, rd, value, rd);
}

/// A long word that `MOV.L` stores from ERs at an address, `MOV.L` loads back
/// from it into ERd.
pub proof fn law_mov_l_store_load(
    v: CpuView,
    mid: CpuView,
    new: CpuView,
    a: u32,
    rs: u8,
    rd: u8,
    f1: u8,
    f2: u8,
    r1: Result<u8, EmuError>,
    r2: Result<u8, EmuError>,
)
    requires
        v.er.len() == 8,
        rs < 8,
        rd < 8,
        mov_l_store_post(v, mid, r1, Ok(a), rs, f1),
        r1 is Ok,
        mov_l_load_post(mid, new, r2, Ok(a), rd, f2),
    ensures
        new.er[rd as int] == v.er[rs as int],
        r2 is Ok,
{
    lemma_store_load_l(v.mem, a, v.er[rs as int]);
}

/// `CMP.B #xx:8, Rd` changes no register and compares Rd (nibble 2) with
/// the low byte of the opcode: C where Rd is below it unsigned, Z where they
/// are equal, N unlike V where Rd is below it signed.
pub proof fn law_cmp_b_imm(old: CpuView, new: CpuView, opcode: u16, r: Result<u8, EmuError>)
    requires
        cmp_b_imm_post(old, new, opcode, r),
    ensures
        new.er == old.er,
        new.mem == old.mem,
        ({
            let d = spec_rn_b(old.er, nibble(opcode, 2));
            let s = low_byte(opcode);
            &&& flag_of(new.ccr, CCR::C.spec_bit()) == (if d < s { 1u8 } else { 0u8 })
            &&& flag_of(new.ccr, CCR::Z.spec_bit()) == (if d == s { 1u8 } else { 0u8 })
            &&& (flag_of(new.ccr, CCR::N.spec_bit()) != flag_of(new.ccr, CCR::V.spec_bit())) == (signed_byte(d) < signed_byte(s))
        }),
{
    law_sub_b_flags(old.ccr, spec_rn_b(old.er, nibble(opcode, 2)), low_byte(opcode));
}

/// `CMP.W #xx:16, Rd` changes no register and compares Rd (nibble 4) with
/// the word that follows.
pub proof fn law_cmp_w_imm(old: CpuView, new: CpuView, opcode: u16, r: Result<u8, EmuError>)
    requires
        cmp_w_imm_post(old, new, opcode, r),
    ensures
        new.er == old.er,
        new.mem == old.mem,
        ({
            let d = spec_rn_w(old.er, nibble(opcode, 4));
            let s = fetched_word(old);
            &&& flag_of(new.ccr, CCR::C.spec_bit()) == (if d < s { 1u8 } else { 0u8 })
            &&& flag_of(new.ccr, CCR::Z.spec_bit()) == (if d == s { 1u8 } else { 0u8 })
            &&& (flag_of(new.ccr, CCR::N.spec_bit()) != flag_of(new.ccr, CCR::V.spec_bit())) == (signed_word(d) < signed_word(s))
        }),
{
    law_sub_w_flags(old.ccr, spec_rn_w(old.er, nibble(opcode, 4)), fetched_word(old));
}

/// `CMP.L #xx:32, ERd` changes no register and compares ERd (nibble 4) with
/// the long word that follows.
pub proof fn law_cmp_l_imm(old: CpuView, new: CpuView, opcode: u16, r: Result<u8, EmuError>)
    requires
        nibble(opcode, 4) < 8,
        cmp_l_imm_post(old, new, opcode, r),
    ensures
        new.er == old.er,
        new.mem == old.mem,
        ({
            let d = spec_rn_l(old.er, nibble(opcode, 4));
            let s = crate::cpu::fetched_long(old);
            &&& flag_of(new.ccr, CCR::C.spec_bit()) == (if d < s { 1u8 } else { 0u8 })
            &&& flag_of(new.ccr, CCR::Z.spec_bit()) == (if d == s { 1u8 } else { 0u8 })
            &&& (flag_of(new.ccr, CCR::N.spec_bit()) != flag_of(new.ccr, CCR::V.spec_bit())) == (signed_long(d) < signed_long(s))
        }),
{
    law_sub_l_flags(old.ccr, spec_rn_l(old.er, nibble(opcode, 4)), crate::cpu::fetched_long(old));
}

/// `MULXU.B Rs, Rd`: word register Rd becomes the product of its low byte and
/// byte register Rs, unsigned; the other word registers read as before and
/// no flag changes.
pub proof fn law_mulxu_b(old: CpuView, new: CpuView, opcode: u16, r: Result<u8, EmuError>)
    requires
        old.er.len() == 8,
        mulxu_b_post(old, new, opcode, r),
    ensures
        spec_rn_w(new.er, nibble(opcode, 4)) == (spec_rn_w(old.er, nibble(opcode, 4)) % 0x100) * spec_rn_b(
            old.er,
            nibble(opcode, 3),
        ),
        forall|k: u8| k < 16 && k != nibble(opcode, 4) ==> #[trigger] spec_rn_w(new.er, k) == spec_rn_w(old.er, k),
        new.ccr == old.ccr,
{
    lemma_nibbles_compose(opcode);
    let w = spec_rn_w(old.er, nibble(opcode, 4));
    let b = spec_rn_b(old.er, nibble(opcode, 3));
    lemma_complements(0, w, 0);
    assert((w % 0x100) * b <= 0xff * 0xff) by (nonlinear_arith)
        requires
            w % 0x100 <= 0xff,
            b <= 0xff,
    ;
    lemma_word_write(old.er, nibble(opcode, 4), ((w & 0xff) * b) as u16);
}

/// `MULXU.W Rs, ERd`: ERd becomes the product of its low word and word
/// register Rs, unsigned; the other long registers are unchanged and no
/// flag changes.
pub proof fn law_mulxu_w(old: CpuView, new: CpuView, opcode: u16, r: Result<u8, EmuError>)
    requires
        old.er.len() == 8,
        nibble(opcode, 4) < 8,
        mulxu_w_post(old, new, opcode, r),
    ensures
        new.er[nibble(opcode, 4) as int] == (old.er[nibble(opcode, 4) as int] % 0x1_0000) * spec_rn_w(
            old.er,
            nibble(opcode, 3),
        ),
        forall|k: int| 0 <= k < 8 && k != nibble(opcode, 4) ==> #[trigger] new.er[k] == old.er[k],
        new.ccr == old.ccr,
{
    let x = old.er[nibble(opcode, 4) as int];
    let y = spec_rn_w(old.er, nibble(opcode, 3));
    lemma_complements(0, 0, x);
    assert((x % 0x1_0000) * y <= 0xffff * 0xffff) by (nonlinear_arith)
        requires
            x % 0x1_0000 <= 0xffff,
            y <= 0xffff,
    ;
}

/// The arithmetic meaning of the shifts of a byte: shifting left one bit
/// doubles it modulo 2^8, with the carry bit added at the bottom for
/// `ROTXL`; the bit shifted out is the old sign, and a result's sign is its
/// top bit.
proof fn lemma_shift_b(x: u8, ccr: u8)
    ensures
        ((x << 1u8) as u8) == (2 * x) % 0x100,
        (((x << 1u8) | ((ccr & 1u8) as u8)) as u8) == (2 * x + flag_of(ccr, CCR::C.spec_bit())) % 0x100,
        (x & 0x80 == 0x80) == (x >= 0x80),
        ((x >> 7u8) == 1u8) == (x >= 0x80),
        (((x >> 7u8) & 1u8) == 1u8) == (x >= 0x80),
        (x & 0x40 == 0x40) == (((x << 1u8) as u8) >= 0x80),
        ((((x << 1u8) | ((ccr & 1u8) as u8)) as u8) & 0x80 == 0x80) == ((((x << 1u8) | ((ccr & 1u8) as u8)) as u8)
            >= 0x80),
{
    assert(((x << 1u8) as u8) == (2 * x) % 0x100 && (((x << 1u8) | ((ccr & 1u8) as u8)) as u8) == (2 * x + ((ccr
        >> 0u8) & 1u8)) % 0x100 && (x & 0x80 == 0x80) == (x >= 0x80) && ((x >> 7u8) == 1u8) == (x >= 0x80) && (((x
        >> 7u8) & 1u8) == 1u8) == (x >= 0x80) && (x & 0x40 == 0x40) == (((x << 1u8) as u8) >= 0x80) && ((((x
        << 1u8) | ((ccr & 1u8) as u8)) as u8) & 0x80 == 0x80) == ((((x << 1u8) | ((ccr & 1u8) as u8)) as u8)
        >= 0x80)) by (bit_vector);
}

/// The word counterpart of `lemma_shift_b`.
proof fn lemma_shift_w(x: u16, ccr: u8)
    ensures
        ((x << 1u16) as u16) == (2 * x) % 0x1_0000,
        (((x << 1u16) | ((ccr & 1u8) as u16)) as u16) == (2 * x + flag_of(ccr, CCR::C.spec_bit())) % 0x1_0000,
        (x & 0x8000 == 0x8000) == (x >= 0x8000),
        ((x >> 15u16) == 1u16) == (x >= 0x8000),
        (((x >> 15u16) & 1u16) == 1u16) == (x >= 0x8000),
        (x & 0x4000 == 0x4000) == (((x << 1u16) as u16) >= 0x8000),
        ((((x << 1u16) | ((ccr & 1u8) as u16)) as u16) & 0x8000 == 0x8000) == ((((x << 1u16) | ((ccr & 1u8)
            as u16)) as u16) >= 0x8000),
{
    assert(((x << 1u16) as u16) == (2 * x) % 0x1_0000 && (((x << 1u16) | ((ccr & 1u8) as u16)) as u16) == (2 * x
        + ((ccr >> 0u8) & 1u8)) % 0x1_0000 && (x & 0x8000 == 0x8000) == (x >= 0x8000) && ((x >> 15u16) == 1u16)
        == (x >= 0x8000) && (((x >> 15u16) & 1u16) == 1u16) == (x >= 0x8000) && (x & 0x4000 == 0x4000) == (((x
        << 1u16) as u16) >= 0x8000) && ((((x << 1u16) | ((ccr & 1u8) as u16)) as u16) & 0x8000 == 0x8000) == ((((x
        << 1u16) | ((ccr & 1u8) as u16)) as u16) >= 0x8000)) by (bit_vector);
}

/// The long-word counterpart of `lemma_shift_b`.
proof fn lemma_shift_l(x: u32, ccr: u8)
    ensures
        ((x << 1u32) as u32) == (2 * x) % 0x1_0000_0000,
        (((x << 1u32) | ((ccr & 1u8) as u32)) as u32) == (2 * x + flag_of(ccr, CCR::C.spec_bit())) % 0x1_0000_0000,
        (x & 0x8000_0000 == 0x8000_0000) == (x >= 0x8000_0000),
        ((x >> 31u32) == 1u32) == (x >= 0x8000_0000),
        (((x >> 31u32) & 1u32) == 1u32) == (x >= 0x8000_0000),
        (x & 0x4000_0000 == 0x4000_0000) == (((x << 1u32) as u32) >= 0x8000_0000),
        ((((x << 1u32) | ((ccr & 1u8) as u32)) as u32) & 0x8000_0000 == 0x8000_0000) == ((((x << 1u32) | ((ccr
            & 1u8) as u32)) as u32) >= 0x8000_0000),
{
    assert(((x << 1u32) as u32) == (2 * x) % 0x1_0000_0000 && (((x << 1u32) | ((ccr & 1u8) as u32)) as u32) == (2
        * x + ((ccr >> 0u8) & 1u8)) % 0x1_0000_0000 && (x & 0x8000_0000 == 0x8000_0000) == (x >= 0x8000_0000)
        && ((x >> 31u32) == 1u32) == (x >= 0x8000_0000) && (((x >> 31u32) & 1u32) == 1u32) == (x >= 0x8000_0000)
        && (x & 0x4000_0000 == 0x4000_0000) == (((x << 1u32) as u32) >= 0x8000_0000) && ((((x << 1u32) | ((ccr
        & 1u8) as u32)) as u32) & 0x8000_0000 == 0x8000_0000) == ((((x << 1u32) | ((ccr & 1u8) as u32)) as u32)
        >= 0x8000_0000)) by (bit_vector);
}

/// `SHAL.B Rd`: Rd doubles modulo 2^8; C and V take the bit shifted out
/// (the old sign), N the new sign, Z tells whether the result is zero; the
/// other byte registers, the memory and the program counter are unchanged.
pub proof fn law_shal_b(old: CpuView, new: CpuView, opcode: u16, r: Result<u8, EmuError>)
    requires
        old.er.len() == 8,
        shal_b_post(old, new, opcode, r),
    ensures
        ({
            let rd = nibble(opcode, 4);
            let x = spec_rn_b(old.er, rd);
            let y = spec_rn_b(new.er, rd);
            &&& y == (2 * x) % 0x100
            &&& forall|k: u8| k < 16 && k != rd ==> #[trigger] spec_rn_b(new.er, k) == spec_rn_b(old.er, k)
            &&& flag_of(new.ccr, CCR::C.spec_bit()) == x / 0x80
            &&& flag_of(new.ccr, CCR::V.spec_bit()) == x / 0x80
            &&& flag_of(new.ccr, CCR::N.spec_bit()) == y / 0x80
            &&& flag_of(new.ccr, CCR::Z.spec_bit()) == (if y == 0 { 1u8 } else { 0u8 })
            &&& new.mem == old.mem
            &&& new.pc == old.pc
        }),
{
    lemma_nibbles_compose(opcode);
    let rd = nibble(opcode, 4);
    let x = spec_rn_b(old.er, rd);
    let res = (x << 1u8) as u8;
    lemma_shift_b(x, old.ccr);
    lemma_byte_write(old.er, rd, res);
    crate::laws::lemma_nzvc_flags(old.ccr, x & 0x40 == 0x40, res == 0, x & 0x80 == 0x80, (x >> 7u8) == 1u8);
}

/// `SHAL.W Rd`: the word counterpart of `SHAL.B`.
pub proof fn law_shal_w(old: CpuView, new: CpuView, opcode: u16, r: Result<u8, EmuError>)
    requires
        old.er.len() == 8,
        shal_w_post(old, new, opcode, r),
    ensures
        ({
            let rd = nibble(opcode, 4);
            let x = spec_rn_w(old.er, rd);
            let y = spec_rn_w(new.er, rd);
            &&& y == (2 * x) % 0x1_0000
            &&& forall|k: u8| k < 16 && k != rd ==> #[trigger] spec_rn_w(new.er, k) == spec_rn_w(old.er, k)
            &&& flag_of(new.ccr, CCR::C.spec_bit()) == x / 0x8000
            &&& flag_of(new.ccr, CCR::V.spec_bit()) == x / 0x8000
            &&& flag_of(new.ccr, CCR::N.spec_bit()) == y / 0x8000
            &&& flag_of(new.ccr, CCR::Z.spec_bit()) == (if y == 0 { 1u8 } else { 0u8 })
            &&& new.mem == old.mem
            &&& new.pc == old.pc
        }),
{
    lemma_nibbles_compose(opcode);
    let rd = nibble(opcode, 4);
    let x = spec_rn_w(old.er, rd);
    let res = (x << 1u16) as u16;
    lemma_shift_w(x, old.ccr);
    lemma_word_write(old.er, rd, res);
    crate::laws::lemma_nzvc_flags(old.ccr, x & 0x4000 == 0x4000, res == 0, x & 0x8000 == 0x8000, (x >> 15u16) == 1u16);
}

/// `SHAL.L ERd`: the long-word counterpart of `SHAL.B`; a register field
/// beyond ER7 is refused and changes nothing.
pub proof fn law_shal_l(old: CpuView, new: CpuView, opcode: u16, r: Result<u8, EmuError>)
    requires
        old.er.len() == 8,
        shal_l_post(old, new, opcode, r),
    ensures
        ({
            let rd = nibble(opcode, 4);
            if rd >= 8 {
                new == old && r == Err::<u8, EmuError>(EmuError::InvalidRegister(rd))
            } else {
                let x = old.er[rd as int];
                let y = new.er[rd as int];
                &&& y == (2 * x) % 0x1_0000_0000
                &&& new.er.len() == 8
                &&& forall|k: int| 0 <= k < 8 && k != rd ==> #[trigger] new.er[k] == old.er[k]
                &&& flag_of(new.ccr, CCR::C.spec_bit()) == x / 0x8000_0000
                &&& flag_of(new.ccr, CCR::V.spec_bit()) == x / 0x8000_0000
                &&& flag_of(new.ccr, CCR::N.spec_bit()) == y / 0x8000_0000
                &&& flag_of(new.ccr, CCR::Z.spec_bit()) == (if y == 0 { 1u8 } else { 0u8 })
                &&& new.mem == old.mem
                &&& new.pc == old.pc
            }
        }),
{
    let rd = nibble(opcode, 4);
    if rd < 8 {
        let x = old.er[rd as int];
        let res = (x << 1u32) as u32;
        lemma_shift_l(x, old.ccr);
        crate::laws::lemma_nzvc_flags(
            old.ccr,
            x & 0x4000_0000 == 0x4000_0000,
            res == 0,
            x & 0x8000_0000 == 0x8000_0000,
            (x >> 31u32) == 1u32,
        );
    }
}

/// `ROTXL.B Rd`: Rd doubles modulo 2^8 with the old C added at the bottom;
/// C takes the bit shifted out (the old sign), N the new sign, Z tells
/// whether the result is zero, V is clear; the other byte registers are
/// unchanged.
pub proof fn law_rotxl_b(old: CpuView, new: CpuView, opcode: u16, r: Result<u8, EmuError>)
    requires
        old.er.len() == 8,
        rotxl_b_post(old, new, opcode, r),
    ensures
        ({
            let rd = nibble(opcode, 4);
            let x = spec_rn_b(old.er, rd);
            let y = spec_rn_b(new.er, rd);
            &&& y == (2 * x + flag_of(old.ccr, CCR::C.spec_bit())) % 0x100
            &&& forall|k: u8| k < 16 && k != rd ==> #[trigger] spec_rn_b(new.er, k) == spec_rn_b(old.er, k)
            &&& flag_of(new.ccr, CCR::C.spec_bit()) == x / 0x80
            &&& flag_of(new.ccr, CCR::V.spec_bit()) == 0
            &&& flag_of(new.ccr, CCR::N.spec_bit()) == y / 0x80
            &&& flag_of(new.ccr, CCR::Z.spec_bit()) == (if y == 0 { 1u8 } else { 0u8 })
            &&& new.mem == old.mem
            &&& new.pc == old.pc
        }),
{
    lemma_nibbles_compose(opcode);
    let rd = nibble(opcode, 4);
    let x = spec_rn_b(old.er, rd);
    let res = ((x << 1u8) | ((old.ccr & 1u8) as u8)) as u8;
    lemma_shift_b(x, old.ccr);
    lemma_byte_write(old.er, rd, res);
    crate::laws::lemma_nzvc_flags(old.ccr, res & 0x80 == 0x80, res == 0, false, ((x >> 7u8) & 1u8) == 1u8);
}

/// `ROTXL.W Rd`: the word counterpart of `ROTXL.B`.
pub proof fn law_rotxl_w(old: CpuView, new: CpuView, opcode: u16, r: Result<u8, EmuError>)
    requires
        old.er.len() == 8,
        rotxl_w_post(old, new, opcode, r),
    ensures
        ({
            let rd = nibble(opcode, 4);
            let x = spec_rn_w(old.er, rd);
            let y = spec_rn_w(new.er, rd);
            &&& y == (2 * x + flag_of(old.ccr, CCR::C.spec_bit())) % 0x1_0000
            &&& forall|k: u8| k < 16 && k != rd ==> #[trigger] spec_rn_w(new.er, k) == spec_rn_w(old.er, k)
            &&& flag_of(new.ccr, CCR::C.spec_bit()) == x / 0x8000
            &&& flag_of(new.ccr, CCR::V.spec_bit()) == 0
            &&& flag_of(new.ccr, CCR::N.spec_bit()) == y / 0x8000
            &&& flag_of(new.ccr, CCR::Z.spec_bit()) == (if y == 0 { 1u8 } else { 0u8 })
            &&& new.mem == old.mem
            &&& new.pc == old.pc
        }),
{
    lemma_nibbles_compose(opcode);
    let rd = nibble(opcode, 4);
    let x = spec_rn_w(old.er, rd);
    let res = ((x << 1u16) | ((old.ccr & 1u8) as u16)) as u16;
    lemma_shift_w(x, old.ccr);
    lemma_word_write(old.er, rd, res);
    crate::laws::lemma_nzvc_flags(old.ccr, res & 0x8000 == 0x8000, res == 0, false, ((x >> 15u16) & 1u16) == 1u16);
}

/// `ROTXL.L ERd`: the long-word counterpart of `ROTXL.B`; a register field
/// beyond ER7 is refused and changes nothing.
pub proof fn law_rotxl_l(old: CpuView, new: CpuView, opcode: u16, r: Result<u8, EmuError>)
    requires
        old.er.len() == 8,
        rotxl_l_post(old, new, opcode, r),
    ensures
        ({
            let rd = nibble(opcode, 4);
            if rd >= 8 {
                new == old && r == Err::<u8, EmuError>(EmuError::InvalidRegister(rd))
            } else {
                let x = old.er[rd as int];
                let y = new.er[rd as int];
                &&& y == (2 * x + flag_of(old.ccr, CCR::C.spec_bit())) % 0x1_0000_0000
                &&& new.er.len() == 8
                &&& forall|k: int| 0 <= k < 8 && k != rd ==> #[trigger] new.er[k] == old.er[k]
                &&& flag_of(new.ccr, CCR::C.spec_bit()) == x / 0x8000_0000
                &&& flag_of(new.ccr, CCR::V.spec_bit()) == 0
                &&& flag_of(new.ccr, CCR::N.spec_bit()) == y / 0x8000_0000
                &&& flag_of(new.ccr, CCR::Z.spec_bit()) == (if y == 0 { 1u8 } else { 0u8 })
                &&& new.mem == old.mem
                &&& new.pc == old.pc
            }
        }),
{
    let rd = nibble(opcode, 4);
    if rd < 8 {
        let x = old.er[rd as int];
        let res = ((x << 1u32) | ((old.ccr & 1u8) as u32)) as u32;
        lemma_shift_l(x, old.ccr);
        crate::laws::lemma_nzvc_flags(
            old.ccr,
            res & 0x8000_0000 == 0x8000_0000,
            res == 0,
            false,
            ((x >> 31u32) & 1u32) == 1u32,
        );
    }
}

/// After a division N reads the sign of the divisor, Z whether it is zero,
/// and V and C keep their values.
proof fn lemma_div_flags(ccr: u8, negative: bool, zero: bool)
    ensures
        flag_of(div_ccr(ccr, negative, zero), CCR::N.spec_bit()) == (if negative { 1u8 } else { 0u8 }),
        flag_of(div_ccr(ccr, negative, zero), CCR::Z.spec_bit()) == (if zero { 1u8 } else { 0u8 }),
        flag_of(div_ccr(ccr, negative, zero), CCR::V.spec_bit()) == flag_of(ccr, CCR::V.spec_bit()),
        flag_of(div_ccr(ccr, negative, zero), CCR::C.spec_bit()) == flag_of(ccr, CCR::C.spec_bit()),
{
    let c1 = with_flag(ccr, 3, negative);
    lemma_flag_write_read(c1, 2, zero, 2);
    lemma_flag_write_read(c1, 2, zero, 3);
    lemma_flag_write_read(c1, 2, zero, 1);
    lemma_flag_write_read(c1, 2, zero, 0);
    lemma_flag_write_read(ccr, 3, negative, 3);
    lemma_flag_write_read(ccr, 3, negative, 1);
    lemma_flag_write_read(ccr, 3, negative, 0);
}

/// `DIVXU.B Rs, Rd` divides the word Rd by the byte register Rs: where Rs
/// is not zero, the upper byte of Rd becomes the remainder and the lower
/// byte the quotient modulo 2^8 (so that, where the quotient fits a byte,
/// quotient times divisor plus remainder gives the dividend back); a zero
/// divisor leaves zero. N reads the sign of the divisor and Z whether it is
/// zero; the other word registers read as before.
pub proof fn law_divxu_b(old: CpuView, new: CpuView, opcode: u16, r: Result<u8, EmuError>)
    requires
        old.er.len() == 8,
        divxu_b_post(old, new, opcode, r),
    ensures
        ({
            let rd = nibble(opcode, 4);
            let n = spec_rn_w(old.er, rd);
            let d = spec_rn_b(old.er, nibble(opcode, 3));
            let y = spec_rn_w(new.er, rd);
            &&& d == 0 ==> y == 0
            &&& d != 0 ==> y / 0x100 == (n as int) % (d as int) && y % 0x100 == ((n as int) / (d as int)) % 0x100
            &&& d != 0 && (n as int) / (d as int) < 0x100 ==> (y % 0x100) * d + y / 0x100 == n && y / 0x100 < d
            &&& forall|k: u8| k < 16 && k != rd ==> #[trigger] spec_rn_w(new.er, k) == spec_rn_w(old.er, k)
            &&& flag_of(new.ccr, CCR::N.spec_bit()) == d / 0x80
            &&& flag_of(new.ccr, CCR::Z.spec_bit()) == (if d == 0 { 1u8 } else { 0u8 })
            &&& flag_of(new.ccr, CCR::V.spec_bit()) == flag_of(old.ccr, CCR::V.spec_bit())
            &&& flag_of(new.ccr, CCR::C.spec_bit()) == flag_of(old.ccr, CCR::C.spec_bit())
            &&& new.mem == old.mem
            &&& new.pc == old.pc
        }),
{
    lemma_nibbles_compose(opcode);
    let rd = nibble(opcode, 4);
    let n = spec_rn_w(old.er, rd);
    let d = spec_rn_b(old.er, nibble(opcode, 3));
    let res = divxu_b_result(n, d);
    lemma_word_write(old.er, rd, res);
    lemma_div_flags(old.ccr, d >= 0x80, d == 0);
    if d != 0 {
        let q = n / (d as u16);
        let rem = n % (d as u16);
        assert(rem < 0x100);
        assert(rem < 0x100 ==> ((rem << 8u16) | (q & 0xff)) as u16 == rem * 0x100 + q % 0x100) by (bit_vector);
        assert(q * (d as u16) + rem == n) by (nonlinear_arith)
            requires
                q == n / (d as u16),
                rem == n % (d as u16),
                d > 0,
        ;
    }
}

/// `DIVXU.W Rs, ERd` divides the long word ERd by the word register Rs:
/// where Rs is not zero, the upper word of ERd becomes the remainder and
/// the lower word the quotient modulo 2^16; a zero divisor leaves zero. N
/// reads the sign of the divisor and Z whether it is zero; the other long
/// registers are unchanged.
pub proof fn law_divxu_w(old: CpuView, new: CpuView, opcode: u16, r: Result<u8, EmuError>)
    requires
        old.er.len() == 8,
        divxu_w_post(old, new, opcode, r),
    ensures
        ({
            let rd = (nibble(opcode, 4) & 7) as int;
            let n = old.er[rd];
            let d = spec_rn_w(old.er, nibble(opcode, 3));
            let y = new.er[rd];
            &&& d == 0 ==> y == 0
            &&& d != 0 ==> y / 0x1_0000 == (n as int) % (d as int) && y % 0x1_0000 == ((n as int) / (d as int)) % 0x1_0000
            &&& d != 0 && (n as int) / (d as int) < 0x1_0000 ==> (y % 0x1_0000) * d + y / 0x1_0000 == n && y / 0x1_0000 < d
            &&& new.er.len() == 8
            &&& forall|k: int| 0 <= k < 8 && k != rd ==> #[trigger] new.er[k] == old.er[k]
            &&& flag_of(new.ccr, CCR::N.spec_bit()) == d / 0x8000
            &&& flag_of(new.ccr, CCR::Z.spec_bit()) == (if d == 0 { 1u8 } else { 0u8 })
            &&& flag_of(new.ccr, CCR::V.spec_bit()) == flag_of(old.ccr, CCR::V.spec_bit())
            &&& flag_of(new.ccr, CCR::C.spec_bit()) == flag_of(old.ccr, CCR::C.spec_bit())
            &&& new.mem == old.mem
            &&& new.pc == old.pc
        }),
{
    let rd = nibble(opcode, 4) & 7;
    crate::cpu::instruction::lemma_byte_masks(nibble(opcode, 4));
    let n = old.er[rd as int];
    let d = spec_rn_w(old.er, nibble(opcode, 3));
    lemma_div_flags(old.ccr, d >= 0x8000, d == 0);
    if d != 0 {
        let q = n / (d as u32);
        let rem = n % (d as u32);
        assert(rem < 0x1_0000);
        assert(rem < 0x1_0000 ==> ((rem << 16u32) | (q & 0xffff)) as u32 == rem * 0x1_0000 + q % 0x1_0000)
            by (bit_vector);
        assert(q * (d as u32) + rem == n) by (nonlinear_arith)
            requires
                q == n / (d as u32),
                rem == n % (d as u32),
                d > 0,
        ;
    }
}

/// `ADDX Rs, Rd` (first byte 0x0e): Rd (nibble 4) becomes Rd plus Rs
/// (nibble 3) plus the carry, modulo 256; the other byte registers read as
/// before, C is the carry out of the whole sum, N its top bit.
pub proof fn law_addx_rn(old: CpuView, new: CpuView, opcode: u16, r: Result<u8, EmuError>)
    requires
        old.er.len() == 8,
        crate::cpu::instruction::addx::addx_rn_post(old, new, opcode, r),
    ensures
        ({
            let rd = nibble(opcode, 4);
            let d = spec_rn_b(old.er, rd);
            let s = spec_rn_b(old.er, nibble(opcode, 3));
            let c = flag_of(old.ccr, CCR::C.spec_bit());
            &&& spec_rn_b(new.er, rd) == (d + s + c) % 0x100
            &&& forall|k: u8| k < 16 && k != rd ==> #[trigger] spec_rn_b(new.er, k) == spec_rn_b(old.er, k)
            &&& flag_of(new.ccr, CCR::C.spec_bit()) == (if d + s + c > 0xff { 1u8 } else { 0u8 })
            &&& flag_of(new.ccr, CCR::N.spec_bit()) == (if (d + s + c) % 0x100 >= 0x80 { 1u8 } else { 0u8 })
            &&& new.mem == old.mem && new.pc == old.pc
        }),
{
    lemma_nibbles_compose(opcode);
    let rd = nibble(opcode, 4);
    let d = spec_rn_b(old.er, rd);
    let s = spec_rn_b(old.er, nibble(opcode, 3));
    crate::cpu::lemma_flag_le_1(old.ccr, CCR::C.spec_bit());
    lemma_byte_write(old.er, rd, crate::cpu::instruction::addx::addx_result(old.ccr, d, s));
    law_addx_flags(old.ccr, d, s);
}

/// `ADDX #xx:8, Rd` (first byte 0x9_): Rd (nibble 2) becomes Rd plus the
/// low byte of the opcode plus the carry, modulo 256; C is the carry out.
pub proof fn law_addx_imm(old: CpuView, new: CpuView, opcode: u16, r: Result<u8, EmuError>)
    requires
        old.er.len() == 8,
        crate::cpu::instruction::addx::addx_imm_post(old, new, opcode, r),
    ensures
        ({
            let rd = nibble(opcode, 2);
            let d = spec_rn_b(old.er, rd);
            let s = low_byte(opcode);
            let c = flag_of(old.ccr, CCR::C.spec_bit());
            &&& spec_rn_b(new.er, rd) == (d + s + c) % 0x100
            &&& forall|k: u8| k < 16 && k != rd ==> #[trigger] spec_rn_b(new.er, k) == spec_rn_b(old.er, k)
            &&& flag_of(new.ccr, CCR::C.spec_bit()) == (if d + s + c > 0xff { 1u8 } else { 0u8 })
            &&& new.mem == old.mem && new.pc == old.pc
        }),
{
    lemma_nibbles_compose(opcode);
    let rd = nibble(opcode, 2);
    let d = spec_rn_b(old.er, rd);
    let s = low_byte(opcode);
    crate::cpu::lemma_flag_le_1(old.ccr, CCR::C.spec_bit());
    lemma_byte_write(old.er, rd, crate::cpu::instruction::addx::addx_result(old.ccr, d, s));
    law_addx_flags(old.ccr, d, s);
}

/// `ADD.L #xx:32, ERd` (first byte 0x7a): ERd (nibble 4) becomes ERd plus
/// the long word of the two following words, modulo 2^32; C is the carry
/// out of bit 31; the other long registers are unchanged.
pub proof fn law_add_l_imm(old: CpuView, new: CpuView, opcode: u16, r: Result<u8, EmuError>)
    requires
        old.er.len() == 8,
        opcode >> 8u16 == 0x7a,
        nibble(opcode, 4) < 8,
        add_l_post(old, new, opcode, r),
    ensures
        ({
            let rd = nibble(opcode, 4) as int;
            let d = old.er[rd];
            let s = crate::cpu::fetched_long(old);
            &&& new.er[rd] == (d + s) % 0x1_0000_0000
            &&& forall|k: int| 0 <= k < 8 && k != rd ==> #[trigger] new.er[k] == old.er[k]
            &&& flag_of(new.ccr, CCR::C.spec_bit()) == (if d + s > 0xffff_ffff { 1u8 } else { 0u8 })
            &&& flag_of(new.ccr, CCR::Z.spec_bit()) == (if (d + s) % 0x1_0000_0000 == 0 { 1u8 } else { 0u8 })
            &&& new.pc == fetched(fetched(old)).pc
            &&& r is Ok
        }),
{
    let rd = nibble(opcode, 4) as int;
    law_add_l_flags(old.ccr, old.er[rd], crate::cpu::fetched_long(old));
}

/// `SUB.L #xx:32, ERd` (first byte 0x7a): ERd (nibble 4) becomes ERd minus
/// the long word of the two following words, modulo 2^32; C is the borrow
/// and Z the equality; the other long registers are unchanged.
pub proof fn law_sub_l_imm(old: CpuView, new: CpuView, opcode: u16, r: Result<u8, EmuError>)
    requires
        old.er.len() == 8,
        opcode >> 8u16 == 0x7a,
        nibble(opcode, 4) < 8,
        sub_l_post(old, new, opcode, r),
    ensures
        ({
            let rd = nibble(opcode, 4) as int;
            let d = old.er[rd];
            let s = crate::cpu::fetched_long(old);
            &&& (new.er[rd] + s) % 0x1_0000_0000 == d
            &&& forall|k: int| 0 <= k < 8 && k != rd ==> #[trigger] new.er[k] == old.er[k]
            &&& flag_of(new.ccr, CCR::C.spec_bit()) == (if d < s { 1u8 } else { 0u8 })
            &&& flag_of(new.ccr, CCR::Z.spec_bit()) == (if d == s { 1u8 } else { 0u8 })
            &&& new.pc == fetched(fetched(old)).pc
        }),
{
    let rd = nibble(opcode, 4) as int;
    law_sub_l_flags(old.ccr, old.er[rd], crate::cpu::fetched_long(old));
}

} // verus!
