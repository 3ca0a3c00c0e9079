//! What the bit instructions do, bit by bit: which bit of which byte they
//! change or test, and which flag they derive from it.

use vstd::prelude::*;

use crate::cpu::addressing_mode::rn::{lemma_rn_b_write_read, spec_rn_b, spec_set_rn_b};
use crate::cpu::instruction::band::{abs8_byte, band_abs_post, band_ern_post, band_rn_post, ern_byte};
use crate::cpu::instruction::bior::{bior_abs_post, bior_ern_post, bior_rn_post};
use crate::cpu::instruction::bist::{bist_abs_post, bist_ern_post, bist_rn_post};
use crate::cpu::instruction::bset::{bset_abs_post, bset_ern_post, bset_rn_from_imm_post, bset_rn_from_rn_post};
use crate::cpu::instruction::btst::{
    btst_imm_abs_post, btst_imm_ern_post, btst_imm_rn_post, btst_rn_abs_post, btst_rn_ern_post, btst_rn_rn_post,
};
use crate::cpu::instruction::{lemma_byte_masks, lemma_nibbles_compose, nibble};
use crate::cpu::{flag_of, lemma_flag_le_1, lemma_flag_write_read, with_flag, CpuView, CCR};
use crate::error::EmuError;

verus! {

/// Bit `k` (0 the least significant) of the byte `x`: 0 or 1.
pub open spec fn bit_of(x: u8, k: u8) -> u8 {
    (x >> k) & 1
}

/// `new` is `old` with bit `b` made `value` and the other seven bits kept.
pub open spec fn bit_replaced(old: u8, new: u8, b: u8, value: u8) -> bool {
    forall|k: u8| k < 8 ==> #[trigger] bit_of(new, k) == (if k == b { value } else { bit_of(old, k) })
}

/// After an instruction that writes one bit of byte register `rd`: bit `b`
/// of `rd` is `value`, its other bits and every other byte register read as
/// before, and nothing but the registers has changed.
pub open spec fn reg_bit_result(old: CpuView, new: CpuView, rd: u8, b: u8, value: u8) -> bool {
    &&& bit_replaced(spec_rn_b(old.er, rd), spec_rn_b(new.er, rd), b, value)
    &&& forall|k: u8| k < 16 && k != rd ==> #[trigger] spec_rn_b(new.er, k) == spec_rn_b(old.er, k)
    &&& new == (CpuView { er: new.er, ..old })
}

/// After an instruction that writes one bit of the byte at `addr`: bit `b`
/// of that byte is `value`, its other bits and every other byte of memory
/// read as before, and nothing but the memory has changed.
pub open spec fn mem_bit_result(old: CpuView, new: CpuView, addr: u32, b: u8, value: u8) -> bool {
    &&& bit_replaced(old.mem[addr], new.mem[addr], b, value)
    &&& new.mem == old.mem.insert(addr, new.mem[addr])
    &&& new == (CpuView { mem: new.mem, ..old })
}

/// After an instruction that derives flag `f` and nothing else: `f` reads
/// `value`, the other flags read as before, and nothing but the flags has
/// changed.
pub open spec fn flag_result(old: CpuView, new: CpuView, f: u8, value: u8) -> bool {
    &&& flag_of(new.ccr, f) == value
    &&& forall|k: u8| k < 8 && k != f ==> #[trigger] flag_of(new.ccr, k) == flag_of(old.ccr, k)
    &&& new == (CpuView { ccr: new.ccr, ..old })
}

/// Setting or clearing bit `b` replaces that bit alone.
proof fn lemma_with_bit(x: u8, b: u8, on: bool)
    requires
        b < 8,
    ensures
        bit_replaced(x, with_flag(x, b, on), b, if on { 1u8 } else { 0u8 }),
{
    assert forall|k: u8| k < 8 implies #[trigger] bit_of(with_flag(x, b, on), k) == (if k == b {
        if on { 1u8 } else { 0u8 }
    } else {
        bit_of(x, k)
    }) by {
        lemma_flag_write_read(x, b, on, k);
    }
}

/// Writing one bit of a byte register gives `reg_bit_result`.
proof fn lemma_reg_bit(old: CpuView, new: CpuView, rd: u8, b: u8, on: bool)
    requires
        old.er.len() == 8,
        rd < 16,
        b < 8,
        new == (CpuView { er: spec_set_rn_b(old.er, rd, with_flag(spec_rn_b(old.er, rd), b, on)), ..old }),
    ensures
        reg_bit_result(old, new, rd, b, if on { 1u8 } else { 0u8 }),
{
    let v = with_flag(spec_rn_b(old.er, rd), b, on);
    lemma_rn_b_write_read(old.er, rd, v, rd);
    assert forall|k: u8| k < 16 && k != rd implies #[trigger] spec_rn_b(new.er, k) == spec_rn_b(old.er, k) by {
        lemma_rn_b_write_read(old.er, rd, v, k);
    }
    lemma_with_bit(spec_rn_b(old.er, rd), b, on);
}

/// Writing one bit of a byte of memory gives `mem_bit_result`.
proof fn lemma_mem_bit(old: CpuView, new: CpuView, addr: u32, b: u8, on: bool)
    requires
        b < 8,
        new == (CpuView { mem: old.mem.insert(addr, with_flag(old.mem[addr], b, on)), ..old }),
    ensures
        mem_bit_result(old, new, addr, b, if on { 1u8 } else { 0u8 }),
{
    lemma_with_bit(old.mem[addr], b, on);
    assert(new.mem == old.mem.insert(addr, new.mem[addr]));
}

/// Writing one flag gives `flag_result`.
proof fn lemma_flag_only(old: CpuView, new: CpuView, f: u8, on: bool)
    requires
        f < 8,
        new == (CpuView { ccr: with_flag(old.ccr, f, on), ..old }),
    ensures
        flag_result(old, new, f, if on { 1u8 } else { 0u8 }),
{
    lemma_flag_write_read(old.ccr, f, on, f);
    assert forall|k: u8| k < 8 && k != f implies #[trigger] flag_of(new.ccr, k) == flag_of(old.ccr, k) by {
        lemma_flag_write_read(old.ccr, f, on, k);
    }
}

/// The flag that `BAND` and `BIOR` compute, in terms of C and the bit tested.
proof fn lemma_and_or_bit(value: u8, b: u8, c: u8)
    requires
        c <= 1,
    ensures
        (((value >> b) & c) == 1) == (c == 1 && bit_of(value, b) == 1),
        (((!(value >> b) & 1) | c) == 1) == (c == 1 || bit_of(value, b) == 0),
{
    assert(c <= 1 ==> ((((value >> b) & c) == 1) == (c == 1 && (value >> b) & 1 == 1) && (((!(value >> b) & 1)
        | c) == 1) == (c == 1 || (value >> b) & 1 == 0))) by (bit_vector);
}

/// `BSET #b, Rd` sets bit `b` (nibble 3, taken modulo 8) of the byte
/// register of nibble 4 and changes nothing else.
pub proof fn law_bset_rn_imm(old: CpuView, new: CpuView, opcode: u16, r: Result<u8, EmuError>)
    requires
        old.er.len() == 8,
        bset_rn_from_imm_post(old, new, opcode, r),
    ensures
        reg_bit_result(old, new, nibble(opcode, 4), nibble(opcode, 3) & 7, 1),
        r == Ok::<u8, EmuError>(2),
{
    lemma_nibbles_compose(opcode);
    lemma_byte_masks(nibble(opcode, 3));
    lemma_reg_bit(old, new, nibble(opcode, 4), nibble(opcode, 3) & 7, true);
}

/// `BSET Rn, Rd` sets, in the byte register of nibble 4, the bit that the
/// low three bits of the byte register of nibble 3 number.
pub proof fn law_bset_rn_rn(old: CpuView, new: CpuView, opcode: u16, r: Result<u8, EmuError>)
    requires
        old.er.len() == 8,
        bset_rn_from_rn_post(old, new, opcode, r),
    ensures
        reg_bit_result(old, new, nibble(opcode, 4), spec_rn_b(old.er, nibble(opcode, 3)) & 7, 1),
        r == Ok::<u8, EmuError>(2),
{
    lemma_nibbles_compose(opcode);
    lemma_byte_masks(spec_rn_b(old.er, nibble(opcode, 3)));
    lemma_reg_bit(old, new, nibble(opcode, 4), spec_rn_b(old.er, nibble(opcode, 3)) & 7, true);
}

/// `BSET #b, @ERd` (second word 0x70_0) and `BSET Rn, @ERd` (0x60_0) set
/// one bit of the byte at `@ERd`: bit `b` of the immediate, or the bit that
/// the low three bits of byte register Rn number. Where the byte cannot be
/// read nothing changes and the error is returned.
pub proof fn law_bset_ern(old: CpuView, new: CpuView, opcode: u16, opcode2: u16, r: Result<u8, EmuError>)
    requires
        bset_ern_post(old, new, opcode, opcode2, r),
        opcode2 & 0xff0f == 0x7000 || opcode2 & 0xff0f == 0x6000,
    ensures
        ({
            let b = if opcode2 & 0xff0f == 0x7000 {
                nibble(opcode2, 3) & 7
            } else {
                spec_rn_b(old.er, nibble(opcode2, 3)) & 7
            };
            match ern_byte(old, nibble(opcode, 3)) {
                Err(e) => new == old && r == Err::<u8, EmuError>(e),
                Ok(value) => value == old.mem[(old.er[nibble(opcode, 3) as int] & 0x00ff_ffff)] && mem_bit_result(
                    old,
                    new,
                    (old.er[nibble(opcode, 3) as int] & 0x00ff_ffff),
                    b,
                    1,
                ) && r == Ok::<u8, EmuError>(8),
            }
        }),
{
    lemma_byte_masks(nibble(opcode2, 3));
    lemma_byte_masks(spec_rn_b(old.er, nibble(opcode2, 3)));
    let b = if opcode2 & 0xff0f == 0x7000 {
        nibble(opcode2, 3) & 7
    } else {
        spec_rn_b(old.er, nibble(opcode2, 3)) & 7
    };
    if ern_byte(old, nibble(opcode, 3)) is Ok {
        lemma_mem_bit(old, new, (old.er[nibble(opcode, 3) as int] & 0x00ff_ffff), b, true);
    }
}

/// `BSET #b, @aa:8` and `BSET Rn, @aa:8` set one bit of the byte at the
/// 8-bit absolute address of the low byte of the first word, chosen as for
/// `@ERd`.
pub proof fn law_bset_abs(old: CpuView, new: CpuView, opcode: u16, opcode2: u16, r: Result<u8, EmuError>)
    requires
        bset_abs_post(old, new, opcode, opcode2, r),
        opcode2 & 0xff0f == 0x7000 || opcode2 & 0xff0f == 0x6000,
    ensures
        ({
            let b = if opcode2 & 0xff0f == 0x7000 {
                nibble(opcode2, 3) & 7
            } else {
                spec_rn_b(old.er, nibble(opcode2, 3)) & 7
            };
            match abs8_byte(old, opcode as u8) {
                Err(e) => new == old && r == Err::<u8, EmuError>(e),
                Ok(value) => value == old.mem[((0xffff00 + (opcode as u8)) as u32)] && mem_bit_result(
                    old,
                    new,
                    ((0xffff00 + (opcode as u8)) as u32),
                    b,
                    1,
                ) && r == Ok::<u8, EmuError>(8),
            }
        }),
{
    crate::move_laws::lemma_word_bytes(0, opcode as u8, 0, 0);
    lemma_byte_masks(nibble(opcode2, 3));
    lemma_byte_masks(spec_rn_b(old.er, nibble(opcode2, 3)));
    let b = if opcode2 & 0xff0f == 0x7000 {
        nibble(opcode2, 3) & 7
    } else {
        spec_rn_b(old.er, nibble(opcode2, 3)) & 7
    };
    if abs8_byte(old, opcode as u8) is Ok {
        lemma_mem_bit(old, new, ((0xffff00 + (opcode as u8)) as u32), b, true);
    }
}

/// `BIST #b, Rd` stores the complement of C into bit `b` of the byte
/// register of nibble 4 and changes nothing else.
pub proof fn law_bist_rn(old: CpuView, new: CpuView, opcode: u16, r: Result<u8, EmuError>)
    requires
        old.er.len() == 8,
        bist_rn_post(old, new, opcode, r),
    ensures
        reg_bit_result(old, new, nibble(opcode, 4), nibble(opcode, 3) & 7, if flag_of(old.ccr, CCR::C.spec_bit()) == 0 { 1u8 } else { 0u8 }),
        r == Ok::<u8, EmuError>(2),
{
    lemma_nibbles_compose(opcode);
    lemma_byte_masks(nibble(opcode, 3));
    lemma_flag_le_1(old.ccr, CCR::C.spec_bit());
    lemma_reg_bit(old, new, nibble(opcode, 4), nibble(opcode, 3) & 7, flag_of(old.ccr, CCR::C.spec_bit()) == 0);
}

/// `BIST #b, @ERd` stores the complement of C into bit `b` of the byte at
/// `@ERd`; where the byte cannot be read nothing changes.
pub proof fn law_bist_ern(old: CpuView, new: CpuView, opcode: u16, opcode2: u16, r: Result<u8, EmuError>)
    requires
        bist_ern_post(old, new, opcode, opcode2, r),
    ensures
        match ern_byte(old, nibble(opcode, 3)) {
            Err(e) => new == old && r == Err::<u8, EmuError>(e),
            Ok(value) => value == old.mem[(old.er[nibble(opcode, 3) as int] & 0x00ff_ffff)] && mem_bit_result(
                old,
                new,
                (old.er[nibble(opcode, 3) as int] & 0x00ff_ffff),
                nibble(opcode2, 3) & 7,
                if flag_of(old.ccr, CCR::C.spec_bit()) == 0 { 1u8 } else { 0u8 },
            ) && r == Ok::<u8, EmuError>(8),
        },
{
    lemma_byte_masks(nibble(opcode2, 3));
    lemma_flag_le_1(old.ccr, CCR::C.spec_bit());
    if ern_byte(old, nibble(opcode, 3)) is Ok {
        lemma_mem_bit(
            old,
            new,
            (old.er[nibble(opcode, 3) as int] & 0x00ff_ffff),
            nibble(opcode2, 3) & 7,
            flag_of(old.ccr, CCR::C.spec_bit()) == 0,
        );
    }
}

/// `BIST #b, @aa:8` stores the complement of C into bit `b` of the byte at
/// the 8-bit absolute address; where it cannot be read nothing changes.
pub proof fn law_bist_abs(old: CpuView, new: CpuView, opcode: u16, opcode2: u16, r: Result<u8, EmuError>)
    requires
        bist_abs_post(old, new, opcode, opcode2, r),
    ensures
        match abs8_byte(old, opcode as u8) {
            Err(e) => new == old && r == Err::<u8, EmuError>(e),
            Ok(value) => value == old.mem[((0xffff00 + (opcode as u8)) as u32)] && mem_bit_result(
                old,
                new,
                ((0xffff00 + (opcode as u8)) as u32),
                nibble(opcode2, 3) & 7,
                if flag_of(old.ccr, CCR::C.spec_bit()) == 0 { 1u8 } else { 0u8 },
            ) && r == Ok::<u8, EmuError>(8),
        },
{
    crate::move_laws::lemma_word_bytes(0, opcode as u8, 0, 0);
    lemma_byte_masks(nibble(opcode2, 3));
    lemma_flag_le_1(old.ccr, CCR::C.spec_bit());
    if abs8_byte(old, opcode as u8) is Ok {
        lemma_mem_bit(
            old,
            new,
            ((0xffff00 + (opcode as u8)) as u32),
            nibble(opcode2, 3) & 7,
            flag_of(old.ccr, CCR::C.spec_bit()) == 0,
        );
    }
}

/// `BTST #b, Rd` sets Z exactly where bit `b` of the byte register of
/// nibble 4 is clear, and changes nothing else.
pub proof fn law_btst_imm_rn(old: CpuView, new: CpuView, opcode: u16, r: Result<u8, EmuError>)
    requires
        nibble(opcode, 3) < 8,
        btst_imm_rn_post(old, new, opcode, r),
    ensures
        flag_result(old, new, CCR::Z.spec_bit(), if bit_of(spec_rn_b(old.er, nibble(opcode, 4)), nibble(opcode, 3)) == 0 { 1u8 } else { 0u8 }),
{
    let value = spec_rn_b(old.er, nibble(opcode, 4));
    lemma_flag_le_1(value, nibble(opcode, 3));
    lemma_flag_only(old, new, CCR::Z.spec_bit(), bit_of(value, nibble(opcode, 3)) == 0);
}

/// `BTST Rn, Rd` sets Z exactly where the bit of the byte register of
/// nibble 4 that byte register Rn (nibble 3) numbers is clear.
pub proof fn law_btst_rn_rn(old: CpuView, new: CpuView, opcode: u16, r: Result<u8, EmuError>)
    requires
        spec_rn_b(old.er, nibble(opcode, 3)) < 8,
        btst_rn_rn_post(old, new, opcode, r),
    ensures
        flag_result(
            old,
            new,
            CCR::Z.spec_bit(),
            if bit_of(spec_rn_b(old.er, nibble(opcode, 4)), spec_rn_b(old.er, nibble(opcode, 3))) == 0 { 1u8 } else { 0u8 },
        ),
{
    let value = spec_rn_b(old.er, nibble(opcode, 4));
    let b = spec_rn_b(old.er, nibble(opcode, 3));
    lemma_flag_le_1(value, b);
    lemma_flag_only(old, new, CCR::Z.spec_bit(), bit_of(value, b) == 0);
}

/// `BTST #b, @ERd` sets Z exactly where bit `b` of the byte at `@ERd` is
/// clear; where the byte cannot be read nothing changes.
pub proof fn law_btst_imm_ern(old: CpuView, new: CpuView, opcode1: u16, opcode2: u16, r: Result<u8, EmuError>)
    requires
        nibble(opcode2, 3) < 8,
        btst_imm_ern_post(old, new, opcode1, opcode2, r),
    ensures
        match ern_byte(old, nibble(opcode1, 3)) {
            Err(e) => new == old && r == Err::<u8, EmuError>(e),
            Ok(value) => value == old.mem[(old.er[nibble(opcode1, 3) as int] & 0x00ff_ffff)] && flag_result(
                old,
                new,
                CCR::Z.spec_bit(),
                if bit_of(value, nibble(opcode2, 3)) == 0 { 1u8 } else { 0u8 },
            ),
        },
{
    if let Ok(value) = ern_byte(old, nibble(opcode1, 3)) {
        lemma_flag_le_1(value, nibble(opcode2, 3));
        lemma_flag_only(old, new, CCR::Z.spec_bit(), bit_of(value, nibble(opcode2, 3)) == 0);
    }
}

/// `BAND #b, Rd`: C becomes set exactly where it was set and bit `b` of the
/// byte register of nibble 4 is set; nothing else changes.
pub proof fn law_band_rn(old: CpuView, new: CpuView, opcode: u16, r: Result<u8, EmuError>)
    requires
        band_rn_post(old, new, opcode, r),
    ensures
        flag_result(
            old,
            new,
            CCR::C.spec_bit(),
            if flag_of(old.ccr, CCR::C.spec_bit()) == 1 && bit_of(spec_rn_b(old.er, nibble(opcode, 4)), nibble(opcode, 3) & 7) == 1 {
                1u8
            } else {
                0u8
            },
        ),
        r == Ok::<u8, EmuError>(2),
{
    let value = spec_rn_b(old.er, nibble(opcode, 4));
    let b = nibble(opcode, 3) & 7;
    lemma_flag_le_1(old.ccr, CCR::C.spec_bit());
    lemma_and_or_bit(value, b, flag_of(old.ccr, CCR::C.spec_bit()));
    lemma_flag_only(old, new, CCR::C.spec_bit(), ((value >> b) & flag_of(old.ccr, CCR::C.spec_bit())) == 1);
}

/// `BAND #b, @ERd`: C becomes C AND bit `b` of the byte at `@ERd`; where
/// the byte cannot be read nothing changes.
pub proof fn law_band_ern(old: CpuView, new: CpuView, opcode: u16, opcode2: u16, r: Result<u8, EmuError>)
    requires
        band_ern_post(old, new, opcode, opcode2, r),
    ensures
        match ern_byte(old, nibble(opcode, 3)) {
            Err(e) => new == old && r == Err::<u8, EmuError>(e),
            Ok(value) => value == old.mem[(old.er[nibble(opcode, 3) as int] & 0x00ff_ffff)] && flag_result(
                old,
                new,
                CCR::C.spec_bit(),
                if flag_of(old.ccr, CCR::C.spec_bit()) == 1 && bit_of(value, nibble(opcode2, 3) & 7) == 1 {
                    1u8
                } else {
                    0u8
                },
            ),
        },
{
    if let Ok(value) = ern_byte(old, nibble(opcode, 3)) {
        let b = nibble(opcode2, 3) & 7;
        lemma_flag_le_1(old.ccr, CCR::C.spec_bit());
        lemma_and_or_bit(value, b, flag_of(old.ccr, CCR::C.spec_bit()));
        lemma_flag_only(old, new, CCR::C.spec_bit(), ((value >> b) & flag_of(old.ccr, CCR::C.spec_bit())) == 1);
    }
}

/// `BIOR #b, Rd`: C becomes set exactly where it was set or bit `b` of the
/// byte register of nibble 4 is clear; nothing else changes.
pub proof fn law_bior_rn(old: CpuView, new: CpuView, opcode: u16, r: Result<u8, EmuError>)
    requires
        bior_rn_post(old, new, opcode, r),
    ensures
        flag_result(
            old,
            new,
            CCR::C.spec_bit(),
            if flag_of(old.ccr, CCR::C.spec_bit()) == 1 || bit_of(spec_rn_b(old.er, nibble(opcode, 4)), nibble(opcode, 3) & 7) == 0 {
                1u8
            } else {
                0u8
            },
        ),
{
    let value = spec_rn_b(old.er, nibble(opcode, 4));
    let b = nibble(opcode, 3) & 7;
    lemma_flag_le_1(old.ccr, CCR::C.spec_bit());
    lemma_and_or_bit(value, b, flag_of(old.ccr, CCR::C.spec_bit()));
    lemma_flag_only(
        old,
        new,
        CCR::C.spec_bit(),
        ((!(value >> b) & 1) | flag_of(old.ccr, CCR::C.spec_bit())) == 1,
    );
}

/// `BIOR #b, @aa:8`: C becomes C OR NOT bit `b` of the byte at the 8-bit
/// absolute address; where it cannot be read nothing changes.
pub proof fn law_bior_abs(old: CpuView, new: CpuView, opcode: u16, opcode2: u16, r: Result<u8, EmuError>)
    requires
        bior_abs_post(old, new, opcode, opcode2, r),
    ensures
        match abs8_byte(old, opcode as u8) {
            Err(e) => new == old && r == Err::<u8, EmuError>(e),
            Ok(value) => value == old.mem[((0xffff00 + (opcode as u8)) as u32)] && flag_result(
                old,
                new,
                CCR::C.spec_bit(),
                if flag_of(old.ccr, CCR::C.spec_bit()) == 1 || bit_of(value, nibble(opcode2, 3) & 7) == 0 {
                    1u8
                } else {
                    0u8
                },
            ),
        },
{
    crate::move_laws::lemma_word_bytes(0, opcode as u8, 0, 0);
    if let Ok(value) = abs8_byte(old, opcode as u8) {
        let b = nibble(opcode2, 3) & 7;
        lemma_flag_le_1(old.ccr, CCR::C.spec_bit());
        lemma_and_or_bit(value, b, flag_of(old.ccr, CCR::C.spec_bit()));
        lemma_flag_only(
            old,
            new,
            CCR::C.spec_bit(),
            ((!(value >> b) & 1) | flag_of(old.ccr, CCR::C.spec_bit())) == 1,
        );
    }
}

/// `BTST #b, @aa:8` sets Z exactly where bit `b` of the byte at the 8-bit
/// absolute address is clear; where it cannot be read nothing changes.
pub proof fn law_btst_imm_abs(old: CpuView, new: CpuView, opcode1: u16, opcode2: u16, r: Result<u8, EmuError>)
    requires
        nibble(opcode2, 3) < 8,
        btst_imm_abs_post(old, new, opcode1, opcode2, r),
    ensures
        match abs8_byte(old, opcode1 as u8) {
            Err(e) => new == old && r == Err::<u8, EmuError>(e),
            Ok(value) => value == old.mem[((0xffff00 + (opcode1 as u8)) as u32)] && flag_result(
                old,
                new,
                CCR::Z.spec_bit(),
                if bit_of(value, nibble(opcode2, 3)) == 0 { 1u8 } else { 0u8 },
            ),
        },
{
    crate::move_laws::lemma_word_bytes(0, opcode1 as u8, 0, 0);
    if let Ok(value) = abs8_byte(old, opcode1 as u8) {
        lemma_flag_le_1(value, nibble(opcode2, 3));
        lemma_flag_only(old, new, CCR::Z.spec_bit(), bit_of(value, nibble(opcode2, 3)) == 0);
    }
}

/// `BTST Rn, @ERd` sets Z exactly where the bit of the byte at `@ERd` that
/// byte register Rn (nibble 3 of the second word) numbers is clear.
pub proof fn law_btst_rn_ern(old: CpuView, new: CpuView, opcode1: u16, opcode2: u16, r: Result<u8, EmuError>)
    requires
        spec_rn_b(old.er, nibble(opcode2, 3)) < 8,
        btst_rn_ern_post(old, new, opcode1, opcode2, r),
    ensures
        match ern_byte(old, nibble(opcode1, 3)) {
            Err(e) => new == old && r == Err::<u8, EmuError>(e),
            Ok(value) => value == old.mem[(old.er[nibble(opcode1, 3) as int] & 0x00ff_ffff)] && flag_result(
                old,
                new,
                CCR::Z.spec_bit(),
                if bit_of(value, spec_rn_b(old.er, nibble(opcode2, 3))) == 0 { 1u8 } else { 0u8 },
            ),
        },
{
    let b = spec_rn_b(old.er, nibble(opcode2, 3));
    if let Ok(value) = ern_byte(old, nibble(opcode1, 3)) {
        lemma_flag_le_1(value, b);
        lemma_flag_only(old, new, CCR::Z.spec_bit(), bit_of(value, b) == 0);
    }
}

/// `BTST Rn, @aa:8` sets Z exactly where the bit of the byte at the 8-bit
/// absolute address that byte register Rn numbers is clear.
pub proof fn law_btst_rn_abs(old: CpuView, new: CpuView, opcode1: u16, opcode2: u16, r: Result<u8, EmuError>)
    requires
        spec_rn_b(old.er, nibble(opcode2, 3)) < 8,
        btst_rn_abs_post(old, new, opcode1, opcode2, r),
    ensures
        match abs8_byte(old, opcode1 as u8) {
            Err(e) => new == old && r == Err::<u8, EmuError>(e),
            Ok(value) => value == old.mem[((0xffff00 + (opcode1 as u8)) as u32)] && flag_result(
                old,
                new,
                CCR::Z.spec_bit(),
                if bit_of(value, spec_rn_b(old.er, nibble(opcode2, 3))) == 0 { 1u8 } else { 0u8 },
            ),
        },
{
    crate::move_laws::lemma_word_bytes(0, opcode1 as u8, 0, 0);
    let b = spec_rn_b(old.er, nibble(opcode2, 3));
    if let Ok(value) = abs8_byte(old, opcode1 as u8) {
        lemma_flag_le_1(value, b);
        lemma_flag_only(old, new, CCR::Z.spec_bit(), bit_of(value, b) == 0);
    }
}

/// `BAND #b, @aa:8`: C becomes C AND bit `b` of the byte at the 8-bit
/// absolute address; where it cannot be read nothing changes.
pub proof fn law_band_abs(old: CpuView, new: CpuView, opcode: u16, opcode2: u16, r: Result<u8, EmuError>)
    requires
        band_abs_post(old, new, opcode, opcode2, r),
    ensures
        match abs8_byte(old, opcode as u8) {
            Err(e) => new == old && r == Err::<u8, EmuError>(e),
            Ok(value) => value == old.mem[((0xffff00 + (opcode as u8)) as u32)] && flag_result(
                old,
                new,
                CCR::C.spec_bit(),
                if flag_of(old.ccr, CCR::C.spec_bit()) == 1 && bit_of(value, nibble(opcode2, 3) & 7) == 1 {
                    1u8
                } else {
                    0u8
                },
            ),
        },
{
    crate::move_laws::lemma_word_bytes(0, opcode as u8, 0, 0);
    if let Ok(value) = abs8_byte(old, opcode as u8) {
        let b = nibble(opcode2, 3) & 7;
        lemma_flag_le_1(old.ccr, CCR::C.spec_bit());
        lemma_and_or_bit(value, b, flag_of(old.ccr, CCR::C.spec_bit()));
        lemma_flag_only(old, new, CCR::C.spec_bit(), ((value >> b) & flag_of(old.ccr, CCR::C.spec_bit())) == 1);
    }
}

/// `BIOR #b, @ERd`: C becomes C OR NOT bit `b` of the byte at `@ERd`; where
/// the byte cannot be read nothing changes.
pub proof fn law_bior_ern(old: CpuView, new: CpuView, opcode: u16, opcode2: u16, r: Result<u8, EmuError>)
    requires
        bior_ern_post(old, new, opcode, opcode2, r),
    ensures
        match ern_byte(old, nibble(opcode, 3)) {
            Err(e) => new == old && r == Err::<u8, EmuError>(e),
            Ok(value) => value == old.mem[(old.er[nibble(opcode, 3) as int] & 0x00ff_ffff)] && flag_result(
                old,
                new,
                CCR::C.spec_bit(),
                if flag_of(old.ccr, CCR::C.spec_bit()) == 1 || bit_of(value, nibble(opcode2, 3) & 7) == 0 {
                    1u8
                } else {
                    0u8
                },
            ),
        },
{
    if let Ok(value) = ern_byte(old, nibble(opcode, 3)) {
        let b = nibble(opcode2, 3) & 7;
        lemma_flag_le_1(old.ccr, CCR::C.spec_bit());
        lemma_and_or_bit(value, b, flag_of(old.ccr, CCR::C.spec_bit()));
        lemma_flag_only(
            old,
            new,
            CCR::C.spec_bit(),
            ((!(value >> b) & 1) | flag_of(old.ccr, CCR::C.spec_bit())) == 1,
        );
    }
}

} // verus!
