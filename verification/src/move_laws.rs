//! Where `MOV.B`, `MOV.W` and `MOV.L` read and write memory, addressing
//! mode by addressing mode, where `JMP` goes, what `STC` stores, and what
//! the stack holds across a call, an exception and a return, stated over
//! the bytes of memory and the registers a program sees.

use vstd::prelude::*;

use crate::bus::is_mapped;
use crate::cpu::addressing_mode::abs::{load_l, load_w, store_l, store_w};
use crate::cpu::addressing_mode::rn::{spec_rn_b, spec_rn_w};
use crate::cpu::instruction::mov_b::{mov_b_disp24_post, mov_b_post};
use crate::cpu::instruction::mov_l::{mov_l_post, mov_l_post2};
use crate::cpu::instruction::jmp::jmp_post;
use crate::cpu::addressing_mode::dec_ern::push_l;
use crate::cpu::addressing_mode::inc_ern::pop_l;
use crate::cpu::instruction::bsr::bsr_post;
use crate::cpu::instruction::rts::rts_post;
use crate::cpu::instruction::rte::rte_post;
use crate::cpu::instruction::jsr::jsr_post;
use crate::cpu::interrupt_controller::{exception_entry, try_interrupt_effect};
use crate::cpu::instruction::stc::{stc_b_post, stc_w_ern_post};
use crate::cpu::addressing_mode::rn::lemma_rn_b_write_read;
use crate::cpu::instruction::mov_w::{mov_w_disp24_post, mov_w_post};
use crate::cpu::instruction::{high_byte, lemma_byte_masks, lemma_nibbles_compose, low_byte, nibble};
use crate::cpu::{fetched, fetched_long, fetched_word, flag_of, CpuView, CCR};
use crate::error::EmuError;
use crate::instruction_laws::{byte_result, long_result, word_result};

verus! {

/// The big-endian word in memory at `a`: the byte at `a` is its upper half.
pub open spec fn mem_word(mem: Map<u32, u8>, a: u32) -> int {
    mem[a] * 0x100 + mem[(a + 1) as u32]
}

/// Both bytes of the word at `a` answer on the bus.
pub open spec fn word_mapped(a: u32) -> bool {
    is_mapped(a) && is_mapped((a + 1) as u32)
}

/// After a `MOV.W` that loads into word register `rd` from `a`: `rd` reads
/// the word that memory held at `a`, with the flags of a move, from the
/// state `base` that the instruction's fetches left.
pub open spec fn word_loaded(old: CpuView, base: CpuView, new: CpuView, rd: u8, a: u32) -> bool {
    &&& spec_rn_w(new.er, rd) == mem_word(old.mem, a)
    &&& word_result(base, new, rd, spec_rn_w(new.er, rd))
}

/// After a `MOV.W` that stores `value` at `a`: the upper byte of `value` is
/// at `a`, the lower at `a + 1`, no other byte of memory and no register has
/// changed, N and Z follow `value`, V is clear and C keeps its value.
pub open spec fn word_stored(base: CpuView, new: CpuView, a: u32, value: u16) -> bool {
    &&& new.mem == base.mem.insert(a, (value / 0x100) as u8).insert((a + 1) as u32, (value % 0x100) as u8)
    &&& new.er == base.er
    &&& new.pc == base.pc
    &&& flag_of(new.ccr, CCR::N.spec_bit()) == value / 0x8000
    &&& flag_of(new.ccr, CCR::Z.spec_bit()) == (if value == 0 { 1u8 } else { 0u8 })
    &&& flag_of(new.ccr, CCR::V.spec_bit()) == 0
    &&& flag_of(new.ccr, CCR::C.spec_bit()) == flag_of(base.ccr, CCR::C.spec_bit())
}

/// The bytes of a word, and the 24-bit address that a 16-bit absolute
/// address designates.
pub(crate) proof fn lemma_word_bytes(hi: u8, lo: u8, v: u16, d: u16)
    ensures
        crate::cpu::addressing_mode::abs::be_word(hi, lo) == hi * 0x100 + lo,
        ((v >> 8u16) as u8) == v / 0x100,
        (v as u8) == v % 0x100,
        (d & 0x8000 == 0) == (d < 0x8000),
        d & 0x8000 != 0 ==> (0xff0000u32 | (d as u32)) == d + 0xff0000,
        (0xffff00u32 | (lo as u32)) == 0xffff00 + lo,
{
    assert(((((hi as u16) << 8u16) | (lo as u16)) == hi * 0x100 + lo) && ((v >> 8u16) as u8) == v / 0x100 && (v
        as u8) == v % 0x100 && (d & 0x8000 == 0) == (d < 0x8000) && (d & 0x8000 != 0 ==> (0xff0000u32 | (d
        as u32)) == d + 0xff0000) && (0xffff00u32 | (lo as u32)) == 0xffff00 + lo) by (bit_vector);
}

/// A word read from mapped memory is the big-endian word there.
proof fn lemma_load_word(mem: Map<u32, u8>, a: u32)
    requires
        word_mapped(a),
    ensures
        load_w(mem, a) is Ok,
        load_w(mem, a)->Ok_0 == mem_word(mem, a),
{
    lemma_word_bytes(mem[a], mem[(a + 1) as u32], 0, 0);
}

/// A word stored in mapped memory puts its upper byte first.
proof fn lemma_store_word(mem: Map<u32, u8>, a: u32, v: u16)
    requires
        word_mapped(a),
    ensures
        store_w(mem, a, v).1 is Ok,
        store_w(mem, a, v).0 == mem.insert(a, (v / 0x100) as u8).insert((a + 1) as u32, (v % 0x100) as u8),
{
    lemma_word_bytes(0, 0, v, 0);
}

/// The flags that a stored word leaves.
proof fn lemma_store_flags(base: CpuView, value: u16)
    ensures
        ({
            let c = crate::cpu::instruction::not::logic_ccr(base.ccr, value >= 0x8000, value == 0);
            &&& flag_of(c, CCR::N.spec_bit()) == value / 0x8000
            &&& flag_of(c, CCR::Z.spec_bit()) == (if value == 0 { 1u8 } else { 0u8 })
            &&& flag_of(c, CCR::V.spec_bit()) == 0
            &&& flag_of(c, CCR::C.spec_bit()) == flag_of(base.ccr, CCR::C.spec_bit())
        }),
{
    let c1 = crate::cpu::with_flag(base.ccr, 3, value >= 0x8000);
    let c2 = crate::cpu::with_flag(c1, 2, value == 0);
    crate::cpu::lemma_flag_write_read(c2, 1, false, 1);
    crate::cpu::lemma_flag_write_read(c2, 1, false, 2);
    crate::cpu::lemma_flag_write_read(c2, 1, false, 3);
    crate::cpu::lemma_flag_write_read(c2, 1, false, 0);
    crate::cpu::lemma_flag_write_read(c1, 2, value == 0, 2);
    crate::cpu::lemma_flag_write_read(c1, 2, value == 0, 3);
    crate::cpu::lemma_flag_write_read(c1, 2, value == 0, 0);
    crate::cpu::lemma_flag_write_read(base.ccr, 3, value >= 0x8000, 3);
    crate::cpu::lemma_flag_write_read(base.ccr, 3, value >= 0x8000, 0);
}

/// `MOV.W @ERs, Rd` (first byte 0x69, bit 7 clear) loads the word at the
/// 24-bit address that ERs (nibble 3) holds; `MOV.W Rs, @ERd` (bit 7 set)
/// stores word register Rs (nibble 4) there, ERd being nibble 3 modulo 8.
pub proof fn law_mov_w_ern(old: CpuView, new: CpuView, opcode: u16, r: Result<u8, EmuError>)
    requires
        old.er.len() == 8,
        high_byte(opcode) == 0x69,
        mov_w_post(old, new, opcode, r),
    ensures
        ({
            let n3 = nibble(opcode, 3);
            let n4 = nibble(opcode, 4);
            &&& opcode & 0x80 == 0 && n3 < 8 && word_mapped(old.er[n3 as int] & 0x00ff_ffff) ==> word_loaded(
                old,
                old,
                new,
                n4,
                old.er[n3 as int] & 0x00ff_ffff,
            ) && r == Ok::<u8, EmuError>(4)
            &&& opcode & 0x80 != 0 && word_mapped(old.er[(n3 & 7) as int] & 0x00ff_ffff) ==> word_stored(
                old,
                new,
                old.er[(n3 & 7) as int] & 0x00ff_ffff,
                spec_rn_w(old.er, n4),
            ) && r == Ok::<u8, EmuError>(4)
        }),
{
    lemma_nibbles_compose(opcode);
    lemma_byte_masks(nibble(opcode, 3));
    let n3 = nibble(opcode, 3);
    let n4 = nibble(opcode, 4);
    if opcode & 0x80 == 0 {
        if n3 < 8 && word_mapped(old.er[n3 as int] & 0x00ff_ffff) {
            lemma_load_word(old.mem, old.er[n3 as int] & 0x00ff_ffff);
            crate::instruction_laws::lemma_word_result(old, n4, load_w(old.mem, old.er[n3 as int] & 0x00ff_ffff)->Ok_0);
        }
    } else {
        if word_mapped(old.er[(n3 & 7) as int] & 0x00ff_ffff) {
            lemma_store_word(old.mem, old.er[(n3 & 7) as int] & 0x00ff_ffff, spec_rn_w(old.er, n4));
            lemma_store_flags(old, spec_rn_w(old.er, n4));
        }
    }
}

/// The address that `@(d:16, ERn)` designates where the sum stays within
/// 32 bits: ERn plus the displacement taken as a signed 16-bit number, cut
/// to 24 bits.
pub open spec fn disp16_address(ern: u32, d: u16) -> Option<u32> {
    let s = if d < 0x8000 { ern + d } else { ern + d - 0x1_0000 };
    if 0 <= s <= u32::MAX {
        Some((s as u32) & 0x00ff_ffff)
    } else {
        None
    }
}

/// `MOV.W @(d:16, ERs), Rd` (first byte 0x6f, bit 7 clear) loads the word
/// at ERs (nibble 3) plus the signed displacement in the following word;
/// `MOV.W Rs, @(d:16, ERd)` (bit 7 set) stores word register Rs (nibble 4)
/// there, ERd being nibble 3 modulo 8. The program counter moves past the
/// displacement.
pub proof fn law_mov_w_disp16(old: CpuView, new: CpuView, opcode: u16, r: Result<u8, EmuError>)
    requires
        old.er.len() == 8,
        high_byte(opcode) == 0x6f,
        mov_w_post(old, new, opcode, r),
    ensures
        ({
            let n3 = nibble(opcode, 3);
            let n4 = nibble(opcode, 4);
            let d = fetched_word(old);
            let al = disp16_address(old.er[n3 as int], d);
            let ast = disp16_address(old.er[(n3 & 7) as int], d);
            &&& opcode & 0x80 == 0 && n3 < 8 && al is Some && word_mapped(al->Some_0) ==> word_loaded(
                old,
                fetched(old),
                new,
                n4,
                al->Some_0,
            ) && r == Ok::<u8, EmuError>(6)
            &&& opcode & 0x80 != 0 && ast is Some && word_mapped(ast->Some_0) ==> word_stored(
                fetched(old),
                new,
                ast->Some_0,
                spec_rn_w(old.er, n4),
            ) && r == Ok::<u8, EmuError>(6)
        }),
{
    lemma_nibbles_compose(opcode);
    lemma_byte_masks(nibble(opcode, 3));
    let n3 = nibble(opcode, 3);
    let n4 = nibble(opcode, 4);
    let d = fetched_word(old);
    let v1 = fetched(old);
    let rn = if opcode & 0x80 == 0 { n3 } else { n3 & 7 };
    if rn < 8 {
        if let Some(a) = disp16_address(old.er[rn as int], d) {
            if word_mapped(a) {
                if opcode & 0x80 == 0 {
                    lemma_load_word(old.mem, a);
                    crate::instruction_laws::lemma_word_result(v1, n4, load_w(old.mem, a)->Ok_0);
                } else {
                    lemma_store_word(old.mem, a, spec_rn_w(old.er, n4));
                    lemma_store_flags(v1, spec_rn_w(old.er, n4));
                }
            }
        }
    }
}

/// `MOV.W @aa:16, Rd` (first word 0x6b0_) loads the word at the 16-bit
/// address of the following word, sign-extended to 24 bits (an address from
/// 0x8000 up lies in the top 64 KiB); `MOV.W Rs, @aa:16` (0x6b8_) stores
/// word register Rs (nibble 4) there. `MOV.W @aa:24, Rd` (0x6b2_) and
/// `MOV.W Rs, @aa:24` (0x6ba_) use the long word of the two following words
/// as the address.
pub proof fn law_mov_w_abs(old: CpuView, new: CpuView, opcode: u16, r: Result<u8, EmuError>)
    requires
        old.er.len() == 8,
        high_byte(opcode) == 0x6b,
        mov_w_post(old, new, opcode, r),
    ensures
        ({
            let n4 = nibble(opcode, 4);
            let d = fetched_word(old);
            let a16: u32 = if d < 0x8000 { d as u32 } else { (d + 0xff0000) as u32 };
            let a24 = fetched_long(old);
            &&& opcode & 0xfff0 == 0x6b00 && word_mapped(a16) ==> word_loaded(old, fetched(old), new, n4, a16) && r
                == Ok::<u8, EmuError>(6)
            &&& opcode & 0xfff0 == 0x6b80 && word_mapped(a16) ==> word_stored(fetched(old), new, a16, spec_rn_w(old.er, n4))
                && r == Ok::<u8, EmuError>(6)
            &&& opcode & 0xfff0 == 0x6b20 && word_mapped(a24) ==> word_loaded(old, fetched(fetched(old)), new, n4, a24)
                && r == Ok::<u8, EmuError>(8)
            &&& opcode & 0xfff0 == 0x6ba0 && word_mapped(a24) ==> word_stored(
                fetched(fetched(old)),
                new,
                a24,
                spec_rn_w(old.er, n4),
            ) && r == Ok::<u8, EmuError>(8)
        }),
{
    lemma_nibbles_compose(opcode);
    let n4 = nibble(opcode, 4);
    let d = fetched_word(old);
    let a16: u32 = if d < 0x8000 { d as u32 } else { (d + 0xff0000) as u32 };
    let a24 = fetched_long(old);
    lemma_word_bytes(0, 0, 0, d);
    let sub = opcode & 0xfff0;
    if (sub == 0x6b00 || sub == 0x6b80) && word_mapped(a16) {
        if sub == 0x6b00 {
            lemma_load_word(old.mem, a16);
            crate::instruction_laws::lemma_word_result(fetched(old), n4, load_w(old.mem, a16)->Ok_0);
        } else {
            lemma_store_word(old.mem, a16, spec_rn_w(old.er, n4));
            lemma_store_flags(fetched(old), spec_rn_w(old.er, n4));
        }
    }
    if (sub == 0x6b20 || sub == 0x6ba0) && word_mapped(a24) {
        if sub == 0x6b20 {
            lemma_load_word(old.mem, a24);
            crate::instruction_laws::lemma_word_result(fetched(fetched(old)), n4, load_w(old.mem, a24)->Ok_0);
        } else {
            lemma_store_word(old.mem, a24, spec_rn_w(old.er, n4));
            lemma_store_flags(fetched(fetched(old)), spec_rn_w(old.er, n4));
        }
    }
}

/// `MOV.W @ERs+, Rd` (first byte 0x6d, bit 7 clear) loads the word at the
/// address that ERs held and leaves ERs two higher (Rd written last);
/// `MOV.W Rs, @-ERd` (bit 7 set) first lowers ERd by two and stores word
/// register Rs, as read before, at the address it then holds.
pub proof fn law_mov_w_inc_dec(old: CpuView, new: CpuView, opcode: u16, r: Result<u8, EmuError>)
    requires
        old.er.len() == 8,
        high_byte(opcode) == 0x6d,
        mov_w_post(old, new, opcode, r),
    ensures
        ({
            let n3 = nibble(opcode, 3);
            let n4 = nibble(opcode, 4);
            &&& opcode & 0x80 == 0 && n3 < 8 && old.er[n3 as int] + 2 <= u32::MAX && word_mapped(
                old.er[n3 as int] & 0x00ff_ffff,
            ) ==> word_loaded(
                old,
                CpuView { er: old.er.update(n3 as int, (old.er[n3 as int] + 2) as u32), ..old },
                new,
                n4,
                old.er[n3 as int] & 0x00ff_ffff,
            ) && r == Ok::<u8, EmuError>(6)
            &&& opcode & 0x80 != 0 && old.er[(n3 & 7) as int] >= 2 && word_mapped(
                ((old.er[(n3 & 7) as int] - 2) as u32) & 0x00ff_ffff,
            ) ==> word_stored(
                CpuView { er: old.er.update((n3 & 7) as int, (old.er[(n3 & 7) as int] - 2) as u32), ..old },
                new,
                ((old.er[(n3 & 7) as int] - 2) as u32) & 0x00ff_ffff,
                spec_rn_w(old.er, n4),
            ) && r == Ok::<u8, EmuError>(6)
        }),
{
    lemma_nibbles_compose(opcode);
    lemma_byte_masks(nibble(opcode, 3));
    let n3 = nibble(opcode, 3);
    let n4 = nibble(opcode, 4);
    if opcode & 0x80 == 0 {
        if n3 < 8 && old.er[n3 as int] + 2 <= u32::MAX && word_mapped(old.er[n3 as int] & 0x00ff_ffff) {
            let a = old.er[n3 as int] & 0x00ff_ffff;
            let base = CpuView { er: old.er.update(n3 as int, (old.er[n3 as int] + 2) as u32), ..old };
            lemma_load_word(old.mem, a);
            crate::instruction_laws::lemma_word_result(base, n4, load_w(old.mem, a)->Ok_0);
        }
    } else {
        let ern = n3 & 7;
        if old.er[ern as int] >= 2 && word_mapped(((old.er[ern as int] - 2) as u32) & 0x00ff_ffff) {
            let a = ((old.er[ern as int] - 2) as u32) & 0x00ff_ffff;
            let base = CpuView { er: old.er.update(ern as int, (old.er[ern as int] - 2) as u32), ..old };
            lemma_store_word(old.mem, a, spec_rn_w(old.er, n4));
            lemma_store_flags(base, spec_rn_w(old.er, n4));
        }
    }
}

/// After a `MOV.B` that loads into byte register `rd` from `a`: `rd` reads
/// the byte that memory held at `a`, with the flags of a move, from the
/// state `base` that the instruction's fetches left.
pub open spec fn byte_loaded(old: CpuView, base: CpuView, new: CpuView, rd: u8, a: u32) -> bool {
    &&& spec_rn_b(new.er, rd) == old.mem[a]
    &&& byte_result(base, new, rd, spec_rn_b(new.er, rd))
}

/// After a `MOV.B` that stores `value` at `a`: `value` is at `a`, no other
/// byte of memory and no register has changed, N and Z follow `value`, V is
/// clear and C keeps its value.
pub open spec fn byte_stored(base: CpuView, new: CpuView, a: u32, value: u8) -> bool {
    &&& new.mem == base.mem.insert(a, value)
    &&& new.er == base.er
    &&& new.pc == base.pc
    &&& flag_of(new.ccr, CCR::N.spec_bit()) == value / 0x80
    &&& flag_of(new.ccr, CCR::Z.spec_bit()) == (if value == 0 { 1u8 } else { 0u8 })
    &&& flag_of(new.ccr, CCR::V.spec_bit()) == 0
    &&& flag_of(new.ccr, CCR::C.spec_bit()) == flag_of(base.ccr, CCR::C.spec_bit())
}

/// The flags that a stored byte leaves.
proof fn lemma_store_b_flags(base: CpuView, value: u8)
    ensures
        ({
            let c = crate::cpu::instruction::not::logic_ccr(base.ccr, value >= 0x80, value == 0);
            &&& flag_of(c, CCR::N.spec_bit()) == value / 0x80
            &&& flag_of(c, CCR::Z.spec_bit()) == (if value == 0 { 1u8 } else { 0u8 })
            &&& flag_of(c, CCR::V.spec_bit()) == 0
            &&& flag_of(c, CCR::C.spec_bit()) == flag_of(base.ccr, CCR::C.spec_bit())
        }),
{
    let c1 = crate::cpu::with_flag(base.ccr, 3, value >= 0x80);
    let c2 = crate::cpu::with_flag(c1, 2, value == 0);
    crate::cpu::lemma_flag_write_read(c2, 1, false, 1);
    crate::cpu::lemma_flag_write_read(c2, 1, false, 2);
    crate::cpu::lemma_flag_write_read(c2, 1, false, 3);
    crate::cpu::lemma_flag_write_read(c2, 1, false, 0);
    crate::cpu::lemma_flag_write_read(c1, 2, value == 0, 2);
    crate::cpu::lemma_flag_write_read(c1, 2, value == 0, 3);
    crate::cpu::lemma_flag_write_read(c1, 2, value == 0, 0);
    crate::cpu::lemma_flag_write_read(base.ccr, 3, value >= 0x80, 3);
    crate::cpu::lemma_flag_write_read(base.ccr, 3, value >= 0x80, 0);
}

/// `MOV.B @ERs, Rd` (first byte 0x68, bit 7 clear) loads the byte at the
/// 24-bit address that ERs (nibble 3) holds; `MOV.B Rs, @ERd` (bit 7 set)
/// stores byte register Rs (nibble 4) there, ERd being nibble 3 modulo 8.
pub proof fn law_mov_b_ern(old: CpuView, new: CpuView, opcode: u16, r: Result<u8, EmuError>)
    requires
        old.er.len() == 8,
        high_byte(opcode) == 0x68,
        mov_b_post(old, new, opcode, r),
    ensures
        ({
            let n3 = nibble(opcode, 3);
            let n4 = nibble(opcode, 4);
            &&& opcode & 0x80 == 0 && n3 < 8 && is_mapped(old.er[n3 as int] & 0x00ff_ffff) ==> byte_loaded(
                old,
                old,
                new,
                n4,
                old.er[n3 as int] & 0x00ff_ffff,
            )
            &&& opcode & 0x80 != 0 && is_mapped(old.er[(n3 & 7) as int] & 0x00ff_ffff) ==> byte_stored(
                old,
                new,
                old.er[(n3 & 7) as int] & 0x00ff_ffff,
                spec_rn_b(old.er, n4),
            )
        }),
{
    lemma_nibbles_compose(opcode);
    lemma_byte_masks(nibble(opcode, 3));
    let n3 = nibble(opcode, 3);
    let n4 = nibble(opcode, 4);
    if opcode & 0x80 == 0 {
        if n3 < 8 && is_mapped(old.er[n3 as int] & 0x00ff_ffff) {
            crate::instruction_laws::lemma_byte_result(old, n4, old.mem[old.er[n3 as int] & 0x00ff_ffff]);
        }
    } else {
        lemma_store_b_flags(old, spec_rn_b(old.er, n4));
    }
}

/// `MOV.B @(d:16, ERs), Rd` (first byte 0x6e, bit 7 clear) loads the byte
/// at ERs (nibble 3) plus the signed displacement in the following word;
/// `MOV.B Rs, @(d:16, ERd)` (bit 7 set) stores byte register Rs (nibble 4)
/// there, ERd being nibble 3 modulo 8.
pub proof fn law_mov_b_disp16(old: CpuView, new: CpuView, opcode: u16, r: Result<u8, EmuError>)
    requires
        old.er.len() == 8,
        high_byte(opcode) == 0x6e,
        mov_b_post(old, new, opcode, r),
    ensures
        ({
            let n3 = nibble(opcode, 3);
            let n4 = nibble(opcode, 4);
            let d = fetched_word(old);
            let al = disp16_address(old.er[n3 as int], d);
            let ast = disp16_address(old.er[(n3 & 7) as int], d);
            &&& opcode & 0x80 == 0 && n3 < 8 && al is Some && is_mapped(al->Some_0) ==> byte_loaded(
                old,
                fetched(old),
                new,
                n4,
                al->Some_0,
            )
            &&& opcode & 0x80 != 0 && ast is Some && is_mapped(ast->Some_0) ==> byte_stored(
                fetched(old),
                new,
                ast->Some_0,
                spec_rn_b(old.er, n4),
            )
        }),
{
    lemma_nibbles_compose(opcode);
    lemma_byte_masks(nibble(opcode, 3));
    let n3 = nibble(opcode, 3);
    let n4 = nibble(opcode, 4);
    let d = fetched_word(old);
    let v1 = fetched(old);
    let rn = if opcode & 0x80 == 0 { n3 } else { n3 & 7 };
    if rn < 8 {
        if let Some(a) = disp16_address(old.er[rn as int], d) {
            if opcode & 0x80 == 0 {
                crate::instruction_laws::lemma_byte_result(v1, n4, old.mem[a]);
            } else {
                lemma_store_b_flags(v1, spec_rn_b(old.er, n4));
            }
        }
    }
}

/// `MOV.B @aa:8, Rd` (first byte 0x2_) loads the byte at the 8-bit address
/// of the low byte of the opcode, which lies in the top 256 bytes
/// (0xffff00 on); `MOV.B Rs, @aa:8` (0x3_) stores byte register Rs
/// (nibble 2) there.
pub proof fn law_mov_b_abs8(old: CpuView, new: CpuView, opcode: u16, r: Result<u8, EmuError>)
    requires
        old.er.len() == 8,
        0x20 <= high_byte(opcode) <= 0x3f,
        mov_b_post(old, new, opcode, r),
    ensures
        ({
            let n2 = nibble(opcode, 2);
            let a: u32 = (0xffff00 + low_byte(opcode)) as u32;
            &&& high_byte(opcode) < 0x30 && is_mapped(a) ==> byte_loaded(old, old, new, n2, a)
            &&& high_byte(opcode) >= 0x30 && is_mapped(a) ==> byte_stored(old, new, a, spec_rn_b(old.er, n2))
        }),
{
    lemma_nibbles_compose(opcode);
    let n2 = nibble(opcode, 2);
    lemma_word_bytes(0, low_byte(opcode), 0, 0);
    let a: u32 = (0xffff00 + low_byte(opcode)) as u32;
    if high_byte(opcode) < 0x30 {
        crate::instruction_laws::lemma_byte_result(old, n2, old.mem[a]);
    } else {
        lemma_store_b_flags(old, spec_rn_b(old.er, n2));
    }
}

/// `MOV.B @aa:16, Rd` (first word 0x6a0_) loads the byte at the 16-bit
/// address of the following word, sign-extended to 24 bits; `MOV.B Rs,
/// @aa:16` (0x6a8_) stores byte register Rs (nibble 4) there. `MOV.B
/// @aa:24, Rd` (0x6a2_) and `MOV.B Rs, @aa:24` (0x6aa_) use the long word of
/// the two following words as the address.
pub proof fn law_mov_b_abs(old: CpuView, new: CpuView, opcode: u16, r: Result<u8, EmuError>)
    requires
        old.er.len() == 8,
        high_byte(opcode) == 0x6a,
        mov_b_post(old, new, opcode, r),
    ensures
        ({
            let n4 = nibble(opcode, 4);
            let d = fetched_word(old);
            let a16: u32 = if d < 0x8000 { d as u32 } else { (d + 0xff0000) as u32 };
            let a24 = fetched_long(old);
            &&& opcode & 0xfff0 == 0x6a00 && is_mapped(a16) ==> byte_loaded(old, fetched(old), new, n4, a16)
            &&& opcode & 0xfff0 == 0x6a80 && is_mapped(a16) ==> byte_stored(fetched(old), new, a16, spec_rn_b(old.er, n4))
            &&& opcode & 0xfff0 == 0x6a20 && is_mapped(a24) ==> byte_loaded(old, fetched(fetched(old)), new, n4, a24)
            &&& opcode & 0xfff0 == 0x6aa0 && is_mapped(a24) ==> byte_stored(
                fetched(fetched(old)),
                new,
                a24,
                spec_rn_b(old.er, n4),
            )
        }),
{
    lemma_nibbles_compose(opcode);
    let n4 = nibble(opcode, 4);
    let d = fetched_word(old);
    let a16: u32 = if d < 0x8000 { d as u32 } else { (d + 0xff0000) as u32 };
    let a24 = fetched_long(old);
    lemma_word_bytes(0, 0, 0, d);
    let sub = opcode & 0xfff0;
    if sub == 0x6a00 {
        crate::instruction_laws::lemma_byte_result(fetched(old), n4, old.mem[a16]);
    } else if sub == 0x6a80 {
        lemma_store_b_flags(fetched(old), spec_rn_b(old.er, n4));
    } else if sub == 0x6a20 {
        crate::instruction_laws::lemma_byte_result(fetched(fetched(old)), n4, old.mem[a24]);
    } else if sub == 0x6aa0 {
        lemma_store_b_flags(fetched(fetched(old)), spec_rn_b(old.er, n4));
    }
}

/// `MOV.B @ERs+, Rd` (first byte 0x6c, bit 7 clear) loads the byte at the
/// address that ERs held and leaves ERs one higher (Rd written last);
/// `MOV.B Rs, @-ERd` (bit 7 set) first lowers ERd by one and stores byte
/// register Rs, as read before, at the address it then holds.
pub proof fn law_mov_b_inc_dec(old: CpuView, new: CpuView, opcode: u16, r: Result<u8, EmuError>)
    requires
        old.er.len() == 8,
        high_byte(opcode) == 0x6c,
        mov_b_post(old, new, opcode, r),
    ensures
        ({
            let n3 = nibble(opcode, 3);
            let n4 = nibble(opcode, 4);
            &&& opcode & 0x80 == 0 && n3 < 8 && old.er[n3 as int] + 1 <= u32::MAX && is_mapped(
                old.er[n3 as int] & 0x00ff_ffff,
            ) ==> byte_loaded(
                old,
                CpuView { er: old.er.update(n3 as int, (old.er[n3 as int] + 1) as u32), ..old },
                new,
                n4,
                old.er[n3 as int] & 0x00ff_ffff,
            )
            &&& opcode & 0x80 != 0 && old.er[(n3 & 7) as int] >= 1 && is_mapped(
                ((old.er[(n3 & 7) as int] - 1) as u32) & 0x00ff_ffff,
            ) ==> byte_stored(
                CpuView { er: old.er.update((n3 & 7) as int, (old.er[(n3 & 7) as int] - 1) as u32), ..old },
                new,
                ((old.er[(n3 & 7) as int] - 1) as u32) & 0x00ff_ffff,
                spec_rn_b(old.er, n4),
            )
        }),
{
    lemma_nibbles_compose(opcode);
    lemma_byte_masks(nibble(opcode, 3));
    let n3 = nibble(opcode, 3);
    let n4 = nibble(opcode, 4);
    if opcode & 0x80 == 0 {
        if n3 < 8 && old.er[n3 as int] + 1 <= u32::MAX {
            let a = old.er[n3 as int] & 0x00ff_ffff;
            let base = CpuView { er: old.er.update(n3 as int, (old.er[n3 as int] + 1) as u32), ..old };
            crate::instruction_laws::lemma_byte_result(base, n4, old.mem[a]);
        }
    } else {
        let ern = n3 & 7;
        if old.er[ern as int] >= 1 {
            let base = CpuView { er: old.er.update(ern as int, (old.er[ern as int] - 1) as u32), ..old };
            lemma_store_b_flags(base, spec_rn_b(old.er, n4));
        }
    }
}

/// The big-endian long word in memory at `a`: the word at `a` is its upper
/// half.
pub open spec fn mem_long(mem: Map<u32, u8>, a: u32) -> int {
    mem_word(mem, a) * 0x1_0000 + mem_word(mem, (a + 2) as u32)
}

/// All four bytes of the long word at `a` answer on the bus.
pub open spec fn long_mapped(a: u32) -> bool {
    word_mapped(a) && word_mapped((a + 2) as u32)
}

/// After a `MOV.L` that loads into ERd (`rd`) from `a`: ERd holds the long
/// word that memory held at `a`, with the flags of a move, from the state
/// `base` that the instruction's fetches left.
pub open spec fn long_loaded(old: CpuView, base: CpuView, new: CpuView, rd: u8, a: u32) -> bool {
    &&& new.er[rd as int] == mem_long(old.mem, a)
    &&& long_result(base, new, rd, new.er[rd as int])
}

/// After a `MOV.L` that stores `value` at `a`: the bytes of `value` lie at
/// `a` to `a + 3`, most significant first, no other byte of memory and no
/// register has changed, N and Z follow `value`, V is clear and C keeps its
/// value.
pub open spec fn long_stored(base: CpuView, new: CpuView, a: u32, value: u32) -> bool {
    let hi = value / 0x1_0000;
    let lo = value % 0x1_0000;
    &&& new.mem == base.mem.insert(a, (hi / 0x100) as u8).insert((a + 1) as u32, (hi % 0x100) as u8).insert(
        (a + 2) as u32,
        (lo / 0x100) as u8,
    ).insert((a + 3) as u32, (lo % 0x100) as u8)
    &&& new.er == base.er
    &&& new.pc == base.pc
    &&& flag_of(new.ccr, CCR::N.spec_bit()) == value / 0x8000_0000
    &&& flag_of(new.ccr, CCR::Z.spec_bit()) == (if value == 0 { 1u8 } else { 0u8 })
    &&& flag_of(new.ccr, CCR::V.spec_bit()) == 0
    &&& flag_of(new.ccr, CCR::C.spec_bit()) == flag_of(base.ccr, CCR::C.spec_bit())
}

/// The words of a long word.
proof fn lemma_long_words(hi: u16, lo: u16, v: u32)
    ensures
        crate::cpu::addressing_mode::abs::be_long(hi, lo) == hi * 0x1_0000 + lo,
        ((v >> 16u32) as u16) == v / 0x1_0000,
        (v as u16) == v % 0x1_0000,
{
    assert(((((hi as u32) << 16u32) | (lo as u32)) == hi * 0x1_0000 + lo) && ((v >> 16u32) as u16) == v
        / 0x1_0000 && (v as u16) == v % 0x1_0000) by (bit_vector);
}

/// A long word read from mapped memory is the big-endian long word there.
proof fn lemma_load_long(mem: Map<u32, u8>, a: u32)
    requires
        long_mapped(a),
    ensures
        load_l(mem, a) is Ok,
        load_l(mem, a)->Ok_0 == mem_long(mem, a),
{
    lemma_load_word(mem, a);
    lemma_load_word(mem, (a + 2) as u32);
    lemma_long_words(load_w(mem, a)->Ok_0, load_w(mem, (a + 2) as u32)->Ok_0, 0);
}

/// A long word stored in mapped memory puts its bytes most significant
/// first.
proof fn lemma_store_long(mem: Map<u32, u8>, a: u32, v: u32)
    requires
        long_mapped(a),
    ensures
        store_l(mem, a, v).1 is Ok,
        ({
            let hi = v / 0x1_0000;
            let lo = v % 0x1_0000;
            store_l(mem, a, v).0 == mem.insert(a, (hi / 0x100) as u8).insert((a + 1) as u32, (hi % 0x100) as u8).insert(
                (a + 2) as u32,
                (lo / 0x100) as u8,
            ).insert((a + 3) as u32, (lo % 0x100) as u8)
        }),
{
    lemma_long_words(0, 0, v);
    let hw = (v >> 16u32) as u16;
    let lw = v as u16;
    lemma_store_word(mem, a, hw);
    lemma_store_word(store_w(mem, a, hw).0, (a + 2) as u32, lw);
    assert((((a + 2) as u32) + 1) as u32 == (a + 3) as u32);
}

/// The flags that a stored long word leaves.
proof fn lemma_store_l_flags(base: CpuView, value: u32)
    ensures
        ({
            let c = crate::cpu::instruction::not::logic_ccr(base.ccr, value >= 0x8000_0000, value == 0);
            &&& flag_of(c, CCR::N.spec_bit()) == value / 0x8000_0000
            &&& flag_of(c, CCR::Z.spec_bit()) == (if value == 0 { 1u8 } else { 0u8 })
            &&& flag_of(c, CCR::V.spec_bit()) == 0
            &&& flag_of(c, CCR::C.spec_bit()) == flag_of(base.ccr, CCR::C.spec_bit())
        }),
{
    let c1 = crate::cpu::with_flag(base.ccr, 3, value >= 0x8000_0000);
    let c2 = crate::cpu::with_flag(c1, 2, value == 0);
    crate::cpu::lemma_flag_write_read(c2, 1, false, 1);
    crate::cpu::lemma_flag_write_read(c2, 1, false, 2);
    crate::cpu::lemma_flag_write_read(c2, 1, false, 3);
    crate::cpu::lemma_flag_write_read(c2, 1, false, 0);
    crate::cpu::lemma_flag_write_read(c1, 2, value == 0, 2);
    crate::cpu::lemma_flag_write_read(c1, 2, value == 0, 3);
    crate::cpu::lemma_flag_write_read(c1, 2, value == 0, 0);
    crate::cpu::lemma_flag_write_read(base.ccr, 3, value >= 0x8000_0000, 3);
    crate::cpu::lemma_flag_write_read(base.ccr, 3, value >= 0x8000_0000, 0);
}

/// `MOV.L @ERs, ERd` (second word 0x69_, bit 7 clear; `v1` the state after
/// it was fetched) loads the long word at the 24-bit address that ERs
/// (nibble 3) holds into ERd (nibble 4); `MOV.L ERs, @ERd` (bit 7 set)
/// stores ERs (nibble 4) at the address in ERd (nibble 3 modulo 8).
pub proof fn law_mov_l_ern(v1: CpuView, new: CpuView, opcode2: u16, r: Result<u8, EmuError>)
    requires
        v1.er.len() == 8,
        high_byte(opcode2) == 0x69,
        mov_l_post2(v1, new, opcode2, r),
    ensures
        ({
            let n3 = nibble(opcode2, 3);
            let n4 = nibble(opcode2, 4);
            &&& opcode2 & 0x80 == 0 && n3 < 8 && n4 < 8 && long_mapped(v1.er[n3 as int] & 0x00ff_ffff) ==> long_loaded(
                v1,
                v1,
                new,
                n4,
                v1.er[n3 as int] & 0x00ff_ffff,
            ) && r == Ok::<u8, EmuError>(8)
            &&& opcode2 & 0x80 != 0 && n4 < 8 && long_mapped(v1.er[(n3 & 7) as int] & 0x00ff_ffff) ==> long_stored(
                v1,
                new,
                v1.er[(n3 & 7) as int] & 0x00ff_ffff,
                v1.er[n4 as int],
            ) && r == Ok::<u8, EmuError>(8)
        }),
{
    lemma_nibbles_compose(opcode2);
    lemma_byte_masks(nibble(opcode2, 3));
    let n3 = nibble(opcode2, 3);
    let n4 = nibble(opcode2, 4);
    if opcode2 & 0x80 == 0 {
        if n3 < 8 && n4 < 8 && long_mapped(v1.er[n3 as int] & 0x00ff_ffff) {
            lemma_load_long(v1.mem, v1.er[n3 as int] & 0x00ff_ffff);
            crate::instruction_laws::lemma_long_result(v1, n4, load_l(v1.mem, v1.er[n3 as int] & 0x00ff_ffff)->Ok_0);
        }
    } else if n4 < 8 && long_mapped(v1.er[(n3 & 7) as int] & 0x00ff_ffff) {
        lemma_store_long(v1.mem, v1.er[(n3 & 7) as int] & 0x00ff_ffff, v1.er[n4 as int]);
        lemma_store_l_flags(v1, v1.er[n4 as int]);
    }
}

/// `MOV.L @(d:16, ERs), ERd` (second word 0x6f_, bit 7 clear) loads the
/// long word at ERs (nibble 3) plus the signed displacement of the word that
/// follows; `MOV.L ERs, @(d:16, ERd)` (bit 7 set) stores ERs (nibble 4)
/// there, ERd being nibble 3 modulo 8.
pub proof fn law_mov_l_disp16(v1: CpuView, new: CpuView, opcode2: u16, r: Result<u8, EmuError>)
    requires
        v1.er.len() == 8,
        high_byte(opcode2) == 0x6f,
        mov_l_post2(v1, new, opcode2, r),
    ensures
        ({
            let n3 = nibble(opcode2, 3);
            let n4 = nibble(opcode2, 4);
            let d = fetched_word(v1);
            let al = disp16_address(v1.er[n3 as int], d);
            let ast = disp16_address(v1.er[(n3 & 7) as int], d);
            &&& opcode2 & 0x80 == 0 && n3 < 8 && n4 < 8 && al is Some && long_mapped(al->Some_0) ==> long_loaded(
                v1,
                fetched(v1),
                new,
                n4,
                al->Some_0,
            ) && r == Ok::<u8, EmuError>(10)
            &&& opcode2 & 0x80 != 0 && n4 < 8 && ast is Some && long_mapped(ast->Some_0) ==> long_stored(
                fetched(v1),
                new,
                ast->Some_0,
                v1.er[n4 as int],
            ) && r == Ok::<u8, EmuError>(10)
        }),
{
    lemma_nibbles_compose(opcode2);
    lemma_byte_masks(nibble(opcode2, 3));
    let n3 = nibble(opcode2, 3);
    let n4 = nibble(opcode2, 4);
    let d = fetched_word(v1);
    let v2 = fetched(v1);
    let rn = if opcode2 & 0x80 == 0 { n3 } else { n3 & 7 };
    if rn < 8 && n4 < 8 {
        if let Some(a) = disp16_address(v1.er[rn as int], d) {
            if long_mapped(a) {
                if opcode2 & 0x80 == 0 {
                    lemma_load_long(v1.mem, a);
                    crate::instruction_laws::lemma_long_result(v2, n4, load_l(v1.mem, a)->Ok_0);
                } else {
                    lemma_store_long(v1.mem, a, v1.er[n4 as int]);
                    lemma_store_l_flags(v2, v1.er[n4 as int]);
                }
            }
        }
    }
}

/// `MOV.L @aa:16, ERd` (second word 0x6b0_) loads the long word at the
/// 16-bit address of the word that follows, sign-extended to 24 bits;
/// `MOV.L ERs, @aa:16` (0x6b8_) stores ERs (nibble 4) there. The 0x6b2_ and
/// 0x6ba_ forms use the long word of the two words that follow.
pub proof fn law_mov_l_abs(v1: CpuView, new: CpuView, opcode2: u16, r: Result<u8, EmuError>)
    requires
        v1.er.len() == 8,
        high_byte(opcode2) == 0x6b,
        mov_l_post2(v1, new, opcode2, r),
    ensures
        ({
            let n4 = nibble(opcode2, 4);
            let d = fetched_word(v1);
            let a16: u32 = if d < 0x8000 { d as u32 } else { (d + 0xff0000) as u32 };
            let a24 = fetched_long(v1);
            &&& opcode2 & 0xfff0 == 0x6b00 && n4 < 8 && long_mapped(a16) ==> long_loaded(v1, fetched(v1), new, n4, a16)
                && r == Ok::<u8, EmuError>(10)
            &&& opcode2 & 0xfff0 == 0x6b80 && n4 < 8 && long_mapped(a16) ==> long_stored(
                fetched(v1),
                new,
                a16,
                v1.er[n4 as int],
            ) && r == Ok::<u8, EmuError>(10)
            &&& opcode2 & 0xfff0 == 0x6b20 && n4 < 8 && long_mapped(a24) ==> long_loaded(
                v1,
                fetched(fetched(v1)),
                new,
                n4,
                a24,
            ) && r == Ok::<u8, EmuError>(12)
            &&& opcode2 & 0xfff0 == 0x6ba0 && n4 < 8 && long_mapped(a24) ==> long_stored(
                fetched(fetched(v1)),
                new,
                a24,
                v1.er[n4 as int],
            ) && r == Ok::<u8, EmuError>(12)
        }),
{
    lemma_nibbles_compose(opcode2);
    let n4 = nibble(opcode2, 4);
    let d = fetched_word(v1);
    let a16: u32 = if d < 0x8000 { d as u32 } else { (d + 0xff0000) as u32 };
    let a24 = fetched_long(v1);
    lemma_word_bytes(0, 0, 0, d);
    let sub = opcode2 & 0xfff0;
    if n4 < 8 {
        if sub == 0x6b00 && long_mapped(a16) {
            lemma_load_long(v1.mem, a16);
            crate::instruction_laws::lemma_long_result(fetched(v1), n4, load_l(v1.mem, a16)->Ok_0);
        } else if sub == 0x6b80 && long_mapped(a16) {
            lemma_store_long(v1.mem, a16, v1.er[n4 as int]);
            lemma_store_l_flags(fetched(v1), v1.er[n4 as int]);
        } else if sub == 0x6b20 && long_mapped(a24) {
            lemma_load_long(v1.mem, a24);
            crate::instruction_laws::lemma_long_result(fetched(fetched(v1)), n4, load_l(v1.mem, a24)->Ok_0);
        } else if sub == 0x6ba0 && long_mapped(a24) {
            lemma_store_long(v1.mem, a24, v1.er[n4 as int]);
            lemma_store_l_flags(fetched(fetched(v1)), v1.er[n4 as int]);
        }
    }
}

/// `MOV.L @ERs+, ERd` (second word 0x6d_, bit 7 clear) loads the long word
/// at the address that ERs held and leaves ERs four higher (ERd written
/// last). The form with bit 7 set stores ERs (nibble 4) at the address that
/// ERd (nibble 3 modulo 8) holds and then raises ERd by four.
pub proof fn law_mov_l_inc(v1: CpuView, new: CpuView, opcode2: u16, r: Result<u8, EmuError>)
    requires
        v1.er.len() == 8,
        high_byte(opcode2) == 0x6d,
        mov_l_post2(v1, new, opcode2, r),
    ensures
        ({
            let n3 = nibble(opcode2, 3);
            let n4 = nibble(opcode2, 4);
            &&& opcode2 & 0x80 == 0 && n3 < 8 && n4 < 8 && v1.er[n3 as int] + 4 <= u32::MAX && long_mapped(
                v1.er[n3 as int] & 0x00ff_ffff,
            ) ==> long_loaded(
                v1,
                CpuView { er: v1.er.update(n3 as int, (v1.er[n3 as int] + 4) as u32), ..v1 },
                new,
                n4,
                v1.er[n3 as int] & 0x00ff_ffff,
            ) && r == Ok::<u8, EmuError>(10)
            &&& opcode2 & 0x80 != 0 && n4 < 8 && long_mapped(v1.er[(n3 & 7) as int] & 0x00ff_ffff) ==> long_stored(
                CpuView { er: v1.er.update((n3 & 7) as int, (v1.er[(n3 & 7) as int] + 4) as u32), ..v1 },
                new,
                v1.er[(n3 & 7) as int] & 0x00ff_ffff,
                v1.er[n4 as int],
            ) && r == Ok::<u8, EmuError>(10)
        }),
{
    lemma_nibbles_compose(opcode2);
    lemma_byte_masks(nibble(opcode2, 3));
    let n3 = nibble(opcode2, 3);
    let n4 = nibble(opcode2, 4);
    if opcode2 & 0x80 == 0 {
        if n3 < 8 && n4 < 8 && v1.er[n3 as int] + 4 <= u32::MAX && long_mapped(v1.er[n3 as int] & 0x00ff_ffff) {
            let a = v1.er[n3 as int] & 0x00ff_ffff;
            let base = CpuView { er: v1.er.update(n3 as int, (v1.er[n3 as int] + 4) as u32), ..v1 };
            lemma_load_long(v1.mem, a);
            crate::instruction_laws::lemma_long_result(base, n4, load_l(v1.mem, a)->Ok_0);
        }
    } else {
        let ern = n3 & 7;
        if n4 < 8 && long_mapped(v1.er[ern as int] & 0x00ff_ffff) {
            let base = CpuView { er: v1.er.update(ern as int, (v1.er[ern as int] + 4) as u32), ..v1 };
            lemma_store_long(v1.mem, v1.er[ern as int] & 0x00ff_ffff, v1.er[n4 as int]);
            lemma_store_l_flags(base, v1.er[n4 as int]);
        }
    }
}

/// `JMP @ERn` (first byte 0x59) continues at the address in ERn (nibble
/// 3); `JMP @aa:24` (0x5a) at the low byte of the first word followed by
/// the word after it; `JMP @@aa:8` (0x5b) at the long word stored at the
/// 8-bit absolute address of the low byte. Nothing but the program counter
/// changes.
pub proof fn law_jmp(old: CpuView, new: CpuView, opcode: u16, r: Result<u8, EmuError>)
    requires
        old.er.len() == 8,
        jmp_post(old, new, opcode, r),
    ensures
        ({
            let h = high_byte(opcode);
            let rn = nibble(opcode, 3);
            let a8: u32 = (0xffff00 + low_byte(opcode)) as u32;
            &&& h == 0x59 && rn < 8 ==> new == (CpuView { pc: old.er[rn as int], ..old })
            &&& h == 0x59 && rn >= 8 ==> new == old && r == Err::<u8, EmuError>(EmuError::InvalidRegister(rn))
            &&& h == 0x5a ==> new.pc == (opcode & 0x00ff) * 0x1_0000 + fetched_word(old) && new == (CpuView {
                pc: new.pc,
                ..fetched(old)
            })
            &&& h == 0x5b && long_mapped(a8) ==> new.pc == mem_long(old.mem, a8) && new == (CpuView { pc: new.pc, ..old })
        }),
{
    let a8: u32 = (0xffff00 + low_byte(opcode)) as u32;
    lemma_word_bytes(0, low_byte(opcode), 0, 0);
    lemma_long_words(opcode & 0x00ff, fetched_word(old), 0);
    if high_byte(opcode) == 0x5b && long_mapped(a8) {
        lemma_load_long(old.mem, a8);
    }
}

/// `STC.B CCR, Rd` (first byte 0x02) copies the condition code register
/// into byte register Rd (nibble 4); no other register and no flag changes.
pub proof fn law_stc_b(old: CpuView, new: CpuView, opcode: u16, r: Result<u8, EmuError>)
    requires
        old.er.len() == 8,
        stc_b_post(old, new, opcode, r),
    ensures
        spec_rn_b(new.er, nibble(opcode, 4)) == old.ccr,
        forall|k: u8| k < 16 && k != nibble(opcode, 4) ==> #[trigger] spec_rn_b(new.er, k) == spec_rn_b(old.er, k),
        new == (CpuView { er: new.er, ..old }),
{
    lemma_nibbles_compose(opcode);
    let rd = nibble(opcode, 4);
    lemma_rn_b_write_read(old.er, rd, old.ccr, rd);
    assert forall|k: u8| k < 16 && k != rd implies #[trigger] spec_rn_b(new.er, k) == spec_rn_b(old.er, k) by {
        lemma_rn_b_write_read(old.er, rd, old.ccr, k);
    }
}

/// `STC.W CCR, @ERd` (second word 0x69_ with bit 7 set) stores the
/// condition code register as a word, zero above it, at the 24-bit address
/// that ERd (nibble 3 modulo 8) holds; no register and no flag changes.
pub proof fn law_stc_w_ern(v1: CpuView, new: CpuView, opcode2: u16, r: Result<u8, EmuError>)
    requires
        v1.er.len() == 8,
        stc_w_ern_post(v1, new, opcode2, r),
        word_mapped(v1.er[(nibble(opcode2, 3) & 7) as int] & 0x00ff_ffff),
    ensures
        ({
            let a = v1.er[(nibble(opcode2, 3) & 7) as int] & 0x00ff_ffff;
            new == (CpuView { mem: v1.mem.insert(a, 0).insert((a + 1) as u32, v1.ccr), ..v1 })
        }),
{
    let a = v1.er[(nibble(opcode2, 3) & 7) as int] & 0x00ff_ffff;
    lemma_store_word(v1.mem, a, v1.ccr as u16);
}

/// A push of a long word lowers the stack pointer ER7 by four and stores
/// the word's bytes, most significant first, at the 24-bit address it then
/// holds; nothing else changes.
pub proof fn law_push_layout(v: CpuView, x: u32)
    requires
        v.er.len() == 8,
        v.er[7] >= 4,
        long_mapped(((v.er[7] - 4) as u32) & 0x00ff_ffff),
    ensures
        push_l(v, x).1 is Ok,
        ({
            let a = ((v.er[7] - 4) as u32) & 0x00ff_ffff;
            let hi = x / 0x1_0000;
            let lo = x % 0x1_0000;
            push_l(v, x).0 == (CpuView {
                er: v.er.update(7, (v.er[7] - 4) as u32),
                mem: v.mem.insert(a, (hi / 0x100) as u8).insert((a + 1) as u32, (hi % 0x100) as u8).insert(
                    (a + 2) as u32,
                    (lo / 0x100) as u8,
                ).insert((a + 3) as u32, (lo % 0x100) as u8),
                ..v
            })
        }),
{
    lemma_store_long(v.mem, ((v.er[7] - 4) as u32) & 0x00ff_ffff, x);
}

/// A pop reads the long word at the 24-bit address in the stack pointer
/// ER7, most significant byte first, and raises ER7 by four; nothing else
/// changes.
pub proof fn law_pop_layout(v: CpuView)
    requires
        v.er.len() == 8,
        long_mapped(v.er[7] & 0x00ff_ffff),
    ensures
        pop_l(v).1 is Ok,
        pop_l(v).1->Ok_0 == mem_long(v.mem, v.er[7] & 0x00ff_ffff),
        pop_l(v).0 == (CpuView { er: v.er.update(7, (v.er[7] + 4) as u32), ..v }),
{
    lemma_load_long(v.mem, v.er[7] & 0x00ff_ffff);
}

/// A subroutine branch pushes the address of the next instruction and
/// moves by the displacement: after it the stack pointer is four lower, the
/// long word there, most significant byte first, is the program counter the
/// branch was fetched with, and the program counter is that plus the
/// displacement, modulo 2^32.
pub proof fn law_bsr_call(v: CpuView, new: CpuView, disp: int, states: u8, r: Result<u8, EmuError>)
    requires
        v.er.len() == 8,
        crate::cpu::instruction::bsr::bsr_pre(v, disp),
        long_mapped(((v.er[7] - 4) as u32) & 0x00ff_ffff),
        bsr_post(v, new, disp, states, r),
    ensures
        r == Ok::<u8, EmuError>(states),
        new.er == v.er.update(7, (v.er[7] - 4) as u32),
        mem_long(new.mem, new.er[7] & 0x00ff_ffff) == v.pc,
        new.pc == (v.pc + disp) % 0x1_0000_0000,
{
    let a = ((v.er[7] - 4) as u32) & 0x00ff_ffff;
    law_push_layout(v, v.pc);
    lemma_long_words(0, 0, v.pc);
    lemma_word_bytes(0, 0, (v.pc / 0x1_0000) as u16, 0);
    lemma_word_bytes(0, 0, (v.pc % 0x1_0000) as u16, 0);
    assert(new.er[7] & 0x00ff_ffff == a);
    assert(a != (a + 1) as u32 && a != (a + 2) as u32 && a != (a + 3) as u32);
    assert((a + 1) as u32 != (a + 2) as u32 && (a + 1) as u32 != (a + 3) as u32 && (a + 2) as u32 != (a + 3) as u32);
    assert(((a + 2) as u32 + 1) as u32 == (a + 3) as u32);
}

/// A return pops the long word at the stack pointer, most significant byte
/// first, into the program counter and raises the stack pointer by four.
pub proof fn law_rts_return(old: CpuView, new: CpuView, r: Result<u8, EmuError>)
    requires
        old.er.len() == 8,
        long_mapped(old.er[7] & 0x00ff_ffff),
        rts_post(old, new, r),
    ensures
        new.pc == mem_long(old.mem, old.er[7] & 0x00ff_ffff),
        new == (CpuView { pc: new.pc, er: old.er.update(7, (old.er[7] + 4) as u32), ..old }),
{
    law_pop_layout(old);
}

/// `JSR @ERn` (first byte 0x5d) pushes the address of the next
/// instruction and continues at ERn (nibble 3) as it reads after the push;
/// `JSR @aa:24` (0x5e) pushes the address past its address word and
/// continues at the low byte of the first word followed by that word.
pub proof fn law_jsr_call(old: CpuView, new: CpuView, opcode: u16, r: Result<u8, EmuError>)
    requires
        old.er.len() == 8,
        old.er[7] >= 4,
        long_mapped(((old.er[7] - 4) as u32) & 0x00ff_ffff),
        jsr_post(old, new, opcode, r),
    ensures
        ({
            let h = high_byte(opcode);
            let rn = nibble(opcode, 3);
            let sp = ((old.er[7] - 4) as u32);
            &&& (h == 0x5d && rn < 8) || h == 0x5e ==> new.er == old.er.update(7, sp)
            &&& h == 0x5d && rn < 8 ==> mem_long(new.mem, sp & 0x00ff_ffff) == old.pc && new.pc == old.er.update(7, sp)[rn as int]
            &&& h == 0x5e ==> mem_long(new.mem, sp & 0x00ff_ffff) == fetched(old).pc && new.pc == (opcode & 0x00ff) * 0x1_0000
                + fetched_word(old)
        }),
{
    let sp = ((old.er[7] - 4) as u32);
    let a = sp & 0x00ff_ffff;
    let h = high_byte(opcode);
    let x = if h == 0x5e { fetched(old).pc } else { old.pc };
    let base = if h == 0x5e { fetched(old) } else { old };
    law_push_layout(base, x);
    lemma_long_words(0, 0, x);
    lemma_long_words(opcode & 0x00ff, fetched_word(old), 0);
    lemma_word_bytes(0, 0, (x / 0x1_0000) as u16, 0);
    lemma_word_bytes(0, 0, (x % 0x1_0000) as u16, 0);
    assert(a != (a + 1) as u32 && a != (a + 2) as u32 && a != (a + 3) as u32);
    assert((a + 1) as u32 != (a + 2) as u32 && (a + 1) as u32 != (a + 3) as u32 && (a + 2) as u32 != (a + 3) as u32);
    assert(((a + 2) as u32 + 1) as u32 == (a + 3) as u32);
}

/// Entering an exception handler pushes a long word with CCR in its top
/// byte and the program counter in its lower 24 bits, lowers the stack
/// pointer by four, masks interrupts (I set, the other flags kept) and
/// continues at the lower 24 bits of the long word stored at the vector
/// address.
pub proof fn law_exception_entry(v: CpuView, vec_addr: u32)
    requires
        v.er.len() == 8,
        v.er[7] >= 4,
        v.pc <= 0x00ff_ffff,
        long_mapped(((v.er[7] - 4) as u32) & 0x00ff_ffff),
        long_mapped(vec_addr),
    ensures
        ({
            let (new, res) = exception_entry(v, vec_addr);
            let sp = (v.er[7] - 4) as u32;
            &&& res is Ok
            &&& new.er == v.er.update(7, sp)
            &&& mem_long(new.mem, sp & 0x00ff_ffff) == v.ccr * 0x100_0000 + v.pc
            &&& new.pc == mem_long(new.mem, vec_addr) % 0x100_0000
            &&& flag_of(new.ccr, CCR::I.spec_bit()) == 1
            &&& forall|k: u8| k < 7 ==> #[trigger] flag_of(new.ccr, k) == flag_of(v.ccr, k)
        }),
{
    let sp = (v.er[7] - 4) as u32;
    let a = sp & 0x00ff_ffff;
    let ccr = v.ccr;
    let pc = v.pc;
    let x = ((ccr as u32) << 24u32) | pc;
    let p = push_l(v, x).0;
    law_push_layout(v, x);
    lemma_load_long(p.mem, vec_addr);
    let d = load_l(p.mem, vec_addr)->Ok_0;
    assert(x == ccr * 0x100_0000 + pc && d & 0x00ff_ffff == d % 0x100_0000) by (bit_vector)
        requires
            x == ((ccr as u32) << 24u32) | pc,
            pc <= 0x00ff_ffff,
    ;
    lemma_long_words(0, 0, x);
    lemma_word_bytes(0, 0, (x / 0x1_0000) as u16, 0);
    lemma_word_bytes(0, 0, (x % 0x1_0000) as u16, 0);
    assert(a != (a + 1) as u32 && a != (a + 2) as u32 && a != (a + 3) as u32);
    assert((a + 1) as u32 != (a + 2) as u32 && (a + 1) as u32 != (a + 3) as u32 && (a + 2) as u32 != (a + 3) as u32);
    assert(((a + 2) as u32 + 1) as u32 == (a + 3) as u32);
    crate::cpu::lemma_flag_write_read(v.ccr, 7, true, 7);
    assert forall|k: u8| k < 7 implies #[trigger] flag_of(exception_entry(v, vec_addr).0.ccr, k) == flag_of(v.ccr, k) by {
        crate::cpu::lemma_flag_write_read(v.ccr, 7, true, k);
    }
}

/// `RTE` pops the long word at the stack pointer: CCR becomes its top byte
/// and the program counter its lower 24 bits, and the stack pointer goes up
/// by four.
pub proof fn law_rte_return(old: CpuView, new: CpuView, r: Result<u8, EmuError>)
    requires
        old.er.len() == 8,
        long_mapped(old.er[7] & 0x00ff_ffff),
        rte_post(old, new, r),
    ensures
        new.ccr == mem_long(old.mem, old.er[7] & 0x00ff_ffff) / 0x100_0000,
        new.pc == mem_long(old.mem, old.er[7] & 0x00ff_ffff) % 0x100_0000,
        new == (CpuView { pc: new.pc, ccr: new.ccr, er: old.er.update(7, (old.er[7] + 4) as u32), ..old }),
{
    law_pop_layout(old);
    let w = pop_l(old).1->Ok_0;
    assert(((w >> 24u32) as u8) == w / 0x100_0000 && w & 0x00ff_ffff == w % 0x100_0000) by (bit_vector);
}

/// `MOV.B #xx:8, Rd` (first byte 0xf_) loads the low byte of the opcode
/// into byte register Rd (nibble 2), with the flags of a move.
pub proof fn law_mov_b_imm(old: CpuView, new: CpuView, opcode: u16, r: Result<u8, EmuError>)
    requires
        old.er.len() == 8,
        high_byte(opcode) >= 0xf0,
        mov_b_post(old, new, opcode, r),
    ensures
        byte_result(old, new, nibble(opcode, 2), low_byte(opcode)),
{
    lemma_nibbles_compose(opcode);
    crate::instruction_laws::lemma_byte_result(old, nibble(opcode, 2), low_byte(opcode));
}

/// `MOV.W #xx:16, Rd` (first byte 0x79, high nibble of the second 0) loads
/// the word that follows into word register Rd (nibble 4), with the flags
/// of a move; the program counter moves past the word.
pub proof fn law_mov_w_imm(old: CpuView, new: CpuView, opcode: u16, r: Result<u8, EmuError>)
    requires
        old.er.len() == 8,
        high_byte(opcode) == 0x79,
        mov_w_post(old, new, opcode, r),
    ensures
        word_result(fetched(old), new, nibble(opcode, 4), fetched_word(old)),
{
    lemma_nibbles_compose(opcode);
    crate::instruction_laws::lemma_word_result(fetched(old), nibble(opcode, 4), fetched_word(old));
}

/// `MOV.L #xx:32, ERd` (first word 0x7a0_) loads the long word of the two
/// words that follow into ERd (nibble 4), with the flags of a move.
pub proof fn law_mov_l_imm(old: CpuView, new: CpuView, opcode: u16, r: Result<u8, EmuError>)
    requires
        old.er.len() == 8,
        opcode & 0xfff8 == 0x7a00,
        mov_l_post(old, new, opcode, r),
    ensures
        nibble(opcode, 4) < 8,
        long_result(fetched(fetched(old)), new, nibble(opcode, 4), fetched_long(old)),
{
    assert(opcode & 0xfff8 == 0x7a00 ==> nibble(opcode, 4) < 8 && opcode & 0xff00 != 0x0f00) by (bit_vector);
    crate::instruction_laws::lemma_long_result(fetched(fetched(old)), nibble(opcode, 4), fetched_long(old));
}

/// The address that `@(d:24, ERn)` designates where the sum stays within
/// 32 bits: ERn plus the 24-bit displacement taken as a signed number (bit
/// 23 its sign), cut to 24 bits.
pub open spec fn disp24_address(ern: u32, d: u32) -> Option<u32> {
    let s = if d & 0x80_0000 == 0 { ern + d } else { ern + d - 0x100_0000 };
    if 0 <= s <= u32::MAX {
        Some((s as u32) & 0x00ff_ffff)
    } else {
        None
    }
}

/// `MOV.W @(d:24, ERs), Rd` (second word 0x6b2_; `opcode` the first,
/// 0x78__) loads the word at ERs (nibble 3 of the first word) plus the
/// displacement of the two words after the second into Rd (nibble 4 of the
/// second word); `MOV.W Rs, @(d:24, ERd)` stores Rs there, ERd being nibble
/// 3 modulo 8.
pub proof fn law_mov_w_disp24(old: CpuView, new: CpuView, opcode: u16, opcode2: u16, r: Result<u8, EmuError>)
    requires
        old.er.len() == 8,
        mov_w_disp24_post(old, new, opcode, opcode2, r),
    ensures
        ({
            let n3 = nibble(opcode, 3);
            let rd = nibble(opcode2, 4);
            let d = fetched_long(old);
            let al = disp24_address(old.er[n3 as int], d);
            let ast = disp24_address(old.er[(n3 & 7) as int], d);
            &&& opcode2 & 0xfff0 == 0x6b20 && n3 < 8 && al is Some && word_mapped(al->Some_0) ==> word_loaded(
                old,
                fetched(fetched(old)),
                new,
                rd,
                al->Some_0,
            ) && r == Ok::<u8, EmuError>(10)
            &&& opcode2 & 0xfff0 != 0x6b20 && ast is Some && word_mapped(ast->Some_0) ==> word_stored(
                fetched(fetched(old)),
                new,
                ast->Some_0,
                spec_rn_w(old.er, rd),
            ) && r == Ok::<u8, EmuError>(10)
        }),
{
    lemma_nibbles_compose(opcode2);
    lemma_byte_masks(nibble(opcode, 3));
    let n3 = nibble(opcode, 3);
    let rd = nibble(opcode2, 4);
    let d = fetched_long(old);
    let v2 = fetched(fetched(old));
    let rn = if opcode2 & 0xfff0 == 0x6b20 { n3 } else { n3 & 7 };
    if rn < 8 {
        if let Some(a) = disp24_address(old.er[rn as int], d) {
            if word_mapped(a) {
                if opcode2 & 0xfff0 == 0x6b20 {
                    lemma_load_word(old.mem, a);
                    crate::instruction_laws::lemma_word_result(v2, rd, load_w(old.mem, a)->Ok_0);
                } else {
                    lemma_store_word(old.mem, a, spec_rn_w(old.er, rd));
                    lemma_store_flags(v2, spec_rn_w(old.er, rd));
                }
            }
        }
    }
}

/// `MOV.B @(d:24, ERs), Rd` (second word 0x6a2_) loads the byte at ERs
/// (nibble 3 of the first word) plus the 24-bit signed displacement into
/// Rd (nibble 4 of the second word); `MOV.B Rs, @(d:24, ERd)` stores Rs
/// there, ERd being nibble 3 modulo 8.
pub proof fn law_mov_b_disp24(old: CpuView, new: CpuView, opcode: u16, opcode2: u16, r: Result<u8, EmuError>)
    requires
        old.er.len() == 8,
        mov_b_disp24_post(old, new, opcode, opcode2, r),
    ensures
        ({
            let n3 = nibble(opcode, 3);
            let rd = nibble(opcode2, 4);
            let d = fetched_long(old);
            let al = disp24_address(old.er[n3 as int], d);
            let ast = disp24_address(old.er[(n3 & 7) as int], d);
            &&& opcode2 & 0xfff0 == 0x6a20 && n3 < 8 && al is Some && is_mapped(al->Some_0) ==> byte_loaded(
                old,
                fetched(fetched(old)),
                new,
                rd,
                al->Some_0,
            )
            &&& opcode2 & 0xfff0 != 0x6a20 && ast is Some && is_mapped(ast->Some_0) ==> byte_stored(
                fetched(fetched(old)),
                new,
                ast->Some_0,
                spec_rn_b(old.er, rd),
            )
        }),
{
    lemma_nibbles_compose(opcode2);
    lemma_byte_masks(nibble(opcode, 3));
    let n3 = nibble(opcode, 3);
    let rd = nibble(opcode2, 4);
    let d = fetched_long(old);
    let v2 = fetched(fetched(old));
    let rn = if opcode2 & 0xfff0 == 0x6a20 { n3 } else { n3 & 7 };
    if rn < 8 {
        if let Some(a) = disp24_address(old.er[rn as int], d) {
            if opcode2 & 0xfff0 == 0x6a20 {
                crate::instruction_laws::lemma_byte_result(v2, rd, old.mem[a]);
            } else {
                lemma_store_b_flags(v2, spec_rn_b(old.er, rd));
            }
        }
    }
}

/// Serving the oldest interrupt request `n` takes it off the queue and
/// enters the handler whose address is stored at vector address `4 n`, as
/// `law_exception_entry` describes.
pub proof fn law_interrupt_vector(v: CpuView)
    requires
        v.er.len() == 8,
        v.interrupts.len() > 0,
        v.er[7] >= 4,
        v.pc <= 0x00ff_ffff,
        long_mapped(((v.er[7] - 4) as u32) & 0x00ff_ffff),
        long_mapped((4 * v.interrupts[0]) as u32),
    ensures
        ({
            let (new, res) = try_interrupt_effect(v);
            let sp = (v.er[7] - 4) as u32;
            &&& res is Ok
            &&& new.interrupts == v.interrupts.drop_first()
            &&& new.er == v.er.update(7, sp)
            &&& mem_long(new.mem, sp & 0x00ff_ffff) == v.ccr * 0x100_0000 + v.pc
            &&& new.pc == mem_long(new.mem, (4 * v.interrupts[0]) as u32) % 0x100_0000
            &&& flag_of(new.ccr, CCR::I.spec_bit()) == 1
        }),
{
    law_exception_entry(CpuView { interrupts: v.interrupts.drop_first(), ..v }, (4 * v.interrupts[0]) as u32);
}

} // verus!
