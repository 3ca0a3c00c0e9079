//! What holds of the emulator across its operations: what a read gives back
//! of a write, what a return undoes of a call, and which operations undo
//! one another.

use vstd::prelude::*;

use crate::bus::is_mapped;
use crate::cpu::addressing_mode::abs::{lemma_store_load_l, load_b, load_l, store_b};
use crate::cpu::addressing_mode::dec_ern::push_l;
use crate::cpu::addressing_mode::inc_ern::pop_l;
use crate::cpu::addressing_mode::rn::{spec_rn_b, spec_rn_w, spec_set_rn_b, spec_set_rn_w};
use crate::cpu::instruction::adds::adds_post;
use crate::cpu::instruction::bsr::{bsr_post, bsr_pre};
use crate::cpu::instruction::mov_b::{mov_b_load_post, mov_b_store_post};
use crate::cpu::instruction::neg::neg_b_post;
use crate::cpu::instruction::not::not_b_post;
use crate::cpu::instruction::rotl::{rotl_b_post, rotl_l_post, rotl_w_post};
use crate::cpu::instruction::rotr::{rotr_b_post, rotr_l_post, rotr_w_post};
use crate::cpu::instruction::rte::rte_post;
use crate::cpu::instruction::rts::{rts_post, rts_pre};
use crate::cpu::instruction::subs::subs_post;
use crate::cpu::instruction::nibble;
use crate::cpu::interrupt_controller::{exception_entry, try_interrupt_effect};
use crate::cpu::messages::{digits_value, hex_char, hex_digit_value, hex_digits, parse_hex};
use crate::bus::{AREA2_SIZE, AREA2_START_ADDR};
use crate::cpu::instruction::high_byte;
use crate::cpu::instruction::jsr::{jsr_post, jsr_pre};
use crate::cpu::{fetched, flag_of, lemma_flag_write_read, with_flag, CpuView, ADDRESS_MASK, CCR};
use crate::cpu::instruction::inc::nzvc_ccr;
use crate::elf::{
    args_from, be_bytes, cstr_from, dram_addr, exit_name, exits_from, got_effect, got_from, got_name, load_effect, mem_be32,
    program_name, section_effect, sections_from, segment_effect, segments_from, spec_parse_elf, spec_symbols,
    stack_name, store_bytes, store_dram_bytes, symtab_name, table_fits, ElfImageView, ProgramHeader32, SectionHeader32, Symbol32,
    PROGRAM_DRAM_OFFSET, PROGRAM_START_ADDR, SIZE_OF_TCB, SYMBOL_SIZE, PT_LOAD, stack_effect,
};
use crate::error::EmuError;
use crate::cpu::run::{control_of, message_of, paused_after, Control, Message};
use crate::cpu::instruction::trapa::{load_bytes, syscall_effect, SYSCALL_WRITE};
use crate::cpu::messages::parse_u8_effect;
use crate::bus::{spec_dram_area, AREA7_END_ADDR};
use crate::cpu::{spec_cycles, spec_wait_state, StateType};
use crate::memory::{MEMORY_END_ADDR, MEMORY_START_ADDR};
use crate::registers::{ABWCR, ASTCR, DRCRA};

verus! {

/// A byte written through the bus reads back as written where a device
/// answers; every other byte reads as before.
pub proof fn law_bus_write_read(mem: Map<u32, u8>, a: u32, v: u8, b: u32)
    ensures
        load_b(store_b(mem, a, v).0, b) == (if a == b && is_mapped(a) {
            Ok::<u8, EmuError>(v)
        } else {
            load_b(mem, b)
        }),
{
}

/// Pushing a long word and popping it gives the word back and restores the
/// stack pointer, where the push succeeded.
pub proof fn law_push_pop(v: CpuView, x: u32)
    requires
        v.er.len() == 8,
        v.er[7] >= 4,
        push_l(v, x).1 is Ok,
    ensures
        pop_l(push_l(v, x).0).1 == Ok::<u32, EmuError>(x),
        pop_l(push_l(v, x).0).0.er == v.er,
        pop_l(push_l(v, x).0).0.mem == push_l(v, x).0.mem,
{
    let sp = (v.er[7] - 4) as u32;
    lemma_store_load_l(v.mem, sp & ADDRESS_MASK, x);
    let p = push_l(v, x).0;
    assert(p.er == v.er.update(7, sp));
    assert(pop_l(p).0.er =~= v.er);
}

/// A subroutine branch and a later return: the return comes back to the
/// instruction after the branch, with the stack pointer as it was before the
/// branch, whatever ran in between, so long as the stack pointer and the long
/// word that the branch pushed are as the branch left them.
pub proof fn law_bsr_rts(
    v: CpuView,
    mid: CpuView,
    cur: CpuView,
    new: CpuView,
    disp: int,
    states: u8,
    r1: Result<u8, EmuError>,
    r2: Result<u8, EmuError>,
)
    requires
        v.er.len() == 8,
        cur.er.len() == 8,
        bsr_pre(v, disp),
        bsr_post(v, mid, disp, states, r1),
        r1 is Ok,
        cur.er[7] == mid.er[7],
        load_l(cur.mem, mid.er[7] & ADDRESS_MASK) == load_l(mid.mem, mid.er[7] & ADDRESS_MASK),
        rts_post(cur, new, r2),
    ensures
        rts_pre(cur),
        new.pc == v.pc,
        new.er == cur.er.update(7, v.er[7]),
        new.ccr == cur.ccr,
        new.mem == cur.mem,
{
    law_push_pop(v, v.pc);
}

/// Entering an exception handler and returning from it by `RTE` restores
/// the condition code register, the program counter and the stack pointer,
/// where the program counter is a 24-bit address.
pub proof fn law_exception_rte(v: CpuView, vec_addr: u32, new: CpuView, r: Result<u8, EmuError>)
    requires
        v.er.len() == 8,
        v.er[7] >= 4,
        v.pc <= 0x00ffffff,
        exception_entry(v, vec_addr).1 is Ok,
        rte_post(exception_entry(v, vec_addr).0, new, r),
    ensures
        new.ccr == v.ccr,
        new.pc == v.pc,
        new.er == v.er,
{
    let x = ((v.ccr as u32) << 24u32) | v.pc;
    law_push_pop(v, x);
    let ccr = v.ccr;
    let pc = v.pc;
    assert((((((ccr as u32) << 24u32) | pc) >> 24u32) as u8) == ccr && ((((ccr as u32) << 24u32) | pc)
        & 0x00ffffff) == pc) by (bit_vector)
        requires
            pc <= 0x00ffffff,
    ;
}

/// Writing a byte register with its own value changes nothing, and a second
/// write to it replaces the first.
pub proof fn lemma_set_rn_b(er: Seq<u32>, r: u8, a: u8, b: u8)
    requires
        er.len() == 8,
        r < 16,
    ensures
        spec_set_rn_b(er, r, spec_rn_b(er, r)) == er,
        spec_set_rn_b(spec_set_rn_b(er, r, a), r, b) == spec_set_rn_b(er, r, b),
{
    let i: int = if r < 8 { r as int } else { r - 8 };
    let e = er[i];
    assert((e & 0xffff00ff) | (((e >> 8u32) as u8 as u32) << 8u32) == e && (e & 0xffffff00) | ((e as u8)
        as u32) == e && (((e & 0xffff00ff) | ((a as u32) << 8u32)) & 0xffff00ff) | ((b as u32) << 8u32) == (e
        & 0xffff00ff) | ((b as u32) << 8u32) && (((e & 0xffffff00) | (a as u32)) & 0xffffff00) | (b as u32)
        == (e & 0xffffff00) | (b as u32)) by (bit_vector);
    assert(spec_set_rn_b(er, r, spec_rn_b(er, r)) =~= er);
    assert(spec_set_rn_b(spec_set_rn_b(er, r, a), r, b) =~= spec_set_rn_b(er, r, b));
}

/// `NEG.B` twice gives the register back.
pub proof fn law_neg_b_twice(v: CpuView, mid: CpuView, new: CpuView, opcode: u16, r1: Result<u8, EmuError>, r2: Result<u8, EmuError>)
    requires
        v.er.len() == 8,
        neg_b_post(v, mid, opcode, r1),
        neg_b_post(mid, new, opcode, r2),
    ensures
        new.er == v.er,
{
    let rd = nibble(opcode, 4);
    crate::cpu::instruction::lemma_nibbles_compose(opcode);
    let x = spec_rn_b(v.er, rd);
    let y = 0u8.wrapping_sub(x);
    crate::cpu::addressing_mode::rn::lemma_rn_b_write_read(v.er, rd, y, rd);
    lemma_set_rn_b(v.er, rd, y, 0u8.wrapping_sub(y));
    lemma_set_rn_b(v.er, rd, x, x);
}

/// `NOT.B` twice gives the register back.
pub proof fn law_not_b_twice(v: CpuView, mid: CpuView, new: CpuView, opcode: u16, r1: Result<u8, EmuError>, r2: Result<u8, EmuError>)
    requires
        v.er.len() == 8,
        not_b_post(v, mid, opcode, r1),
        not_b_post(mid, new, opcode, r2),
    ensures
        new.er == v.er,
{
    let rd = nibble(opcode, 4);
    crate::cpu::instruction::lemma_nibbles_compose(opcode);
    let x = spec_rn_b(v.er, rd);
    crate::cpu::addressing_mode::rn::lemma_rn_b_write_read(v.er, rd, !x, rd);
    assert(!(!x) == x) by (bit_vector);
    lemma_set_rn_b(v.er, rd, !x, x);
    lemma_set_rn_b(v.er, rd, x, x);
}

/// After a rotation the condition codes N, Z, V and C read as set, and the
/// other four flags as they were.
pub(crate) proof fn lemma_nzvc_flags(ccr: u8, n: bool, z: bool, v: bool, c: bool)
    ensures
        flag_of(nzvc_ccr(ccr, n, z, v, c), CCR::N.spec_bit()) == (if n { 1u8 } else { 0u8 }),
        flag_of(nzvc_ccr(ccr, n, z, v, c), CCR::Z.spec_bit()) == (if z { 1u8 } else { 0u8 }),
        flag_of(nzvc_ccr(ccr, n, z, v, c), CCR::V.spec_bit()) == (if v { 1u8 } else { 0u8 }),
        flag_of(nzvc_ccr(ccr, n, z, v, c), CCR::C.spec_bit()) == (if c { 1u8 } else { 0u8 }),
        forall|b: u8| 4 <= b < 8 ==> #[trigger] flag_of(nzvc_ccr(ccr, n, z, v, c), b) == flag_of(ccr, b),
{
    let c1 = with_flag(ccr, 3, n);
    let c2 = with_flag(c1, 2, z);
    let c3 = with_flag(c2, 1, v);
    let c4 = with_flag(c3, 0, c);
    lemma_flag_write_read(c3, 0, c, 0);
    lemma_flag_write_read(c3, 0, c, 1);
    lemma_flag_write_read(c2, 1, v, 1);
    lemma_flag_write_read(c3, 0, c, 2);
    lemma_flag_write_read(c2, 1, v, 2);
    lemma_flag_write_read(c1, 2, z, 2);
    lemma_flag_write_read(c3, 0, c, 3);
    lemma_flag_write_read(c2, 1, v, 3);
    lemma_flag_write_read(c1, 2, z, 3);
    lemma_flag_write_read(ccr, 3, n, 3);
    assert forall|b: u8| 4 <= b < 8 implies #[trigger] flag_of(c4, b) == flag_of(ccr, b) by {
        lemma_flag_write_read(c3, 0, c, b);
        lemma_flag_write_read(c2, 1, v, b);
        lemma_flag_write_read(c1, 2, z, b);
        lemma_flag_write_read(ccr, 3, n, b);
    }
}

/// `ROTR.B` undoes `ROTL.B` on the same register: the register is as before,
/// C and N hold its top bit, Z tells whether it is zero, V is clear, and the
/// other flags are as before.
pub proof fn law_rotl_rotr_b(
    v: CpuView,
    mid: CpuView,
    new: CpuView,
    op1: u16,
    op2: u16,
    r1: Result<u8, EmuError>,
    r2: Result<u8, EmuError>,
)
    requires
        v.er.len() == 8,
        nibble(op1, 4) == nibble(op2, 4),
        rotl_b_post(v, mid, op1, r1),
        rotr_b_post(mid, new, op2, r2),
    ensures
        new.er == v.er,
        flag_of(new.ccr, CCR::C.spec_bit()) == spec_rn_b(v.er, nibble(op1, 4)) >> 7u8,
        flag_of(new.ccr, CCR::N.spec_bit()) == spec_rn_b(v.er, nibble(op1, 4)) >> 7u8,
        flag_of(new.ccr, CCR::Z.spec_bit()) == (if spec_rn_b(v.er, nibble(op1, 4)) == 0 { 1u8 } else { 0u8 }),
        flag_of(new.ccr, CCR::V.spec_bit()) == 0,
        forall|b: u8| 4 <= b < 8 ==> #[trigger] flag_of(new.ccr, b) == flag_of(v.ccr, b),
{
    let rd = nibble(op1, 4);
    crate::cpu::instruction::lemma_nibbles_compose(op1);
    let x = spec_rn_b(v.er, rd);
    let y = ((x << 1u8) | (x >> 7u8)) as u8;
    crate::cpu::addressing_mode::rn::lemma_rn_b_write_read(v.er, rd, y, rd);
    assert((((y >> 1u8) | (y << 7u8)) as u8) == x && ((y & 1u8) == 1u8) == (x >> 7u8 == 1u8) && (x & 0x80
        == 0x80) == (x >> 7u8 == 1u8) && x >> 7u8 <= 1 && ((y & 0x80 == 0x80) == ((x & 0x40) == 0x40))
        && (y == 0) == (x == 0)) by (bit_vector)
        requires
            y == ((x << 1u8) | (x >> 7u8)) as u8,
    ;
    lemma_set_rn_b(v.er, rd, y, x);
    lemma_set_rn_b(v.er, rd, x, x);
    let res1 = y;
    lemma_nzvc_flags(v.ccr, res1 & 0x80 == 0x80, res1 == 0, false, (res1 & 1u8) == 1u8);
    lemma_nzvc_flags(mid.ccr, x & 0x80 == 0x80, x == 0, false, (y & 1u8) == 1u8);
}

/// The register file `er` with word register `r` written twice holds the
/// second value; writing a word register with its own value changes nothing.
proof fn lemma_set_rn_w(er: Seq<u32>, r: u8, a: u16, b: u16)
    requires
        er.len() == 8,
        r < 16,
    ensures
        spec_set_rn_w(er, r, spec_rn_w(er, r)) == er,
        spec_set_rn_w(spec_set_rn_w(er, r, a), r, b) == spec_set_rn_w(er, r, b),
{
    let i: int = if r < 8 { r as int } else { r - 8 };
    let e = er[i];
    assert((e & 0xffff0000) | ((e as u16) as u32) == e && (e & 0x0000ffff) | (((e >> 16u32) as u16 as u32)
        << 16u32) == e && (((e & 0xffff0000) | (a as u32)) & 0xffff0000) | (b as u32) == (e & 0xffff0000)
        | (b as u32) && (((e & 0x0000ffff) | ((a as u32) << 16u32)) & 0x0000ffff) | ((b as u32) << 16u32)
        == (e & 0x0000ffff) | ((b as u32) << 16u32)) by (bit_vector);
    assert(spec_set_rn_w(er, r, spec_rn_w(er, r)) =~= er);
    assert(spec_set_rn_w(spec_set_rn_w(er, r, a), r, b) =~= spec_set_rn_w(er, r, b));
}

/// `ROTR.W` undoes `ROTL.W` on the same register, with C and N its top bit,
/// Z whether it is zero, V clear and the other flags as before.
pub proof fn law_rotl_rotr_w(
    v: CpuView,
    mid: CpuView,
    new: CpuView,
    op1: u16,
    op2: u16,
    r1: Result<u8, EmuError>,
    r2: Result<u8, EmuError>,
)
    requires
        v.er.len() == 8,
        nibble(op1, 4) == nibble(op2, 4),
        rotl_w_post(v, mid, op1, r1),
        rotr_w_post(mid, new, op2, r2),
    ensures
        new.er == v.er,
        flag_of(new.ccr, CCR::C.spec_bit()) == (spec_rn_w(v.er, nibble(op1, 4)) >> 15u16) as u8,
        flag_of(new.ccr, CCR::N.spec_bit()) == (spec_rn_w(v.er, nibble(op1, 4)) >> 15u16) as u8,
        flag_of(new.ccr, CCR::Z.spec_bit()) == (if spec_rn_w(v.er, nibble(op1, 4)) == 0 { 1u8 } else { 0u8 }),
        flag_of(new.ccr, CCR::V.spec_bit()) == 0,
        forall|b: u8| 4 <= b < 8 ==> #[trigger] flag_of(new.ccr, b) == flag_of(v.ccr, b),
{
    let rd = nibble(op1, 4);
    crate::cpu::instruction::lemma_nibbles_compose(op1);
    let x = spec_rn_w(v.er, rd);
    let y = ((x << 1u16) | (x >> 15u16)) as u16;
    crate::cpu::addressing_mode::rn::lemma_rn_w_write_read(v.er, rd, y, rd);
    assert((((y >> 1u16) | (y << 15u16)) as u16) == x && ((y & 1u16) == 1u16) == (x >> 15u16 == 1u16) && (x
        & 0x8000 == 0x8000) == (x >> 15u16 == 1u16) && x >> 15u16 <= 1) by (bit_vector)
        requires
            y == ((x << 1u16) | (x >> 15u16)) as u16,
    ;
    lemma_set_rn_w(v.er, rd, y, x);
    lemma_set_rn_w(v.er, rd, x, x);
    lemma_nzvc_flags(v.ccr, y & 0x8000 == 0x8000, y == 0, false, (y & 1u16) == 1u16);
    lemma_nzvc_flags(mid.ccr, x & 0x8000 == 0x8000, x == 0, false, (y & 1u16) == 1u16);
}

/// `ROTR.L` undoes `ROTL.L` on the same register, with C and N its top bit,
/// Z whether it is zero, V clear and the other flags as before.
pub proof fn law_rotl_rotr_l(
    v: CpuView,
    mid: CpuView,
    new: CpuView,
    op1: u16,
    op2: u16,
    r1: Result<u8, EmuError>,
    r2: Result<u8, EmuError>,
)
    requires
        v.er.len() == 8,
        nibble(op1, 4) == nibble(op2, 4),
        nibble(op1, 4) < 8,
        rotl_l_post(v, mid, op1, r1),
        rotr_l_post(mid, new, op2, r2),
    ensures
        new.er == v.er,
        flag_of(new.ccr, CCR::C.spec_bit()) == (v.er[nibble(op1, 4) as int] >> 31u32) as u8,
        flag_of(new.ccr, CCR::N.spec_bit()) == (v.er[nibble(op1, 4) as int] >> 31u32) as u8,
        flag_of(new.ccr, CCR::Z.spec_bit()) == (if v.er[nibble(op1, 4) as int] == 0 { 1u8 } else { 0u8 }),
        flag_of(new.ccr, CCR::V.spec_bit()) == 0,
        forall|b: u8| 4 <= b < 8 ==> #[trigger] flag_of(new.ccr, b) == flag_of(v.ccr, b),
{
    let rd = nibble(op1, 4);
    let x = v.er[rd as int];
    let y = ((x << 1u32) | (x >> 31u32)) as u32;
    assert((((y >> 1u32) | (y << 31u32)) as u32) == x && ((y & 1u32) == 1u32) == (x >> 31u32 == 1u32) && (x
        & 0x8000_0000 == 0x8000_0000) == (x >> 31u32 == 1u32) && x >> 31u32 <= 1) by (bit_vector)
        requires
            y == ((x << 1u32) | (x >> 31u32)) as u32,
    ;
    assert(new.er =~= v.er);
    lemma_nzvc_flags(v.ccr, y & 0x8000_0000 == 0x8000_0000, y == 0, false, (y & 1u32) == 1u32);
    lemma_nzvc_flags(mid.ccr, x & 0x8000_0000 == 0x8000_0000, x == 0, false, (y & 1u32) == 1u32);
}

/// `SUBS #k` undoes `ADDS #k` on the same register (k is 1, 2 or 4).
pub proof fn law_adds_subs(v: CpuView, mid: CpuView, new: CpuView, opcode: u16, k: u32, r1: Result<u8, EmuError>, r2: Result<u8, EmuError>)
    requires
        v.er.len() == 8,
        k == 1 || k == 2 || k == 4,
        adds_post(v, mid, opcode, k, r1),
        subs_post(mid, new, opcode, (-k) as i32, r2),
    ensures
        new.er == v.er,
{
    let rd = nibble(opcode, 4);
    if rd < 8 {
        assert(new.er =~= v.er);
    }
}

/// A byte that `MOV.B` stores at an address, `MOV.B` loads back from it.
pub proof fn law_mov_b_store_load(
    v: CpuView,
    mid: CpuView,
    new: CpuView,
    a: u32,
    value: u8,
    rd: u8,
    f1: u8,
    f2: u8,
    r1: Result<u8, EmuError>,
    r2: Result<u8, EmuError>,
)
    requires
        v.er.len() == 8,
        rd < 16,
        mov_b_store_post(v, mid, r1, Ok(a), value, f1),
        r1 is Ok,
        mov_b_load_post(mid, new, r2, Ok(a), rd, f2),
    ensures
        spec_rn_b(new.er, rd) == value,
{
    crate::cpu::addressing_mode::rn::lemma_rn_b_write_read(mid.er, rd, value, rd);
}

/// Interrupt requests are served oldest first: a request queued behind
/// others waits for them.
pub proof fn law_interrupt_fifo(v: CpuView, x: u8)
    requires
        v.interrupts.len() > 0,
    ensures
        try_interrupt_effect(CpuView { interrupts: v.interrupts.push(x), ..v }) == exception_entry(
            CpuView { interrupts: v.interrupts.drop_first().push(x), ..v },
            (4 * v.interrupts[0]) as u32,
        ),
{
    assert(v.interrupts.push(x).drop_first() =~= v.interrupts.drop_first().push(x));
}

/// A hexadecimal digit reads back as its value.
proof fn lemma_hex_char(d: nat)
    requires
        d < 16,
    ensures
        hex_digit_value(hex_char(d)) == Some(d),
{
}

/// The digits of `n` read back as `n`.
proof fn lemma_digits(n: nat)
    ensures
        digits_value(hex_digits(n)) == Some(n),
        hex_digits(n).len() > 0,
        hex_digits(n)[0] != '+',
    decreases n,
{
    lemma_hex_char(n % 16);
    if n >= 16 {
        lemma_digits(n / 16);
        let s = hex_digits(n);
        assert(s.drop_last() =~= hex_digits(n / 16));
        assert(s.last() == hex_char(n % 16));
        assert((n / 16) * 16 + n % 16 == n);
        assert(digits_value(s.drop_last()) == Some(n / 16));
        assert(hex_digit_value(s.last()) == Some(n % 16));
        assert(digits_value(s) == Some(n));
    } else {
        let s = hex_digits(n);
        assert(s.drop_last() =~= Seq::<char>::empty());
        assert(digits_value(s.drop_last()) == Some(0nat));
        assert(s.last() == hex_char(n));
        assert(digits_value(s) == Some(n));
    }
}

/// What the observer is sent in hexadecimal reads back as the same number:
/// the format of the value messages and the parse of the write requests agree.
pub proof fn law_hex_round_trip(n: nat)
    ensures
        parse_hex(hex_digits(n)) == Some(n),
{
    lemma_digits(n);
}

/// A subroutine call by `JSR` and a later `RTS`: the return comes back to
/// the instruction after the call (past the address word of `JSR @aa:24`),
/// with the stack pointer as it was before the call, whatever ran in between,
/// so long as the stack pointer and the long word that the call pushed are as
/// the call left them.
pub proof fn law_jsr_rts(
    v: CpuView,
    mid: CpuView,
    cur: CpuView,
    new: CpuView,
    opcode: u16,
    r1: Result<u8, EmuError>,
    r2: Result<u8, EmuError>,
)
    requires
        v.er.len() == 8,
        cur.er.len() == 8,
        0x5d <= high_byte(opcode) <= 0x5f,
        jsr_pre(v, opcode),
        jsr_post(v, mid, opcode, r1),
        r1 is Ok,
        cur.er[7] == mid.er[7],
        load_l(cur.mem, mid.er[7] & ADDRESS_MASK) == load_l(mid.mem, mid.er[7] & ADDRESS_MASK),
        rts_post(cur, new, r2),
    ensures
        rts_pre(cur),
        new.pc == (if high_byte(opcode) == 0x5e { fetched(v).pc } else { v.pc }),
        new.er == cur.er.update(7, v.er[7]),
        new.ccr == cur.ccr,
        new.mem == cur.mem,
{
    if high_byte(opcode) == 0x5e {
        law_push_pop(fetched(v), fetched(v).pc);
    } else {
        law_push_pop(v, v.pc);
    }
}

/// Loading segments changes only the memory.
proof fn lemma_segments_er(v: CpuView, b: Seq<u8>, phs: Seq<ProgramHeader32>, i: int)
    ensures
        segments_from(v, b, phs, i).0.er == v.er,
    decreases phs.len() - i,
{
    if 0 <= i < phs.len() {
        let (w, r) = segment_effect(v, b, phs[i]);
        if r is Ok {
            lemma_segments_er(w, b, phs, i + 1);
        }
    }
}

/// Relocating the global offset table changes only the memory.
proof fn lemma_got_er(v: CpuView, addr: u32, n: int, i: int)
    ensures
        got_from(v, addr, n, i).0.er == v.er,
    decreases n - i,
{
    if 0 <= i < n && addr + 4 * i <= u32::MAX && PROGRAM_DRAM_OFFSET + addr + 4 * i + 3 < AREA2_SIZE {
        let a = dram_addr(PROGRAM_DRAM_OFFSET + addr + 4 * i);
        let x = mem_be32(v.mem, a) + PROGRAM_START_ADDR;
        if x <= u32::MAX {
            lemma_got_er(CpuView { mem: store_bytes(v.mem, a, be_bytes(x as u32)), ..v }, addr, n, i + 1);
        }
    }
}

/// Storing the arguments changes only the memory.
proof fn lemma_args_er(v: CpuView, list: Seq<Seq<u8>>, argp: int, a: int, j: int)
    ensures
        args_from(v, list, argp, a, j).0.er == v.er,
    decreases list.len() - j,
{
    if 0 <= j < list.len() && argp - AREA2_START_ADDR + 4 <= AREA2_SIZE {
        let mem1 = store_bytes(v.mem, argp, be_bytes((a % 0x1_0000_0000) as u32));
        let (mem2, r) = store_dram_bytes(mem1, a - AREA2_START_ADDR, list[j].push(0));
        if r is Ok {
            lemma_args_er(CpuView { mem: mem2, ..v }, list, argp + 4, a + list[j].len() + 1, j + 1);
        }
    }
}

/// Recording the exit routine changes only its address.
proof fn lemma_exits_er(v: CpuView, b: Seq<u8>, names: int, syms: Seq<Symbol32>, i: int)
    ensures
        exits_from(v, b, names, syms, i).0.er == v.er,
    decreases syms.len() - i,
{
    if 0 <= i < syms.len() {
        if cstr_from(b, names + syms[i].name_idx) == Some(exit_name()) {
            if syms[i].value + PROGRAM_START_ADDR <= u32::MAX {
                lemma_exits_er(
                    CpuView { exit_addr: (syms[i].value + PROGRAM_START_ADDR) as u32, ..v },
                    b,
                    names,
                    syms,
                    i + 1,
                );
            }
        } else {
            lemma_exits_er(v, b, names, syms, i + 1);
        }
    }
}

/// No section touches ER2.
proof fn lemma_sections_er2(v: CpuView, b: Seq<u8>, img: ElfImageView, args: Seq<Seq<u8>>, i: int)
    requires
        v.er.len() == 8,
    ensures
        sections_from(v, b, img, args, i).0.er[2] == v.er[2],
        sections_from(v, b, img, args, i).0.er.len() == 8,
    decreases img.sections.len() - i,
{
    if 0 <= i < img.sections.len() && i < img.names.len() {
        let name = img.names[i];
        let sh = img.sections[i];
        let (w, r) = section_effect(v, b, img, args, i);
        if name == got_name() {
            if sh.addr + PROGRAM_START_ADDR <= u32::MAX {
                lemma_got_er(
                    CpuView { er: v.er.update(5, (sh.addr + PROGRAM_START_ADDR) as u32), ..v },
                    sh.addr,
                    (sh.size / 4) as int,
                    0,
                );
            }
        } else if name == stack_name() {
            let phs = img.programs;
            if !(phs.len() == 0 || phs.last().size_in_mem + phs.last().physical_addr > u32::MAX) {
                let a1 = (PROGRAM_START_ADDR + phs.last().size_in_mem + phs.last().physical_addr + sh.addr + 3) / 4 * 4;
                let sp = a1 % 0x1_0000_0000;
                if sp >= 8 {
                    let a2 = (a1 + SIZE_OF_TCB + 3) / 4 * 4;
                    let list = seq![program_name()] + args;
                    let v1 = CpuView {
                        er: v.er.update(7, (sp - 8) as u32).update(0, list.len() as u32).update(1, (a2 % 0x1_0000_0000) as u32),
                        ..v
                    };
                    lemma_args_er(v1, list, a2, a2 + 4 * (list.len() + 1), 0);
                }
            }
        } else if name == symtab_name() {
            if !(sh.entry_size == 0 || !table_fits(b, sh.offset as int, (sh.size / sh.entry_size) as int, SYMBOL_SIZE as int)
                || sh.link >= img.sections.len() || img.sections[sh.link as int].offset > b.len()) {
                lemma_exits_er(v, b, img.sections[sh.link as int].offset as int, spec_symbols(b, sh, img.big_endian), 0);
            }
        }
        if r is Ok {
            lemma_sections_er2(w, b, img, args, i + 1);
        }
    }
}

/// Once a file parses, loading it leaves ER2 at the program start, where
/// the run begins.
pub proof fn law_load_entry(v: CpuView, b: Seq<u8>, args: Seq<Seq<u8>>)
    requires
        v.er.len() == 8,
        spec_parse_elf(b) is Some,
    ensures
        load_effect(v, b, args).0.er[2] == PROGRAM_START_ADDR,
{
    let img = spec_parse_elf(b)->Some_0;
    let v1 = CpuView { er: v.er.update(2, PROGRAM_START_ADDR), ..v };
    lemma_segments_er(v1, b, img.programs, 0);
    let (v2, r2) = segments_from(v1, b, img.programs, 0);
    if r2 is Ok {
        lemma_sections_er2(v2, b, img, args, 0);
    }
}

/// Storing the four bytes of `x` from `a` writes those four addresses only.
proof fn lemma_store_be32(mem: Map<u32, u8>, a: int, x: u32)
    requires
        0 <= a,
        a + 3 <= u32::MAX,
    ensures
        store_bytes(mem, a, be_bytes(x)) == mem.insert(a as u32, (x / 0x1000000) as u8).insert(
            (a + 1) as u32,
            (x / 0x10000 % 0x100) as u8,
        ).insert((a + 2) as u32, (x / 0x100 % 0x100) as u8).insert((a + 3) as u32, (x % 0x100) as u8),
        mem_be32(store_bytes(mem, a, be_bytes(x)), a) == x,
        forall|b: int| 0 <= b && b + 3 <= u32::MAX && (b + 4 <= a || a + 4 <= b) ==> #[trigger] mem_be32(
            store_bytes(mem, a, be_bytes(x)),
            b,
        ) == mem_be32(mem, b),
{
    reveal_with_fuel(store_bytes, 5);
    let bytes = be_bytes(x);
    assert(bytes.drop_last().drop_last().drop_last().drop_last() =~= Seq::<u8>::empty());
    let m = store_bytes(mem, a, bytes);
    assert(m[a as u32] == (x / 0x1000000) as u8);
    assert(x / 0x1000000 < 0x100 && (x / 0x1000000) * 0x1000000 + (x / 0x10000 % 0x100) * 0x10000 + (x / 0x100
        % 0x100) * 0x100 + x % 0x100 == x) by (nonlinear_arith);
    assert forall|b: int| 0 <= b && b + 3 <= u32::MAX && (b + 4 <= a || a + 4 <= b) implies #[trigger] mem_be32(
        m,
        b,
    ) == mem_be32(mem, b) by {
        assert(m[b as u32] == mem[b as u32]);
        assert(m[(b + 1) as u32] == mem[(b + 1) as u32]);
        assert(m[(b + 2) as u32] == mem[(b + 2) as u32]);
        assert(m[(b + 3) as u32] == mem[(b + 3) as u32]);
    }
}

/// The bus address of entry `k` of a global offset table at `addr`: the
/// program is placed from `PROGRAM_START_ADDR` on.
pub open spec fn got_entry(addr: u32, k: int) -> int {
    PROGRAM_START_ADDR + addr + 4 * k
}

/// Relocating the entries from the `i`-th on adds the program start to each
/// of them and leaves the entries before it as they were.
proof fn lemma_got_from(w: CpuView, addr: u32, n: int, i: int)
    requires
        0 <= i,
        got_from(w, addr, n, i).1 is Ok,
    ensures
        forall|k: int| i <= k < n ==> #[trigger] mem_be32(got_from(w, addr, n, i).0.mem, got_entry(addr, k))
            == mem_be32(w.mem, got_entry(addr, k)) + PROGRAM_START_ADDR,
        forall|k: int| 0 <= k < i ==> #[trigger] mem_be32(got_from(w, addr, n, i).0.mem, got_entry(addr, k))
            == mem_be32(w.mem, got_entry(addr, k)),
        got_from(w, addr, n, i).0.er == w.er,
        forall|k: int| i <= k < n ==> 0 <= #[trigger] got_entry(addr, k) && got_entry(addr, k) + 3 <= u32::MAX,
    decreases n - i,
{
    if i < n {
        let a = got_entry(addr, i);
        let x = mem_be32(w.mem, a) + PROGRAM_START_ADDR;
        let w1 = CpuView { mem: store_bytes(w.mem, a, be_bytes(x as u32)), ..w };
        lemma_store_be32(w.mem, a, x as u32);
        lemma_got_from(w1, addr, n, i + 1);
        let out = got_from(w, addr, n, i).0;
        assert(out == got_from(w1, addr, n, i + 1).0);
        assert forall|k: int| i <= k < n implies #[trigger] mem_be32(out.mem, got_entry(addr, k)) == mem_be32(
            w.mem,
            got_entry(addr, k),
        ) + PROGRAM_START_ADDR by {
            if k > i {
                assert(mem_be32(w1.mem, got_entry(addr, k)) == mem_be32(w.mem, got_entry(addr, k)));
            } else {
                assert(mem_be32(out.mem, got_entry(addr, i + 0)) == mem_be32(w1.mem, got_entry(addr, i)));
            }
        }
        assert forall|k: int| 0 <= k < i implies #[trigger] mem_be32(out.mem, got_entry(addr, k)) == mem_be32(
            w.mem,
            got_entry(addr, k),
        ) by {
            assert(mem_be32(w1.mem, got_entry(addr, k)) == mem_be32(w.mem, got_entry(addr, k)));
        }
    }
}

/// Relocating the global offset table that `.got` describes: ER5 points at
/// the table above the program start, and each of its `size / 4` long words
/// reads as before plus the program start.
pub proof fn law_got_relocation(v: CpuView, sh: SectionHeader32)
    requires
        v.er.len() == 8,
        got_effect(v, sh).1 is Ok,
    ensures
        got_effect(v, sh).0.er[5] == sh.addr + PROGRAM_START_ADDR,
        forall|k: int| 0 <= k < sh.size / 4 ==> #[trigger] mem_be32(got_effect(v, sh).0.mem, got_entry(sh.addr, k))
            == mem_be32(v.mem, got_entry(sh.addr, k)) + PROGRAM_START_ADDR,
{
    let v1 = CpuView { er: v.er.update(5, (sh.addr + PROGRAM_START_ADDR) as u32), ..v };
    lemma_got_from(v1, sh.addr, (sh.size / 4) as int, 0);
}

/// The clock states of an access, by the bus controller's settings for the
/// area it falls in: internal operations take one state per cycle, on-chip
/// memory two; an external area with a 16-bit bus takes two (two-state
/// access) or three plus the wait states (three-state access), and DRAM four
/// plus the wait states; an 8-bit bus doubles these for word accesses, and
/// for DRAM and three-state areas doubles the wait states too. Addresses
/// past 24 bits take no count.
pub proof fn law_cycles(mem: Map<u32, u8>, t: StateType, state: u8, addr: u32)
    ensures
        t == StateType::N ==> spec_cycles(mem, t, state, addr) == Some(state as int),
        t != StateType::N && MEMORY_START_ADDR <= addr <= MEMORY_END_ADDR ==> spec_cycles(mem, t, state, addr)
            == Some(2 * state),
        t != StateType::N && !(MEMORY_START_ADDR <= addr <= MEMORY_END_ADDR) && addr > AREA7_END_ADDR ==> spec_cycles(
            mem,
            t,
            state,
            addr,
        ) is None,
        ({
            let area = (addr / 0x200000) as u8;
            let wait = spec_wait_state(mem, area) as int;
            let word_bus = (mem[ABWCR] >> area) & 1 != 1;
            let two_state = (mem[ASTCR] >> area) & 1 == 0;
            let dram = spec_dram_area(mem[DRCRA], area);
            let byte_access = t == StateType::L;
            t != StateType::N && !(MEMORY_START_ADDR <= addr <= MEMORY_END_ADDR) && addr <= AREA7_END_ADDR ==> spec_cycles(
                mem,
                t,
                state,
                addr,
            ) == Some(
                if dram {
                    if word_bus || byte_access { (4 + wait) * state } else { (8 + 2 * wait) * state }
                } else if two_state {
                    if word_bus || byte_access { 2 * state } else { 4 * state }
                } else {
                    if word_bus || byte_access { (3 + wait) * state } else { (6 + 2 * wait) * state }
                },
            )
        }),
{
    let area = (addr / 0x200000) as u8;
    let wait = spec_wait_state(mem, area) as int;
    vstd::arithmetic::mul::lemma_mul_is_commutative(state as int, 4 + wait);
    vstd::arithmetic::mul::lemma_mul_is_commutative(state as int, 8 + 2 * wait);
    vstd::arithmetic::mul::lemma_mul_is_commutative(state as int, 3 + wait);
    vstd::arithmetic::mul::lemma_mul_is_commutative(state as int, 6 + 2 * wait);
}

/// Bytes stored from `base` read back at their addresses; every other
/// address that was mapped reads as before.
pub proof fn lemma_store_bytes_read(m: Map<u32, u8>, base: int, bytes: Seq<u8>)
    requires
        0 <= base,
        base + bytes.len() <= u32::MAX + 1,
    ensures
        forall|k: int| 0 <= k < bytes.len() ==> #[trigger] store_bytes(m, base, bytes)[(base + k) as u32] == bytes[k],
        forall|k: int| 0 <= k < bytes.len() ==> store_bytes(m, base, bytes).dom().contains(#[trigger] ((base + k) as u32)),
        forall|a: u32| m.dom().contains(a) ==> #[trigger] store_bytes(m, base, bytes).dom().contains(a),
        forall|a: u32| m.dom().contains(a) && !(base <= a < base + bytes.len()) ==> #[trigger] store_bytes(m, base, bytes)[a]
            == m[a],
    decreases bytes.len(),
{
    if bytes.len() > 0 {
        let front = bytes.drop_last();
        lemma_store_bytes_read(m, base, front);
        let last = (base + bytes.len() - 1) as u32;
        assert forall|k: int| 0 <= k < bytes.len() implies #[trigger] store_bytes(m, base, bytes)[(base + k) as u32]
            == bytes[k] by {
            if k < bytes.len() - 1 {
                assert(front[k] == bytes[k]);
                assert(store_bytes(m, base, front).dom().contains((base + k) as u32));
                assert((base + k) as u32 != last);
            }
        }
        assert forall|k: int| 0 <= k < bytes.len() implies store_bytes(m, base, bytes).dom().contains(
            #[trigger] ((base + k) as u32),
        ) by {
            if k < bytes.len() - 1 {
                assert(store_bytes(m, base, front).dom().contains((base + k) as u32));
            }
        }
        assert forall|a: u32| m.dom().contains(a) implies #[trigger] store_bytes(m, base, bytes).dom().contains(a) by {
            assert(store_bytes(m, base, front).dom().contains(a));
        }
        assert forall|a: u32| m.dom().contains(a) && !(base <= a < base + bytes.len()) implies #[trigger] store_bytes(
            m,
            base,
            bytes,
        )[a] == m[a] by {
            assert(store_bytes(m, base, front).dom().contains(a));
            assert(store_bytes(m, base, front)[a] == m[a]);
            assert(a != last);
        }
    }
}

/// The bus address at which byte `k` of a loadable segment is placed.
pub open spec fn segment_addr(ph: ProgramHeader32, k: int) -> int {
    PROGRAM_START_ADDR + ph.virtual_addr + k
}

/// Loading a segment copies its `size_in_file` bytes from the file, from its
/// offset on, to DRAM above the program start at its virtual address, and
/// changes no other byte, no register and no other part of the state.
pub proof fn law_segment_load(v: CpuView, b: Seq<u8>, ph: ProgramHeader32)
    requires
        ph.ty == PT_LOAD,
        segment_effect(v, b, ph).1 is Ok,
    ensures
        forall|k: int| 0 <= k < ph.size_in_file ==> #[trigger] segment_effect(v, b, ph).0.mem[segment_addr(ph, k) as u32]
            == b[ph.offset + k],
        forall|a: u32| v.mem.dom().contains(a) && !(segment_addr(ph, 0) <= a < segment_addr(ph, ph.size_in_file as int))
            ==> #[trigger] segment_effect(v, b, ph).0.mem[a] == v.mem[a],
        forall|a: u32| v.mem.dom().contains(a) ==> #[trigger] segment_effect(v, b, ph).0.mem.dom().contains(a),
        forall|k: int| 0 <= k < ph.size_in_file ==> segment_effect(v, b, ph).0.mem.dom().contains(
            #[trigger] (segment_addr(ph, k) as u32),
        ),
        segment_effect(v, b, ph).0 == (CpuView { mem: segment_effect(v, b, ph).0.mem, ..v }),
{
    let bytes = b.subrange(ph.offset as int, ph.offset + ph.size_in_file);
    lemma_store_bytes_read(v.mem, segment_addr(ph, 0), bytes);
}

/// Whether byte address `a` lies in a loadable segment among `phs` from the
/// `i`-th on.
pub open spec fn covered_from(phs: Seq<ProgramHeader32>, i: int, a: int) -> bool {
    exists|j: int| i <= j < phs.len() && phs[j].ty == PT_LOAD && segment_addr(phs[j], 0) <= a < #[trigger] segment_addr(
        phs[j],
        phs[j].size_in_file as int,
    )
}

/// Loading the segments in order: each byte of a loadable segment that no
/// later segment covers reads as in the file, and every byte that no
/// segment covers reads as before.
pub proof fn law_segments_load(v: CpuView, b: Seq<u8>, phs: Seq<ProgramHeader32>, i: int)
    requires
        0 <= i,
        segments_from(v, b, phs, i).1 is Ok,
    ensures
        forall|j: int, k: int|
            i <= j < phs.len() && phs[j].ty == PT_LOAD && 0 <= k < phs[j].size_in_file && !covered_from(
                phs,
                j + 1,
                segment_addr(phs[j], k),
            ) ==> #[trigger] segments_from(v, b, phs, i).0.mem[segment_addr(phs[j], k) as u32] == b[phs[j].offset + k],
        forall|a: u32| v.mem.dom().contains(a) && !covered_from(phs, i, a as int) ==> #[trigger] segments_from(
            v,
            b,
            phs,
            i,
        ).0.mem[a] == v.mem[a],
        forall|a: u32| v.mem.dom().contains(a) ==> #[trigger] segments_from(v, b, phs, i).0.mem.dom().contains(a),
        segments_from(v, b, phs, i).0 == (CpuView { mem: segments_from(v, b, phs, i).0.mem, ..v }),
    decreases phs.len() - i,
{
    if i < phs.len() {
        let (w, r) = segment_effect(v, b, phs[i]);
        law_segments_load(w, b, phs, i + 1);
        let out = segments_from(v, b, phs, i).0;
        if phs[i].ty == PT_LOAD {
            law_segment_load(v, b, phs[i]);
        }
        assert forall|j: int, k: int|
            i <= j < phs.len() && phs[j].ty == PT_LOAD && 0 <= k < phs[j].size_in_file && !covered_from(
                phs,
                j + 1,
                segment_addr(phs[j], k),
            ) implies #[trigger] out.mem[segment_addr(phs[j], k) as u32] == b[phs[j].offset + k] by {
            if j == i {
                let a = segment_addr(phs[j], k);
                assert((a as u32) as int == a);
                assert(w.mem.dom().contains(a as u32));
                assert(w.mem[a as u32] == b[phs[j].offset + k]);
                assert(out.mem[a as u32] == w.mem[a as u32]);
            }
        }
        assert forall|a: u32| v.mem.dom().contains(a) && !covered_from(phs, i, a as int) implies #[trigger] out.mem[a]
            == v.mem[a] by {
            assert(!covered_from(phs, i + 1, a as int)) by {
                if covered_from(phs, i + 1, a as int) {
                    let j = choose|j: int| i + 1 <= j < phs.len() && phs[j].ty == PT_LOAD && segment_addr(phs[j], 0)
                        <= a < #[trigger] segment_addr(phs[j], phs[j].size_in_file as int);
                    assert(i <= j);
                }
            }
            if phs[i].ty == PT_LOAD {
                assert(!(segment_addr(phs[i], 0) <= a < segment_addr(phs[i], phs[i].size_in_file as int)));
            }
        }
    }
}

/// Recording the exit routine: where a symbol is named `___exit`, the exit
/// address becomes the value of one such symbol plus the program start;
/// where none is, it stays as it was.
pub proof fn law_exit_symbol(v: CpuView, b: Seq<u8>, names: int, syms: Seq<Symbol32>, i: int)
    requires
        0 <= i,
        exits_from(v, b, names, syms, i).1 is Ok,
    ensures
        ({
            let e = exits_from(v, b, names, syms, i).0.exit_addr;
            ||| (e == v.exit_addr && forall|j: int| i <= j < syms.len() ==> cstr_from(b, names + (#[trigger] syms[j]).name_idx)
                != Some(exit_name()))
            ||| exists|j: int| i <= j < syms.len() && cstr_from(b, names + (#[trigger] syms[j]).name_idx) == Some(exit_name())
                && e == syms[j].value + PROGRAM_START_ADDR
        }),
        exits_from(v, b, names, syms, i).0 == (CpuView { exit_addr: exits_from(v, b, names, syms, i).0.exit_addr, ..v }),
    decreases syms.len() - i,
{
    if i < syms.len() {
        if cstr_from(b, names + syms[i].name_idx) == Some(exit_name()) {
            let w = CpuView { exit_addr: (syms[i].value + PROGRAM_START_ADDR) as u32, ..v };
            law_exit_symbol(w, b, names, syms, i + 1);
        } else {
            law_exit_symbol(v, b, names, syms, i + 1);
        }
    }
}

/// Setting up the stack: ER0 counts the arguments with the program's name
/// before them, ER7 leaves 8 bytes below a word-aligned top above the
/// program's image and its stack, and ER1 points above the top and the
/// task control block.
pub proof fn law_stack_setup(v: CpuView, sh: crate::elf::SectionHeader32, phs: Seq<ProgramHeader32>, args: Seq<Seq<u8>>)
    requires
        v.er.len() == 8,
        stack_effect(v, sh, phs, args).1 is Ok,
    ensures
        ({
            let w = stack_effect(v, sh, phs, args).0;
            let top = w.er[7] + 8;
            &&& w.er[0] == args.len() + 1
            &&& top % 4 == 0
            &&& top >= PROGRAM_START_ADDR + phs.last().size_in_mem + phs.last().physical_addr + sh.addr
            &&& top < PROGRAM_START_ADDR + phs.last().size_in_mem + phs.last().physical_addr + sh.addr + 4
            &&& w.er[1] >= top + SIZE_OF_TCB
        }),
{
    let list = seq![program_name()] + args;
    let a1 = (PROGRAM_START_ADDR + phs.last().size_in_mem + phs.last().physical_addr + sh.addr + 3) / 4 * 4;
    let a2 = (a1 + SIZE_OF_TCB + 3) / 4 * 4;
    let v1 = CpuView {
        er: v.er.update(7, (a1 % 0x1_0000_0000 - 8) as u32).update(0, list.len() as u32).update(1, (a2 % 0x1_0000_0000) as u32),
        ..v
    };
    lemma_args_er(v1, list, a2, a2 + 4 * (list.len() + 1), 0);
}

/// The argument vector that setting up the stack leaves at ER1: one
/// big-endian pointer per argument, the program's name first, each to that
/// argument's bytes and a NUL, laid end to end from past the vector and one
/// slot beyond it.
pub proof fn law_stack_args(v: CpuView, sh: crate::elf::SectionHeader32, phs: Seq<ProgramHeader32>, args: Seq<Seq<u8>>)
    requires
        v.er.len() == 8,
        stack_effect(v, sh, phs, args).1 is Ok,
    ensures
        ({
            let w = stack_effect(v, sh, phs, args).0;
            let list = seq![program_name()] + args;
            let argv = w.er[1] as int;
            let a = argv + 4 * (list.len() + 1);
            &&& forall|i: int| 0 <= i < list.len() ==> #[trigger] mem_be32(w.mem, argv + 4 * i) == arg_start(list, a, 0, i)
            &&& forall|i: int, k: int| 0 <= i < list.len() && 0 <= k <= list[i].len() ==> #[trigger] w.mem[(arg_start(
                list,
                a,
                0,
                i,
            ) + k) as u32] == #[trigger] list[i].push(0)[k]
        }),
{
    let list = seq![program_name()] + args;
    let a1 = (PROGRAM_START_ADDR + phs.last().size_in_mem + phs.last().physical_addr + sh.addr + 3) / 4 * 4;
    let a2 = (a1 + SIZE_OF_TCB + 3) / 4 * 4;
    let v1 = CpuView {
        er: v.er.update(7, (a1 % 0x1_0000_0000 - 8) as u32).update(0, list.len() as u32).update(1, (a2 % 0x1_0000_0000) as u32),
        ..v
    };
    let a = a2 + 4 * (list.len() + 1);
    assert(stack_effect(v, sh, phs, args) == args_from(v1, list, a2, a, 0));
    assert(a2 - AREA2_START_ADDR + 4 <= AREA2_SIZE);
    lemma_args_er(v1, list, a2, a, 0);
    law_args_layout(v1, list, a2, a, 0);
    let w = args_from(v1, list, a2, a, 0).0;
    assert(w.er[1] as int == a2);
    assert forall|i: int| 0 <= i < list.len() implies #[trigger] mem_be32(w.mem, a2 + 4 * i) == arg_start(list, a, 0, i) by {
        assert(a2 + 4 * (i - 0) == a2 + 4 * i);
    }
}

/// Reading `n` bytes from `start` that all lie where a device answers gives
/// the bytes at `start`, `start + 1`, and so on.
proof fn lemma_load_bytes(mem: Map<u32, u8>, start: u32, n: nat)
    requires
        load_bytes(mem, start, n) is Ok,
    ensures
        load_bytes(mem, start, n)->Ok_0.len() == n,
        forall|k: int| 0 <= k < n ==> #[trigger] load_bytes(mem, start, n)->Ok_0[k] == mem[(start + k) as u32],
    decreases n,
{
    if n > 0 {
        lemma_load_bytes(mem, start, (n - 1) as nat);
    }
}

/// The console write of the monitor (call 104): where it succeeds, the
/// console grows by exactly the `len` bytes of the buffer, in order; the
/// registers and the memory are unchanged.
pub proof fn law_console_write(v: CpuView)
    requires
        v.er.len() == 8,
        v.er[0] == SYSCALL_WRITE,
        syscall_effect(v).1 is Ok,
    ensures
        ({
            let new = syscall_effect(v).0;
            let buf = load_l(v.mem, (v.er[1] + 4) as u32)->Ok_0;
            let len = load_l(v.mem, (v.er[1] + 8) as u32)->Ok_0;
            &&& new.console.len() == v.console.len() + len
            &&& forall|k: int| 0 <= k < v.console.len() ==> #[trigger] new.console[k] == v.console[k]
            &&& forall|k: int| 0 <= k < len ==> #[trigger] new.console[v.console.len() + k] == v.mem[(buf + k) as u32]
            &&& new.er == v.er && new.mem == v.mem && new.pc == v.pc
        }),
{
    let buf = load_l(v.mem, (v.er[1] + 4) as u32)->Ok_0;
    let len = load_l(v.mem, (v.er[1] + 8) as u32)->Ok_0;
    lemma_load_bytes(v.mem, buf, len as nat);
    let new = syscall_effect(v).0;
    let s = load_bytes(v.mem, buf, len as nat)->Ok_0;
    assert forall|k: int| 0 <= k < len implies #[trigger] new.console[v.console.len() + k] == v.mem[(buf + k) as u32] by {
        assert(new.console[v.console.len() + k] == s[k]);
    }
}

/// A write request made of the text that the library sends the observer, a
/// `u8` tag with the address and the byte in lower-case hexadecimal, stores
/// that byte at that address.
pub proof fn law_write_request_round_trip(v: CpuView, tag: Seq<char>, a: u32, x: u8)
    ensures
        parse_u8_effect(v, seq![tag, hex_digits(a as nat), hex_digits(x as nat)]) == (CpuView {
            mem: store_b(v.mem, a, x).0,
            ..v
        }),
{
    law_hex_round_trip(a as nat);
    law_hex_round_trip(x as nat);
}

/// Where argument `i` of `list` starts when the arguments from the `j`-th
/// on are laid end to end from `a`, each followed by a NUL.
pub open spec fn arg_start(list: Seq<Seq<u8>>, a: int, j: int, i: int) -> int
    decreases i - j,
{
    if i <= j {
        a
    } else {
        arg_start(list, a, j, i - 1) + list[i - 1].len() + 1
    }
}

/// Laying the arguments from `j + 1` on from just past argument `j` puts
/// them where laying them from argument `j` on does.
proof fn lemma_arg_start_step(list: Seq<Seq<u8>>, a: int, j: int, i: int)
    requires
        0 <= j < i,
    ensures
        arg_start(list, a, j, i) == arg_start(list, a + list[j].len() + 1, j + 1, i),
        arg_start(list, a, j, i) >= a + list[j].len() + 1,
    decreases i - j,
{
    reveal_with_fuel(arg_start, 2);
    if i > j + 1 {
        lemma_arg_start_step(list, a, j, i - 1);
    }
}

/// Arguments laid out later start no lower.
proof fn lemma_arg_start_mono(list: Seq<Seq<u8>>, a: int, j: int, i: int, k: int)
    requires
        j <= i <= k,
    ensures
        arg_start(list, a, j, i) + (if i < k { list[i].len() + 1 } else { 0 }) <= arg_start(list, a, j, k),
    decreases k - i,
{
    if i < k {
        if i + 1 < k {
            lemma_arg_start_mono(list, a, j, i + 1, k);
        }
    }
}

/// Storing the arguments from the `j`-th on, with the pointer slots from
/// `argp` below the strings from `a`: where it succeeds, slot `i - j` holds
/// the address at which argument `i` starts, the argument's bytes and a NUL
/// lie there, and every byte below `argp` or between the slots and the
/// strings reads as before.
pub proof fn law_args_layout(v: CpuView, list: Seq<Seq<u8>>, argp: int, a: int, j: int)
    requires
        0 <= j <= list.len(),
        AREA2_START_ADDR <= argp,
        argp + 4 * (list.len() - j) <= a,
        args_from(v, list, argp, a, j).1 is Ok,
    ensures
        ({
            let m = args_from(v, list, argp, a, j).0.mem;
            &&& forall|i: int| j <= i < list.len() ==> #[trigger] mem_be32(m, argp + 4 * (i - j)) == arg_start(list, a, j, i)
            &&& forall|i: int, k: int| j <= i < list.len() && 0 <= k <= list[i].len() ==> #[trigger] m[(arg_start(
                list,
                a,
                j,
                i,
            ) + k) as u32] == #[trigger] list[i].push(0)[k]
            &&& forall|x: u32| v.mem.dom().contains(x) ==> #[trigger] m.dom().contains(x)
            &&& forall|x: u32| v.mem.dom().contains(x) && (x < argp || argp + 4 * (list.len() - j) <= x < a) ==> #[trigger] m[x]
                == v.mem[x]
            &&& args_from(v, list, argp, a, j).0 == (CpuView { mem: m, ..v })
        }),
    decreases list.len() - j,
{
    if j < list.len() {
        let bytes = list[j].push(0);
        let mem1 = store_bytes(v.mem, argp, be_bytes((a % 0x1_0000_0000) as u32));
        let (mem2, r) = store_dram_bytes(mem1, a - AREA2_START_ADDR, bytes);
        assert(argp - AREA2_START_ADDR + 4 <= AREA2_SIZE);
        assert(a - AREA2_START_ADDR + bytes.len() <= AREA2_SIZE);
        assert(mem2 == store_bytes(mem1, a, bytes));
        let w = CpuView { mem: mem2, ..v };
        lemma_store_be32(v.mem, argp, (a % 0x1_0000_0000) as u32);
        lemma_store_bytes_read(v.mem, argp, be_bytes((a % 0x1_0000_0000) as u32));
        lemma_store_bytes_read(mem1, a, bytes);
        law_args_layout(w, list, argp + 4, a + list[j].len() + 1, j + 1);
        let m = args_from(w, list, argp + 4, a + list[j].len() + 1, j + 1).0.mem;
        // the slot of argument j survives the later stores
        assert(mem_be32(m, argp) == a) by {
            assert(mem_be32(mem1, argp) == a);
            assert(mem2[argp as u32] == mem1[argp as u32]);
            assert(mem2[(argp + 1) as u32] == mem1[(argp + 1) as u32]);
            assert(mem2[(argp + 2) as u32] == mem1[(argp + 2) as u32]);
            assert(mem2[(argp + 3) as u32] == mem1[(argp + 3) as u32]);
            assert(mem1.dom().contains(argp as u32));
            assert(mem1.dom().contains((argp + 1) as u32));
            assert(mem1.dom().contains((argp + 2) as u32));
            assert(mem1.dom().contains((argp + 3) as u32));
            assert(m[argp as u32] == mem2[argp as u32]);
            assert(m[(argp + 1) as u32] == mem2[(argp + 1) as u32]);
            assert(m[(argp + 2) as u32] == mem2[(argp + 2) as u32]);
            assert(m[(argp + 3) as u32] == mem2[(argp + 3) as u32]);
        }
        assert forall|i: int| j <= i < list.len() implies #[trigger] mem_be32(m, argp + 4 * (i - j)) == arg_start(
            list,
            a,
            j,
            i,
        ) by {
            if i > j {
                lemma_arg_start_step(list, a, j, i);
                assert(argp + 4 * (i - j) == (argp + 4) + 4 * (i - (j + 1)));
            }
        }
        assert forall|i: int, k: int| j <= i < list.len() && 0 <= k <= list[i].len() implies #[trigger] m[(arg_start(
            list,
            a,
            j,
            i,
        ) + k) as u32] == #[trigger] list[i].push(0)[k] by {
            if i > j {
                lemma_arg_start_step(list, a, j, i);
            } else {
                assert(mem2[(a + k) as u32] == bytes[k]);
                assert(mem2.dom().contains((a + k) as u32));
                assert(argp + 4 + 4 * (list.len() - (j + 1)) <= a + k < a + list[j].len() + 1);
            }
        }
        assert forall|x: u32| v.mem.dom().contains(x) && (x < argp || argp + 4 * (list.len() - j) <= x < a) implies #[trigger] m[x]
            == v.mem[x] by {
            assert(mem1[x] == v.mem[x]);
            assert(mem1.dom().contains(x));
            assert(mem2[x] == mem1[x]);
        }
        assert forall|x: u32| v.mem.dom().contains(x) implies #[trigger] m.dom().contains(x) by {
            assert(mem1.dom().contains(x));
            assert(mem2.dom().contains(x));
        }
    }
}

/// The observer's control lines: `pause` stops the stepping, `restart`
/// resumes it and times the run afresh, `stop` ends the run, and any other
/// line changes nothing.
pub proof fn law_control_lines(paused: bool, line: Seq<char>)
    ensures
        paused_after(paused, message_of("pause"@)) && control_of(message_of("pause"@)) == Control::Continue,
        !paused_after(paused, message_of("restart"@)) && control_of(message_of("restart"@)) == Control::RestartTimer,
        paused_after(paused, message_of("stop"@)) == paused && control_of(message_of("stop"@)) == Control::Stop,
        line != "pause"@ && line != "restart"@ && line != "stop"@ ==> paused_after(paused, message_of(line)) == paused
            && control_of(message_of(line)) == Control::Continue,
{
    reveal_strlit("pause");
    reveal_strlit("restart");
    reveal_strlit("stop");
    assert("pause"@ != "restart"@ && "pause"@ != "stop"@ && "restart"@ != "stop"@) by {
        assert("pause"@.len() != "restart"@.len());
        assert("pause"@.len() != "stop"@.len());
        assert("restart"@.len() != "stop"@.len());
    }
}

} // verus!
