use vstd::prelude::*;

use crate::cpu::addressing_mode::pc::sext8;
use crate::cpu::instruction::add_b::add_b_post;
use crate::cpu::instruction::add_l::{add_l_post, add_l_pre};
use crate::cpu::instruction::adds::adds_post;
use crate::cpu::instruction::addx::{addx_imm_post, addx_rn_post};
use crate::cpu::instruction::and::{and_b_imm_post, and_b_rn_post, and_l_imm_post, and_l_imm_pre, and_l_rn_post, and_w_imm_post, and_w_imm_pre, and_w_rn_post};
use crate::cpu::instruction::band::{band_abs_post, band_ern_post, band_rn_post};
use crate::cpu::instruction::bcc::{bcc_post, bcc_pre};
use crate::cpu::instruction::bior::{bior_abs_post, bior_ern_post, bior_rn_post};
use crate::cpu::instruction::bist::{bist_abs_post, bist_ern_post, bist_rn_post};
use crate::cpu::instruction::bset::{bset_abs_post, bset_ern_post, bset_rn_from_imm_post, bset_rn_from_rn_post};
use crate::cpu::instruction::bsr::{bsr_disp24_post, bsr_disp24_pre, bsr_post, bsr_pre};
use crate::cpu::instruction::btst::{btst_imm_abs_post, btst_imm_abs_pre, btst_imm_ern_post, btst_imm_ern_pre, btst_imm_rn_post, btst_imm_rn_pre, btst_rn_abs_post, btst_rn_abs_pre, btst_rn_ern_post, btst_rn_ern_pre, btst_rn_rn_post, btst_rn_rn_pre};
use crate::cpu::instruction::cmp_b::{cmp_b_imm_post, cmp_b_rn_post};
use crate::cpu::instruction::cmp_l::{cmp_l_imm_post, cmp_l_imm_pre, cmp_l_rn_post};
use crate::cpu::instruction::cmp_w::{cmp_w_imm_post, cmp_w_imm_pre, cmp_w_rn_post};
use crate::cpu::instruction::dec::{dec_b_post, dec_l_post, dec_w_post};
use crate::cpu::instruction::divxu::{divxu_b_post, divxu_w_post};
use crate::cpu::instruction::extu::{extu_l_post, extu_w_post};
use crate::cpu::instruction::inc::{inc_b_post, inc_b_pre, inc_l_post, inc_l_pre, inc_w_post, inc_w_pre};
use crate::cpu::instruction::jmp::{jmp_post, jmp_pre};
use crate::cpu::instruction::jsr::{jsr_post, jsr_pre};
use crate::cpu::instruction::mov_b::{mov_b_disp24_post, mov_b_disp24_pre, mov_b_post, mov_b_pre};
use crate::cpu::instruction::mov_l::{mov_l_post, mov_l_pre};
use crate::cpu::instruction::mov_w::{mov_w_disp24_post, mov_w_disp24_pre, mov_w_post, mov_w_pre};
use crate::cpu::instruction::mulxu::{mulxu_b_post, mulxu_w_post};
use crate::cpu::instruction::neg::{neg_b_post, neg_l_post, neg_w_post};
use crate::cpu::instruction::not::{not_b_post, not_l_post, not_w_post};
use crate::cpu::instruction::or::{or_b_imm_post, or_b_rn_post, or_l_imm_post, or_l_imm_pre, or_l_rn_post, or_w_imm_post, or_w_imm_pre, or_w_rn_post};
use crate::cpu::instruction::rotl::{rotl_b_post, rotl_l_post, rotl_w_post};
use crate::cpu::instruction::rotr::{rotr_b_post, rotr_l_post, rotr_w_post};
use crate::cpu::instruction::rotxl::{rotxl_b_post, rotxl_l_post, rotxl_w_post};
use crate::cpu::instruction::rte::{rte_post, rte_pre};
use crate::cpu::instruction::rts::{rts_post, rts_pre};
use crate::cpu::instruction::shal::{shal_b_post, shal_l_post, shal_w_post};
use crate::cpu::instruction::stc::{stc_abs16_post, stc_abs16_pre, stc_abs24_post, stc_abs24_pre, stc_b_post, stc_w_disp16_post, stc_w_disp16_pre, stc_w_disp24_post, stc_w_disp24_pre, stc_w_ern_post, stc_w_inc_ern_post, stc_w_inc_ern_pre};
use crate::cpu::instruction::sub_b::sub_b_post;
use crate::cpu::instruction::sub_l::{sub_l_post, sub_l_pre};
use crate::cpu::instruction::sub_w::{sub_w_post, sub_w_pre};
use crate::cpu::instruction::subs::subs_post;
use crate::cpu::instruction::trapa::{trapa_post, trapa_pre};
use crate::cpu::instruction::xor::{xor_b_imm_post, xor_b_rn_post, xor_l_imm_post, xor_l_imm_pre, xor_l_rn_post, xor_w_imm_post, xor_w_imm_pre, xor_w_rn_post};
use crate::cpu::instruction::{get_high_byte, get_low_byte, high_byte, low_byte};
use crate::cpu::{can_fetch, fetched, fetched_word, Cpu, CpuView};
use crate::error::EmuError;

verus! {

/// An instruction that the emulator does not implement: nothing changes
/// but what fetching it did.
pub open spec fn unimpl_post(v: CpuView, new: CpuView, opcode: u16, r: Result<u8, EmuError>) -> bool {
    new == v && r == Err::<u8, EmuError>(EmuError::Unimplemented(opcode, v.operating_pc))
}

/// The first words that `MOV.B` decodes.
pub open spec fn is_mov_b(h: u8) -> bool {
    h == 0x0c || h >= 0xf0 || h == 0x68 || h == 0x6e || h == 0x6c || (0x20 <= h <= 0x3f) || h == 0x6a
}

/// The first words that `MOV.W` decodes on their own.
pub open spec fn is_mov_w(h: u8) -> bool {
    h == 0x0d || h == 0x69 || h == 0x6f || h == 0x6d || h == 0x6b
}

/// The instructions with the 0x01 prefix: `MOV.L` (0x0100), `STC.W`
/// (0x0140) and the long logical operations between registers (0x01f0).
pub open spec fn prefix_01_pre(v: CpuView, opcode: u16) -> bool {
    let l = low_byte(opcode);
    if l == 0x00 {
        mov_l_pre(v, opcode)
    } else if l == 0x40 {
        can_fetch(v) && stc_w_pre(fetched(v), fetched_word(v))
    } else if l == 0xf0 {
        can_fetch(v)
    } else {
        true
    }
}

/// `STC.W` by its second word, from the state after that word was fetched.
pub open spec fn stc_w_pre(v1: CpuView, opcode2: u16) -> bool {
    let h2 = high_byte(opcode2);
    let store = opcode2 & 0x80 != 0;
    &&& (h2 == 0x6f && store) ==> stc_w_disp16_pre(v1, opcode2)
    &&& h2 == 0x78 ==> stc_w_disp24_pre(v1, opcode2)
    &&& (h2 == 0x6d && store) ==> stc_w_inc_ern_pre(v1, opcode2)
    &&& opcode2 & 0xfff0 == 0x6b80 ==> stc_abs16_pre(v1)
    &&& opcode2 & 0xfff0 == 0x6ba0 ==> stc_abs24_pre(v1)
}

/// What `STC.W` does by its second word; the load forms are not implemented.
pub open spec fn stc_w_dispatch_post(v1: CpuView, new: CpuView, opcode: u16, opcode2: u16, r: Result<u8, EmuError>) -> bool {
    let h2 = high_byte(opcode2);
    let store = opcode2 & 0x80 != 0;
    if h2 == 0x69 && store {
        stc_w_ern_post(v1, new, opcode2, r)
    } else if h2 == 0x6f && store {
        stc_w_disp16_post(v1, new, opcode2, r)
    } else if h2 == 0x78 {
        stc_w_disp24_post(v1, new, opcode2, r)
    } else if h2 == 0x6d && store {
        stc_w_inc_ern_post(v1, new, opcode2, r)
    } else if opcode2 & 0xfff0 == 0x6b80 {
        stc_abs16_post(v1, new, r)
    } else if opcode2 & 0xfff0 == 0x6ba0 {
        stc_abs24_post(v1, new, r)
    } else {
        unimpl_post(v1, new, opcode, r)
    }
}

/// What the instructions with the 0x01 prefix do.
pub open spec fn prefix_01_post(old: CpuView, new: CpuView, opcode: u16, r: Result<u8, EmuError>) -> bool {
    let l = low_byte(opcode);
    let v1 = fetched(old);
    let w2 = fetched_word(old);
    let h2 = high_byte(w2);
    if l == 0x00 {
        mov_l_post(old, new, opcode, r)
    } else if l == 0x40 {
        stc_w_dispatch_post(v1, new, opcode, w2, r)
    } else if l == 0xf0 {
        if h2 == 0x64 {
            or_l_rn_post(v1, new, opcode, w2, r)
        } else if h2 == 0x65 {
            xor_l_rn_post(v1, new, opcode, w2, r)
        } else if h2 == 0x66 {
            and_l_rn_post(v1, new, opcode, w2, r)
        } else {
            unimpl_post(v1, new, opcode, r)
        }
    } else {
        unimpl_post(old, new, opcode, r)
    }
}

/// The word instructions with first byte 0x79, by nibble 3.
pub open spec fn group_79_pre(v: CpuView, opcode: u16) -> bool {
    let op = opcode & 0x00f0;
    &&& op == 0x00 ==> mov_w_pre(v, opcode)
    &&& op == 0x20 ==> cmp_w_imm_pre(v, opcode)
    &&& op == 0x30 ==> sub_w_pre(v, opcode)
    &&& op == 0x40 ==> or_w_imm_pre(v, opcode)
    &&& op == 0x50 ==> xor_w_imm_pre(v, opcode)
    &&& op == 0x60 ==> and_w_imm_pre(v, opcode)
}

/// What the word instructions with first byte 0x79 do; `ADD.W #xx:16` is
/// not implemented.
pub open spec fn group_79_post(old: CpuView, new: CpuView, opcode: u16, r: Result<u8, EmuError>) -> bool {
    let op = opcode & 0x00f0;
    if op == 0x00 {
        mov_w_post(old, new, opcode, r)
    } else if op == 0x20 {
        cmp_w_imm_post(old, new, opcode, r)
    } else if op == 0x30 {
        sub_w_post(old, new, opcode, r)
    } else if op == 0x40 {
        or_w_imm_post(old, new, opcode, r)
    } else if op == 0x50 {
        xor_w_imm_post(old, new, opcode, r)
    } else if op == 0x60 {
        and_w_imm_post(old, new, opcode, r)
    } else {
        unimpl_post(old, new, opcode, r)
    }
}

/// The long instructions with first byte 0x7a, by nibble 3.
pub open spec fn group_7a_pre(v: CpuView, opcode: u16) -> bool {
    let op = opcode & 0x00f0;
    &&& op == 0x00 ==> mov_l_pre(v, opcode)
    &&& op == 0x10 ==> add_l_pre(v, opcode)
    &&& op == 0x20 ==> cmp_l_imm_pre(v, opcode)
    &&& op == 0x30 ==> sub_l_pre(v, opcode)
    &&& op == 0x40 ==> or_l_imm_pre(v, opcode)
    &&& op == 0x50 ==> xor_l_imm_pre(v, opcode)
    &&& op == 0x60 ==> and_l_imm_pre(v, opcode)
}

/// What the long instructions with first byte 0x7a do.
pub open spec fn group_7a_post(old: CpuView, new: CpuView, opcode: u16, r: Result<u8, EmuError>) -> bool {
    let op = opcode & 0x00f0;
    if op == 0x00 {
        mov_l_post(old, new, opcode, r)
    } else if op == 0x10 {
        add_l_post(old, new, opcode, r)
    } else if op == 0x20 {
        cmp_l_imm_post(old, new, opcode, r)
    } else if op == 0x30 {
        sub_l_post(old, new, opcode, r)
    } else if op == 0x40 {
        or_l_imm_post(old, new, opcode, r)
    } else if op == 0x50 {
        xor_l_imm_post(old, new, opcode, r)
    } else if op == 0x60 {
        and_l_imm_post(old, new, opcode, r)
    } else {
        unimpl_post(old, new, opcode, r)
    }
}

/// The 24-bit displacement moves (prefix 0x78), by their second word.
pub open spec fn prefix_78_pre(v: CpuView, opcode: u16) -> bool {
    let v1 = fetched(v);
    let w2 = fetched_word(v);
    &&& can_fetch(v)
    &&& high_byte(w2) == 0x6a ==> mov_b_disp24_pre(v1, opcode, w2)
    &&& high_byte(w2) == 0x6b ==> mov_w_disp24_pre(v1, opcode, w2)
}

/// What the 24-bit displacement moves (prefix 0x78) do.
pub open spec fn prefix_78_post(old: CpuView, new: CpuView, opcode: u16, r: Result<u8, EmuError>) -> bool {
    let v1 = fetched(old);
    let w2 = fetched_word(old);
    if high_byte(w2) == 0x6a {
        mov_b_disp24_post(v1, new, opcode, w2, r)
    } else if high_byte(w2) == 0x6b {
        mov_w_disp24_post(v1, new, opcode, w2, r)
    } else {
        unimpl_post(v1, new, opcode, r)
    }
}

/// The bit instructions on memory (prefixes 0x7c to 0x7f), by their second word.
pub open spec fn bit_mem_pre(v: CpuView, opcode: u16) -> bool {
    let h = high_byte(opcode);
    let v1 = fetched(v);
    let w2 = fetched_word(v);
    let sel = w2 & 0xff80;
    &&& can_fetch(v)
    &&& h == 0x7c && (sel == 0x6300 || sel == 0x6380) ==> btst_rn_ern_pre(v1, opcode, w2)
    &&& h == 0x7c && sel == 0x7300 ==> btst_imm_ern_pre(v1, opcode, w2)
    &&& h == 0x7e && (sel == 0x6300 || sel == 0x6380) ==> btst_rn_abs_pre(v1, opcode, w2)
    &&& h == 0x7e && sel == 0x7300 ==> btst_imm_abs_pre(v1, opcode, w2)
}

/// What the bit instructions on memory do: `@ERd` with 0x7c (tests) and
/// 0x7d (changes), `@aa:8` with 0x7e and 0x7f; the forms of `BOR`, `BXOR`,
/// `BIXOR`, `BIAND`, `BLD`, `BILD`, `BNOT`, `BCLR` and `BST` are not implemented.
pub open spec fn bit_mem_post(old: CpuView, new: CpuView, opcode: u16, r: Result<u8, EmuError>) -> bool {
    let h = high_byte(opcode);
    let v1 = fetched(old);
    let w2 = fetched_word(old);
    let sel = w2 & 0xff80;
    if h == 0x7c {
        if sel == 0x6300 || sel == 0x6380 {
            btst_rn_ern_post(v1, new, opcode, w2, r)
        } else if sel == 0x7300 {
            btst_imm_ern_post(v1, new, opcode, w2, r)
        } else if sel == 0x7480 {
            bior_ern_post(v1, new, opcode, w2, r)
        } else if sel == 0x7600 {
            band_ern_post(v1, new, opcode, w2, r)
        } else {
            unimpl_post(v1, new, opcode, r)
        }
    } else if h == 0x7d {
        if sel == 0x6000 || sel == 0x6080 || sel == 0x7000 {
            bset_ern_post(v1, new, opcode, w2, r)
        } else if sel == 0x6780 {
            bist_ern_post(v1, new, opcode, w2, r)
        } else {
            unimpl_post(v1, new, opcode, r)
        }
    } else if h == 0x7e {
        if sel == 0x6300 || sel == 0x6380 {
            btst_rn_abs_post(v1, new, opcode, w2, r)
        } else if sel == 0x7300 {
            btst_imm_abs_post(v1, new, opcode, w2, r)
        } else if sel == 0x7480 {
            bior_abs_post(v1, new, opcode, w2, r)
        } else if sel == 0x7600 {
            band_abs_post(v1, new, opcode, w2, r)
        } else {
            unimpl_post(v1, new, opcode, r)
        }
    } else {
        if sel == 0x6000 || sel == 0x6080 || sel == 0x7000 {
            bset_abs_post(v1, new, opcode, w2, r)
        } else if sel == 0x6780 {
            bist_abs_post(v1, new, opcode, w2, r)
        } else {
            unimpl_post(v1, new, opcode, r)
        }
    }
}

/// What the bit instructions on registers (0x60 to 0x63, 0x67, 0x70 to
/// 0x77) do; `BNOT`, `BCLR`, `BST`, `BOR`, `BXOR`, `BIXOR`, `BIAND`, `BLD`
/// and `BILD` are not implemented.
pub open spec fn bit_rn_post(old: CpuView, new: CpuView, opcode: u16, r: Result<u8, EmuError>) -> bool {
    let h = high_byte(opcode);
    let neg = opcode & 0x80 != 0;
    if h == 0x60 {
        bset_rn_from_rn_post(old, new, opcode, r)
    } else if h == 0x63 {
        btst_rn_rn_post(old, new, opcode, r)
    } else if h == 0x67 && neg {
        bist_rn_post(old, new, opcode, r)
    } else if h == 0x70 {
        bset_rn_from_imm_post(old, new, opcode, r)
    } else if h == 0x73 {
        btst_imm_rn_post(old, new, opcode, r)
    } else if h == 0x74 && neg {
        bior_rn_post(old, new, opcode, r)
    } else if h == 0x76 && !neg {
        band_rn_post(old, new, opcode, r)
    } else {
        unimpl_post(old, new, opcode, r)
    }
}

/// What the increments and additions of 0x0a and 0x0b do, by the low byte.
pub open spec fn group_0a_0b_pre(v: CpuView, opcode: u16) -> bool {
    let h = high_byte(opcode);
    let l = low_byte(opcode);
    &&& (h == 0x0a && l <= 0x0f) ==> inc_b_pre(v, opcode)
    &&& (h == 0x0a && 0x80 <= l <= 0xf7) ==> add_l_pre(v, opcode)
    &&& (h == 0x0b && ((0x50 <= l <= 0x5f) || (0xd0 <= l <= 0xdf))) ==> inc_w_pre(v, opcode)
    &&& (h == 0x0b && ((0x70 <= l <= 0x77) || (0xf0 <= l <= 0xf7))) ==> inc_l_pre(v, opcode)
}

/// What `INC`, `ADD.L Rs, ERd` and `ADDS` (0x0a, 0x0b) do.
pub open spec fn group_0a_0b_post(old: CpuView, new: CpuView, opcode: u16, r: Result<u8, EmuError>) -> bool {
    let h = high_byte(opcode);
    let l = low_byte(opcode);
    if h == 0x0a {
        if l <= 0x0f {
            inc_b_post(old, new, opcode, r)
        } else if 0x80 <= l <= 0xf7 {
            add_l_post(old, new, opcode, r)
        } else {
            unimpl_post(old, new, opcode, r)
        }
    } else if 0x50 <= l <= 0x5f {
        inc_w_post(old, new, opcode, false, r)
    } else if 0xd0 <= l <= 0xdf {
        inc_w_post(old, new, opcode, true, r)
    } else if 0x70 <= l <= 0x77 {
        inc_l_post(old, new, opcode, false, r)
    } else if 0xf0 <= l <= 0xf7 {
        inc_l_post(old, new, opcode, true, r)
    } else if l <= 0x07 {
        adds_post(old, new, opcode, 1, r)
    } else if 0x80 <= l <= 0x87 {
        adds_post(old, new, opcode, 2, r)
    } else if 0x90 <= l <= 0x97 {
        adds_post(old, new, opcode, 4, r)
    } else {
        unimpl_post(old, new, opcode, r)
    }
}

/// What `DEC`, `SUB.L Rs, ERd` and `SUBS` (0x1a, 0x1b) do.
pub open spec fn group_1a_1b_post(old: CpuView, new: CpuView, opcode: u16, r: Result<u8, EmuError>) -> bool {
    let h = high_byte(opcode);
    let l = low_byte(opcode);
    if h == 0x1a {
        if l <= 0x0f {
            dec_b_post(old, new, opcode, r)
        } else if 0x80 <= l <= 0xf7 {
            sub_l_post(old, new, opcode, r)
        } else {
            unimpl_post(old, new, opcode, r)
        }
    } else if 0x50 <= l <= 0x5f {
        dec_w_post(old, new, opcode, 1, r)
    } else if 0xd0 <= l <= 0xdf {
        dec_w_post(old, new, opcode, 2, r)
    } else if 0x70 <= l <= 0x77 {
        dec_l_post(old, new, opcode, 1, r)
    } else if 0xf0 <= l <= 0xf7 {
        dec_l_post(old, new, opcode, 2, r)
    } else if l <= 0x07 {
        subs_post(old, new, opcode, -1i32, r)
    } else if 0x80 <= l <= 0x87 {
        subs_post(old, new, opcode, -2i32, r)
    } else if 0x90 <= l <= 0x97 {
        subs_post(old, new, opcode, -4i32, r)
    } else {
        unimpl_post(old, new, opcode, r)
    }
}

/// What the shifts and rotations (0x10 to 0x13) and `NOT`, `NEG` and `EXTU`
/// (0x17) do; `SHLL`, `SHLR`, `SHAR` and `ROTXR` are not implemented.
pub open spec fn shift_post(old: CpuView, new: CpuView, opcode: u16, r: Result<u8, EmuError>) -> bool {
    let h = high_byte(opcode);
    let l = low_byte(opcode);
    if h == 0x10 && 0x80 <= l <= 0x8f {
        shal_b_post(old, new, opcode, r)
    } else if h == 0x10 && 0x90 <= l <= 0x9f {
        shal_w_post(old, new, opcode, r)
    } else if h == 0x10 && 0xb0 <= l <= 0xb7 {
        shal_l_post(old, new, opcode, r)
    } else if h == 0x12 && l <= 0x0f {
        rotxl_b_post(old, new, opcode, r)
    } else if h == 0x12 && 0x10 <= l <= 0x1f {
        rotxl_w_post(old, new, opcode, r)
    } else if h == 0x12 && 0x30 <= l <= 0x37 {
        rotxl_l_post(old, new, opcode, r)
    } else if h == 0x12 && 0x80 <= l <= 0x8f {
        rotl_b_post(old, new, opcode, r)
    } else if h == 0x12 && 0x90 <= l <= 0x9f {
        rotl_w_post(old, new, opcode, r)
    } else if h == 0x12 && 0xb0 <= l <= 0xb7 {
        rotl_l_post(old, new, opcode, r)
    } else if h == 0x13 && 0x80 <= l <= 0x8f {
        rotr_b_post(old, new, opcode, r)
    } else if h == 0x13 && 0x90 <= l <= 0x9f {
        rotr_w_post(old, new, opcode, r)
    } else if h == 0x13 && 0xb0 <= l <= 0xb7 {
        rotr_l_post(old, new, opcode, r)
    } else if h == 0x17 && l <= 0x0f {
        not_b_post(old, new, opcode, r)
    } else if h == 0x17 && 0x10 <= l <= 0x1f {
        not_w_post(old, new, opcode, r)
    } else if h == 0x17 && 0x30 <= l <= 0x37 {
        not_l_post(old, new, opcode, r)
    } else if h == 0x17 && 0x50 <= l <= 0x5f {
        extu_w_post(old, new, opcode, r)
    } else if h == 0x17 && 0x70 <= l <= 0x77 {
        extu_l_post(old, new, opcode, r)
    } else if h == 0x17 && 0x80 <= l <= 0x8f {
        neg_b_post(old, new, opcode, r)
    } else if h == 0x17 && 0x90 <= l <= 0x9f {
        neg_w_post(old, new, opcode, r)
    } else if h == 0x17 && 0xb0 <= l <= 0xb7 {
        neg_l_post(old, new, opcode, r)
    } else {
        unimpl_post(old, new, opcode, r)
    }
}

/// What the arithmetic and logical instructions on registers and immediates
/// with a first byte of their own do.
pub open spec fn alu_post(old: CpuView, new: CpuView, opcode: u16, r: Result<u8, EmuError>) -> bool {
    let h = high_byte(opcode);
    if (0x80 <= h <= 0x8f) || h == 0x08 {
        add_b_post(old, new, opcode, r)
    } else if h == 0x18 {
        sub_b_post(old, new, opcode, r)
    } else if h == 0x19 {
        sub_w_post(old, new, opcode, r)
    } else if 0xa0 <= h <= 0xaf {
        cmp_b_imm_post(old, new, opcode, r)
    } else if h == 0x1c {
        cmp_b_rn_post(old, new, opcode, r)
    } else if h == 0x1d {
        cmp_w_rn_post(old, new, opcode, r)
    } else if h == 0x1f {
        cmp_l_rn_post(old, new, opcode, r)
    } else if 0xc0 <= h <= 0xcf {
        or_b_imm_post(old, new, opcode, r)
    } else if h == 0x14 {
        or_b_rn_post(old, new, opcode, r)
    } else if h == 0x64 {
        or_w_rn_post(old, new, opcode, r)
    } else if 0xd0 <= h <= 0xdf {
        xor_b_imm_post(old, new, opcode, r)
    } else if h == 0x15 {
        xor_b_rn_post(old, new, opcode, r)
    } else if h == 0x65 {
        xor_w_rn_post(old, new, opcode, r)
    } else if 0xe0 <= h <= 0xef {
        and_b_imm_post(old, new, opcode, r)
    } else if h == 0x16 {
        and_b_rn_post(old, new, opcode, r)
    } else if h == 0x66 {
        and_w_rn_post(old, new, opcode, r)
    } else if 0x90 <= h <= 0x9f {
        addx_imm_post(old, new, opcode, r)
    } else if h == 0x0e {
        addx_rn_post(old, new, opcode, r)
    } else if h == 0x50 {
        mulxu_b_post(old, new, opcode, r)
    } else if h == 0x52 {
        mulxu_w_post(old, new, opcode, r)
    } else if h == 0x51 {
        divxu_b_post(old, new, opcode, r)
    } else if h == 0x53 {
        divxu_w_post(old, new, opcode, r)
    } else {
        unimpl_post(old, new, opcode, r)
    }
}

/// The first bytes of the instructions that `alu_post` covers.
pub open spec fn is_alu(h: u8) -> bool {
    (0x80 <= h <= 0x8f) || h == 0x08 || h == 0x18 || h == 0x19 || (0xa0 <= h <= 0xaf) || h == 0x1c
        || h == 0x1d || h == 0x1f || (0xc0 <= h <= 0xcf) || h == 0x14 || h == 0x64 || (0xd0 <= h
        <= 0xdf) || h == 0x15 || h == 0x65 || (0xe0 <= h <= 0xef) || h == 0x16 || h == 0x66 || (0x90
        <= h <= 0x9f) || h == 0x0e || (0x50 <= h <= 0x53)
}

/// What executing the instruction whose first word is `opcode` needs: the
/// words that follow it, and the conditions of the instruction it decodes to.
pub open spec fn exec_pre(v: CpuView, opcode: u16) -> bool {
    let h = high_byte(opcode);
    if is_mov_b(h) {
        mov_b_pre(v, opcode)
    } else if is_mov_w(h) {
        mov_w_pre(v, opcode)
    } else if h == 0x0f {
        mov_l_pre(v, opcode)
    } else if h == 0x01 {
        prefix_01_pre(v, opcode)
    } else if h == 0x55 {
        bsr_pre(v, sext8(low_byte(opcode)))
    } else if h == 0x5c {
        bsr_disp24_pre(v, opcode)
    } else if h == 0x63 {
        btst_rn_rn_pre(v, opcode)
    } else if h == 0x73 {
        btst_imm_rn_pre(v, opcode)
    } else if h == 0x78 {
        prefix_78_pre(v, opcode)
    } else if h == 0x79 {
        group_79_pre(v, opcode)
    } else if h == 0x7a {
        group_7a_pre(v, opcode)
    } else if 0x7c <= h <= 0x7f {
        bit_mem_pre(v, opcode)
    } else if h == 0x0a || h == 0x0b {
        group_0a_0b_pre(v, opcode)
    } else if h == 0x1a {
        0x80 <= low_byte(opcode) <= 0xf7 ==> sub_l_pre(v, opcode)
    } else if h == 0x19 {
        sub_w_pre(v, opcode)
    } else if 0x59 <= h <= 0x5b {
        jmp_pre(v, opcode)
    } else if 0x5d <= h <= 0x5f {
        jsr_pre(v, opcode)
    } else if (0x40 <= h <= 0x4f) || h == 0x58 {
        bcc_pre(v, opcode)
    } else if h == 0x54 {
        rts_pre(v)
    } else if h == 0x56 {
        rte_pre(v)
    } else if h == 0x57 {
        trapa_pre(v, opcode)
    } else {
        true
    }
}

/// What executing the instruction whose first word is `opcode` (already
/// fetched) does, by the instruction that it decodes to.
pub open spec fn exec_post(old: CpuView, new: CpuView, opcode: u16, r: Result<u8, EmuError>) -> bool {
    let h = high_byte(opcode);
    if is_mov_b(h) {
        mov_b_post(old, new, opcode, r)
    } else if is_mov_w(h) {
        mov_w_post(old, new, opcode, r)
    } else if h == 0x0f {
        mov_l_post(old, new, opcode, r)
    } else if h == 0x01 {
        prefix_01_post(old, new, opcode, r)
    } else if h == 0x02 {
        stc_b_post(old, new, opcode, r)
    } else if h == 0x55 {
        bsr_post(old, new, sext8(low_byte(opcode)), 8, r)
    } else if h == 0x5c {
        bsr_disp24_post(old, new, opcode, r)
    } else if (0x60 <= h <= 0x63) || h == 0x67 || (0x70 <= h <= 0x77) {
        bit_rn_post(old, new, opcode, r)
    } else if h == 0x78 {
        prefix_78_post(old, new, opcode, r)
    } else if h == 0x79 {
        group_79_post(old, new, opcode, r)
    } else if h == 0x7a {
        group_7a_post(old, new, opcode, r)
    } else if 0x7c <= h <= 0x7f {
        bit_mem_post(old, new, opcode, r)
    } else if h == 0x0a || h == 0x0b {
        group_0a_0b_post(old, new, opcode, r)
    } else if h == 0x1a || h == 0x1b {
        group_1a_1b_post(old, new, opcode, r)
    } else if (0x10 <= h <= 0x13) || h == 0x17 {
        shift_post(old, new, opcode, r)
    } else if is_alu(h) {
        alu_post(old, new, opcode, r)
    } else if 0x59 <= h <= 0x5b {
        jmp_post(old, new, opcode, r)
    } else if 0x5d <= h <= 0x5f {
        jsr_post(old, new, opcode, r)
    } else if (0x40 <= h <= 0x4f) || h == 0x58 {
        bcc_post(old, new, opcode, r)
    } else if h == 0x54 {
        rts_post(old, new, r)
    } else if h == 0x56 {
        rte_post(old, new, r)
    } else if h == 0x57 {
        trapa_post(old, new, opcode, r)
    } else {
        unimpl_post(old, new, opcode, r)
    }
}

impl Cpu {
    /// Executes the instruction whose first word `opcode` was just fetched,
    /// fetching the words that follow it, and returns the states it took.
    pub fn exec(&mut self, opcode: u16) -> (r: Result<u8, EmuError>)
        requires
            old(self).wf(),
            exec_pre(old(self)@, opcode),
        ensures
            final(self).wf(),
            exec_post(old(self)@, final(self)@, opcode, r),
    {
        let h = get_high_byte(opcode);
        if h == 0x0c || h >= 0xf0 || h == 0x68 || h == 0x6e || h == 0x6c || (0x20 <= h && h <= 0x3f)
            || h == 0x6a {
            self.mov_b(opcode)
        } else if h == 0x0d || h == 0x69 || h == 0x6f || h == 0x6d || h == 0x6b {
            self.mov_w(opcode)
        } else if h == 0x0f {
            self.mov_l(opcode)
        } else if h == 0x01 {
            self.exec_prefix_01(opcode)
        } else if h == 0x02 {
            self.stc_b(opcode)
        } else if h == 0x55 {
            self.bsr_disp16(opcode)
        } else if h == 0x5c {
            self.bsr_disp24(opcode)
        } else if (0x60 <= h && h <= 0x63) || h == 0x67 || (0x70 <= h && h <= 0x77) {
            self.exec_bit_rn(opcode)
        } else if h == 0x78 {
            self.exec_prefix_78(opcode)
        } else if h == 0x79 {
            self.exec_group_79(opcode)
        } else if h == 0x7a {
            self.exec_group_7a(opcode)
        } else if 0x7c <= h && h <= 0x7f {
            self.exec_bit_mem(opcode)
        } else if h == 0x0a || h == 0x0b {
            self.exec_group_0a_0b(opcode)
        } else if h == 0x1a || h == 0x1b {
            self.exec_group_1a_1b(opcode)
        } else if (0x10 <= h && h <= 0x13) || h == 0x17 {
            self.exec_shift(opcode)
        } else if 0x59 <= h && h <= 0x5b {
            self.jmp(opcode)
        } else if 0x5d <= h && h <= 0x5f {
            self.jsr(opcode)
        } else if (0x40 <= h && h <= 0x4f) || h == 0x58 {
            self.bcc(opcode)
        } else if h == 0x54 {
            self.rts()
        } else if h == 0x56 {
            self.rte()
        } else if h == 0x57 {
            self.trapa(opcode)
        } else {
            self.exec_alu(opcode)
        }
    }

    /// Refuses an instruction that the emulator does not implement.
    fn unimplemented(&self, opcode: u16) -> (r: Result<u8, EmuError>)
        ensures
            unimpl_post(self@, self@, opcode, r),
    {
        Err(EmuError::Unimplemented(opcode, self.operating_pc))
    }

    fn exec_prefix_01(&mut self, opcode: u16) -> (r: Result<u8, EmuError>)
        requires
            old(self).wf(),
            high_byte(opcode) == 0x01,
            prefix_01_pre(old(self)@, opcode),
        ensures
            final(self).wf(),
            prefix_01_post(old(self)@, final(self)@, opcode, r),
    {
        let l = get_low_byte(opcode);
        if l == 0x00 {
            self.mov_l(opcode)
        } else if l == 0x40 {
            let opcode2 = self.fetch();
            self.exec_stc_w(opcode, opcode2)
        } else if l == 0xf0 {
            let opcode2 = self.fetch();
            let h2 = get_high_byte(opcode2);
            if h2 == 0x64 {
                self.or_l_rn(opcode, opcode2)
            } else if h2 == 0x65 {
                self.xor_l_rn(opcode, opcode2)
            } else if h2 == 0x66 {
                self.and_l_rn(opcode, opcode2)
            } else {
                self.unimplemented(opcode)
            }
        } else {
            self.unimplemented(opcode)
        }
    }

    fn exec_stc_w(&mut self, opcode: u16, opcode2: u16) -> (r: Result<u8, EmuError>)
        requires
            old(self).wf(),
            stc_w_pre(old(self)@, opcode2),
        ensures
            final(self).wf(),
            stc_w_dispatch_post(old(self)@, final(self)@, opcode, opcode2, r),
    {
        let h2 = get_high_byte(opcode2);
        let store = opcode2 & 0x80 != 0;
        if h2 == 0x69 && store {
            self.stc_w_ern(opcode2)
        } else if h2 == 0x6f && store {
            self.stc_w_disp16(opcode2)
        } else if h2 == 0x78 {
            self.stc_w_disp24(opcode2)
        } else if h2 == 0x6d && store {
            self.stc_w_inc_ern(opcode2)
        } else if opcode2 & 0xfff0 == 0x6b80 {
            self.stc_abs16()
        } else if opcode2 & 0xfff0 == 0x6ba0 {
            self.stc_abs24()
        } else {
            self.unimplemented(opcode)
        }
    }

    fn exec_group_79(&mut self, opcode: u16) -> (r: Result<u8, EmuError>)
        requires
            old(self).wf(),
            high_byte(opcode) == 0x79,
            group_79_pre(old(self)@, opcode),
        ensures
            final(self).wf(),
            group_79_post(old(self)@, final(self)@, opcode, r),
    {
        let op = opcode & 0x00f0;
        if op == 0x00 {
            self.mov_w(opcode)
        } else if op == 0x20 {
            self.cmp_w_imm(opcode)
        } else if op == 0x30 {
            self.sub_w(opcode)
        } else if op == 0x40 {
            self.or_w_imm(opcode)
        } else if op == 0x50 {
            self.xor_w_imm(opcode)
        } else if op == 0x60 {
            self.and_w_imm(opcode)
        } else {
            self.unimplemented(opcode)
        }
    }

    fn exec_group_7a(&mut self, opcode: u16) -> (r: Result<u8, EmuError>)
        requires
            old(self).wf(),
            high_byte(opcode) == 0x7a,
            group_7a_pre(old(self)@, opcode),
        ensures
            final(self).wf(),
            group_7a_post(old(self)@, final(self)@, opcode, r),
    {
        let op = opcode & 0x00f0;
        if op == 0x00 {
            self.mov_l(opcode)
        } else if op == 0x10 {
            self.add_l(opcode)
        } else if op == 0x20 {
            self.cmp_l_imm(opcode)
        } else if op == 0x30 {
            self.sub_l(opcode)
        } else if op == 0x40 {
            self.or_l_imm(opcode)
        } else if op == 0x50 {
            self.xor_l_imm(opcode)
        } else if op == 0x60 {
            self.and_l_imm(opcode)
        } else {
            self.unimplemented(opcode)
        }
    }

    fn exec_prefix_78(&mut self, opcode: u16) -> (r: Result<u8, EmuError>)
        requires
            old(self).wf(),
            prefix_78_pre(old(self)@, opcode),
        ensures
            final(self).wf(),
            prefix_78_post(old(self)@, final(self)@, opcode, r),
    {
        let opcode2 = self.fetch();
        let h2 = get_high_byte(opcode2);
        if h2 == 0x6a {
            self.mov_b_disp24(opcode, opcode2)
        } else if h2 == 0x6b {
            self.mov_w_disp24(opcode, opcode2)
        } else {
            self.unimplemented(opcode)
        }
    }

    fn exec_bit_mem(&mut self, opcode: u16) -> (r: Result<u8, EmuError>)
        requires
            old(self).wf(),
            0x7c <= high_byte(opcode) <= 0x7f,
            bit_mem_pre(old(self)@, opcode),
        ensures
            final(self).wf(),
            bit_mem_post(old(self)@, final(self)@, opcode, r),
    {
        let h = get_high_byte(opcode);
        let opcode2 = self.fetch();
        let sel = opcode2 & 0xff80;
        if h == 0x7c {
            if sel == 0x6300 || sel == 0x6380 {
                self.btst_rn_ern(opcode, opcode2)
            } else if sel == 0x7300 {
                self.btst_imm_ern(opcode, opcode2)
            } else if sel == 0x7480 {
                self.bior_ern(opcode, opcode2)
            } else if sel == 0x7600 {
                self.band_ern(opcode, opcode2)
            } else {
                self.unimplemented(opcode)
            }
        } else if h == 0x7d {
            if sel == 0x6000 || sel == 0x6080 || sel == 0x7000 {
                self.bset_ern(opcode, opcode2)
            } else if sel == 0x6780 {
                self.bist_ern(opcode, opcode2)
            } else {
                self.unimplemented(opcode)
            }
        } else if h == 0x7e {
            if sel == 0x6300 || sel == 0x6380 {
                self.btst_rn_abs(opcode, opcode2)
            } else if sel == 0x7300 {
                self.btst_imm_abs(opcode, opcode2)
            } else if sel == 0x7480 {
                self.bior_abs(opcode, opcode2)
            } else if sel == 0x7600 {
                self.band_abs(opcode, opcode2)
            } else {
                self.unimplemented(opcode)
            }
        } else {
            if sel == 0x6000 || sel == 0x6080 || sel == 0x7000 {
                self.bset_abs(opcode, opcode2)
            } else if sel == 0x6780 {
                self.bist_abs(opcode, opcode2)
            } else {
                self.unimplemented(opcode)
            }
        }
    }

    fn exec_bit_rn(&mut self, opcode: u16) -> (r: Result<u8, EmuError>)
        requires
            old(self).wf(),
            high_byte(opcode) == 0x63 ==> btst_rn_rn_pre(old(self)@, opcode),
            high_byte(opcode) == 0x73 ==> btst_imm_rn_pre(old(self)@, opcode),
        ensures
            final(self).wf(),
            bit_rn_post(old(self)@, final(self)@, opcode, r),
    {
        let h = get_high_byte(opcode);
        let neg = opcode & 0x80 != 0;
        if h == 0x60 {
            self.bset_rn_from_rn(opcode)
        } else if h == 0x63 {
            self.btst_rn_rn(opcode)
        } else if h == 0x67 && neg {
            self.bist_rn(opcode)
        } else if h == 0x70 {
            self.bset_rn_from_imm(opcode)
        } else if h == 0x73 {
            self.btst_imm_rn(opcode)
        } else if h == 0x74 && neg {
            self.bior_rn(opcode)
        } else if h == 0x76 && !neg {
            self.band_rn(opcode)
        } else {
            self.unimplemented(opcode)
        }
    }

    fn exec_group_0a_0b(&mut self, opcode: u16) -> (r: Result<u8, EmuError>)
        requires
            old(self).wf(),
            high_byte(opcode) == 0x0a || high_byte(opcode) == 0x0b,
            group_0a_0b_pre(old(self)@, opcode),
        ensures
            final(self).wf(),
            group_0a_0b_post(old(self)@, final(self)@, opcode, r),
    {
        let h = get_high_byte(opcode);
        let l = get_low_byte(opcode);
        if h == 0x0a {
            if l <= 0x0f {
                self.inc_b(opcode)
            } else if 0x80 <= l && l <= 0xf7 {
                self.add_l(opcode)
            } else {
                self.unimplemented(opcode)
            }
        } else if 0x50 <= l && l <= 0x5f {
            self.inc_w_1(opcode)
        } else if 0xd0 <= l && l <= 0xdf {
            self.inc_w_2(opcode)
        } else if 0x70 <= l && l <= 0x77 {
            self.inc_l_1(opcode)
        } else if 0xf0 <= l && l <= 0xf7 {
            self.inc_l_2(opcode)
        } else if l <= 0x07 {
            self.adds1(opcode)
        } else if 0x80 <= l && l <= 0x87 {
            self.adds2(opcode)
        } else if 0x90 <= l && l <= 0x97 {
            self.adds4(opcode)
        } else {
            self.unimplemented(opcode)
        }
    }

    fn exec_group_1a_1b(&mut self, opcode: u16) -> (r: Result<u8, EmuError>)
        requires
            old(self).wf(),
            high_byte(opcode) == 0x1a || high_byte(opcode) == 0x1b,
            (high_byte(opcode) == 0x1a && 0x80 <= low_byte(opcode) <= 0xf7) ==> sub_l_pre(old(self)@, opcode),
        ensures
            final(self).wf(),
            group_1a_1b_post(old(self)@, final(self)@, opcode, r),
    {
        let h = get_high_byte(opcode);
        let l = get_low_byte(opcode);
        if h == 0x1a {
            if l <= 0x0f {
                self.dec_b(opcode)
            } else if 0x80 <= l && l <= 0xf7 {
                self.sub_l(opcode)
            } else {
                self.unimplemented(opcode)
            }
        } else if 0x50 <= l && l <= 0x5f {
            self.dec_w_1(opcode)
        } else if 0xd0 <= l && l <= 0xdf {
            self.dec_w_2(opcode)
        } else if 0x70 <= l && l <= 0x77 {
            self.dec_l_1(opcode)
        } else if 0xf0 <= l && l <= 0xf7 {
            self.dec_l_2(opcode)
        } else if l <= 0x07 {
            self.subs1(opcode)
        } else if 0x80 <= l && l <= 0x87 {
            self.subs2(opcode)
        } else if 0x90 <= l && l <= 0x97 {
            self.subs4(opcode)
        } else {
            self.unimplemented(opcode)
        }
    }

    fn exec_shift(&mut self, opcode: u16) -> (r: Result<u8, EmuError>)
        requires
            old(self).wf(),
        ensures
            final(self).wf(),
            shift_post(old(self)@, final(self)@, opcode, r),
    {
        let h = get_high_byte(opcode);
        let l = get_low_byte(opcode);
        if h == 0x10 && 0x80 <= l && l <= 0x8f {
            self.shal_b(opcode)
        } else if h == 0x10 && 0x90 <= l && l <= 0x9f {
            self.shal_w(opcode)
        } else if h == 0x10 && 0xb0 <= l && l <= 0xb7 {
            self.shal_l(opcode)
        } else if h == 0x12 && l <= 0x0f {
            self.rotxl_b(opcode)
        } else if h == 0x12 && 0x10 <= l && l <= 0x1f {
            self.rotxl_w(opcode)
        } else if h == 0x12 && 0x30 <= l && l <= 0x37 {
            self.rotxl_l(opcode)
        } else if h == 0x12 && 0x80 <= l && l <= 0x8f {
            self.rotl_b(opcode)
        } else if h == 0x12 && 0x90 <= l && l <= 0x9f {
            self.rotl_w(opcode)
        } else if h == 0x12 && 0xb0 <= l && l <= 0xb7 {
            self.rotl_l(opcode)
        } else if h == 0x13 && 0x80 <= l && l <= 0x8f {
            self.rotr_b(opcode)
        } else if h == 0x13 && 0x90 <= l && l <= 0x9f {
            self.rotr_w(opcode)
        } else if h == 0x13 && 0xb0 <= l && l <= 0xb7 {
            self.rotr_l(opcode)
        } else if h == 0x17 && l <= 0x0f {
            self.not_b(opcode)
        } else if h == 0x17 && 0x10 <= l && l <= 0x1f {
            self.not_w(opcode)
        } else if h == 0x17 && 0x30 <= l && l <= 0x37 {
            self.not_l(opcode)
        } else if h == 0x17 && 0x50 <= l && l <= 0x5f {
            self.extu_w(opcode)
        } else if h == 0x17 && 0x70 <= l && l <= 0x77 {
            self.extu_l(opcode)
        } else if h == 0x17 && 0x80 <= l && l <= 0x8f {
            self.neg_b(opcode)
        } else if h == 0x17 && 0x90 <= l && l <= 0x9f {
            self.neg_w(opcode)
        } else if h == 0x17 && 0xb0 <= l && l <= 0xb7 {
            self.neg_l(opcode)
        } else {
            self.unimplemented(opcode)
        }
    }

    fn exec_alu(&mut self, opcode: u16) -> (r: Result<u8, EmuError>)
        requires
            old(self).wf(),
            high_byte(opcode) == 0x19 ==> sub_w_pre(old(self)@, opcode),
        ensures
            final(self).wf(),
            alu_post(old(self)@, final(self)@, opcode, r),
    {
        let h = get_high_byte(opcode);
        if (0x80 <= h && h <= 0x8f) || h == 0x08 {
            self.add_b(opcode)
        } else if h == 0x18 {
            self.sub_b(opcode)
        } else if h == 0x19 {
            self.sub_w(opcode)
        } else if 0xa0 <= h && h <= 0xaf {
            self.cmp_b_imm(opcode)
        } else if h == 0x1c {
            self.cmp_b_rn(opcode)
        } else if h == 0x1d {
            self.cmp_w_rn(opcode)
        } else if h == 0x1f {
            self.cmp_l_rn(opcode)
        } else if 0xc0 <= h && h <= 0xcf {
            self.or_b_imm(opcode)
        } else if h == 0x14 {
            self.or_b_rn(opcode)
        } else if h == 0x64 {
            self.or_w_rn(opcode)
        } else if 0xd0 <= h && h <= 0xdf {
            self.xor_b_imm(opcode)
        } else if h == 0x15 {
            self.xor_b_rn(opcode)
        } else if h == 0x65 {
            self.xor_w_rn(opcode)
        } else if 0xe0 <= h && h <= 0xef {
            self.and_b_imm(opcode)
        } else if h == 0x16 {
            self.and_b_rn(opcode)
        } else if h == 0x66 {
            self.and_w_rn(opcode)
        } else if 0x90 <= h && h <= 0x9f {
            self.addx_imm(opcode)
        } else if h == 0x0e {
            self.addx_rn(opcode)
        } else if h == 0x50 {
            self.mulxu_b(opcode)
        } else if h == 0x52 {
            self.mulxu_w(opcode)
        } else if h == 0x51 {
            self.divxu_b(opcode)
        } else if h == 0x53 {
            self.divxu_w(opcode)
        } else {
            self.unimplemented(opcode)
        }
    }
}

} // verus!
