use vstd::prelude::*;

use crate::cpu::addressing_mode::abs::{load_b, load_l, store_l};
use crate::cpu::interrupt_controller::exception_entry;
use crate::cpu::instruction::{add_cycles, cyc, lemma_small_cycles, nibble};
use crate::cpu::{cycles_result, Cpu, CpuView, StateType, ADDRESS_MASK, CCR};
use crate::error::EmuError;
use vstd::utf8::{
    decode_first_codepoint, length_of_first_codepoint, length_of_first_scalar, partial_valid_partial_invalid_utf8,
    partial_valid_utf8, partial_valid_utf8_extend, valid_first_scalar, valid_leading_and_continuation_bytes_first_codepoint,
    valid_utf8,
};

verus! {

/// The system call that installs an interrupt handler.
pub const SYSCALL_SET_HANDLER: u32 = 113;

/// The system call that writes to the console.
pub const SYSCALL_WRITE: u32 = 104;

/// Reading the `n` bytes from `start` upwards: the bytes, or the error of
/// the first address where no device answers.
pub open spec fn load_bytes(mem: Map<u32, u8>, start: u32, n: nat) -> Result<Seq<u8>, EmuError>
    decreases n,
{
    if n == 0 {
        Ok(Seq::empty())
    } else {
        match load_bytes(mem, start, (n - 1) as nat) {
            Err(e) => Err(e),
            Ok(s) => match load_b(mem, (start + n - 1) as u32) {
                Err(e) => Err(e),
                Ok(b) => Ok(s.push(b)),
            },
        }
    }
}

/// Once a read of the bytes fails, reading more of them fails the same way.
proof fn lemma_load_bytes_err(mem: Map<u32, u8>, start: u32, k: nat, n: nat)
    requires
        k <= n,
        load_bytes(mem, start, k) is Err,
    ensures
        load_bytes(mem, start, n) == load_bytes(mem, start, k),
    decreases n - k,
{
    if k < n {
        lemma_load_bytes_err(mem, start, k, (n - 1) as nat);
    }
}

/// What installing a handler does, with the vector number and the handler
/// address read from the argument block: the vector becomes a `JMP` to the
/// handler, and ER5 is saved in the table at 0xfffd10.
pub open spec fn set_handler_effect(v: CpuView, arg0: u32, arg1: u32) -> (CpuView, Result<(), EmuError>) {
    if arg0 < 1 || arg0 >= 64 {
        (v, Ok(()))
    } else {
        let (m1, r1) = store_l(v.mem, (arg0 * 4) as u32, (arg1 + 0x5a000000) as u32);
        if r1 is Err {
            (CpuView { mem: m1, ..v }, r1)
        } else {
            let (m2, r2) = store_l(m1, (0xfffd10 + arg0 * 4) as u32, v.er[5]);
            (CpuView { mem: m2, ..v }, r2)
        }
    }
}

/// What the console write does, with the buffer address and length read from
/// the argument block: the bytes are appended to the console if they are UTF-8.
pub open spec fn write_effect(v: CpuView, buf: u32, len: u32) -> (CpuView, Result<(), EmuError>) {
    match load_bytes(v.mem, buf, len as nat) {
        Err(e) => (v, Err(e)),
        Ok(s) => if valid_utf8(s) {
            (CpuView { console: v.console + s, ..v }, Ok(()))
        } else {
            (v, Err(EmuError::InvalidUtf8))
        },
    }
}

/// The system calls of `TRAPA #0`: ER0 selects the call, ER1 points at its
/// argument block; the state after the call and its result.
pub open spec fn syscall_effect(v: CpuView) -> (CpuView, Result<(), EmuError>) {
    let id = v.er[0];
    let a = v.er[1];
    if id == SYSCALL_SET_HANDLER {
        match load_l(v.mem, a) {
            Err(e) => (v, Err(e)),
            Ok(arg0) => match load_l(v.mem, (a + 4) as u32) {
                Err(e) => (v, Err(e)),
                Ok(arg1) => set_handler_effect(v, arg0, arg1),
            },
        }
    } else if id == SYSCALL_WRITE {
        match load_l(v.mem, a) {
            Err(e) => (v, Err(e)),
            Ok(_fd) => match load_l(v.mem, (a + 4) as u32) {
                Err(e) => (v, Err(e)),
                Ok(buf) => match load_l(v.mem, (a + 8) as u32) {
                    Err(e) => (v, Err(e)),
                    Ok(len) => write_effect(v, buf, len),
                },
            },
        }
    } else {
        (v, Err(EmuError::UnsupportedSystemCall(id)))
    }
}

/// Installing a handler adds the handler address to the opcode of `JMP`,
/// which must stay within 32 bits.
pub open spec fn syscall_pre(v: CpuView) -> bool {
    let a = v.er[1];
    v.er[0] == SYSCALL_SET_HANDLER ==> match (load_l(v.mem, a), load_l(v.mem, (a + 4) as u32)) {
        (Ok(arg0), Ok(arg1)) => 1 <= arg0 < 64 ==> arg1 + 0x5a000000 <= u32::MAX,
        _ => true,
    }
}

/// `TRAPA #0` emulates the monitor's system calls; the other vectors push
/// CCR and the program counter and need room on the stack.
pub open spec fn trapa_pre(v: CpuView, opcode: u16) -> bool {
    if nibble(opcode, 3) == 0 {
        syscall_pre(v)
    } else {
        v.er[7] >= 4
    }
}

/// Two fetch states, two stack states at `access_addr`, four internal states.
pub open spec fn trapa_cycles(v: CpuView, access_addr: u32) -> Result<u8, EmuError> {
    add_cycles(
        add_cycles(cyc(v, StateType::I, 2), cycles_result(v.mem, StateType::K, 2, access_addr)),
        cyc(v, StateType::N, 4),
    )
}

/// What `TRAPA #x:2` (x in nibble 3) does: a system call for vector 0;
/// otherwise CCR and the program counter are pushed, the program counter is
/// loaded from the vector at 0x20 + 4x and interrupts are masked.
pub open spec fn trapa_post(old: CpuView, new: CpuView, opcode: u16, r: Result<u8, EmuError>) -> bool {
    let access = old.er[7] & ADDRESS_MASK;
    let imm = nibble(opcode, 3);
    if imm == 0 {
        let (s, res) = syscall_effect(old);
        &&& new == s
        &&& r == if res is Err {
            Err::<u8, EmuError>(res->Err_0)
        } else {
            trapa_cycles(s, access)
        }
    } else {
        let (s, res) = exception_entry(old, (0x20 + 4 * imm) as u32);
        &&& new == s
        &&& r == if res is Err {
            Err::<u8, EmuError>(res->Err_0)
        } else {
            trapa_cycles(s, access)
        }
    }
}

/// The length of the scalar whose UTF-8 encoding starts `bytes` at `i`, or
/// 0 where no well-formed encoding starts there.
fn first_scalar_len(bytes: &[u8], i: usize) -> (r: usize)
    requires
        i < bytes@.len(),
    ensures
        ({
            let rest = bytes@.subrange(i as int, bytes@.len() as int);
            &&& (r != 0) == valid_first_scalar(rest)
            &&& r != 0 ==> r == length_of_first_scalar(rest)
        }),
{
    let ghost rest = bytes@.subrange(i as int, bytes@.len() as int);
    let len = bytes.len();
    let b0 = bytes[i];
    let (n, cp): (usize, u32) = if b0 <= 0x7f {
        (1, (b0 & 0x7F) as u32)
    } else if 0xc0 <= b0 && b0 <= 0xdf && len - i >= 2 && 0x80 <= bytes[i + 1] && bytes[i + 1] <= 0xbf {
        (2, (((b0 & 0x1F) as u32) << 6) | ((bytes[i + 1] & 0x3f) as u32))
    } else if 0xe0 <= b0 && b0 <= 0xef && len - i >= 3 && 0x80 <= bytes[i + 1] && bytes[i + 1] <= 0xbf
        && 0x80 <= bytes[i + 2] && bytes[i + 2] <= 0xbf {
        (3, (((b0 & 0x0F) as u32) << 12) | (((bytes[i + 1] & 0x3f) as u32) << 6) | ((bytes[i + 2] & 0x3f) as u32))
    } else if 0xf0 <= b0 && b0 <= 0xf7 && len - i >= 4 && 0x80 <= bytes[i + 1] && bytes[i + 1] <= 0xbf
        && 0x80 <= bytes[i + 2] && bytes[i + 2] <= 0xbf && 0x80 <= bytes[i + 3] && bytes[i + 3] <= 0xbf {
        (
            4,
            (((b0 & 0x07) as u32) << 18) | (((bytes[i + 1] & 0x3f) as u32) << 12) | (((bytes[i + 2] & 0x3f)
                as u32) << 6) | ((bytes[i + 3] & 0x3f) as u32),
        )
    } else {
        (0, 0)
    };
    if n == 0 {
        return 0;
    }
    assert(valid_leading_and_continuation_bytes_first_codepoint(rest));
    assert(cp == decode_first_codepoint(rest));
    assert(n == length_of_first_codepoint(rest));
    let not_overlong = (n != 2 || 0x80 <= cp) && (n != 3 || 0x800 <= cp) && (n != 4 || (0x10000 <= cp
        && cp <= 0x10ffff));
    let not_surrogate = !(0xD800 <= cp && cp <= 0xDFFF);
    if not_overlong && not_surrogate {
        n
    } else {
        0
    }
}

/// Whether `bytes` is well-formed UTF-8, scalar by scalar.
fn is_utf8(bytes: &[u8]) -> (r: bool)
    ensures
        r == valid_utf8(bytes@),
{
    let len = bytes.len();
    let mut i: usize = 0;
    assert(bytes@.subrange(0, 0) =~= Seq::<u8>::empty());
    while i < len
        invariant
            i <= len,
            len == bytes@.len(),
            partial_valid_utf8(bytes@, i as int),
        decreases len - i,
    {
        let n = first_scalar_len(bytes, i);
        if n == 0 {
            proof {
                partial_valid_partial_invalid_utf8(bytes@, i as int);
            }
            return false;
        }
        proof {
            partial_valid_utf8_extend(bytes@, i as int);
        }
        i = i + n;
    }
    assert(bytes@.subrange(0, len as int) =~= bytes@);
    true
}

impl Cpu {
    /// `TRAPA #x:2`.
    pub fn trapa(&mut self, opcode: u16) -> (r: Result<u8, EmuError>)
        requires
            old(self).wf(),
            trapa_pre(old(self)@, opcode),
        ensures
            final(self).wf(),
            trapa_post(old(self)@, final(self)@, opcode, r),
    {
        let access_addr = self.er[7] & ADDRESS_MASK;
        let imm = Cpu::get_nibble_opcode(opcode, 3).unwrap();
        if imm == 0 {
            match self.trapa_emulate_mes2() {
                Ok(_) => {},
                Err(e) => return Err(e),
            }
        } else {
            let value = ((self.ccr as u32) << 24) | self.pc;
            match self.write_dec_ern_l(7, value) {
                Ok(_) => {},
                Err(e) => return Err(e),
            }
            let vec_addr: u32 = (0x20 + 4 * imm) as u32;
            let dest_addr = match self.read_abs24_l(vec_addr) {
                Ok(d) => d,
                Err(e) => return Err(e),
            };
            self.pc = dest_addr & ADDRESS_MASK;
            self.write_ccr(CCR::I, 1);
        }
        proof {
            lemma_small_cycles(self@.mem, StateType::I, 2, self.operating_pc);
            lemma_small_cycles(self@.mem, StateType::K, 2, access_addr);
            lemma_small_cycles(self@.mem, StateType::N, 4, self.operating_pc);
        }
        let s1 = match self.calc_state(StateType::I, 2) {
            Ok(s) => s,
            Err(e) => return Err(e),
        };
        let s2 = match self.calc_state_with_addr(StateType::K, 2, access_addr) {
            Ok(s) => s,
            Err(e) => return Err(e),
        };
        let s3 = match self.calc_state(StateType::N, 4) {
            Ok(s) => s,
            Err(e) => return Err(e),
        };
        Ok(s1 + s2 + s3)
    }

    /// The monitor's system calls: install an interrupt handler (ER0 = 113)
    /// or write bytes to the console (ER0 = 104); ER1 points at the arguments.
    pub fn trapa_emulate_mes2(&mut self) -> (r: Result<(), EmuError>)
        requires
            old(self).wf(),
            syscall_pre(old(self)@),
        ensures
            final(self).wf(),
            (final(self)@, r) == syscall_effect(old(self)@),
    {
        let id = self.er[0];
        let arg_addr = self.er[1];
        if id == SYSCALL_SET_HANDLER {
            let arg0 = match self.read_abs24_l(arg_addr) {
                Ok(v) => v,
                Err(e) => return Err(e),
            };
            let arg1 = match self.read_abs24_l(arg_addr + 4) {
                Ok(v) => v,
                Err(e) => return Err(e),
            };
            if arg0 < 1 || arg0 >= 64 {
                return Ok(());
            }
            let inst = arg1 + 0x5a000000;
            match self.write_abs24_l(arg0 * 4, inst) {
                Ok(_) => {},
                Err(e) => return Err(e),
            }
            let gotsave = 0xfffd10 + arg0 * 4;
            let er5 = self.er[5];
            self.write_abs24_l(gotsave, er5)
        } else if id == SYSCALL_WRITE {
            let _fd = match self.read_abs24_l(arg_addr) {
                Ok(v) => v,
                Err(e) => return Err(e),
            };
            let buf = match self.read_abs24_l(arg_addr + 4) {
                Ok(v) => v,
                Err(e) => return Err(e),
            };
            let len = match self.read_abs24_l(arg_addr + 8) {
                Ok(v) => v,
                Err(e) => return Err(e),
            };
            assert(syscall_effect(old(self)@) == write_effect(old(self)@, buf, len));
            let mut chars: Vec<u8> = Vec::new();
            let mut i: u32 = 0;
            while i < len
                invariant
                    self.wf(),
                    self@ == old(self)@,
                    syscall_effect(old(self)@) == write_effect(old(self)@, buf, len),
                    i <= len,
                    load_bytes(self@.mem, buf, i as nat) == Ok::<Seq<u8>, EmuError>(chars@),
                    i > 0 ==> buf + i - 1 <= 0xffffff,
                decreases len - i,
            {
                let c = match self.read_abs24_b(buf + i) {
                    Ok(c) => c,
                    Err(e) => {
                        proof {
                            assert(load_bytes(self@.mem, buf, (i + 1) as nat) == Err::<Seq<u8>, EmuError>(e));
                            lemma_load_bytes_err(self@.mem, buf, (i + 1) as nat, len as nat);
                        }
                        return Err(e);
                    },
                };
                chars.push(c);
                i = i + 1;
            }
            if !is_utf8(chars.as_slice()) {
                return Err(EmuError::InvalidUtf8);
            }
            self.console.append(&mut chars);
            Ok(())
        } else {
            Err(EmuError::UnsupportedSystemCall(id))
        }
    }
}

} // verus!
