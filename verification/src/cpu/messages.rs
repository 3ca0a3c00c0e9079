use vstd::prelude::*;

use crate::bus::Bus;
use crate::cpu::addressing_mode::abs::store_b;
use crate::cpu::{Cpu, CpuView};
use crate::error::EmuError;

verus! {

/// The lower-case hexadecimal digit of `d` (below 16).
pub open spec fn hex_char(d: nat) -> char {
    if d < 10 {
        (48 + d) as char
    } else {
        (87 + d) as char
    }
}

/// `n` in lower-case hexadecimal, without leading zeros.
pub open spec fn hex_digits(n: nat) -> Seq<char>
    decreases n,
{
    if n < 16 {
        seq![hex_char(n)]
    } else {
        hex_digits(n / 16).push(hex_char(n % 16))
    }
}

/// The value of a hexadecimal digit of either case.
pub open spec fn hex_digit_value(c: char) -> Option<nat> {
    if '0' <= c && c <= '9' {
        Some((c as nat - 48) as nat)
    } else if 'a' <= c && c <= 'f' {
        Some((c as nat - 87) as nat)
    } else if 'A' <= c && c <= 'F' {
        Some((c as nat - 55) as nat)
    } else {
        None
    }
}

/// The value of a string of hexadecimal digits (0 for the empty string).
pub open spec fn digits_value(s: Seq<char>) -> Option<nat>
    decreases s.len(),
{
    if s.len() == 0 {
        Some(0)
    } else {
        match (digits_value(s.drop_last()), hex_digit_value(s.last())) {
            (Some(a), Some(d)) => Some(a * 16 + d),
            _ => None,
        }
    }
}

/// A hexadecimal number: an optional `+` and at least one digit.
pub open spec fn parse_hex(s: Seq<char>) -> Option<nat> {
    let digits = if s.len() > 0 && s[0] == '+' { s.drop_first() } else { s };
    if digits.len() == 0 {
        None
    } else {
        digits_value(digits)
    }
}

/// A hexadecimal number that fits below `bound`.
pub open spec fn parse_hex_below(s: Seq<char>, bound: nat) -> Option<nat> {
    match parse_hex(s) {
        Some(n) => if n < bound { Some(n) } else { None },
        None => None,
    }
}

/// The lower-case hexadecimal digit of `d`, as a string.
fn hex_digit_str(d: u32) -> (s: &'static str)
    requires
        d < 16,
    ensures
        s@ == seq![hex_char(d as nat)],
{
    if d == 0 {
        proof {
            reveal_strlit("0");
        }
        "0"
    } else if d == 1 {
        proof {
            reveal_strlit("1");
        }
        "1"
    } else if d == 2 {
        proof {
            reveal_strlit("2");
        }
        "2"
    } else if d == 3 {
        proof {
            reveal_strlit("3");
        }
        "3"
    } else if d == 4 {
        proof {
            reveal_strlit("4");
        }
        "4"
    } else if d == 5 {
        proof {
            reveal_strlit("5");
        }
        "5"
    } else if d == 6 {
        proof {
            reveal_strlit("6");
        }
        "6"
    } else if d == 7 {
        proof {
            reveal_strlit("7");
        }
        "7"
    } else if d == 8 {
        proof {
            reveal_strlit("8");
        }
        "8"
    } else if d == 9 {
        proof {
            reveal_strlit("9");
        }
        "9"
    } else if d == 10 {
        proof {
            reveal_strlit("a");
        }
        "a"
    } else if d == 11 {
        proof {
            reveal_strlit("b");
        }
        "b"
    } else if d == 12 {
        proof {
            reveal_strlit("c");
        }
        "c"
    } else if d == 13 {
        proof {
            reveal_strlit("d");
        }
        "d"
    } else if d == 14 {
        proof {
            reveal_strlit("e");
        }
        "e"
    } else {
        proof {
            reveal_strlit("f");
        }
        "f"
    }
}

/// Appends `n` in lower-case hexadecimal, without leading zeros, to `out`.
fn push_hex(n: u32, out: &mut String)
    ensures
        final(out)@ == old(out)@ + hex_digits(n as nat),
    decreases n,
{
    if n >= 16 {
        push_hex(n / 16, out);
    }
    out.append(hex_digit_str(n % 16));
}

/// `n` in lower-case hexadecimal, without leading zeros, as the `{:x}`
/// format writes it.
fn to_hex(n: u32) -> (s: String)
    ensures
        s@ == hex_digits(n as nat),
{
    let mut s = String::new();
    push_hex(n, &mut s);
    assert(s@ =~= hex_digits(n as nat));
    s
}

/// The value of the hexadecimal digit `c`, where it is one.
fn hex_char_value(c: char) -> (r: Option<u64>)
    ensures
        r matches Some(d) ==> hex_digit_value(c) == Some(d as nat) && d < 16,
        r is None ==> hex_digit_value(c) is None,
{
    let u = c as u32;
    if 48 <= u && u <= 57 {
        Some((u - 48) as u64)
    } else if 97 <= u && u <= 102 {
        Some((u - 87) as u64)
    } else if 65 <= u && u <= 70 {
        Some((u - 55) as u64)
    } else {
        None
    }
}

/// Where a string of digits has a value, so has each of its prefixes, and
/// no prefix is worth more than the whole.
proof fn lemma_digits_prefix(t: Seq<char>, k: int)
    requires
        0 <= k <= t.len(),
    ensures
        digits_value(t) is Some ==> digits_value(t.take(k)) is Some && digits_value(t.take(k))->Some_0
            <= digits_value(t)->Some_0,
    decreases t.len(),
{
    if k == t.len() {
        assert(t.take(k) =~= t);
    } else {
        lemma_digits_prefix(t.drop_last(), k);
        assert(t.drop_last().take(k) =~= t.take(k));
    }
}

/// `s` read as a hexadecimal number below `bound`: an optional `+` and at
/// least one digit of either case, as `from_str_radix` with radix 16 reads it.
fn parse_hex_bounded(s: &str, bound: u64) -> (r: Option<u64>)
    requires
        16 <= bound <= 0x1_0000_0000,
    ensures
        r matches Some(n) ==> parse_hex_below(s@, bound as nat) == Some(n as nat) && n < bound,
        r is None ==> parse_hex_below(s@, bound as nat) is None,
{
    let len = s.unicode_len();
    let mut i: usize = 0;
    if len > 0 && s.get_char(0) == '+' {
        i = 1;
    }
    let start = i;
    let ghost digits = if s@.len() > 0 && s@[0] == '+' { s@.drop_first() } else { s@ };
    assert(digits =~= s@.subrange(start as int, len as int));
    if i == len {
        return None;
    }
    let mut acc: u64 = 0;
    assert(s@.subrange(start as int, start as int) =~= Seq::<char>::empty());
    while i < len
        invariant
            start <= i <= len,
            len == s@.len(),
            16 <= bound <= 0x1_0000_0000,
            digits == s@.subrange(start as int, len as int),
            digits == (if s@.len() > 0 && s@[0] == '+' { s@.drop_first() } else { s@ }),
            digits.len() > 0,
            digits_value(s@.subrange(start as int, i as int)) == Some(acc as nat),
            acc < bound,
        decreases len - i,
    {
        let c = s.get_char(i);
        assert(c == s@[i as int]);
        let ghost prefix = s@.subrange(start as int, i + 1);
        assert(prefix.drop_last() =~= s@.subrange(start as int, i as int));
        assert(digits.take(i + 1 - start) =~= prefix);
        proof {
            lemma_digits_prefix(digits, i + 1 - start);
        }
        let d = match hex_char_value(c) {
            Some(d) => d,
            None => return None,
        };
        if acc > (bound - 1 - d) / 16 {
            return None;
        }
        acc = acc * 16 + d;
        i = i + 1;
    }
    Some(acc)
}

/// `s` read as a hexadecimal `u32`, as `u32::from_str_radix` with radix 16.
fn parse_hex_u32(s: &str) -> (r: Option<u32>)
    ensures
        r matches Some(n) ==> parse_hex_below(s@, 0x1_0000_0000) == Some(n as nat),
        r is None ==> parse_hex_below(s@, 0x1_0000_0000) is None,
{
    match parse_hex_bounded(s, 0x1_0000_0000) {
        Some(n) => Some(n as u32),
        None => None,
    }
}

/// `s` read as a hexadecimal `u8`, as `u8::from_str_radix` with radix 16.
fn parse_hex_u8(s: &str) -> (r: Option<u8>)
    ensures
        r matches Some(n) ==> parse_hex_below(s@, 0x100) == Some(n as nat),
        r is None ==> parse_hex_below(s@, 0x100) is None,
{
    match parse_hex_bounded(s, 0x100) {
        Some(n) => Some(n as u8),
        None => None,
    }
}

/// The message that reports the value `value` at `addr`, of the kind `kind`.
pub open spec fn addr_value_message(kind: Seq<char>, addr: u32, value: nat) -> Seq<char> {
    kind + seq![':'] + hex_digits(addr as nat) + seq![':'] + hex_digits(value)
}

/// What a write request `u8 <addr> <value>` (three words, hexadecimal
/// numbers) does: the byte is written where the bus answers; anything else
/// leaves the memory as it was.
pub open spec fn parse_u8_effect(v: CpuView, list: Seq<Seq<char>>) -> CpuView {
    if list.len() != 3 {
        v
    } else {
        match (parse_hex_below(list[1], 0x1_0000_0000), parse_hex_below(list[2], 0x100)) {
            (Some(a), Some(x)) => CpuView { mem: store_b(v.mem, a as u32, x as u8).0, ..v },
            _ => v,
        }
    }
}

impl Bus {
    /// Queues `message` for the observer of the bus.
    pub fn send_message(&mut self, message: String) -> (r: Result<(), EmuError>)
        ensures
            r is Ok,
            final(self)@ == old(self)@,
            final(self).io_port_in@ == old(self).io_port_in@,
            final(self).outbox@ == old(self).outbox@.push(message),
            final(self).wf() == old(self).wf(),
    {
        self.outbox.push(message);
        Ok(())
    }

    /// Queues `<kind>:<addr>:<value>` in hexadecimal.
    fn send_addr_value(&mut self, kind: &str, addr: u32, value: u32) -> (r: Result<(), EmuError>)
        ensures
            r is Ok,
            final(self)@ == old(self)@,
            final(self).io_port_in@ == old(self).io_port_in@,
            final(self).outbox@.len() == old(self).outbox@.len() + 1,
            final(self).outbox@.drop_last() == old(self).outbox@,
            final(self).outbox@.last()@ == addr_value_message(kind@, addr, value as nat),
            final(self).wf() == old(self).wf(),
    {
        let mut m = kind.to_owned();
        m.append(":");
        m.append(to_hex(addr).as_str());
        m.append(":");
        m.append(to_hex(value).as_str());
        proof {
            reveal_strlit(":");
        }
        assert(m@ =~= addr_value_message(kind@, addr, value as nat));
        self.send_message(m)
    }

    /// Reports the byte `value` at `addr`: `u8:<addr>:<value>`.
    pub fn send_addr_value_u8(&mut self, addr: u32, value: u8) -> (r: Result<(), EmuError>)
        ensures
            r is Ok,
            final(self)@ == old(self)@,
            final(self).io_port_in@ == old(self).io_port_in@,
            final(self).outbox@.drop_last() == old(self).outbox@,
            final(self).outbox@.len() == old(self).outbox@.len() + 1,
            final(self).outbox@.last()@ == addr_value_message("u8"@, addr, value as nat),
            final(self).wf() == old(self).wf(),
    {
        self.send_addr_value("u8", addr, value as u32)
    }

    /// Reports the word `value` at `addr`: `u16:<addr>:<value>`.
    pub fn send_addr_value_u16(&mut self, addr: u32, value: u16) -> (r: Result<(), EmuError>)
        ensures
            r is Ok,
            final(self)@ == old(self)@,
            final(self).io_port_in@ == old(self).io_port_in@,
            final(self).outbox@.drop_last() == old(self).outbox@,
            final(self).outbox@.len() == old(self).outbox@.len() + 1,
            final(self).outbox@.last()@ == addr_value_message("u16"@, addr, value as nat),
            final(self).wf() == old(self).wf(),
    {
        self.send_addr_value("u16", addr, value as u32)
    }

    /// Reports the long word `value` at `addr`: `u32:<addr>:<value>`.
    pub fn send_addr_value_u32(&mut self, addr: u32, value: u32) -> (r: Result<(), EmuError>)
        ensures
            r is Ok,
            final(self)@ == old(self)@,
            final(self).io_port_in@ == old(self).io_port_in@,
            final(self).outbox@.drop_last() == old(self).outbox@,
            final(self).outbox@.len() == old(self).outbox@.len() + 1,
            final(self).outbox@.last()@ == addr_value_message("u32"@, addr, value as nat),
            final(self).wf() == old(self).wf(),
    {
        self.send_addr_value("u32", addr, value)
    }
}

impl Cpu {
    /// Applies a write request from the observer: `list` holds the words of
    /// the request, `u8 <addr> <value>` in hexadecimal; a request of another
    /// shape, or one that names an address where no device answers, is ignored.
    pub fn parse_u8(&mut self, list: Vec<&str>) -> (r: Result<(), EmuError>)
        requires
            old(self).wf(),
        ensures
            r is Ok,
            final(self).wf(),
            final(self)@ == parse_u8_effect(old(self)@, list@.map_values(|s: &str| s@)),
    {
        let ghost words = list@.map_values(|s: &str| s@);
        if list.len() != 3 {
            return Ok(());
        }
        assert(words[1] == list@[1]@ && words[2] == list@[2]@);
        let addr = parse_hex_u32(list[1]);
        let value = parse_hex_u8(list[2]);
        match (addr, value) {
            (Some(a), Some(v)) => {
                let _ = self.bus.write(a, v);
            },
            _ => {},
        }
        Ok(())
    }

    /// Queues `message` for the observer.
    pub fn send_message(&mut self, message: String) -> (r: Result<(), EmuError>)
        ensures
            r is Ok,
            final(self)@ == (CpuView { outbox: old(self)@.outbox.push(message), ..old(self)@ }),
            final(self).wf() == old(self).wf(),
    {
        self.bus.send_message(message)
    }

    /// Queues `ready`.
    pub fn send_ready_message(&mut self) -> (r: Result<(), EmuError>)
        ensures
            r is Ok,
            final(self)@.outbox.len() == old(self)@.outbox.len() + 1,
            final(self)@.outbox.last()@ == "ready"@,
            final(self)@ == (CpuView { outbox: final(self)@.outbox, ..old(self)@ }),
            final(self)@.outbox.drop_last() == old(self)@.outbox,
            final(self).wf() == old(self).wf(),
    {
        self.send_message("ready".to_owned())
    }

    /// Queues `1sec`, sent once per emulated second.
    pub fn send_one_sec_message(&mut self) -> (r: Result<(), EmuError>)
        ensures
            r is Ok,
            final(self)@.outbox.len() == old(self)@.outbox.len() + 1,
            final(self)@.outbox.last()@ == "1sec"@,
            final(self)@ == (CpuView { outbox: final(self)@.outbox, ..old(self)@ }),
            final(self)@.outbox.drop_last() == old(self)@.outbox,
            final(self).wf() == old(self).wf(),
    {
        self.send_message("1sec".to_owned())
    }

    /// Queues `stdout:<string>`.
    pub fn send_stdout_message(&mut self, string: &String) -> (r: Result<(), EmuError>)
        ensures
            r is Ok,
            final(self)@.outbox.len() == old(self)@.outbox.len() + 1,
            final(self)@.outbox.last()@ == "stdout:"@ + string@,
            final(self)@ == (CpuView { outbox: final(self)@.outbox, ..old(self)@ }),
            final(self)@.outbox.drop_last() == old(self)@.outbox,
            final(self).wf() == old(self).wf(),
    {
        let mut m = "stdout:".to_owned();
        m.append(string.as_str());
        self.send_message(m)
    }
}

} // verus!
