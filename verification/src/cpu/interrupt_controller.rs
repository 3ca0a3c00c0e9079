use vstd::prelude::*;

use std::collections::VecDeque;

use crate::cpu::addressing_mode::abs::load_l;
use crate::cpu::addressing_mode::dec_ern::push_l;
use crate::cpu::{with_flag, Cpu, CpuView, ADDRESS_MASK, CCR};
use crate::error::EmuError;

verus! {

/// Entering an exception handler whose address is stored at `vec_addr`: CCR
/// and the program counter are pushed as one long word, the program counter
/// is loaded from the vector and interrupts are masked.
pub open spec fn exception_entry(v: CpuView, vec_addr: u32) -> (CpuView, Result<(), EmuError>) {
    let (p, res) = push_l(v, ((v.ccr as u32) << 24u32) | v.pc);
    if res is Err {
        (p, res)
    } else {
        match load_l(p.mem, vec_addr) {
            Err(e) => (p, Err(e)),
            Ok(d) => (CpuView { pc: d & ADDRESS_MASK, ccr: with_flag(p.ccr, CCR::I.spec_bit(), true), ..p }, Ok(())),
        }
    }
}

/// What serving the oldest pending request does: none pending, nothing;
/// otherwise the request leaves the queue and its handler is entered.
pub open spec fn try_interrupt_effect(v: CpuView) -> (CpuView, Result<(), EmuError>) {
    if v.interrupts.len() == 0 {
        (v, Ok(()))
    } else {
        exception_entry(
            CpuView { interrupts: v.interrupts.drop_first(), ..v },
            (4 * v.interrupts[0]) as u32,
        )
    }
}

/// The queue of pending interrupt requests, by vector number, oldest first.
#[derive(Clone)]
pub struct InterruptController {
    pub interrupt_requests: VecDeque<u8>,
}

impl View for InterruptController {
    type V = Seq<u8>;

    open spec fn view(&self) -> Seq<u8> {
        self.interrupt_requests@
    }
}

impl InterruptController {
    /// A controller with no pending request.
    pub fn new() -> (ic: Self)
        ensures
            ic@.len() == 0,
    {
        InterruptController { interrupt_requests: VecDeque::new() }
    }

    /// Queues a request for the interrupt with vector number `num`, behind
    /// those already pending.
    pub fn request_interrupt(&mut self, num: u8)
        ensures
            final(self)@ == old(self)@.push(num),
    {
        self.interrupt_requests.push_back(num);
    }
}

impl Cpu {
    /// Serves the oldest pending interrupt request, if any.
    pub fn try_interrupt(&mut self) -> (r: Result<(), EmuError>)
        requires
            old(self).wf(),
            old(self)@.interrupts.len() > 0 ==> old(self)@.er[7] >= 4 && old(self)@.interrupts[0] < 64,
        ensures
            final(self).wf(),
            (final(self)@, r) == try_interrupt_effect(old(self)@),
    {
        match self.interrupt_controller.interrupt_requests.pop_front() {
            Some(vector) => {
                assert(self@ == (CpuView { interrupts: old(self)@.interrupts.drop_first(), ..old(self)@ }));
                self.interrupt(vector)
            },
            None => Ok(()),
        }
    }

    /// Enters the handler of interrupt vector `vector`.
    pub fn interrupt(&mut self, vector: u8) -> (r: Result<(), EmuError>)
        requires
            old(self).wf(),
            old(self)@.er[7] >= 4,
            vector < 64,
        ensures
            final(self).wf(),
            (final(self)@, r) == exception_entry(old(self)@, (4 * vector) as u32),
    {
        let value = ((self.ccr as u32) << 24) | self.pc;
        match self.write_dec_ern_l(7, value) {
            Ok(_) => {},
            Err(e) => return Err(e),
        }
        let vec_addr: u32 = (4 * vector) as u32;
        let dest_addr = match self.read_abs24_l(vec_addr) {
            Ok(d) => d,
            Err(e) => return Err(e),
        };
        self.pc = dest_addr & ADDRESS_MASK;
        self.write_ccr(CCR::I, 1);
        Ok(())
    }
}

} // verus!
