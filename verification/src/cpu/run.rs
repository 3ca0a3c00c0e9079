use vstd::prelude::*;

use crate::cpu::exec::{exec_post, exec_pre};
use crate::cpu::{can_fetch, fetched, fetched_word, Cpu, CpuView, CPU_CLOCK};
use crate::error::EmuError;

verus! {

/// After this many states the emulator yields so that it runs no faster than
/// the real CPU.
pub const SLEEP_STATES: usize = 20000;

/// The factor by which the states of an instruction are scaled.
pub const STATE_SCALE: u8 = 3;

/// A control message from the observer of the emulator.
#[derive(Debug, Clone, Copy, PartialEq, Eq, Structural)]
pub enum Message {
    Pause,
    Restart,
    Stop,
    Other,
}

/// What the driver of the run does after a message.
#[derive(Debug, Clone, Copy, PartialEq, Eq, Structural)]
pub enum Control {
    /// Go on.
    Continue,
    /// Go on, timing the run afresh.
    RestartTimer,
    /// End the run.
    Stop,
}

/// What the driver does after an instruction.
#[derive(Debug, Clone, Copy, PartialEq, Eq, Structural)]
pub enum StepEvent {
    /// Go on.
    Executed,
    /// Yield for the time that these states take on the real CPU, less the
    /// time since the last yield, then time the run afresh.
    Sleep(usize),
    /// The program reached its exit routine.
    Exit,
}

/// The counters of a run.
pub struct RunState {
    /// States run so far.
    pub state_sum: usize,
    /// States since the last yield.
    pub loop_count: usize,
    /// States since the last one-second message.
    pub one_sec_count: usize,
    pub is_paused: bool,
}

impl RunState {
    /// Both partial counters are below their thresholds.
    pub open spec fn wf(&self) -> bool {
        self.loop_count < SLEEP_STATES && self.one_sec_count < CPU_CLOCK
    }

    /// A run that has not started.
    pub fn new() -> (s: Self)
        ensures
            s.wf(),
            s.state_sum == 0 && s.loop_count == 0 && s.one_sec_count == 0 && !s.is_paused,
    {
        RunState { state_sum: 0, loop_count: 0, one_sec_count: 0, is_paused: false }
    }

    /// Takes a control message: `pause` stops executing, `restart` resumes,
    /// `stop` ends the run; any other message changes nothing.
    pub fn receive(&mut self, message: Message) -> (c: Control)
        ensures
            final(self).state_sum == old(self).state_sum,
            final(self).loop_count == old(self).loop_count,
            final(self).one_sec_count == old(self).one_sec_count,
            final(self).is_paused == paused_after(old(self).is_paused, message),
            c == control_of(message),
    {
        match message {
            Message::Pause => {
                self.is_paused = true;
                Control::Continue
            },
            Message::Restart => {
                self.is_paused = false;
                Control::RestartTimer
            },
            Message::Stop => Control::Stop,
            Message::Other => Control::Continue,
        }
    }

    /// Takes a line of text from the observer as a control message.
    pub fn receive_line(&mut self, line: &str) -> (c: Control)
        ensures
            final(self).state_sum == old(self).state_sum,
            final(self).loop_count == old(self).loop_count,
            final(self).one_sec_count == old(self).one_sec_count,
            final(self).is_paused == paused_after(old(self).is_paused, message_of(line@)),
            c == control_of(message_of(line@)),
    {
        let message = parse_message(line);
        self.receive(message)
    }

    /// Whether the driver executes the next instruction: not while paused.
    pub fn should_step(&self) -> (b: bool)
        ensures
            b == !self.is_paused,
    {
        !self.is_paused
    }
}

/// The control message that a line of text carries.
pub open spec fn message_of(line: Seq<char>) -> Message {
    if line == "pause"@ {
        Message::Pause
    } else if line == "restart"@ {
        Message::Restart
    } else if line == "stop"@ {
        Message::Stop
    } else {
        Message::Other
    }
}

/// Whether the run is paused after `message`, having been `paused` before.
pub open spec fn paused_after(paused: bool, message: Message) -> bool {
    match message {
        Message::Pause => true,
        Message::Restart => false,
        _ => paused,
    }
}

/// What the driver does after `message`.
pub open spec fn control_of(message: Message) -> Control {
    match message {
        Message::Restart => Control::RestartTimer,
        Message::Stop => Control::Stop,
        _ => Control::Continue,
    }
}

/// Reads a line of text as a control message.
pub fn parse_message(line: &str) -> (m: Message)
    ensures
        m == message_of(line@),
{
    let text = line.to_owned();
    if text == "pause".to_owned() {
        Message::Pause
    } else if text == "restart".to_owned() {
        Message::Restart
    } else if text == "stop".to_owned() {
        Message::Stop
    } else {
        Message::Other
    }
}

/// What fetching and executing the next instruction does: an instruction
/// word that cannot be fetched, or an instruction that cannot run, is a
/// fault that changes nothing but the fetch.
pub open spec fn fetch_exec_post(old: CpuView, new: CpuView, r: Result<u8, EmuError>) -> bool {
    if !can_fetch(old) {
        new == old && r == Err::<u8, EmuError>(EmuError::Fault(old.pc))
    } else {
        let v1 = fetched(old);
        let opcode = fetched_word(old);
        if !exec_pre(v1, opcode) {
            new == v1 && r == Err::<u8, EmuError>(EmuError::Fault(v1.operating_pc))
        } else {
            exec_post(v1, new, opcode, r)
        }
    }
}

impl Cpu {
    /// Starts the program: the program counter takes the entry address that
    /// the loader left in ER2, and the bus controller is set up.
    pub fn start(&mut self) -> (r: Result<(), EmuError>)
        requires
            old(self).wf(),
        ensures
            final(self).wf(),
            r is Ok,
            final(self)@ == (CpuView {
                pc: old(self)@.er[2],
                mem: old(self)@.mem.insert(crate::registers::ABWCR, 0xff).insert(crate::registers::ASTCR, 0xfb).insert(
                    crate::registers::WCRH,
                    0xff,
                ).insert(crate::registers::WCRL, 0xcf).insert(crate::registers::DRCRA, 0xe0),
                ..old(self)@
            }),
    {
        self.pc = self.er[2];
        self.init_registers()
    }

    /// Fetches the next instruction and executes it; returns its states.
    pub fn fetch_and_exec(&mut self) -> (r: Result<u8, EmuError>)
        requires
            old(self).wf(),
        ensures
            final(self).wf(),
            fetch_exec_post(old(self)@, final(self)@, r),
    {
        let pc = self.pc;
        if !self.fetchable_pc() {
            return Err(EmuError::Fault(pc));
        }
        let opcode = self.fetch();
        if !self.can_exec(opcode) {
            return Err(EmuError::Fault(self.operating_pc));
        }
        self.exec(opcode)
    }

    /// Whether the instruction word at the program counter can be fetched.
    fn fetchable_pc(&self) -> (b: bool)
        requires
            self.wf(),
        ensures
            b == can_fetch(self@),
    {
        let pc = self.pc;
        let a = pc & 0xfffffffe;
        proof {
            crate::cpu::ready::lemma_fetch_addr(pc);
        }
        self.bus.read(a).is_ok() && self.bus.read(a + 1).is_ok()
    }

    /// Accounts for an instruction that took `state` states: the counters
    /// of the run advance by the scaled count; the run ends at the exit
    /// routine; past `SLEEP_STATES` states the driver yields; once per
    /// emulated second `1sec` is queued for the observer.
    pub fn account(&mut self, run: &mut RunState, state: u8) -> (r: Result<StepEvent, EmuError>)
        requires
            old(self).wf(),
            old(run).wf(),
            old(run).state_sum <= usize::MAX - 255,
        ensures
            final(self).wf(),
            state * STATE_SCALE > 255 ==> r == Err::<StepEvent, EmuError>(EmuError::Fault(old(self).operating_pc))
                && final(self)@ == old(self)@ && *final(run) == *old(run),
            state * STATE_SCALE <= 255 ==> ({
                let s = state * STATE_SCALE;
                let lc = old(run).loop_count + s;
                let oc = old(run).one_sec_count + s;
                &&& final(run).state_sum == old(run).state_sum + s
                &&& final(run).is_paused == old(run).is_paused
                &&& if old(self).pc == old(self).exit_addr {
                    &&& r == Ok::<StepEvent, EmuError>(StepEvent::Exit)
                    &&& final(self)@ == old(self)@
                    &&& final(run).loop_count == lc
                    &&& final(run).one_sec_count == oc
                } else {
                    &&& final(run).wf()
                    &&& final(run).loop_count == if lc >= SLEEP_STATES { 0 } else { lc }
                    &&& final(run).one_sec_count == if oc >= CPU_CLOCK { (oc - CPU_CLOCK) as int } else { oc }
                    &&& r == Ok::<StepEvent, EmuError>(if lc >= SLEEP_STATES { StepEvent::Sleep(lc as usize) } else { StepEvent::Executed })
                    &&& oc < CPU_CLOCK ==> final(self)@ == old(self)@
                    &&& oc >= CPU_CLOCK ==> final(self)@ == (CpuView { outbox: final(self)@.outbox, ..old(self)@ })
                        && final(self)@.outbox.drop_last() == old(self)@.outbox
                        && final(self)@.outbox.last()@ == "1sec"@
                }
            }),
    {
        if state > 85 {
            return Err(EmuError::Fault(self.operating_pc));
        }
        let s = (state * STATE_SCALE) as usize;
        run.state_sum = run.state_sum + s;
        run.loop_count = run.loop_count + s;
        run.one_sec_count = run.one_sec_count + s;
        if self.pc == self.exit_addr {
            return Ok(StepEvent::Exit);
        }
        let mut event = StepEvent::Executed;
        if run.loop_count >= SLEEP_STATES {
            event = StepEvent::Sleep(run.loop_count);
            run.loop_count = 0;
        }
        if run.one_sec_count >= CPU_CLOCK {
            let _ = self.send_one_sec_message();
            run.one_sec_count = run.one_sec_count - CPU_CLOCK;
        }
        Ok(event)
    }
}

} // verus!
