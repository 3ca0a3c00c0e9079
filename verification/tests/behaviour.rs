use h8_3069f_emulator::bus::AREA2_START_ADDR;
use h8_3069f_emulator::cpu::run::{parse_message, Control, Message, RunState, StepEvent, SLEEP_STATES};
use h8_3069f_emulator::cpu::{Cpu, StateType, CCR, CPU_CLOCK};
use h8_3069f_emulator::error::EmuError;
use h8_3069f_emulator::memory::{MEMORY_END_ADDR, MEMORY_START_ADDR};

/// Places `code` at `addr` in on-chip memory.
fn place(cpu: &mut Cpu, addr: u32, code: &[u8]) {
    let off = (addr - MEMORY_START_ADDR) as usize;
    cpu.bus.memory[off..off + code.len()].copy_from_slice(code);
}

/// Fetches and executes one instruction.
fn step(cpu: &mut Cpu) -> Result<u8, EmuError> {
    let opcode = cpu.fetch();
    cpu.exec(opcode)
}

fn cpu_with_stack() -> Cpu {
    let mut cpu = Cpu::new();
    cpu.er[7] = MEMORY_END_ADDR - 0xf;
    cpu
}

// What a read gives back of a write.

#[test]
fn test_law_bus_write_read() {
    let mut cpu = Cpu::new();
    cpu.bus.write(MEMORY_START_ADDR + 4, 0x5a).unwrap();
    assert_eq!(cpu.bus.read(MEMORY_START_ADDR + 4).unwrap(), 0x5a);
    assert_eq!(cpu.bus.read(MEMORY_START_ADDR + 5).unwrap(), 0);
    assert_eq!(cpu.bus.write(0x200000, 1), Err(EmuError::InvalidAddress(0x200000)));
    assert_eq!(cpu.bus.read(0x200000), Err(EmuError::InvalidAddress(0x200000)));
}

#[test]
fn test_law_push_pop() {
    let mut cpu = cpu_with_stack();
    let sp = cpu.er[7];
    cpu.write_dec_ern_l(7, 0xdeadbeef).unwrap();
    assert_eq!(cpu.er[7], sp - 4);
    assert_eq!(cpu.read_inc_ern_l(7).unwrap(), 0xdeadbeef);
    assert_eq!(cpu.er[7], sp);
}

#[test]
fn test_law_bsr_rts() {
    let mut cpu = cpu_with_stack();
    let sp = cpu.er[7];
    place(&mut cpu, MEMORY_START_ADDR, &[0x55, 0x10]);
    place(&mut cpu, MEMORY_START_ADDR + 0x12, &[0x54, 0x70]);
    step(&mut cpu).unwrap();
    assert_eq!(cpu.pc, MEMORY_START_ADDR + 0x12);
    assert_eq!(cpu.er[7], sp - 4);
    step(&mut cpu).unwrap();
    assert_eq!(cpu.pc, MEMORY_START_ADDR + 2);
    assert_eq!(cpu.er[7], sp);
}

#[test]
fn test_law_jsr_rts() {
    let mut cpu = cpu_with_stack();
    let sp = cpu.er[7];
    let target = MEMORY_START_ADDR + 0x40;
    place(&mut cpu, MEMORY_START_ADDR, &[0x5e, (target >> 16) as u8, (target >> 8) as u8, target as u8]);
    place(&mut cpu, target, &[0x54, 0x70]);
    step(&mut cpu).unwrap();
    assert_eq!(cpu.pc, target);
    step(&mut cpu).unwrap();
    assert_eq!(cpu.pc, MEMORY_START_ADDR + 4);
    assert_eq!(cpu.er[7], sp);
}

#[test]
fn test_law_jsr_rts_with_work_in_between() {
    let mut cpu = cpu_with_stack();
    cpu.ccr = 0x01;
    let sp = cpu.er[7];
    let target = MEMORY_START_ADDR + 0x40;
    place(&mut cpu, MEMORY_START_ADDR, &[0x5e, (target >> 16) as u8, (target >> 8) as u8, target as u8]);
    // ADDS #4,ER0; NEG.B R1L; RTS
    place(&mut cpu, target, &[0x0b, 0x90, 0x17, 0x89, 0x54, 0x70]);
    cpu.write_rn_b(9, 1).unwrap();
    for _ in 0..4 {
        step(&mut cpu).unwrap();
    }
    assert_eq!(cpu.pc, MEMORY_START_ADDR + 4);
    assert_eq!(cpu.er[7], sp);
    assert_eq!(cpu.er[0], 4);
    assert_eq!(cpu.read_rn_b(9).unwrap(), 0xff);
}

#[test]
fn test_law_exception_rte() {
    let mut cpu = cpu_with_stack();
    let handler = MEMORY_START_ADDR + 0x40;
    cpu.ccr = 0x05;
    let sp = cpu.er[7];
    cpu.write_abs24_l(0x24, handler).unwrap();
    place(&mut cpu, MEMORY_START_ADDR, &[0x57, 0x10]);
    place(&mut cpu, handler, &[0x56, 0x70]);
    step(&mut cpu).unwrap();
    assert_eq!(cpu.pc, handler);
    assert_eq!(cpu.read_ccr(CCR::I), 1);
    assert_eq!(cpu.er[7], sp - 4);
    assert_eq!(cpu.read_abs24_l(sp - 4).unwrap(), 0x0500_0000 | (MEMORY_START_ADDR + 2));
    step(&mut cpu).unwrap();
    assert_eq!(cpu.pc, MEMORY_START_ADDR + 2);
    assert_eq!(cpu.ccr, 0x05);
    assert_eq!(cpu.er[7], sp);
}

#[test]
fn test_law_interrupt_fifo() {
    let mut cpu = cpu_with_stack();
    cpu.write_abs24_l(4 * 10, MEMORY_START_ADDR + 0x100).unwrap();
    cpu.write_abs24_l(4 * 11, MEMORY_START_ADDR + 0x200).unwrap();
    cpu.interrupt_controller.request_interrupt(10);
    cpu.interrupt_controller.request_interrupt(11);
    cpu.try_interrupt().unwrap();
    assert_eq!(cpu.pc, MEMORY_START_ADDR + 0x100);
    assert_eq!(cpu.interrupt_controller.interrupt_requests.len(), 1);
    cpu.try_interrupt().unwrap();
    assert_eq!(cpu.pc, MEMORY_START_ADDR + 0x200);
    assert_eq!(cpu.interrupt_controller.interrupt_requests.len(), 0);
    let pc = cpu.pc;
    cpu.try_interrupt().unwrap();
    assert_eq!(cpu.pc, pc);
}

// Operations that undo one another.

#[test]
fn test_law_neg_b_twice() {
    let mut cpu = Cpu::new();
    cpu.write_rn_b(3, 0x37).unwrap();
    place(&mut cpu, MEMORY_START_ADDR, &[0x17, 0x83, 0x17, 0x83]);
    step(&mut cpu).unwrap();
    assert_eq!(cpu.read_rn_b(3).unwrap(), 0xc9);
    step(&mut cpu).unwrap();
    assert_eq!(cpu.read_rn_b(3).unwrap(), 0x37);
}

#[test]
fn test_neg_overflow_flags() {
    let mut cpu = Cpu::new();
    cpu.write_rn_b(0, 0x80).unwrap();
    place(&mut cpu, MEMORY_START_ADDR, &[0x17, 0x80]);
    step(&mut cpu).unwrap();
    assert_eq!(cpu.read_rn_b(0).unwrap(), 0x80);
    assert_eq!(cpu.read_ccr(CCR::V), 1);
    assert_eq!(cpu.read_ccr(CCR::N), 1);
    assert_eq!(cpu.read_ccr(CCR::C), 1);
}

#[test]
fn test_law_not_b_twice() {
    let mut cpu = Cpu::new();
    cpu.write_rn_b(9, 0xa5).unwrap();
    place(&mut cpu, MEMORY_START_ADDR, &[0x17, 0x09, 0x17, 0x09]);
    step(&mut cpu).unwrap();
    assert_eq!(cpu.read_rn_b(9).unwrap(), 0x5a);
    step(&mut cpu).unwrap();
    assert_eq!(cpu.read_rn_b(9).unwrap(), 0xa5);
}

#[test]
fn test_law_rotl_rotr_b() {
    let mut cpu = Cpu::new();
    cpu.write_rn_b(1, 0x81).unwrap();
    place(&mut cpu, MEMORY_START_ADDR, &[0x12, 0x81, 0x13, 0x81]);
    step(&mut cpu).unwrap();
    assert_eq!(cpu.read_rn_b(1).unwrap(), 0x03);
    step(&mut cpu).unwrap();
    assert_eq!(cpu.read_rn_b(1).unwrap(), 0x81);
}

#[test]
fn test_law_adds_subs() {
    let mut cpu = Cpu::new();
    cpu.er[2] = 0x1234;
    place(&mut cpu, MEMORY_START_ADDR, &[0x0b, 0x92, 0x1b, 0x92]);
    step(&mut cpu).unwrap();
    assert_eq!(cpu.er[2], 0x1238);
    step(&mut cpu).unwrap();
    assert_eq!(cpu.er[2], 0x1234);
}

#[test]
fn test_law_mov_b_store_load() {
    let mut cpu = Cpu::new();
    cpu.er[1] = MEMORY_START_ADDR + 0x80;
    cpu.write_rn_b(8, 0x6c).unwrap();
    // MOV.B R0L,@ER1 then MOV.B @ER1,R2L
    place(&mut cpu, MEMORY_START_ADDR, &[0x68, 0x98, 0x68, 0x1a]);
    step(&mut cpu).unwrap();
    assert_eq!(cpu.read_abs24_b(MEMORY_START_ADDR + 0x80).unwrap(), 0x6c);
    step(&mut cpu).unwrap();
    assert_eq!(cpu.read_rn_b(10).unwrap(), 0x6c);
}

// What the observer is sent in hexadecimal reads back.

#[test]
fn test_law_hex_round_trip() {
    let mut cpu = Cpu::new();
    cpu.bus.send_addr_value_u8(MEMORY_START_ADDR + 1, 0xab).unwrap();
    assert_eq!(cpu.bus.outbox.last().unwrap(), "u8:ffbf21:ab");
    let message = cpu.bus.outbox.last().unwrap().clone();
    let words: Vec<&str> = message.split(':').collect();
    let mut other = Cpu::new();
    other.parse_u8(words).unwrap();
    assert_eq!(other.bus.read(MEMORY_START_ADDR + 1).unwrap(), 0xab);
}

#[test]
fn test_value_messages() {
    let mut cpu = Cpu::new();
    cpu.bus.send_addr_value_u16(0x400000, 0x0102).unwrap();
    cpu.bus.send_addr_value_u32(0, 0xdeadbeef).unwrap();
    assert_eq!(cpu.bus.outbox, vec!["u16:400000:102".to_string(), "u32:0:deadbeef".to_string()]);
    cpu.send_ready_message().unwrap();
    cpu.send_stdout_message(&"hi".to_string()).unwrap();
    assert_eq!(cpu.bus.outbox[2], "ready");
    assert_eq!(cpu.bus.outbox[3], "stdout:hi");
}

#[test]
fn test_parse_u8_ignores_bad_requests() {
    let mut cpu = Cpu::new();
    cpu.parse_u8(vec!["u8", "ffbf20"]).unwrap();
    cpu.parse_u8(vec!["u8", "zz", "01"]).unwrap();
    cpu.parse_u8(vec!["u8", "ffbf20", "100"]).unwrap();
    cpu.parse_u8(vec!["u8", "200000", "01"]).unwrap();
    assert_eq!(cpu.bus.read(MEMORY_START_ADDR).unwrap(), 0);
    cpu.parse_u8(vec!["u8", "100ffbf20", "01"]).unwrap();
    cpu.parse_u8(vec!["u8", "ffbf20", "+"]).unwrap();
    cpu.parse_u8(vec!["u8", "ffbf20", ""]).unwrap();
    cpu.parse_u8(vec!["u8", "-ffbf20", "01"]).unwrap();
    assert_eq!(cpu.bus.read(MEMORY_START_ADDR).unwrap(), 0);
    cpu.parse_u8(vec!["u8", "ffbf20", "7F"]).unwrap();
    assert_eq!(cpu.bus.read(MEMORY_START_ADDR).unwrap(), 0x7f);
    cpu.parse_u8(vec!["u8", "+00FfBf21", "+a"]).unwrap();
    assert_eq!(cpu.bus.read(MEMORY_START_ADDR + 1).unwrap(), 0x0a);
}

// System calls.

#[test]
fn test_syscall_write() {
    let mut cpu = Cpu::new();
    let block = MEMORY_START_ADDR + 0x100;
    let buf = MEMORY_START_ADDR + 0x200;
    cpu.er[0] = 104;
    cpu.er[1] = block;
    cpu.write_abs24_l(block, 1).unwrap();
    cpu.write_abs24_l(block + 4, buf).unwrap();
    cpu.write_abs24_l(block + 8, 3).unwrap();
    place(&mut cpu, buf, "h\u{e9}".as_bytes());
    place(&mut cpu, MEMORY_START_ADDR, &[0x57, 0x00]);
    step(&mut cpu).unwrap();
    assert_eq!(cpu.console, "h\u{e9}".as_bytes().to_vec());
}

#[test]
fn test_syscall_write_invalid_utf8() {
    let mut cpu = Cpu::new();
    let block = MEMORY_START_ADDR + 0x100;
    let buf = MEMORY_START_ADDR + 0x200;
    cpu.er[0] = 104;
    cpu.er[1] = block;
    cpu.write_abs24_l(block + 4, buf).unwrap();
    cpu.write_abs24_l(block + 8, 2).unwrap();
    place(&mut cpu, buf, &[0xff, 0xfe]);
    assert_eq!(cpu.trapa_emulate_mes2(), Err(EmuError::InvalidUtf8));
    assert!(cpu.console.is_empty());
}

#[test]
fn test_syscall_write_rejects_malformed_utf8() {
    for bad in [&[0xc0u8, 0x80][..], &[0xed, 0xa0, 0x80], &[0xe2, 0x82], &[0xf4, 0x90, 0x80, 0x80], &[0x80]] {
        let mut cpu = Cpu::new();
        let block = MEMORY_START_ADDR + 0x100;
        let buf = MEMORY_START_ADDR + 0x200;
        cpu.er[0] = 104;
        cpu.er[1] = block;
        cpu.write_abs24_l(block + 4, buf).unwrap();
        cpu.write_abs24_l(block + 8, bad.len() as u32).unwrap();
        place(&mut cpu, buf, bad);
        assert_eq!(cpu.trapa_emulate_mes2(), Err(EmuError::InvalidUtf8));
    }
    let mut cpu = Cpu::new();
    let block = MEMORY_START_ADDR + 0x100;
    let buf = MEMORY_START_ADDR + 0x200;
    let text = "a\u{7ff}\u{ffff}\u{10ffff}";
    cpu.er[0] = 104;
    cpu.er[1] = block;
    cpu.write_abs24_l(block + 4, buf).unwrap();
    cpu.write_abs24_l(block + 8, text.len() as u32).unwrap();
    place(&mut cpu, buf, text.as_bytes());
    cpu.trapa_emulate_mes2().unwrap();
    assert_eq!(cpu.console, text.as_bytes().to_vec());
}

#[test]
fn test_syscall_set_handler() {
    let mut cpu = Cpu::new();
    let block = MEMORY_START_ADDR + 0x100;
    cpu.er[0] = 113;
    cpu.er[1] = block;
    cpu.er[5] = 0x00416a00;
    cpu.write_abs24_l(block, 5).unwrap();
    cpu.write_abs24_l(block + 4, 0x1234).unwrap();
    cpu.trapa_emulate_mes2().unwrap();
    assert_eq!(cpu.read_abs24_l(20).unwrap(), 0x5a001234);
    assert_eq!(cpu.read_abs24_l(0xfffd10 + 20).unwrap(), 0x00416a00);
}

#[test]
fn test_syscall_unsupported() {
    let mut cpu = Cpu::new();
    cpu.er[0] = 1;
    place(&mut cpu, MEMORY_START_ADDR, &[0x57, 0x00]);
    assert_eq!(step(&mut cpu), Err(EmuError::UnsupportedSystemCall(1)));
}

// The driver's steps.

#[test]
fn test_fetch_and_exec() {
    let mut cpu = Cpu::new();
    place(&mut cpu, MEMORY_START_ADDR, &[0x0b, 0x00]);
    assert_eq!(cpu.fetch_and_exec(), Ok(2));
    assert_eq!(cpu.er[0], 1);
    assert_eq!(cpu.pc, MEMORY_START_ADDR + 2);
}

#[test]
fn test_fetch_and_exec_faults() {
    let mut cpu = Cpu::new();
    cpu.pc = 0x200000;
    assert_eq!(cpu.fetch_and_exec(), Err(EmuError::Fault(0x200000)));
    assert_eq!(cpu.pc, 0x200000);

    let mut cpu = Cpu::new();
    cpu.er[7] = 0xffff_fffe;
    place(&mut cpu, MEMORY_START_ADDR, &[0x54, 0x70]);
    assert!(!cpu.can_exec(0x5470));
    assert_eq!(cpu.fetch_and_exec(), Err(EmuError::Fault(MEMORY_START_ADDR)));
    assert_eq!(cpu.er[7], 0xffff_fffe);
}

#[test]
fn test_account() {
    let mut cpu = Cpu::new();
    cpu.exit_addr = 0x416904;
    let mut run = RunState::new();
    assert_eq!(cpu.account(&mut run, 2), Ok(StepEvent::Executed));
    assert_eq!(run.state_sum, 6);
    assert_eq!(run.loop_count, 6);

    run.loop_count = SLEEP_STATES - 3;
    assert_eq!(cpu.account(&mut run, 2), Ok(StepEvent::Sleep(SLEEP_STATES + 3)));
    assert_eq!(run.loop_count, 0);

    run.one_sec_count = CPU_CLOCK - 1;
    assert_eq!(cpu.account(&mut run, 1), Ok(StepEvent::Executed));
    assert_eq!(run.one_sec_count, 2);
    assert_eq!(cpu.bus.outbox.last().unwrap(), "1sec");

    assert_eq!(cpu.account(&mut run, 86), Err(EmuError::Fault(0)));

    cpu.pc = 0x416904;
    assert_eq!(cpu.account(&mut run, 1), Ok(StepEvent::Exit));
}

#[test]
fn test_receive() {
    let mut run = RunState::new();
    assert_eq!(run.receive(Message::Pause), Control::Continue);
    assert!(run.is_paused);
    assert_eq!(run.receive(Message::Other), Control::Continue);
    assert!(run.is_paused);
    assert_eq!(run.receive(Message::Restart), Control::RestartTimer);
    assert!(!run.is_paused);
    assert_eq!(run.receive(Message::Stop), Control::Stop);
}

#[test]
fn test_receive_line() {
    assert_eq!(parse_message("pause"), Message::Pause);
    assert_eq!(parse_message("restart"), Message::Restart);
    assert_eq!(parse_message("stop"), Message::Stop);
    assert_eq!(parse_message("stop "), Message::Other);
    assert_eq!(parse_message(""), Message::Other);
    let mut run = RunState::new();
    assert!(run.should_step());
    assert_eq!(run.receive_line("pause"), Control::Continue);
    assert!(!run.should_step());
    assert_eq!(run.receive_line("hello"), Control::Continue);
    assert!(!run.should_step());
    assert_eq!(run.receive_line("restart"), Control::RestartTimer);
    assert!(run.should_step());
    assert_eq!(run.receive_line("stop"), Control::Stop);
}

#[test]
fn test_start() {
    let mut cpu = Cpu::new();
    cpu.er[2] = 0x416900;
    cpu.start().unwrap();
    assert_eq!(cpu.pc, 0x416900);
    assert_eq!(cpu.bus.read(0xfee020).unwrap(), 0xff);
}

// Error variants.

#[test]
fn test_error_variants() {
    let mut cpu = Cpu::new();
    assert_eq!(cpu.read_rn_l(8), Err(EmuError::InvalidRegister(8)));
    assert_eq!(Cpu::get_nibble_opcode(0x1234, 0), Err(EmuError::InvalidOrder(0)));
    assert_eq!(Cpu::get_nibble_opcode(0x1234, 5), Err(EmuError::InvalidOrder(5)));
    assert_eq!(Cpu::get_nibble_opcode(0x1234, 2), Ok(2));
    assert_eq!(cpu.get_wait_state(8), Err(EmuError::InvalidAreaIndex(8)));
    assert_eq!(cpu.calc_state(StateType::M, 1), Err(EmuError::StateTypeNeedsAddress));
    assert_eq!(cpu.add_b(0x0900), Err(EmuError::InvalidOpcode(0x0900)));
    cpu.er[0] = 0xffff_ffff;
    assert_eq!(cpu.get_addr_disp16(0, 1), Err(EmuError::AddressOverflow));
    assert_eq!(cpu.get_addr_disp16(0, 0xffff), Ok(0x00ff_fffe));
    cpu.pc = MEMORY_START_ADDR;
    assert_eq!(cpu.pc_disp8(3), Err(EmuError::OddPc(MEMORY_START_ADDR + 3)));
    assert_eq!(cpu.pc, MEMORY_START_ADDR + 3);
}

#[test]
fn test_unimplemented_opcode() {
    let mut cpu = Cpu::new();
    place(&mut cpu, MEMORY_START_ADDR, &[0x00, 0x00]);
    assert_eq!(step(&mut cpu), Err(EmuError::Unimplemented(0x0000, MEMORY_START_ADDR)));
}

#[test]
fn test_dram_reads_after_setup() {
    let mut cpu = Cpu::new();
    cpu.init_registers().unwrap();
    cpu.bus.write(AREA2_START_ADDR + 3, 0x42).unwrap();
    assert_eq!(cpu.bus.dram[3], 0x42);
}

// Flags and operands of the arithmetic and bit instructions.

#[test]
fn test_addx_carry_in() {
    let mut cpu = Cpu::new();
    cpu.write_rn_b(8, 0xff).unwrap();
    cpu.write_ccr(CCR::C, 1);
    place(&mut cpu, MEMORY_START_ADDR, &[0x98, 0x00]);
    step(&mut cpu).unwrap();
    assert_eq!(cpu.read_rn_b(8).unwrap(), 0);
    assert_eq!(cpu.read_ccr(CCR::C), 1);
    assert_eq!(cpu.read_ccr(CCR::H), 1);
    assert_eq!(cpu.read_ccr(CCR::V), 0);

    let mut cpu = Cpu::new();
    cpu.write_rn_b(8, 0x7f).unwrap();
    cpu.write_ccr(CCR::C, 1);
    place(&mut cpu, MEMORY_START_ADDR, &[0x98, 0x00]);
    step(&mut cpu).unwrap();
    assert_eq!(cpu.read_rn_b(8).unwrap(), 0x80);
    assert_eq!(cpu.read_ccr(CCR::V), 1);
    assert_eq!(cpu.read_ccr(CCR::C), 0);
}

#[test]
fn test_add_l_carry_out() {
    let mut cpu = Cpu::new();
    cpu.er[1] = 0xffff_ffff;
    cpu.er[0] = 1;
    assert_eq!(cpu.add_l(0x0a81), Ok(2));
    assert_eq!(cpu.er[1], 0);
    assert_eq!(cpu.read_ccr(CCR::C), 1);
    assert_eq!(cpu.read_ccr(CCR::Z), 1);
    assert_eq!(cpu.read_ccr(CCR::H), 1);
    assert_eq!(cpu.read_ccr(CCR::V), 0);
    assert_eq!(cpu.read_ccr(CCR::N), 0);

    cpu.er[1] = 0x0fff_fff0;
    cpu.er[0] = 0x10;
    cpu.add_l(0x0a81).unwrap();
    assert_eq!(cpu.er[1], 0x1000_0000);
    assert_eq!(cpu.read_ccr(CCR::H), 1);
    assert_eq!(cpu.read_ccr(CCR::C), 0);
}

#[test]
fn test_bist_stores_not_c() {
    let mut cpu = Cpu::new();
    cpu.write_rn_b(8, 0xff).unwrap();
    cpu.write_ccr(CCR::C, 1);
    assert_eq!(cpu.bist_rn(0x6788), Ok(2));
    assert_eq!(cpu.read_rn_b(8).unwrap(), 0xfe);
    cpu.write_ccr(CCR::C, 0);
    cpu.bist_rn(0x6788).unwrap();
    assert_eq!(cpu.read_rn_b(8).unwrap(), 0xff);
}

#[test]
fn test_dec_b_high_register() {
    let mut cpu = Cpu::new();
    cpu.write_rn_b(0, 5).unwrap();
    cpu.write_rn_b(8, 0).unwrap();
    place(&mut cpu, MEMORY_START_ADDR, &[0x1a, 0x00]);
    step(&mut cpu).unwrap();
    assert_eq!(cpu.read_rn_b(0).unwrap(), 4);
    assert_eq!(cpu.read_rn_b(8).unwrap(), 0);

    let mut cpu = Cpu::new();
    cpu.write_rn_b(9, 0x80).unwrap();
    place(&mut cpu, MEMORY_START_ADDR, &[0x1a, 0x09]);
    step(&mut cpu).unwrap();
    assert_eq!(cpu.read_rn_b(9).unwrap(), 0x7f);
    assert_eq!(cpu.read_ccr(CCR::V), 1);
}

#[test]
fn test_neg_w_l_flags() {
    let mut cpu = Cpu::new();
    cpu.write_rn_w(0, 1).unwrap();
    place(&mut cpu, MEMORY_START_ADDR, &[0x17, 0x90]);
    step(&mut cpu).unwrap();
    assert_eq!(cpu.read_rn_w(0).unwrap(), 0xffff);
    assert_eq!(cpu.read_ccr(CCR::C), 1);
    assert_eq!(cpu.read_ccr(CCR::H), 1);
    assert_eq!(cpu.read_ccr(CCR::V), 0);

    let mut cpu = Cpu::new();
    cpu.er[0] = 0x1000_0000;
    place(&mut cpu, MEMORY_START_ADDR, &[0x17, 0xb0]);
    step(&mut cpu).unwrap();
    assert_eq!(cpu.er[0], 0xf000_0000);
    assert_eq!(cpu.read_ccr(CCR::C), 1);
    assert_eq!(cpu.read_ccr(CCR::H), 0);
    assert_eq!(cpu.read_ccr(CCR::N), 1);

    let mut cpu = Cpu::new();
    place(&mut cpu, MEMORY_START_ADDR, &[0x17, 0x90]);
    step(&mut cpu).unwrap();
    assert_eq!(cpu.read_ccr(CCR::C), 0);
    assert_eq!(cpu.read_ccr(CCR::H), 0);
    assert_eq!(cpu.read_ccr(CCR::Z), 1);
}

#[test]
fn test_bcc_invalid_second_byte_is_refused_without_fetching() {
    let mut cpu = Cpu::new();
    let last = 0x5f_fffe;
    let i = (last - AREA2_START_ADDR) as usize;
    cpu.bus.dram[i] = 0x58;
    cpu.bus.dram[i + 1] = 0x01;
    cpu.pc = last;
    assert_eq!(cpu.fetch_and_exec(), Err(EmuError::InvalidOpcode(0x5801)));

    let mut cpu = Cpu::new();
    cpu.bus.dram[i] = 0x58;
    cpu.bus.dram[i + 1] = 0x00;
    cpu.pc = last;
    assert_eq!(cpu.fetch_and_exec(), Err(EmuError::Fault(last)));
}

#[test]
fn test_law_rotl_rotr_flags() {
    let mut cpu = Cpu::new();
    cpu.write_rn_w(2, 0x8001).unwrap();
    place(&mut cpu, MEMORY_START_ADDR, &[0x12, 0x92, 0x13, 0x92]);
    step(&mut cpu).unwrap();
    assert_eq!(cpu.read_rn_w(2).unwrap(), 0x0003);
    step(&mut cpu).unwrap();
    assert_eq!(cpu.read_rn_w(2).unwrap(), 0x8001);
    assert_eq!(cpu.read_ccr(CCR::C), 1);
    assert_eq!(cpu.read_ccr(CCR::N), 1);
    assert_eq!(cpu.read_ccr(CCR::V), 0);
}

#[test]
fn test_calc_state_matches_addressed_count() {
    let mut cpu = Cpu::new();
    cpu.operating_pc = AREA2_START_ADDR;
    cpu.init_registers().unwrap();
    for t in [StateType::I, StateType::J, StateType::K, StateType::N] {
        assert_eq!(cpu.calc_state(t, 2), cpu.calc_state_with_addr(t, 2, AREA2_START_ADDR));
    }
}
