use h8_3069f_emulator::bus::AREA2_START_ADDR;
use h8_3069f_emulator::cpu::Cpu;
use h8_3069f_emulator::elf::{load, load_words, parse_elf, parse_string_table_entry, PROGRAM_START_ADDR};
use h8_3069f_emulator::error::EmuError;

fn put16(b: &mut [u8], off: usize, v: u16) {
    b[off..off + 2].copy_from_slice(&v.to_be_bytes());
}

fn put32(b: &mut [u8], off: usize, v: u32) {
    b[off..off + 4].copy_from_slice(&v.to_be_bytes());
}

const SHSTRTAB: &[u8] = b"\0.got\0.stack\0.symtab\0.shstrtab\0___exit\0";

/// A big-endian ELF32 file with one loadable segment of 12 bytes (the last
/// word a `.got` entry of 0x10), a `.stack` section at 0x100, and a symbol
/// table in which `___exit` is at 4.
fn sample_elf() -> Vec<u8> {
    let mut b = vec![0u8; 368];
    b[0..7].copy_from_slice(&[0x7f, b'E', b'L', b'F', 1, 2, 1]);
    put32(&mut b, 28, 52);
    put32(&mut b, 32, 168);
    put16(&mut b, 40, 52);
    put16(&mut b, 42, 32);
    put16(&mut b, 44, 1);
    put16(&mut b, 46, 40);
    put16(&mut b, 48, 5);
    put16(&mut b, 50, 4);
    // program header
    put32(&mut b, 52, 1);
    put32(&mut b, 56, 84);
    put32(&mut b, 68, 12);
    put32(&mut b, 72, 0x10);
    // segment contents
    b[84..92].copy_from_slice(&[0x0b, 0x00, 0x54, 0x70, 0x40, 0xfe, 0x00, 0x00]);
    put32(&mut b, 92, 0x10);
    // section names
    b[96..96 + SHSTRTAB.len()].copy_from_slice(SHSTRTAB);
    // symbols: a null one and ___exit
    put32(&mut b, 152, 31);
    put32(&mut b, 156, 4);
    // section headers
    let sh = |i: usize| 168 + 40 * i;
    put32(&mut b, sh(1), 1);
    put32(&mut b, sh(1) + 4, 1);
    put32(&mut b, sh(1) + 12, 8);
    put32(&mut b, sh(1) + 16, 92);
    put32(&mut b, sh(1) + 20, 4);
    put32(&mut b, sh(2), 6);
    put32(&mut b, sh(2) + 12, 0x100);
    put32(&mut b, sh(3), 13);
    put32(&mut b, sh(3) + 4, 2);
    put32(&mut b, sh(3) + 16, 136);
    put32(&mut b, sh(3) + 20, 32);
    put32(&mut b, sh(3) + 24, 4);
    put32(&mut b, sh(3) + 36, 16);
    put32(&mut b, sh(4), 21);
    put32(&mut b, sh(4) + 4, 3);
    put32(&mut b, sh(4) + 16, 96);
    put32(&mut b, sh(4) + 20, SHSTRTAB.len() as u32);
    b
}

fn dram(cpu: &Cpu, addr: u32, n: usize) -> Vec<u8> {
    let i = (addr - AREA2_START_ADDR) as usize;
    cpu.bus.dram[i..i + n].to_vec()
}

#[test]
fn test_parse_elf_sample() {
    let img = parse_elf(&sample_elf()).unwrap();
    assert!(img.big_endian);
    let names: Vec<&[u8]> = img.names.iter().map(|n| n.as_slice()).collect();
    assert_eq!(names, vec![&b""[..], b".got", b".stack", b".symtab", b".shstrtab"]);
    assert_eq!(img.sections.len(), 5);
    assert_eq!(img.sections[3].entry_size, 16);
    assert_eq!(img.programs.len(), 1);
    assert_eq!(img.programs[0].size_in_mem, 0x10);
}

#[test]
fn test_parse_string_table_entry() {
    let b = sample_elf();
    assert_eq!(parse_string_table_entry(&b, 96, 31), Some(b"___exit".to_vec()));
    assert_eq!(parse_string_table_entry(&b, 96, 0), Some(Vec::new()));
    assert_eq!(parse_string_table_entry(&b"abc".to_vec(), 0, 1), None);
    assert_eq!(parse_string_table_entry(&b, 400, 0), None);
}

#[test]
fn test_load_sample() {
    let mut cpu = Cpu::new();
    load(&sample_elf(), &mut cpu, "a  bc").unwrap();
    // the entry
    assert_eq!(cpu.er[2], PROGRAM_START_ADDR);
    // the segment, with the .got entry relocated
    assert_eq!(
        dram(&cpu, PROGRAM_START_ADDR, 12),
        vec![0x0b, 0x00, 0x54, 0x70, 0x40, 0xfe, 0x00, 0x00, 0x00, 0x41, 0x69, 0x10]
    );
    assert_eq!(cpu.er[5], PROGRAM_START_ADDR + 8);
    // the stack and the arguments
    assert_eq!(cpu.er[7], 0x416a08);
    assert_eq!(cpu.er[0], 3);
    assert_eq!(cpu.er[1], 0x416a68);
    assert_eq!(
        dram(&cpu, 0x416a68, 12),
        vec![0x00, 0x41, 0x6a, 0x78, 0x00, 0x41, 0x6a, 0x81, 0x00, 0x41, 0x6a, 0x83]
    );
    assert_eq!(dram(&cpu, 0x416a78, 14), b"prog.elf\0a\0bc\0".to_vec());
    // the exit routine
    assert_eq!(cpu.exit_addr, PROGRAM_START_ADDR + 4);
}

#[test]
fn test_load_words_without_arguments() {
    let mut cpu = Cpu::new();
    load_words(&sample_elf(), &mut cpu, &Vec::new()).unwrap();
    assert_eq!(cpu.er[0], 1);
    assert_eq!(dram(&cpu, 0x416a68, 4), vec![0x00, 0x41, 0x6a, 0x70]);
    assert_eq!(dram(&cpu, 0x416a70, 9), b"prog.elf\0".to_vec());
}

#[test]
fn test_load_then_run() {
    let mut cpu = Cpu::new();
    load(&sample_elf(), &mut cpu, "").unwrap();
    cpu.start().unwrap();
    assert_eq!(cpu.pc, PROGRAM_START_ADDR);
    // ADDS #1,ER0 from DRAM
    assert!(cpu.fetch_and_exec().is_ok());
    assert_eq!(cpu.er[0], 2);
    assert_eq!(cpu.pc, PROGRAM_START_ADDR + 2);
}

#[test]
fn test_load_invalid_elf() {
    let mut cpu = Cpu::new();
    let mut b = sample_elf();
    b[1] = b'X';
    assert_eq!(load(&b, &mut cpu, ""), Err(EmuError::InvalidElf));
    assert_eq!(cpu.er, [0u32; 8]);
    assert!(parse_elf(&b).is_err());

    let short = sample_elf()[..200].to_vec();
    assert_eq!(load(&short, &mut cpu, ""), Err(EmuError::InvalidElf));
    assert_eq!(cpu.er, [0u32; 8]);

    assert_eq!(load(&Vec::new(), &mut cpu, ""), Err(EmuError::InvalidElf));
}

#[test]
fn test_load_segment_outside_dram() {
    let mut cpu = Cpu::new();
    let mut b = sample_elf();
    put32(&mut b, 60, 0x1f0000);
    assert_eq!(load(&b, &mut cpu, ""), Err(EmuError::InvalidElf));
    assert_eq!(cpu.er[2], PROGRAM_START_ADDR);
    assert_eq!(cpu.er[5], 0);
}

#[test]
fn test_load_splits_on_unicode_white_space() {
    let mut cpu = Cpu::new();
    load(&sample_elf(), &mut cpu, " x\u{3000}y\tz\u{e9} ").unwrap();
    assert_eq!(cpu.er[0], 4);
    assert_eq!(dram(&cpu, 0x416a7c, 17), b"prog.elf\0x\0y\0z\xc3\xa9\0".to_vec());
}
