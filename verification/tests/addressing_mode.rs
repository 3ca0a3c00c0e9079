use h8_3069f_emulator::cpu::Cpu;


#[test]
fn test_write_abs8_b() {
    let mut cpu = Cpu::new();
    cpu.write_abs8_b(0x10, 0xff).unwrap();
    cpu.write_abs8_b(0x1f, 0xff).unwrap();
    assert_eq!(cpu.bus.read(0xffff10).unwrap(), 0xff);
    assert_eq!(cpu.bus.read(0xffff1f).unwrap(), 0xff);
}

#[test]
fn test_read_abs8_b() {
    let mut cpu = Cpu::new();
    cpu.bus.write(0xffff10, 0xff).unwrap();
    cpu.bus.write(0xffff1f, 0xff).unwrap();
    assert_eq!(cpu.read_abs8_b(0x10).unwrap(), 0xff);
    assert_eq!(cpu.read_abs8_b(0x1f).unwrap(), 0xff);
}

#[test]
fn test_write_abs16_b() {
    let mut cpu = Cpu::new();
    cpu.write_abs16_b(0xff10, 0xff).unwrap();
    cpu.write_abs16_b(0xff1e, 0xff).unwrap();
    assert_eq!(cpu.bus.read(0xffff10).unwrap(), 0xff);
    assert_eq!(cpu.bus.read(0xffff1e).unwrap(), 0xff);
}

#[test]
fn test_read_abs16_b() {
    let mut cpu = Cpu::new();
    cpu.bus.write(0xffff10, 0xff).unwrap();
    cpu.bus.write(0xffff1e, 0xff).unwrap();
    assert_eq!(cpu.read_abs16_b(0xff10).unwrap(), 0xff);
    assert_eq!(cpu.read_abs16_b(0xff1e).unwrap(), 0xff);
}

#[test]
fn test_write_abs24_b() {
    let mut cpu = Cpu::new();
    cpu.write_abs24_b(0xffff10, 0xff).unwrap();
    cpu.write_abs24_b(0xffff1e, 0xff).unwrap();
    assert_eq!(cpu.bus.read(0xffff10).unwrap(), 0xff);
    assert_eq!(cpu.bus.read(0xffff1e).unwrap(), 0xff);
}

#[test]
fn test_read_abs24_b() {
    let mut cpu = Cpu::new();
    cpu.bus.write(0xffff10, 0xff).unwrap();
    cpu.bus.write(0xffff1e, 0xff).unwrap();
    assert_eq!(cpu.read_abs24_b(0xffff10).unwrap(), 0xff);
    assert_eq!(cpu.read_abs24_b(0xffff1e).unwrap(), 0xff);
}

#[test]
fn test_write_abs8_w() {
    {
        let mut cpu = Cpu::new();
        cpu.write_abs8_w(0x10, 0x0fff).unwrap();
        assert_eq!(
            (cpu.bus.read(0xffff10).unwrap() as u16) << 8 | cpu.bus.read(0xffff11).unwrap() as u16,
            0x0fff
        );
    }

    {
        let mut cpu = Cpu::new();
        cpu.write_abs8_w(0x01, 0x0fff).unwrap();
        assert_eq!(
            (cpu.bus.read(0xffff01).unwrap() as u16) << 8 | cpu.bus.read(0xffff02).unwrap() as u16,
            0x0fff
        );
    }
}

#[test]
fn test_read_abs8_w() {
    let mut cpu = Cpu::new();
    cpu.bus.write(0xffff10, 0x0f).unwrap();
    cpu.bus.write(0xffff11, 0xff).unwrap();
    assert_eq!(cpu.read_abs8_w(0x10).unwrap(), 0x0fff);
}

// Only addresses whose top bit is set
#[test]
fn test_write_abs16_w() {
    let mut cpu = Cpu::new();
    cpu.write_abs16_w(0xff10, 0x0fff).unwrap();
    assert_eq!(
        (cpu.bus.read(0xffff10).unwrap() as u16) << 8 | cpu.bus.read(0xffff11).unwrap() as u16,
        0x0fff
    );
}

// Only addresses whose top bit is set
#[test]
fn test_read_abs16_w() {
    let mut cpu = Cpu::new();
    cpu.bus.write(0xffff00, 0x0f).unwrap();
    cpu.bus.write(0xffff01, 0x0f).unwrap();
    assert_eq!(cpu.read_abs16_w(0xff00).unwrap(), 0x0f0f);

    cpu.bus.write(0xffff10, 0x0f).unwrap();
    cpu.bus.write(0xffff11, 0xff).unwrap();
    assert_eq!(cpu.read_abs16_w(0xff10).unwrap(), 0x0fff);
}

#[test]
fn test_write_abs24_w() {
    let mut cpu = Cpu::new();
    cpu.write_abs24_w(0xffff10, 0x0fff).unwrap();
    assert_eq!(
        (cpu.bus.read(0xffff10).unwrap() as u16) << 8 | cpu.bus.read(0xffff11).unwrap() as u16,
        0x0fff
    );
}

#[test]
fn test_read_abs24_w() {
    let mut cpu = Cpu::new();
    cpu.bus.write(0xffff00, 0x0f).unwrap();
    cpu.bus.write(0xffff01, 0x0f).unwrap();
    assert_eq!(cpu.read_abs24_w(0xffff00).unwrap(), 0x0f0f);

    cpu.bus.write(0xffff10, 0x0f).unwrap();
    cpu.bus.write(0xffff11, 0xff).unwrap();
    assert_eq!(cpu.read_abs24_w(0xffff10).unwrap(), 0x0fff);
}

#[test]
fn test_write_abs8_l() {
    let mut cpu = Cpu::new();
    cpu.write_abs8_l(0x10, 0x0f0fff0f).unwrap();
    assert_eq!(
        (cpu.read_abs24_w(0xffff10).unwrap() as u32) << 16 | cpu.read_abs24_w(0xffff12).unwrap() as u32,
        0x0f0fff0f
    );
}

#[test]
fn test_read_abs8_l() {
    let mut cpu = Cpu::new();
    cpu.write_abs24_w(0xffff10, 0x0f0f).unwrap();
    cpu.write_abs24_w(0xffff12, 0xff0f).unwrap();
    assert_eq!(cpu.read_abs8_l(0x10).unwrap(), 0x0f0fff0f);
}

// Only addresses whose top bit is set
#[test]
fn test_write_abs16_l() {
    let mut cpu = Cpu::new();
    cpu.write_abs16_l(0xff10, 0x0f0fff0f).unwrap();
    assert_eq!(
        (cpu.read_abs24_w(0xffff10).unwrap() as u32) << 16 | cpu.read_abs24_w(0xffff12).unwrap() as u32,
        0x0f0fff0f
    );
}

// Only addresses whose top bit is set
#[test]
fn test_read_abs16_l() {
    let mut cpu = Cpu::new();
    cpu.write_abs24_w(0xffff00, 0x0f0f).unwrap();
    cpu.write_abs24_w(0xffff02, 0xff0f).unwrap();
    assert_eq!(cpu.read_abs16_l(0xff00).unwrap(), 0x0f0fff0f);
}
#[test]
fn test_write_abs24_l() {
    let mut cpu = Cpu::new();
    cpu.write_abs24_l(0xffff10, 0x0f0fff0f).unwrap();
    assert_eq!(
        (cpu.read_abs24_w(0xffff10).unwrap() as u32) << 16 | cpu.read_abs24_w(0xffff12).unwrap() as u32,
        0x0f0fff0f
    );
}

#[test]
fn test_read_abs24_l() {
    let mut cpu = Cpu::new();
    cpu.write_abs24_w(0xffff00, 0x0f0f).unwrap();
    cpu.write_abs24_w(0xffff02, 0xff0f).unwrap();
    assert_eq!(cpu.read_abs24_l(0xffff00).unwrap(), 0x0f0fff0f);
}


#[test]
fn test_write_dec_ern_b() {
    let mut cpu = Cpu::new();
    cpu.er[0] = 0xffff11;
    cpu.write_dec_ern_b(0, 0xff).unwrap();

    assert_eq!(cpu.read_abs24_b(0xffff10).unwrap(), 0xff);
    assert_eq!(cpu.er[0], 0xffff10)
}

#[test]
fn test_read_dec_ern_b() {
    let mut cpu = Cpu::new();
    cpu.er[0] = 0xffff11;
    cpu.write_abs24_b(0xffff10, 0xff).unwrap();
    assert_eq!(cpu.read_dec_ern_b(0).unwrap(), 0xff);
    assert_eq!(cpu.er[0], 0xffff10)
}

#[test]
fn test_write_dec_ern_w() {
    let mut cpu = Cpu::new();
    cpu.er[0] = 0xffff12;
    cpu.write_dec_ern_w(0, 0x0fff).unwrap();

    assert_eq!(cpu.read_abs24_w(0xffff10).unwrap(), 0x0fff);
    assert_eq!(cpu.er[0], 0xffff10)
}

#[test]
fn test_read_dec_ern_w() {
    let mut cpu = Cpu::new();
    cpu.er[0] = 0xffff12;
    cpu.write_abs24_w(0xffff10, 0x0fff).unwrap();
    assert_eq!(cpu.read_dec_ern_w(0).unwrap(), 0x0fff);
    assert_eq!(cpu.er[0], 0xffff10)
}

#[test]
fn test_write_dec_ern_l() {
    let mut cpu = Cpu::new();
    cpu.er[0] = 0xffff14;
    cpu.write_dec_ern_l(0, 0x0f0fff0f).unwrap();

    assert_eq!(cpu.read_abs24_l(0xffff10).unwrap(), 0x0f0fff0f);
    assert_eq!(cpu.er[0], 0xffff10)
}

#[test]
fn test_read_dec_ern_l() {
    let mut cpu = Cpu::new();
    cpu.er[0] = 0xffff14;
    cpu.write_abs24_l(0xffff10, 0x0f0fff0f).unwrap();
    assert_eq!(cpu.read_dec_ern_l(0).unwrap(), 0x0f0fff0f);
    assert_eq!(cpu.er[0], 0xffff10)
}


#[test]
fn test_write_disp16_ern_b() {
    let mut cpu = Cpu::new();
    cpu.er[0] = 0xfff000;
    cpu.write_disp16_ern_b(0, 0x0f10, 0xff).unwrap();
    assert_eq!(cpu.read_abs24_b(0xffff10).unwrap(), 0xff);

    cpu.er[1] = 0xfffe0a;
    cpu.write_disp16_ern_b(1, 0xfff6, 0xff).unwrap();
    assert_eq!(cpu.read_abs24_b(0xfffe00).unwrap(), 0xff);
}

#[test]
fn test_read_disp16_ern_b() {
    let mut cpu = Cpu::new();
    cpu.er[0] = 0xfff000;
    cpu.write_abs24_b(0xffff10, 0xff).unwrap();
    assert_eq!(cpu.read_disp16_ern_b(0, 0x0f10).unwrap(), 0xff);

    cpu.er[1] = 0xfffe0a;
    cpu.write_abs24_b(0xfffe00, 0xff).unwrap();
    assert_eq!(cpu.read_disp16_ern_b(1, 0xfff6).unwrap(), 0xff);
}

#[test]
fn test_write_disp16_ern_w() {
    let mut cpu = Cpu::new();
    cpu.er[0] = 0xfff000;
    cpu.write_disp16_ern_w(0, 0x0f10, 0x0fff).unwrap();
    assert_eq!(cpu.read_abs24_w(0xffff10).unwrap(), 0x0fff);

    cpu.er[1] = 0xfffe0a;
    cpu.write_disp16_ern_w(1, 0xfff6, 0x0fff).unwrap();
    assert_eq!(cpu.read_abs24_w(0xfffe00).unwrap(), 0x0fff);
}

#[test]
fn test_read_disp16_ern_w() {
    let mut cpu = Cpu::new();
    cpu.er[0] = 0xfff000;
    cpu.write_abs24_w(0xffff10, 0x0fff).unwrap();
    assert_eq!(cpu.read_disp16_ern_w(0, 0x0f10).unwrap(), 0x0fff);

    cpu.er[1] = 0xfffe0a;
    cpu.write_abs24_w(0xfffe00, 0x0fff).unwrap();
    assert_eq!(cpu.read_disp16_ern_w(1, 0xfff6).unwrap(), 0x0fff);
}

#[test]
fn test_write_disp16_ern_l() {
    let mut cpu = Cpu::new();
    cpu.er[0] = 0xfff000;
    cpu.write_disp16_ern_l(0, 0x0f10, 0x0f0fff0f).unwrap();
    assert_eq!(cpu.read_abs24_l(0xffff10).unwrap(), 0x0f0fff0f);

    cpu.er[1] = 0xfffe0a;
    cpu.write_disp16_ern_l(1, 0xfff6, 0x0f0fff0f).unwrap();
    assert_eq!(cpu.read_abs24_l(0xfffe00).unwrap(), 0x0f0fff0f);
}

#[test]
fn test_read_disp16_ern_l() {
    let mut cpu = Cpu::new();
    cpu.er[0] = 0xfff000;
    cpu.write_abs24_l(0xffff10, 0x0f0fff0f).unwrap();
    assert_eq!(cpu.read_disp16_ern_l(0, 0x0f10).unwrap(), 0x0f0fff0f);

    cpu.er[1] = 0xfffe0a;
    cpu.write_abs24_l(0xfffe00, 0x0f0fff0f).unwrap();
    assert_eq!(cpu.read_disp16_ern_l(1, 0xfff6).unwrap(), 0x0f0fff0f);
}

#[test]
fn test_write_disp24_ern_b() {
    let mut cpu = Cpu::new();
    cpu.er[0] = 0xfff000;
    cpu.write_disp24_ern_b(0, 0x000f10, 0xff).unwrap();
    assert_eq!(cpu.read_abs24_b(0xffff10).unwrap(), 0xff);

    cpu.er[1] = 0xfffe0a;
    cpu.write_disp24_ern_b(1, 0xfffff6, 0xff).unwrap();
    assert_eq!(cpu.read_abs24_b(0xfffe00).unwrap(), 0xff);
}

#[test]
fn test_read_disp24_ern_b() {
    let mut cpu = Cpu::new();
    cpu.er[0] = 0xfff000;
    cpu.write_abs24_b(0xffff10, 0xff).unwrap();
    assert_eq!(cpu.read_disp24_ern_b(0, 0x000f10).unwrap(), 0xff);

    cpu.er[1] = 0xfffe0a;
    cpu.write_abs24_b(0xfffe00, 0xff).unwrap();
    assert_eq!(cpu.read_disp24_ern_b(1, 0xfffff6).unwrap(), 0xff);
}

#[test]
fn test_write_disp24_ern_w() {
    let mut cpu = Cpu::new();
    cpu.er[0] = 0xfff000;
    cpu.write_disp24_ern_w(0, 0x000f10, 0x0fff).unwrap();
    assert_eq!(cpu.read_abs24_w(0xffff10).unwrap(), 0x0fff);

    cpu.er[1] = 0xfffe0a;
    cpu.write_disp24_ern_w(1, 0xfffff6, 0x0fff).unwrap();
    assert_eq!(cpu.read_abs24_w(0xfffe00).unwrap(), 0x0fff);
}

#[test]
fn test_read_disp24_ern_w() {
    let mut cpu = Cpu::new();
    cpu.er[0] = 0xfff000;
    cpu.write_abs24_w(0xffff10, 0x0fff).unwrap();
    assert_eq!(cpu.read_disp24_ern_w(0, 0x000f10).unwrap(), 0x0fff);

    cpu.er[1] = 0xfffe0a;
    cpu.write_abs24_w(0xfffe00, 0x0fff).unwrap();
    assert_eq!(cpu.read_disp24_ern_w(1, 0xfffff6).unwrap(), 0x0fff);
}

#[test]
fn test_write_disp24_ern_l() {
    let mut cpu = Cpu::new();
    cpu.er[0] = 0xfff000;
    cpu.write_disp24_ern_l(0, 0x000f10, 0x0f0fff0f).unwrap();
    assert_eq!(cpu.read_abs24_l(0xffff10).unwrap(), 0x0f0fff0f);

    cpu.er[1] = 0xfffe0a;
    cpu.write_disp24_ern_l(1, 0xfffff6, 0x0f0fff0f).unwrap();
    assert_eq!(cpu.read_abs24_l(0xfffe00).unwrap(), 0x0f0fff0f);
}

#[test]
fn test_read_disp24_ern_l() {
    let mut cpu = Cpu::new();
    cpu.er[0] = 0xfff000;
    cpu.write_abs24_l(0xffff10, 0x0f0fff0f).unwrap();
    assert_eq!(cpu.read_disp24_ern_l(0, 0x000f10).unwrap(), 0x0f0fff0f);

    cpu.er[1] = 0xfffe0a;
    cpu.write_abs24_l(0xfffe00, 0x0f0fff0f).unwrap();
    assert_eq!(cpu.read_disp24_ern_l(1, 0xfffff6).unwrap(), 0x0f0fff0f);
}


#[test]
fn test_write_ern_b() {
    let mut cpu = Cpu::new();
    cpu.er[0] = 0xffff10;
    cpu.write_ern_b(0, 0xff).unwrap();

    assert_eq!(cpu.read_abs24_b(0xffff10).unwrap(), 0xff)
}

#[test]
fn test_read_ern_b() {
    let mut cpu = Cpu::new();
    cpu.er[0] = 0xffff10;
    cpu.write_abs24_b(0xffff10, 0xff).unwrap();
    assert_eq!(cpu.read_ern_b(0).unwrap(), 0xff)
}

#[test]
fn test_write_ern_w() {
    let mut cpu = Cpu::new();
    cpu.er[0] = 0xffff10;
    cpu.write_ern_w(0, 0x0fff).unwrap();

    assert_eq!(cpu.read_abs24_w(0xffff10).unwrap(), 0x0fff)
}

#[test]
fn test_read_ern_w() {
    let mut cpu = Cpu::new();
    cpu.er[0] = 0xffff10;
    cpu.write_abs24_w(0xffff10, 0x0fff).unwrap();
    assert_eq!(cpu.read_ern_w(0).unwrap(), 0x0fff)
}

#[test]
fn test_write_ern_l() {
    let mut cpu = Cpu::new();
    cpu.er[0] = 0xffff10;
    cpu.write_ern_l(0, 0x0f0fff0f).unwrap();

    assert_eq!(cpu.read_abs24_l(0xffff10).unwrap(), 0x0f0fff0f)
}

#[test]
fn test_read_ern_l() {
    let mut cpu = Cpu::new();
    cpu.er[0] = 0xffff10;
    cpu.write_abs24_l(0xffff10, 0x0f0fff0f).unwrap();
    assert_eq!(cpu.read_ern_l(0).unwrap(), 0x0f0fff0f)
}


#[test]
fn pc_disp8() {
            let mut cpu = Cpu::new();
    cpu.pc = 0xffff02;
    cpu.pc_disp8(0xfe).unwrap();
    assert_eq!(cpu.pc, 0xffff00);

    cpu.pc = 0xffff02;
    cpu.pc_disp8(0x8).unwrap();
    assert_eq!(cpu.pc, 0xffff0a);
}

#[test]
fn pc_disp16() {
            let mut cpu = Cpu::new();
    cpu.pc = 0xffff02;
    cpu.pc_disp16(0xfffe).unwrap();
    assert_eq!(cpu.pc, 0xffff00);

    cpu.pc = 0xffff02;
    cpu.pc_disp16(0x8).unwrap();
    assert_eq!(cpu.pc, 0xffff0a);
}


#[test]
fn test_write_rn_b() {
            let mut cpu = Cpu::new();
    cpu.write_rn_b(0b0000, 0xff).unwrap(); // R0H
    cpu.write_rn_b(0b0111, 0xff).unwrap(); // R7H
    assert_eq!(cpu.er[0], 0x0000ff00);
    assert_eq!(cpu.er[7], 0x0000ff00);

    cpu.er[0] = 0;
    cpu.er[7] = 0;

    cpu.write_rn_b(0b1000, 0xff).unwrap();
    cpu.write_rn_b(0b1111, 0xff).unwrap();
    assert_eq!(cpu.er[0], 0x000000ff);
    assert_eq!(cpu.er[7], 0x000000ff);
}

#[test]
fn test_read_rn_b() {
            let mut cpu = Cpu::new();
    cpu.er[0] = 0x0000ff00;
    cpu.er[7] = 0x0000ff00;
    assert_eq!(cpu.read_rn_b(0b0000).unwrap(), 0xff); // R0H
    assert_eq!(cpu.read_rn_b(0b0001).unwrap(), 0x00); // R1H
    assert_eq!(cpu.read_rn_b(0b0111).unwrap(), 0xff); // R7H

    cpu.er[0] = 0x000000ff;
    cpu.er[7] = 0x000000ff;
    assert_eq!(cpu.read_rn_b(0b1000).unwrap(), 0xff); // R0L
    assert_eq!(cpu.read_rn_b(0b1001).unwrap(), 0x00); // R1L
    assert_eq!(cpu.read_rn_b(0b1111).unwrap(), 0xff); // R7L
}

#[test]
fn test_write_rn_w() {
            let mut cpu = Cpu::new();
    cpu.write_rn_w(0b0000, 0xffff).unwrap(); // R0
    cpu.write_rn_w(0b0111, 0xffff).unwrap(); // R7
    assert_eq!(cpu.er[0], 0x0000ffff);
    assert_eq!(cpu.er[7], 0x0000ffff);

    cpu.er[0] = 0;
    cpu.er[7] = 0;

    cpu.write_rn_w(0b1000, 0xffff).unwrap(); // E0
    cpu.write_rn_w(0b1111, 0xffff).unwrap(); // E7
    assert_eq!(cpu.er[0], 0xffff0000);
    assert_eq!(cpu.er[7], 0xffff0000);
}

#[test]
fn test_read_rn_w() {
            let mut cpu = Cpu::new();
    cpu.er[0] = 0x0000ffff;
    cpu.er[7] = 0x0000ffff;
    assert_eq!(cpu.read_rn_w(0b0000).unwrap(), 0xffff); // R0
    assert_eq!(cpu.read_rn_w(0b0001).unwrap(), 0x0000); // R1
    assert_eq!(cpu.read_rn_w(0b0111).unwrap(), 0xffff); // R7

    cpu.er[0] = 0xffff0000;
    cpu.er[7] = 0xffff0000;
    assert_eq!(cpu.read_rn_w(0b1000).unwrap(), 0xffff); // E0
    assert_eq!(cpu.read_rn_w(0b1001).unwrap(), 0x0000); // E1
    assert_eq!(cpu.read_rn_w(0b1111).unwrap(), 0xffff); // E7
}

#[test]
fn test_write_rn_l() {
            let mut cpu = Cpu::new();
    cpu.write_rn_l(0b0000, 0xffffffff).unwrap(); // ER0
    cpu.write_rn_l(0b0001, 0xf0f0f0f0).unwrap(); // ER1
    cpu.write_rn_l(0b0111, 0x00000000).unwrap(); // ER7
    assert_eq!(cpu.er[0], 0xffffffff);
    assert_eq!(cpu.er[1], 0xf0f0f0f0);
    assert_eq!(cpu.er[7], 0x00000000);

    assert!(cpu.write_rn_l(0b1000, 0xffffffff).is_err())
}

#[test]
fn test_read_rn_l() {
            let mut cpu = Cpu::new();
    cpu.er[0] = 0xffffffff;
    cpu.er[7] = 0xf0f0f0f0;
    assert_eq!(cpu.read_rn_l(0b0000).unwrap(), 0xffffffff); // E0
    assert_eq!(cpu.read_rn_l(0b0001).unwrap(), 0x00000000); // E1
    assert_eq!(cpu.read_rn_l(0b0111).unwrap(), 0xf0f0f0f0); // E7
    assert!(cpu.read_rn_l(0b1000).is_err()); // E7
}

