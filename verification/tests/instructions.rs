use h8_3069f_emulator::cpu::Cpu;
use h8_3069f_emulator::memory::{MEMORY_END_ADDR, MEMORY_START_ADDR};

struct TestHelper<ST, TT> {
    src_addressing_mode: Box<dyn AddressingMode<ST>>,
    target_addressing_mode: Box<dyn AddressingMode<TT>>,
}

impl<ST: Copy, TT: Copy> TestHelper<ST, TT> {
    fn build(
        src_addressing_mode: Box<dyn AddressingMode<ST>>,
        target_addressing_mode: Box<dyn AddressingMode<TT>>,
    ) -> TestHelper<ST, TT> {
        TestHelper { src_addressing_mode, target_addressing_mode }
    }

    /// Calls `f` with (operator, src_index, target_index) for every pair of indices.
    fn run(&mut self, f: impl Fn(TestOperator, ST, TT)) {
        let src_valid = self.src_addressing_mode.get_valid_index();
        let src_invalid = self.src_addressing_mode.get_invalid_index();
        let target_valid = self.target_addressing_mode.get_valid_index();
        let target_invalid = self.target_addressing_mode.get_invalid_index();
        for s in src_valid.iter() {
            for t in target_valid.iter() {
                f(TestOperator::new(true), *s, *t);
            }
            for t in target_invalid.iter() {
                f(TestOperator::new(false), *s, *t);
            }
        }
        for s in src_invalid.iter() {
            for t in target_valid.iter() {
                f(TestOperator::new(false), *s, *t);
            }
            for t in target_invalid.iter() {
                f(TestOperator::new(false), *s, *t);
            }
        }
    }
}

#[derive(Clone)]
struct TestOperator {
    cpu: Cpu,
    should_success: bool,
    should_check_ccr: bool,
    ignored: bool,
    initial_ccr: [u8; 2],
    expect_ccr: [u8; 2],
    expect_state: u8,
}

impl TestOperator {
    fn new(should_success: bool) -> TestOperator {
        TestOperator {
            cpu: Cpu::new(),
            should_success,
            should_check_ccr: true,
            ignored: false,
            initial_ccr: [0, 0xff],
            expect_ccr: [0, 0xff],
            expect_state: 0,
        }
    }

    /// Runs the instruction at the start of memory twice, with all flags
    /// clear and with all flags set, and checks the outcome.
    fn exec(self, f: impl Fn(Cpu) -> bool) {
        if self.ignored {
            return;
        }
        for i in 0..=1 {
            let mut cpu = self.cpu.clone();
            cpu.pc = MEMORY_START_ADDR;
            if self.should_check_ccr {
                cpu.ccr = self.initial_ccr[i];
            }
            let opcode = cpu.fetch();
            let result = cpu.exec(opcode);
            if self.should_success {
                assert_eq!(result.unwrap(), self.expect_state);
                if self.should_check_ccr {
                    assert_eq!(cpu.ccr, self.expect_ccr[i]);
                }
                assert!(f(cpu));
            } else {
                let mut is_err = false;
                if self.should_check_ccr {
                    is_err = is_err || cpu.ccr != self.expect_ccr[1];
                }
                is_err = is_err || result.is_err() || result.is_ok_and(|state| state != self.expect_state) || !f(cpu);
                assert!(is_err);
            }
        }
    }

    fn access_cpu(mut self, f: impl Fn(&mut Cpu)) -> TestOperator {
        f(&mut self.cpu);
        self
    }

    fn set_opcode(mut self, opcode: &[u8]) -> TestOperator {
        self.cpu.bus.memory[0..opcode.len()].copy_from_slice(opcode);
        self
    }

    #[allow(dead_code)]
    fn should_success(mut self, success: bool) -> TestOperator {
        self.should_success = success;
        self
    }

    #[allow(dead_code)]
    fn should_check_ccr(mut self, check: bool) -> TestOperator {
        self.should_check_ccr = check;
        self
    }

    #[allow(dead_code)]
    fn ignore(mut self, ignored: bool) -> TestOperator {
        self.ignored = self.ignored || ignored;
        self
    }

    fn should_state(mut self, state: u8) -> TestOperator {
        self.expect_state = state;
        self
    }

    fn flag(mut self, bit: u8, on: bool) -> TestOperator {
        if on {
            self.initial_ccr[1] &= !(1 << bit);
            self.expect_ccr[0] |= 1 << bit;
        } else {
            self.initial_ccr[0] |= 1 << bit;
            self.expect_ccr[1] &= !(1 << bit);
        }
        self
    }

    #[allow(dead_code)]
    fn should_ccr_c(self, on: bool) -> TestOperator {
        self.flag(0, on)
    }

    #[allow(dead_code)]
    fn should_ccr_v(self, on: bool) -> TestOperator {
        self.flag(1, on)
    }

    #[allow(dead_code)]
    fn should_ccr_z(self, on: bool) -> TestOperator {
        self.flag(2, on)
    }

    #[allow(dead_code)]
    fn should_ccr_n(self, on: bool) -> TestOperator {
        self.flag(3, on)
    }

    #[allow(dead_code)]
    fn should_ccr_h(self, on: bool) -> TestOperator {
        self.flag(5, on)
    }
}

trait AddressingMode<T> {
    fn get_valid_index(&mut self) -> Vec<T>;
    fn get_invalid_index(&mut self) -> Vec<T>;
}

struct NoneMode {}
impl NoneMode {
    fn new() -> Box<NoneMode> {
        Box::new(NoneMode {})
    }
}
impl AddressingMode<()> for NoneMode {
    fn get_valid_index(&mut self) -> Vec<()> {
        vec![()]
    }
    fn get_invalid_index(&mut self) -> Vec<()> {
        Vec::new()
    }
}

struct RnMode {}
impl RnMode {
    fn new() -> Box<RnMode> {
        Box::new(RnMode {})
    }
}
impl AddressingMode<u8> for RnMode {
    fn get_valid_index(&mut self) -> Vec<u8> {
        (0..16).collect()
    }
    fn get_invalid_index(&mut self) -> Vec<u8> {
        Vec::new()
    }
}

struct ImmMode {
    values: Vec<u8>,
}
impl ImmMode {
    fn new(values: Vec<u8>) -> Box<ImmMode> {
        Box::new(ImmMode { values })
    }
}
impl AddressingMode<u8> for ImmMode {
    fn get_valid_index(&mut self) -> Vec<u8> {
        self.values.clone()
    }
    fn get_invalid_index(&mut self) -> Vec<u8> {
        Vec::new()
    }
}

struct ErnMode {}
impl ErnMode {
    fn new() -> Box<ErnMode> {
        Box::new(ErnMode {})
    }
}
impl AddressingMode<u8> for ErnMode {
    fn get_valid_index(&mut self) -> Vec<u8> {
        (0..8).collect()
    }
    fn get_invalid_index(&mut self) -> Vec<u8> {
        Vec::new()
    }
}

#[derive(Clone, Copy)]
struct Disp16Data {
    disp: u16,
    base_addr: u32,
    #[allow(dead_code)]
    target_addr: u32,
    er_i: u8,
}
impl Disp16Data {
    fn as8(&self, index: u8) -> u8 {
        match index {
            1 => (self.disp >> 8) as u8,
            2 => self.disp as u8,
            _ => panic!(),
        }
    }
}

struct Disp16Mode {}
impl Disp16Mode {
    fn new() -> Box<Disp16Mode> {
        Box::new(Disp16Mode {})
    }
}
impl AddressingMode<Disp16Data> for Disp16Mode {
    fn get_valid_index(&mut self) -> Vec<Disp16Data> {
        (0..8).map(|i| Disp16Data { disp: 0x0eee, base_addr: 0xffcf20, target_addr: 0xffde0e, er_i: i }).collect()
    }
    fn get_invalid_index(&mut self) -> Vec<Disp16Data> {
        Vec::new()
    }
}

#[derive(Clone, Copy)]
struct Disp24Data {
    disp: u32,
    base_addr: u32,
    #[allow(dead_code)]
    target_addr: u32,
    er_i: u8,
}
impl Disp24Data {
    fn as8(&self, index: u8) -> u8 {
        match index {
            1 => (self.disp >> 24) as u8,
            2 => (self.disp >> 16) as u8,
            3 => (self.disp >> 8) as u8,
            4 => self.disp as u8,
            _ => panic!(),
        }
    }
}

struct Disp24Mode {}
impl Disp24Mode {
    fn new() -> Box<Disp24Mode> {
        Box::new(Disp24Mode {})
    }
}
impl AddressingMode<Disp24Data> for Disp24Mode {
    fn get_valid_index(&mut self) -> Vec<Disp24Data> {
        (0..8).map(|i| Disp24Data { disp: 0xfffeee, base_addr: 0xffcf20, target_addr: 0xffce0e, er_i: i }).collect()
    }
    fn get_invalid_index(&mut self) -> Vec<Disp24Data> {
        Vec::new()
    }
}

#[derive(Clone, Copy)]
struct IncErnData {
    base_addr: u32,
    result_addr: u32,
    er_i: u8,
}

struct IncErnMode {
    diff: u32,
}
impl IncErnMode {
    #[allow(dead_code)]
    fn new_b() -> Box<IncErnMode> {
        Box::new(IncErnMode { diff: 1 })
    }
    #[allow(dead_code)]
    fn new_w() -> Box<IncErnMode> {
        Box::new(IncErnMode { diff: 2 })
    }
    #[allow(dead_code)]
    fn new_l() -> Box<IncErnMode> {
        Box::new(IncErnMode { diff: 4 })
    }
}
impl AddressingMode<IncErnData> for IncErnMode {
    fn get_valid_index(&mut self) -> Vec<IncErnData> {
        let diff = self.diff;
        (0..8).map(|i| IncErnData { base_addr: 0xffcf20, result_addr: 0xffcf20 + diff, er_i: i }).collect()
    }
    fn get_invalid_index(&mut self) -> Vec<IncErnData> {
        Vec::new()
    }
}

struct Abs8Mode {}
impl Abs8Mode {
    fn new() -> Box<Abs8Mode> {
        Box::new(Abs8Mode {})
    }
}
impl AddressingMode<u8> for Abs8Mode {
    fn get_valid_index(&mut self) -> Vec<u8> {
        vec![0x02]
    }
    fn get_invalid_index(&mut self) -> Vec<u8> {
        Vec::new()
    }
}

struct Abs16Mode {}
impl Abs16Mode {
    fn new() -> Box<Abs16Mode> {
        Box::new(Abs16Mode {})
    }
}
impl AddressingMode<u16> for Abs16Mode {
    fn get_valid_index(&mut self) -> Vec<u16> {
        vec![0xff02]
    }
    fn get_invalid_index(&mut self) -> Vec<u16> {
        Vec::new()
    }
}

struct Abs24Mode {}
impl Abs24Mode {
    fn new() -> Box<Abs24Mode> {
        Box::new(Abs24Mode {})
    }
}
impl AddressingMode<u32> for Abs24Mode {
    fn get_valid_index(&mut self) -> Vec<u32> {
        vec![0x00ffff02]
    }
    fn get_invalid_index(&mut self) -> Vec<u32> {
        Vec::new()
    }
}

// adds

#[test]
fn test_adds1() {
    let mut cpu = Cpu::new();
    cpu.pc = MEMORY_START_ADDR;
    cpu.bus.memory[0..2].copy_from_slice(&[0x0b, 0x00]);
    cpu.write_rn_l(0, 10).unwrap();
    let opcode = cpu.fetch();
    let state = cpu.exec(opcode).unwrap();
    assert_eq!(state, 2);
    assert_eq!(cpu.ccr, 0);
    assert_eq!(cpu.read_rn_l(0).unwrap(), 11);

    // register 7
    let mut cpu = Cpu::new();
    cpu.pc = MEMORY_START_ADDR;
    cpu.bus.memory[0..2].copy_from_slice(&[0x0b, 0x07]);
    cpu.write_rn_l(7, 10).unwrap();
    let opcode = cpu.fetch();
    let state = cpu.exec(opcode).unwrap();
    assert_eq!(state, 2);
    assert_eq!(cpu.ccr, 0);
    assert_eq!(cpu.read_rn_l(7).unwrap(), 11);

    // overflow
    let mut cpu = Cpu::new();
    cpu.pc = MEMORY_START_ADDR;
    cpu.bus.memory[0..2].copy_from_slice(&[0x0b, 0x00]);
    cpu.write_rn_l(0, std::u32::MAX).unwrap();
    let opcode = cpu.fetch();
    let state = cpu.exec(opcode).unwrap();
    assert_eq!(state, 2);
    assert_eq!(cpu.ccr, 0);
    assert_eq!(cpu.read_rn_l(0).unwrap(), std::u32::MIN);

    // u32 MIN + 1
    let mut cpu = Cpu::new();
    cpu.pc = MEMORY_START_ADDR;
    cpu.bus.memory[0..2].copy_from_slice(&[0x0b, 0x00]);
    cpu.write_rn_l(0, std::u32::MIN).unwrap();
    let opcode = cpu.fetch();
    let state = cpu.exec(opcode).unwrap();
    assert_eq!(state, 2);
    assert_eq!(cpu.ccr, 0);
    assert_eq!(cpu.read_rn_l(0).unwrap(), std::u32::MIN + 1);

    // 0 + 1
    let mut cpu = Cpu::new();
    cpu.pc = MEMORY_START_ADDR;
    cpu.bus.memory[0..2].copy_from_slice(&[0x0b, 0x00]);
    cpu.write_rn_l(0, 0).unwrap();
    let opcode = cpu.fetch();
    let state = cpu.exec(opcode).unwrap();
    assert_eq!(state, 2);
    assert_eq!(cpu.ccr, 0);
    assert_eq!(cpu.read_rn_l(0).unwrap(), 1);

    // -1 + 1
    let mut cpu = Cpu::new();
    cpu.pc = MEMORY_START_ADDR;
    cpu.bus.memory[0..2].copy_from_slice(&[0x0b, 0x00]);
    cpu.write_rn_l(0, -1i32 as u32).unwrap();
    let opcode = cpu.fetch();
    let state = cpu.exec(opcode).unwrap();
    assert_eq!(state, 2);
    assert_eq!(cpu.ccr, 0);
    assert_eq!(cpu.read_rn_l(0).unwrap(), 0);
}

#[test]
fn test_adds2() {
    let mut cpu = Cpu::new();
    cpu.pc = MEMORY_START_ADDR;
    cpu.bus.memory[0..2].copy_from_slice(&[0x0b, 0x80]);
    cpu.write_rn_l(0, 10).unwrap();
    let opcode = cpu.fetch();
    let state = cpu.exec(opcode).unwrap();
    assert_eq!(state, 2);
    assert_eq!(cpu.ccr, 0);
    assert_eq!(cpu.read_rn_l(0).unwrap(), 12);

    // register 7
    let mut cpu = Cpu::new();
    cpu.pc = MEMORY_START_ADDR;
    cpu.bus.memory[0..2].copy_from_slice(&[0x0b, 0x87]);
    cpu.write_rn_l(7, 10).unwrap();
    let opcode = cpu.fetch();
    let state = cpu.exec(opcode).unwrap();
    assert_eq!(state, 2);
    assert_eq!(cpu.ccr, 0);
    assert_eq!(cpu.read_rn_l(7).unwrap(), 12);

    // overflow
    let mut cpu = Cpu::new();
    cpu.pc = MEMORY_START_ADDR;
    cpu.bus.memory[0..2].copy_from_slice(&[0x0b, 0x80]);
    cpu.write_rn_l(0, std::u32::MAX).unwrap();
    let opcode = cpu.fetch();
    let state = cpu.exec(opcode).unwrap();
    assert_eq!(state, 2);
    assert_eq!(cpu.ccr, 0);
    assert_eq!(cpu.read_rn_l(0).unwrap(), std::u32::MIN + 1);

    // u32 MIN + 1
    let mut cpu = Cpu::new();
    cpu.pc = MEMORY_START_ADDR;
    cpu.bus.memory[0..2].copy_from_slice(&[0x0b, 0x80]);
    cpu.write_rn_l(0, std::u32::MIN).unwrap();
    let opcode = cpu.fetch();
    let state = cpu.exec(opcode).unwrap();
    assert_eq!(state, 2);
    assert_eq!(cpu.ccr, 0);
    assert_eq!(cpu.read_rn_l(0).unwrap(), std::u32::MIN + 2);

    // 0 + 1
    let mut cpu = Cpu::new();
    cpu.pc = MEMORY_START_ADDR;
    cpu.bus.memory[0..2].copy_from_slice(&[0x0b, 0x80]);
    cpu.write_rn_l(0, 0).unwrap();
    let opcode = cpu.fetch();
    let state = cpu.exec(opcode).unwrap();
    assert_eq!(state, 2);
    assert_eq!(cpu.ccr, 0);
    assert_eq!(cpu.read_rn_l(0).unwrap(), 2);

    // -1 + 1
    let mut cpu = Cpu::new();
    cpu.pc = MEMORY_START_ADDR;
    cpu.bus.memory[0..2].copy_from_slice(&[0x0b, 0x80]);
    cpu.write_rn_l(0, -2i32 as u32).unwrap();
    let opcode = cpu.fetch();
    let state = cpu.exec(opcode).unwrap();
    assert_eq!(state, 2);
    assert_eq!(cpu.ccr, 0);
    assert_eq!(cpu.read_rn_l(0).unwrap(), 0);
}

#[test]
fn test_adds4() {
    let mut cpu = Cpu::new();
    cpu.pc = MEMORY_START_ADDR;
    cpu.bus.memory[0..2].copy_from_slice(&[0x0b, 0x90]);
    cpu.write_rn_l(0, 10).unwrap();
    let opcode = cpu.fetch();
    let state = cpu.exec(opcode).unwrap();
    assert_eq!(state, 2);
    assert_eq!(cpu.ccr, 0);
    assert_eq!(cpu.read_rn_l(0).unwrap(), 14);

    // register 7
    let mut cpu = Cpu::new();
    cpu.pc = MEMORY_START_ADDR;
    cpu.bus.memory[0..2].copy_from_slice(&[0x0b, 0x97]);
    cpu.write_rn_l(7, 10).unwrap();
    let opcode = cpu.fetch();
    let state = cpu.exec(opcode).unwrap();
    assert_eq!(state, 2);
    assert_eq!(cpu.ccr, 0);
    assert_eq!(cpu.read_rn_l(7).unwrap(), 14);

    // overflow
    let mut cpu = Cpu::new();
    cpu.pc = MEMORY_START_ADDR;
    cpu.bus.memory[0..2].copy_from_slice(&[0x0b, 0x90]);
    cpu.write_rn_l(0, std::u32::MAX).unwrap();
    let opcode = cpu.fetch();
    let state = cpu.exec(opcode).unwrap();
    assert_eq!(state, 2);
    assert_eq!(cpu.ccr, 0);
    assert_eq!(cpu.read_rn_l(0).unwrap(), std::u32::MIN + 3);

    // u32 MIN + 1
    let mut cpu = Cpu::new();
    cpu.pc = MEMORY_START_ADDR;
    cpu.bus.memory[0..2].copy_from_slice(&[0x0b, 0x90]);
    cpu.write_rn_l(0, std::u32::MIN).unwrap();
    let opcode = cpu.fetch();
    let state = cpu.exec(opcode).unwrap();
    assert_eq!(state, 2);
    assert_eq!(cpu.ccr, 0);
    assert_eq!(cpu.read_rn_l(0).unwrap(), std::u32::MIN + 4);

    // 0 + 1
    let mut cpu = Cpu::new();
    cpu.pc = MEMORY_START_ADDR;
    cpu.bus.memory[0..2].copy_from_slice(&[0x0b, 0x90]);
    cpu.write_rn_l(0, 0).unwrap();
    let opcode = cpu.fetch();
    let state = cpu.exec(opcode).unwrap();
    assert_eq!(state, 2);
    assert_eq!(cpu.ccr, 0);
    assert_eq!(cpu.read_rn_l(0).unwrap(), 4);

    // -1 + 1
    let mut cpu = Cpu::new();
    cpu.pc = MEMORY_START_ADDR;
    cpu.bus.memory[0..2].copy_from_slice(&[0x0b, 0x90]);
    cpu.write_rn_l(0, -4i32 as u32).unwrap();
    let opcode = cpu.fetch();
    let state = cpu.exec(opcode).unwrap();
    assert_eq!(state, 2);
    assert_eq!(cpu.ccr, 0);
    assert_eq!(cpu.read_rn_l(0).unwrap(), 0);
}

// bsr

#[test]
fn test_bsr_disp16() {
    let mut cpu = Cpu::new();
    cpu.er[7] = MEMORY_END_ADDR - 0xf;
    cpu.bus.memory[0..2].copy_from_slice(&[0x55, 0x15]);
    let opcode = cpu.fetch();
    let state = cpu.exec(opcode).unwrap();
    assert_eq!(state, 8);
    assert_eq!(cpu.ccr, 0);
    assert_eq!(cpu.read_ern_l(7).unwrap(), MEMORY_START_ADDR + 2);
    assert_eq!(cpu.pc, MEMORY_START_ADDR + 2 + 0x15);

    let mut cpu = Cpu::new();
    cpu.er[7] = MEMORY_END_ADDR - 0xf;
    cpu.pc = MEMORY_START_ADDR + 100;
    cpu.bus.memory[100..102].copy_from_slice(&[0x55, 0xf6]);
    let opcode = cpu.fetch();
    let state = cpu.exec(opcode).unwrap();
    assert_eq!(state, 8);
    assert_eq!(cpu.ccr, 0);
    assert_eq!(cpu.read_ern_l(7).unwrap(), MEMORY_START_ADDR + 102);
    assert_eq!(cpu.pc, MEMORY_START_ADDR + 102 - 10);
}

#[test]
fn test_bsr_disp24() {
    let mut cpu = Cpu::new();
    cpu.er[7] = MEMORY_END_ADDR - 0xf;
    cpu.bus.memory[0..4].copy_from_slice(&[0x5c, 0x00, 0x00, 0x15]);
    let opcode = cpu.fetch();
    let state = cpu.exec(opcode).unwrap();
    assert_eq!(state, 10);
    assert_eq!(cpu.ccr, 0);
    assert_eq!(cpu.read_ern_l(7).unwrap(), MEMORY_START_ADDR + 4);
    assert_eq!(cpu.pc, MEMORY_START_ADDR + 4 + 0x15);

    let mut cpu = Cpu::new();
    cpu.er[7] = MEMORY_END_ADDR - 0xf;
    cpu.pc = MEMORY_START_ADDR + 100;
    cpu.bus.memory[100..104].copy_from_slice(&[0x5c, 0x00, 0xff, 0xf6]);
    let opcode = cpu.fetch();
    let state = cpu.exec(opcode).unwrap();
    assert_eq!(state, 10);
    assert_eq!(cpu.ccr, 0);
    assert_eq!(cpu.read_ern_l(7).unwrap(), MEMORY_START_ADDR + 104);
    assert_eq!(cpu.pc, MEMORY_START_ADDR + 104 - 10);
}

// btst

#[test]
fn test_btst_imm_rn() {
    TestHelper::build(ImmMode::new(vec![0, 7]), RnMode::new()).run(|_operator, imm, src_i| {
        let operator = _operator.set_opcode(&[0x73, (imm << 4) | src_i]).should_state(2);
        operator
            .clone()
            .access_cpu(|cpu| {
                cpu.write_rn_b(src_i, 0).unwrap();
            })
            .should_ccr_z(true)
            .exec(|_| true);
        operator
            .clone()
            .access_cpu(|cpu| {
                cpu.write_rn_b(src_i, 1).unwrap();
            })
            .should_ccr_z(imm != 0)
            .exec(|_| true);
        operator
            .clone()
            .access_cpu(|cpu| {
                cpu.write_rn_b(src_i, 0x80).unwrap();
            })
            .should_ccr_z(imm != 7)
            .exec(|_| true);
    })
}

#[test]
fn test_btst_imm_ern() {
    TestHelper::build(ImmMode::new(vec![0, 7]), ErnMode::new()).run(|_operator, imm, src_i| {
        let operator = _operator.set_opcode(&[0x7c, src_i << 4, 0x73, imm << 4]).should_state(6);
        operator
            .clone()
            .access_cpu(|cpu| {
                cpu.write_ern_b(src_i, 0).unwrap();
            })
            .should_ccr_z(true)
            .exec(|_| true);
        operator
            .clone()
            .access_cpu(|cpu| {
                cpu.write_ern_b(src_i, 1).unwrap();
            })
            .should_ccr_z(imm != 0)
            .exec(|_| true);
        operator
            .clone()
            .access_cpu(|cpu| {
                cpu.write_ern_b(src_i, 0x80).unwrap();
            })
            .should_ccr_z(imm != 7)
            .exec(|_| true);
    })
}

#[test]
fn test_btst_imm_abs() {
    TestHelper::build(ImmMode::new(vec![0, 7]), Abs8Mode::new()).run(|_operator, imm, abs| {
        let operator = _operator.set_opcode(&[0x7e, abs, 0x73, imm << 4]).should_state(6);
        operator
            .clone()
            .access_cpu(|cpu| {
                cpu.write_abs8_b(abs, 0).unwrap();
            })
            .should_ccr_z(true)
            .exec(|_| true);
        operator
            .clone()
            .access_cpu(|cpu| {
                cpu.write_abs8_b(abs, 1).unwrap();
            })
            .should_ccr_z(imm != 0)
            .exec(|_| true);
        operator
            .clone()
            .access_cpu(|cpu| {
                cpu.write_abs8_b(abs, 0x80).unwrap();
            })
            .should_ccr_z(imm != 7)
            .exec(|_| true);
    })
}

#[test]
fn test_btst_rn_rn() {
    TestHelper::build(RnMode::new(), RnMode::new()).run(|_operator, rn_i, src_i| {
        let operator = _operator
            .set_opcode(&[0x63, (rn_i << 4) | src_i])
            .should_state(2)
            .ignore(rn_i == src_i);
        operator
            .clone()
            .access_cpu(|cpu| {
                cpu.write_rn_b(rn_i, 0).unwrap();
                cpu.write_rn_b(src_i, 0).unwrap();
            })
            .should_ccr_z(true)
            .exec(|_| true);
        operator
            .clone()
            .access_cpu(|cpu| {
                cpu.write_rn_b(rn_i, 0).unwrap();
                cpu.write_rn_b(src_i, 1).unwrap();
            })
            .should_ccr_z(false)
            .exec(|_| true);
        operator
            .clone()
            .access_cpu(|cpu| {
                cpu.write_rn_b(rn_i, 0).unwrap();
                cpu.write_rn_b(src_i, 0x80).unwrap();
            })
            .should_ccr_z(true)
            .exec(|_| true);

        operator
            .clone()
            .access_cpu(|cpu| {
                cpu.write_rn_b(rn_i, 7).unwrap();
                cpu.write_rn_b(src_i, 0).unwrap();
            })
            .should_ccr_z(true)
            .exec(|_| true);
        operator
            .clone()
            .access_cpu(|cpu| {
                cpu.write_rn_b(rn_i, 7).unwrap();
                cpu.write_rn_b(src_i, 1).unwrap();
            })
            .should_ccr_z(true)
            .exec(|_| true);
        operator
            .clone()
            .access_cpu(|cpu| {
                cpu.write_rn_b(rn_i, 7).unwrap();
                cpu.write_rn_b(src_i, 0x80).unwrap();
            })
            .should_ccr_z(false)
            .exec(|_| true);
    })
}

#[test]
fn test_btst_rn_ern() {
    TestHelper::build(RnMode::new(), ErnMode::new()).run(|_operator, rn_i, src_i| {
        let operator = _operator
            .set_opcode(&[0x7c, src_i << 4, 0x63, rn_i << 4])
            .should_state(6)
            .ignore(rn_i % 8 == src_i);
        operator
            .clone()
            .access_cpu(|cpu| {
                cpu.write_rn_b(rn_i, 0).unwrap();
                cpu.write_rn_l(src_i, 0xffcf20).unwrap();
                cpu.write_abs24_b(0xffcf20, 0).unwrap();
            })
            .should_ccr_z(true)
            .exec(|_| true);
        operator
            .clone()
            .access_cpu(|cpu| {
                cpu.write_rn_b(rn_i, 0).unwrap();
                cpu.write_rn_l(src_i, 0xffcf20).unwrap();
                cpu.write_abs24_b(0xffcf20, 1).unwrap();
            })
            .should_ccr_z(false)
            .exec(|_| true);
        operator
            .clone()
            .access_cpu(|cpu| {
                cpu.write_rn_b(rn_i, 0).unwrap();
                cpu.write_rn_l(src_i, 0xffcf20).unwrap();
                cpu.write_abs24_b(0xffcf20, 0x80).unwrap();
            })
            .should_ccr_z(true)
            .exec(|_| true);

        operator
            .clone()
            .access_cpu(|cpu| {
                cpu.write_rn_b(rn_i, 7).unwrap();
                cpu.write_rn_l(src_i, 0xffcf20).unwrap();
                cpu.write_abs24_b(0xffcf20, 0).unwrap();
            })
            .should_ccr_z(true)
            .exec(|_| true);
        operator
            .clone()
            .access_cpu(|cpu| {
                cpu.write_rn_b(rn_i, 7).unwrap();
                cpu.write_rn_l(src_i, 0xffcf20).unwrap();
                cpu.write_abs24_b(0xffcf20, 1).unwrap();
            })
            .should_ccr_z(true)
            .exec(|_| true);
        operator
            .clone()
            .access_cpu(|cpu| {
                cpu.write_rn_b(rn_i, 7).unwrap();
                cpu.write_rn_l(src_i, 0xffcf20).unwrap();
                cpu.write_abs24_b(0xffcf20, 0x80).unwrap();
            })
            .should_ccr_z(false)
            .exec(|_| true);
    })
}

#[test]
fn test_btst_rn_abs() {
    TestHelper::build(RnMode::new(), Abs8Mode::new()).run(|_operator, rn_i, abs| {
        let operator = _operator.set_opcode(&[0x7e, abs, 0x63, rn_i << 4]).should_state(6);
        operator
            .clone()
            .access_cpu(|cpu| {
                cpu.write_rn_b(rn_i, 0).unwrap();
                cpu.write_abs8_b(abs, 0).unwrap();
            })
            .should_ccr_z(true)
            .exec(|_| true);
        operator
            .clone()
            .access_cpu(|cpu| {
                cpu.write_rn_b(rn_i, 0).unwrap();
                cpu.write_abs8_b(abs, 1).unwrap();
            })
            .should_ccr_z(false)
            .exec(|_| true);
        operator
            .clone()
            .access_cpu(|cpu| {
                cpu.write_rn_b(rn_i, 0).unwrap();
                cpu.write_abs8_b(abs, 0x80).unwrap();
            })
            .should_ccr_z(true)
            .exec(|_| true);

        operator
            .clone()
            .access_cpu(|cpu| {
                cpu.write_rn_b(rn_i, 7).unwrap();
                cpu.write_abs8_b(abs, 0).unwrap();
            })
            .should_ccr_z(true)
            .exec(|_| true);
        operator
            .clone()
            .access_cpu(|cpu| {
                cpu.write_rn_b(rn_i, 7).unwrap();
                cpu.write_abs8_b(abs, 1).unwrap();
            })
            .should_ccr_z(true)
            .exec(|_| true);
        operator
            .clone()
            .access_cpu(|cpu| {
                cpu.write_rn_b(rn_i, 7).unwrap();
                cpu.write_abs8_b(abs, 0x80).unwrap();
            })
            .should_ccr_z(false)
            .exec(|_| true);
    })
}

// divxu

#[test]
fn test_divxu_b() {
    TestHelper::build(RnMode::new(), RnMode::new()).run(|_operator, src_i, target_i| {
        let operator = _operator
            .set_opcode(&[0x51, (src_i << 4) | target_i])
            .should_state(14)
            .ignore(src_i % 8 == target_i % 8);
        operator
            .clone()
            .access_cpu(|cpu| {
                cpu.write_rn_w(target_i, 0).unwrap();
                cpu.write_rn_b(src_i, 0).unwrap();
            })
            .should_ccr_n(false)
            .should_ccr_z(true)
            .exec(|cpu| {
                let result = cpu.read_rn_w(target_i).unwrap();
                let quot = (result & 0xff) as u8;
                let rem = (result >> 8) as u8;
                assert_eq!(quot, 0);
                assert_eq!(rem, 0);
                true
            });
        operator
            .clone()
            .access_cpu(|cpu| {
                cpu.write_rn_w(target_i, 0xff).unwrap();
                cpu.write_rn_b(src_i, 0).unwrap();
            })
            .should_ccr_n(false)
            .should_ccr_z(true)
            .exec(|cpu| {
                let result = cpu.read_rn_w(target_i).unwrap();
                let quot = (result & 0xff) as u8;
                let rem = (result >> 8) as u8;
                assert_eq!(quot, 0);
                assert_eq!(rem, 0);
                true
            });
        operator
            .clone()
            .access_cpu(|cpu| {
                cpu.write_rn_w(target_i, 32767).unwrap(); // 0x7fff
                cpu.write_rn_b(src_i, 255).unwrap(); // 0xff
            })
            .should_ccr_n(true)
            .should_ccr_z(false)
            .exec(|cpu| {
                let result = cpu.read_rn_w(target_i).unwrap();
                let quot = (result & 0xff) as u8;
                let rem = (result >> 8) as u8;
                assert_eq!(quot, 128); // 0x80
                assert_eq!(rem, 127); // 0x7f
                true
            });
        operator
            .clone()
            .access_cpu(|cpu| {
                cpu.write_rn_w(target_i, -1i16 as u16).unwrap();
                cpu.write_rn_b(src_i, 1).unwrap();
            })
            .should_ccr_n(false)
            .should_ccr_z(false)
            .exec(|cpu| {
                let result = cpu.read_rn_w(target_i).unwrap();
                let quot = (result & 0xff) as u8;
                let rem = (result >> 8) as u8;
                assert_eq!(quot, -1i8 as u8);
                assert_eq!(rem, 0);
                true
            });
    })
}

#[test]
fn test_divxu_w() {
    TestHelper::build(RnMode::new(), ErnMode::new()).run(|_operator, src_i, target_i| {
        let operator = _operator
            .set_opcode(&[0x53, (src_i << 4) | target_i])
            .should_state(22)
            .ignore(src_i % 8 == target_i % 8);
        operator
            .clone()
            .access_cpu(|cpu| {
                cpu.write_rn_l(target_i, 0).unwrap();
                cpu.write_rn_w(src_i, 0).unwrap();
            })
            .should_ccr_n(false)
            .should_ccr_z(true)
            .exec(|cpu| {
                let result = cpu.read_rn_l(target_i).unwrap();
                let quot = (result & 0xffff) as u16;
                let rem = (result >> 16) as u16;
                assert_eq!(quot, 0);
                assert_eq!(rem, 0);
                true
            });
        operator
            .clone()
            .access_cpu(|cpu| {
                cpu.write_rn_l(target_i, 0xffff).unwrap();
                cpu.write_rn_w(src_i, 0).unwrap();
            })
            .should_ccr_n(false)
            .should_ccr_z(true)
            .exec(|cpu| {
                let result = cpu.read_rn_l(target_i).unwrap();
                let quot = (result & 0xffff) as u16;
                let rem = (result >> 16) as u16;
                assert_eq!(quot, 0);
                assert_eq!(rem, 0);
                true
            });
        operator
            .clone()
            .access_cpu(|cpu| {
                cpu.write_rn_l(target_i, 2_147_483_647).unwrap(); // 0x7fff_ffff
                cpu.write_rn_w(src_i, 65_535).unwrap(); // 0xffff
            })
            .should_ccr_n(true)
            .should_ccr_z(false)
            .exec(|cpu| {
                let result = cpu.read_rn_l(target_i).unwrap();
                let quot = (result & 0xffff) as u16;
                let rem = (result >> 16) as u16;
                assert_eq!(quot, 32_768); // 0x8000
                assert_eq!(rem, 32_767); // 0x7fff
                true
            });
        operator
            .clone()
            .access_cpu(|cpu| {
                cpu.write_rn_l(target_i, -1i32 as u32).unwrap();
                cpu.write_rn_w(src_i, 1).unwrap();
            })
            .should_ccr_n(false)
            .should_ccr_z(false)
            .exec(|cpu| {
                let result = cpu.read_rn_l(target_i).unwrap();
                let quot = (result & 0xffff) as u16;
                let rem = (result >> 16) as u16;
                assert_eq!(quot, -1i16 as u16);
                assert_eq!(rem, 0);
                true
            });
    })
}

// mov_b


#[test]
fn test_mov_b_rn_helper() {
    TestHelper::build(RnMode::new(), RnMode::new()).run(|operator, src_i, target_i| {
        operator // negative value
            .clone()
            .set_opcode(&[0x0c, (src_i << 4) | target_i])
            .access_cpu(|cpu| {
                cpu.write_rn_b(src_i, 0xa5).unwrap();
            })
            .should_state(2)
            .should_ccr_v(false)
            .should_ccr_z(false)
            .should_ccr_n(true)
            .exec(|cpu| cpu.read_rn_b(target_i).unwrap() == 0xa5);
        operator // zero value
            .clone()
            .set_opcode(&[0x0c, (src_i << 4) | target_i])
            .access_cpu(|cpu| {
                cpu.write_rn_b(src_i, 0).unwrap();
            })
            .should_state(2)
            .should_ccr_v(false)
            .should_ccr_z(true)
            .should_ccr_n(false)
            .exec(|cpu| cpu.read_rn_b(target_i).unwrap() == 0);
    });
}

#[test]
fn test_mov_b_imm_helper() {
    TestHelper::build(ImmMode::new(vec![0xa5]), RnMode::new()).run(|operator, imm, target_i| {
        operator // negative value
            .clone()
            .set_opcode(&[0xf0 | target_i, imm])
            .should_state(2)
            .should_ccr_v(false)
            .should_ccr_z(false)
            .should_ccr_n(true)
            .exec(|cpu| cpu.read_rn_b(target_i).unwrap() == 0xa5);
    });
    TestHelper::build(ImmMode::new(vec![0x00]), RnMode::new()).run(|operator, imm, target_i| {
        operator // negative value
            .clone()
            .set_opcode(&[0xf0 | target_i, imm])
            .should_state(2)
            .should_ccr_v(false)
            .should_ccr_z(true)
            .should_ccr_n(false)
            .exec(|cpu| cpu.read_rn_b(target_i).unwrap() == 0x00);
    });
}

#[test]
fn test_mov_b_ern_to_rn_helper() {
    TestHelper::build(ErnMode::new(), RnMode::new()).run(|operator, src_i, target_i| {
        operator // negative value
            .clone()
            .set_opcode(&[0x68, (src_i << 4) | target_i])
            .access_cpu(|cpu| {
                cpu.write_rn_l(src_i, 0xffcf20).unwrap();
                cpu.write_abs24_b(0xffcf20, 0xa5).unwrap();
            })
            .should_state(4)
            .should_ccr_v(false)
            .should_ccr_z(false)
            .should_ccr_n(true)
            .exec(|cpu| cpu.read_rn_b(target_i).unwrap() == 0xa5);
        operator // zero value
            .clone()
            .set_opcode(&[0x68, (src_i << 4) | target_i])
            .access_cpu(|cpu| {
                cpu.write_rn_b(src_i, 0).unwrap();
            })
            .should_state(4)
            .should_ccr_v(false)
            .should_ccr_z(true)
            .should_ccr_n(false)
            .exec(|cpu| cpu.read_rn_b(target_i).unwrap() == 0);
    });
}

#[test]
fn test_mov_b_rn_to_ern_helper() {
    TestHelper::build(RnMode::new(), ErnMode::new()).run(|operator, src_i, target_i| {
        operator // negative value
            .clone()
            .set_opcode(&[0x68, (target_i << 4) | src_i | 0x80])
            .should_success(src_i % 8 != target_i) // Avoid conflict
            .access_cpu(|cpu| {
                cpu.write_rn_b(src_i, 0xa5).unwrap();
                cpu.write_rn_l(target_i, 0xffcf20).unwrap();
            })
            .should_state(4)
            .should_ccr_v(false)
            .should_ccr_z(false)
            .should_ccr_n(true)
            .exec(|cpu| cpu.read_abs24_b(0xffcf20).unwrap() == 0xa5);
        operator // zero value
            .clone()
            .set_opcode(&[0x68, (target_i << 4) | src_i | 0x80])
            .should_success(src_i % 8 != target_i) // Avoid conflict
            .access_cpu(|cpu| {
                cpu.write_rn_b(src_i, 0x00).unwrap();
                cpu.write_rn_l(target_i, 0xffcf20).unwrap();
            })
            .should_state(4)
            .should_ccr_v(false)
            .should_ccr_z(true)
            .should_ccr_n(false)
            .exec(|cpu| cpu.read_abs24_b(0xffcf20).unwrap() == 0x00);
    });
}

#[test]
fn test_mov_b_disp16_to_rn_helper() {
    TestHelper::build(ErnMode::new(), RnMode::new()).run(|operator, src_i, target_i| {
        operator // negative value
            .clone()
            .set_opcode(&[0x6e, (src_i << 4) | target_i, 0x0e, 0xee])
            .access_cpu(|cpu| {
                cpu.write_rn_l(src_i, 0xffcf20).unwrap();
                cpu.write_abs24_b(0xffde0e, 0xa5).unwrap();
            })
            .should_state(6)
            .should_ccr_v(false)
            .should_ccr_z(false)
            .should_ccr_n(true)
            .exec(|cpu| cpu.read_rn_b(target_i).unwrap() == 0xa5);
        operator // zero value
            .clone()
            .set_opcode(&[0x6e, (src_i << 4) | target_i, 0x0e, 0xee])
            .access_cpu(|cpu| {
                cpu.write_rn_l(src_i, 0xffcf20).unwrap();
                cpu.write_abs24_b(0xffde0e, 0x00).unwrap();
            })
            .should_state(6)
            .should_ccr_v(false)
            .should_ccr_z(true)
            .should_ccr_n(false)
            .exec(|cpu| cpu.read_rn_b(target_i).unwrap() == 0x00);
    });
}

#[test]
fn test_mov_b_rn_to_disp16_helper() {
    TestHelper::build(RnMode::new(), ErnMode::new()).run(|operator, src_i, target_i| {
        operator // negative value
            .clone()
            .set_opcode(&[0x6e, (target_i << 4) | src_i | 0x80, 0x0e, 0xee])
            .should_success(src_i % 8 != target_i) // Avoid conflict
            .access_cpu(|cpu| {
                cpu.write_rn_b(src_i, 0xa5).unwrap();
                cpu.write_rn_l(target_i, 0xffcf20).unwrap();
            })
            .should_state(6)
            .should_ccr_v(false)
            .should_ccr_z(false)
            .should_ccr_n(true)
            .exec(|cpu| cpu.read_abs24_b(0xffde0e).unwrap() == 0xa5);
        operator // zero value
            .clone()
            .set_opcode(&[0x6e, (target_i << 4) | src_i | 0x80, 0x0e, 0xee])
            .should_success(src_i % 8 != target_i) // Avoid conflict
            .access_cpu(|cpu| {
                cpu.write_rn_b(src_i, 0x00).unwrap();
                cpu.write_rn_l(target_i, 0xffcf20).unwrap();
            })
            .should_state(6)
            .should_ccr_v(false)
            .should_ccr_z(true)
            .should_ccr_n(false)
            .exec(|cpu| cpu.read_abs24_b(0xffde0e).unwrap() == 0x00);
    });
}

#[test]
fn test_mov_b_disp24_to_rn_helper() {
    TestHelper::build(ErnMode::new(), RnMode::new()).run(|operator, src_i, target_i| {
        operator // negative value
            .clone()
            .set_opcode(&[0x78, (src_i << 4), 0x6a, 0x20 | target_i, 0x00, 0xff, 0xfe, 0xee])
            .access_cpu(|cpu| {
                cpu.write_rn_l(src_i, 0xffcf20).unwrap();
                cpu.write_abs24_b(0xffce0e, 0xa5).unwrap();
            })
            .should_state(10)
            .should_ccr_v(false)
            .should_ccr_z(false)
            .should_ccr_n(true)
            .exec(|cpu| cpu.read_rn_b(target_i).unwrap() == 0xa5);
        operator // zero value
            .clone()
            .set_opcode(&[0x78, (src_i << 4), 0x6a, 0x20 | target_i, 0x00, 0xff, 0xfe, 0xee])
            .access_cpu(|cpu| {
                cpu.write_rn_l(src_i, 0xffcf20).unwrap();
                cpu.write_abs24_b(0xffce0e, 0x00).unwrap();
            })
            .should_state(10)
            .should_ccr_v(false)
            .should_ccr_z(true)
            .should_ccr_n(false)
            .exec(|cpu| cpu.read_rn_b(target_i).unwrap() == 0x00);
    });
}

#[test]
fn test_mov_b_rn_to_disp24_helper() {
    TestHelper::build(RnMode::new(), ErnMode::new()).run(|operator, src_i, target_i| {
        operator // negative value
            .clone()
            .set_opcode(&[0x78, (target_i << 4), 0x6a, 0xa0 | src_i, 0x00, 0xff, 0xfe, 0xee])
            .should_success(src_i % 8 != target_i) // Avoid conflict
            .access_cpu(|cpu| {
                cpu.write_rn_b(src_i, 0xa5).unwrap();
                cpu.write_rn_l(target_i, 0xffcf20).unwrap();
            })
            .should_state(10)
            .should_ccr_v(false)
            .should_ccr_z(false)
            .should_ccr_n(true)
            .exec(|cpu| cpu.read_abs24_b(0xffce0e).unwrap() == 0xa5);
        operator // zero value
            .clone()
            .set_opcode(&[0x78, (target_i << 4), 0x6a, 0xa0 | src_i, 0x00, 0xff, 0xfe, 0xee])
            .should_success(src_i % 8 != target_i) // Avoid conflict
            .access_cpu(|cpu| {
                cpu.write_rn_b(src_i, 0x00).unwrap();
                cpu.write_rn_l(target_i, 0xffcf20).unwrap();
            })
            .should_state(10)
            .should_ccr_v(false)
            .should_ccr_z(true)
            .should_ccr_n(false)
            .exec(|cpu| cpu.read_abs24_b(0xffce0e).unwrap() == 0x00);
    });
}

#[test]
fn test_mov_b_inc_helper() {
    TestHelper::build(ErnMode::new(), RnMode::new()).run(|operator, src_i, target_i| {
        operator // negative value
            .clone()
            .set_opcode(&[0x6c, (src_i << 4) | target_i])
            .should_success(src_i != target_i % 8) // Avoid conflict
            .access_cpu(|cpu| {
                cpu.write_rn_l(src_i, 0xffcf20).unwrap();
                cpu.write_abs24_b(0xffcf20, 0xa5).unwrap();
            })
            .should_state(6)
            .should_ccr_v(false)
            .should_ccr_z(false)
            .should_ccr_n(true)
            .exec(|cpu| cpu.read_rn_b(target_i).unwrap() == 0xa5 && cpu.read_rn_l(src_i).unwrap() == 0xffcf21);
        operator // zero value
            .clone()
            .set_opcode(&[0x6c, (src_i << 4) | target_i])
            .should_success(src_i != target_i % 8) // Avoid conflict
            .access_cpu(|cpu| {
                cpu.write_rn_l(src_i, 0xffcf20).unwrap();
                cpu.write_abs24_b(0xffcf20, 0x00).unwrap();
            })
            .should_state(6)
            .should_ccr_v(false)
            .should_ccr_z(true)
            .should_ccr_n(false)
            .exec(|cpu| cpu.read_rn_b(target_i).unwrap() == 0x00 && cpu.read_rn_l(src_i).unwrap() == 0xffcf21);
    });
}

#[test]
fn test_mov_b_dec_helper() {
    TestHelper::build(RnMode::new(), ErnMode::new()).run(|operator, src_i, target_i| {
        operator // negative value
            .clone()
            .set_opcode(&[0x6c, (target_i << 4) | src_i | 0x80])
            .should_success(src_i % 8 != target_i) // Avoid conflict
            .access_cpu(|cpu| {
                cpu.write_rn_b(src_i, 0xa5).unwrap();
                cpu.write_rn_l(target_i, 0xffcf21).unwrap();
            })
            .should_state(6)
            .should_ccr_v(false)
            .should_ccr_z(false)
            .should_ccr_n(true)
            .exec(|cpu| cpu.read_abs24_b(0xffcf20).unwrap() == 0xa5 && cpu.read_rn_l(target_i).unwrap() == 0xffcf20);
        operator // zero value
            .clone()
            .set_opcode(&[0x6c, (target_i << 4) | src_i | 0x80])
            .should_success(src_i % 8 != target_i) // Avoid conflict
            .access_cpu(|cpu| {
                cpu.write_rn_b(src_i, 0x00).unwrap();
                cpu.write_rn_l(target_i, 0xffcf21).unwrap();
            })
            .should_state(6)
            .should_ccr_v(false)
            .should_ccr_z(true)
            .should_ccr_n(false)
            .exec(|cpu| cpu.read_abs24_b(0xffcf20).unwrap() == 0x00 && cpu.read_rn_l(target_i).unwrap() == 0xffcf20);
    });
}

#[test]
fn test_mov_b_abs8_to_rn_helper() {
    TestHelper::build(Abs8Mode::new(), RnMode::new()).run(|operator, abs, target_i| {
        operator // negative value
            .clone()
            .set_opcode(&[0x20 | target_i, abs])
            .access_cpu(|cpu| {
                cpu.write_abs24_b(0xffff00 | (abs as u32), 0xa5).unwrap();
            })
            .should_state(4)
            .should_ccr_v(false)
            .should_ccr_z(false)
            .should_ccr_n(true)
            .exec(|cpu| cpu.read_rn_b(target_i).unwrap() == 0xa5);
        operator // zero value
            .clone()
            .set_opcode(&[0x20 | target_i, abs])
            .access_cpu(|cpu| {
                cpu.write_abs24_b(0xffff00 | (abs as u32), 0x00).unwrap();
            })
            .should_state(4)
            .should_ccr_v(false)
            .should_ccr_z(true)
            .should_ccr_n(false)
            .exec(|cpu| cpu.read_rn_b(target_i).unwrap() == 0x00);
    });
}

#[test]
fn test_mov_b_rn_to_abs8_helper() {
    TestHelper::build(RnMode::new(), Abs8Mode::new()).run(|operator, src_i, abs| {
        operator // negative value
            .clone()
            .set_opcode(&[0x30 | src_i, abs])
            .access_cpu(|cpu| {
                cpu.write_rn_b(src_i, 0xa5).unwrap();
            })
            .should_state(4)
            .should_ccr_v(false)
            .should_ccr_z(false)
            .should_ccr_n(true)
            .exec(|cpu| cpu.read_abs24_b(0xffff00 | (abs as u32)).unwrap() == 0xa5);
        operator // zero value
            .clone()
            .set_opcode(&[0x30 | src_i, abs])
            .access_cpu(|cpu| {
                cpu.write_rn_b(src_i, 0x00).unwrap();
            })
            .should_state(4)
            .should_ccr_v(false)
            .should_ccr_z(true)
            .should_ccr_n(false)
            .exec(|cpu| cpu.read_abs24_b(0xffff00 | (abs as u32)).unwrap() == 0x00);
    });
}

#[test]
fn test_mov_b_abs16_to_rn_helper() {
    TestHelper::build(Abs16Mode::new(), RnMode::new()).run(|operator, abs, target_i| {
        operator // negative value
            .clone()
            .set_opcode([&[0x6a, target_i], abs.to_be_bytes().as_slice()].concat().as_slice())
            .access_cpu(|cpu| {
                cpu.write_abs24_b(0xff0000 | (abs as u32), 0xa5).unwrap();
            })
            .should_state(6)
            .should_ccr_v(false)
            .should_ccr_z(false)
            .should_ccr_n(true)
            .exec(|cpu| cpu.read_rn_b(target_i).unwrap() == 0xa5);
        operator // zero value
            .clone()
            .set_opcode([&[0x6a, target_i], abs.to_be_bytes().as_slice()].concat().as_slice())
            .access_cpu(|cpu| {
                cpu.write_abs24_b(0xff0000 | (abs as u32), 0x00).unwrap();
            })
            .should_state(6)
            .should_ccr_v(false)
            .should_ccr_z(true)
            .should_ccr_n(false)
            .exec(|cpu| cpu.read_rn_b(target_i).unwrap() == 0x00);
    });
}

#[test]
fn test_mov_b_rn_to_abs16_helper() {
    TestHelper::build(RnMode::new(), Abs16Mode::new()).run(|operator, src_i, abs| {
        operator // negative value
            .clone()
            .set_opcode([&[0x6a, src_i | 0x80], abs.to_be_bytes().as_slice()].concat().as_slice())
            .access_cpu(|cpu| {
                cpu.write_rn_b(src_i, 0xa5).unwrap();
            })
            .should_state(6)
            .should_ccr_v(false)
            .should_ccr_z(false)
            .should_ccr_n(true)
            .exec(|cpu| cpu.read_abs24_b(0xff0000 | (abs as u32)).unwrap() == 0xa5);
        operator // zero value
            .clone()
            .set_opcode([&[0x6a, src_i | 0x80], abs.to_be_bytes().as_slice()].concat().as_slice())
            .access_cpu(|cpu| {
                cpu.write_rn_b(src_i, 0x00).unwrap();
            })
            .should_state(6)
            .should_ccr_v(false)
            .should_ccr_z(true)
            .should_ccr_n(false)
            .exec(|cpu| cpu.read_abs24_b(0xff0000 | (abs as u32)).unwrap() == 0x00);
    });
}

#[test]
fn test_mov_b_abs24_to_rn_helper() {
    TestHelper::build(Abs24Mode::new(), RnMode::new()).run(|operator, abs, target_i| {
        operator // negative value
            .clone()
            .set_opcode([&[0x6a, target_i | 0x20], abs.to_be_bytes().as_slice()].concat().as_slice())
            .access_cpu(|cpu| {
                cpu.write_abs24_b((abs << 4) >> 4, 0xa5).unwrap();
            })
            .should_state(8)
            .should_ccr_v(false)
            .should_ccr_z(false)
            .should_ccr_n(true)
            .exec(|cpu| cpu.read_rn_b(target_i).unwrap() == 0xa5);
        operator // negative value
            .clone()
            .set_opcode([&[0x6a, target_i | 0x20], abs.to_be_bytes().as_slice()].concat().as_slice())
            .access_cpu(|cpu| {
                cpu.write_abs24_b((abs << 4) >> 4, 0x00).unwrap();
            })
            .should_state(8)
            .should_ccr_v(false)
            .should_ccr_z(true)
            .should_ccr_n(false)
            .exec(|cpu| cpu.read_rn_b(target_i).unwrap() == 0x00);
    });
}

#[test]
fn test_mov_b_rn_to_abs24_helper() {
    TestHelper::build(RnMode::new(), Abs24Mode::new()).run(|operator, src_i, abs| {
        operator // negative value
            .clone()
            .set_opcode([&[0x6a, src_i | 0xa0], abs.to_be_bytes().as_slice()].concat().as_slice())
            .access_cpu(|cpu| {
                cpu.write_rn_b(src_i, 0xa5).unwrap();
            })
            .should_state(8)
            .should_ccr_v(false)
            .should_ccr_z(false)
            .should_ccr_n(true)
            .exec(|cpu| cpu.read_abs24_b((abs << 4) >> 4).unwrap() == 0xa5);
        operator // negative value
            .clone()
            .set_opcode([&[0x6a, src_i | 0xa0], abs.to_be_bytes().as_slice()].concat().as_slice())
            .access_cpu(|cpu| {
                cpu.write_rn_b(src_i, 0x00).unwrap();
            })
            .should_state(8)
            .should_ccr_v(false)
            .should_ccr_z(true)
            .should_ccr_n(false)
            .exec(|cpu| cpu.read_abs24_b((abs << 4) >> 4).unwrap() == 0x00);
    });
}

// mulxu

#[test]
fn test_mulxu_b() {
    TestHelper::build(RnMode::new(), RnMode::new()).run(|operator, src_i, target_i| {
        operator
            .clone()
            .set_opcode(&[0x50, (src_i << 4) | target_i])
            .access_cpu(|cpu| {
                cpu.write_rn_b(src_i, 9).unwrap();
                cpu.write_rn_w(target_i, 8).unwrap();
            })
            .should_state(14)
            .exec(|cpu| {
                // Ignore same registers
                if src_i % 8 != target_i % 8 {
                    assert_eq!(cpu.read_rn_w(target_i).unwrap(), 72);
                }
                true
            });
        operator
            .clone()
            .set_opcode(&[0x50, (src_i << 4) | target_i])
            .access_cpu(|cpu| {
                cpu.write_rn_b(src_i, 0xff).unwrap();
                cpu.write_rn_w(target_i, 0x11ff).unwrap();
            })
            .should_state(14)
            .exec(|cpu| {
                // Ignore same registers
                if src_i % 8 != target_i % 8 {
                    assert_eq!(cpu.read_rn_w(target_i).unwrap(), 0xfe01);
                }
                true
            });
    });
}

#[test]
fn test_mulxu_w() {
    TestHelper::build(RnMode::new(), ErnMode::new()).run(|operator, src_i, target_i| {
        operator
            .clone()
            .set_opcode(&[0x52, (src_i << 4) | target_i])
            .access_cpu(|cpu| {
                cpu.write_rn_w(src_i, 9).unwrap();
                cpu.write_rn_l(target_i, 8).unwrap();
            })
            .should_state(22)
            .exec(|cpu| {
                // Ignore same registers
                if src_i % 8 != target_i % 8 {
                    assert_eq!(cpu.read_rn_l(target_i).unwrap(), 72);
                }
                true
            });
        operator
            .clone()
            .set_opcode(&[0x52, (src_i << 4) | target_i])
            .access_cpu(|cpu| {
                cpu.write_rn_w(src_i, 0xffff).unwrap();
                cpu.write_rn_l(target_i, 0x1234ffff).unwrap();
            })
            .should_state(22)
            .exec(|cpu| {
                // Ignore same registers
                if src_i % 8 != target_i % 8 {
                    assert_eq!(cpu.read_rn_l(target_i).unwrap(), 0xfffe0001);
                }
                true
            });
    });
}

// neg

#[test]
fn test_neg_b() {
    TestHelper::build(RnMode::new(), NoneMode::new()).run(|_operator, src_i, _| {
        let operator = _operator.clone().set_opcode(&[0x17, 0x80 | src_i]).should_state(2);

        operator
            .clone()
            .access_cpu(|cpu| {
                cpu.write_rn_b(src_i, 0).unwrap();
            })
            .should_ccr_h(false)
            .should_ccr_n(false)
            .should_ccr_z(true)
            .should_ccr_v(false)
            .should_ccr_c(false)
            .exec(|cpu| {
                assert_eq!(cpu.read_rn_b(src_i).unwrap(), 0);
                true
            });

        operator
            .clone()
            .access_cpu(|cpu| {
                cpu.write_rn_b(src_i, -1i8 as u8).unwrap();
            })
            .should_ccr_h(true)
            .should_ccr_n(false)
            .should_ccr_z(false)
            .should_ccr_v(false)
            .should_ccr_c(true)
            .exec(|cpu| {
                assert_eq!(cpu.read_rn_b(src_i).unwrap(), 1);
                true
            });

        operator
            .clone()
            .access_cpu(|cpu| {
                cpu.write_rn_b(src_i, 1).unwrap();
            })
            .should_ccr_h(true)
            .should_ccr_n(true)
            .should_ccr_z(false)
            .should_ccr_v(false)
            .should_ccr_c(true)
            .exec(|cpu| {
                assert_eq!(cpu.read_rn_b(src_i).unwrap(), -1i8 as u8);
                true
            });
    });
}

// not

#[test]
fn test_not_b() {
    TestHelper::build(RnMode::new(), NoneMode::new()).run(|_operator, src_i, _| {
        let operator = _operator.clone().set_opcode(&[0x17, src_i]).should_state(2).should_ccr_v(false);

        operator
            .clone()
            .access_cpu(|cpu| {
                cpu.write_rn_b(src_i, 0).unwrap();
            })
            .should_ccr_n(true)
            .should_ccr_z(false)
            .exec(|cpu| {
                assert_eq!(cpu.read_rn_b(src_i).unwrap(), 0xff);
                true
            });

        operator
            .clone()
            .access_cpu(|cpu| {
                cpu.write_rn_b(src_i, 0xff).unwrap();
            })
            .should_ccr_n(false)
            .should_ccr_z(true)
            .exec(|cpu| {
                assert_eq!(cpu.read_rn_b(src_i).unwrap(), 0x00);
                true
            });

        operator
            .clone()
            .access_cpu(|cpu| {
                cpu.write_rn_b(src_i, 0x0f).unwrap();
            })
            .should_ccr_n(true)
            .should_ccr_z(false)
            .exec(|cpu| {
                assert_eq!(cpu.read_rn_b(src_i).unwrap(), 0xf0);
                true
            });

        operator
            .clone()
            .access_cpu(|cpu| {
                cpu.write_rn_b(src_i, 0xf0).unwrap();
            })
            .should_ccr_n(false)
            .should_ccr_z(false)
            .exec(|cpu| {
                assert_eq!(cpu.read_rn_b(src_i).unwrap(), 0x0f);
                true
            });
    });
}

#[test]
fn test_not_w() {
    TestHelper::build(RnMode::new(), NoneMode::new()).run(|_operator, src_i, _| {
        let operator = _operator
            .clone()
            .set_opcode(&[0x17, 0x10 | src_i])
            .should_state(2)
            .should_ccr_v(false);

        operator
            .clone()
            .access_cpu(|cpu| {
                cpu.write_rn_w(src_i, 0).unwrap();
            })
            .should_ccr_n(true)
            .should_ccr_z(false)
            .exec(|cpu| {
                assert_eq!(cpu.read_rn_w(src_i).unwrap(), 0xffff);
                true
            });

        operator
            .clone()
            .access_cpu(|cpu| {
                cpu.write_rn_w(src_i, 0xffff).unwrap();
            })
            .should_ccr_n(false)
            .should_ccr_z(true)
            .exec(|cpu| {
                assert_eq!(cpu.read_rn_w(src_i).unwrap(), 0x0000);
                true
            });

        operator
            .clone()
            .access_cpu(|cpu| {
                cpu.write_rn_w(src_i, 0x000f).unwrap();
            })
            .should_ccr_n(true)
            .should_ccr_z(false)
            .exec(|cpu| {
                assert_eq!(cpu.read_rn_w(src_i).unwrap(), 0xfff0);
                true
            });

        operator
            .clone()
            .access_cpu(|cpu| {
                cpu.write_rn_w(src_i, 0xf000).unwrap();
            })
            .should_ccr_n(false)
            .should_ccr_z(false)
            .exec(|cpu| {
                assert_eq!(cpu.read_rn_w(src_i).unwrap(), 0x0fff);
                true
            });
    });
}

#[test]
fn test_not_l() {
    TestHelper::build(ErnMode::new(), NoneMode::new()).run(|_operator, src_i, _| {
        let operator = _operator
            .clone()
            .set_opcode(&[0x17, 0x30 | src_i])
            .should_state(2)
            .should_ccr_v(false);

        operator
            .clone()
            .access_cpu(|cpu| {
                cpu.write_rn_l(src_i, 0).unwrap();
            })
            .should_ccr_n(true)
            .should_ccr_z(false)
            .exec(|cpu| {
                assert_eq!(cpu.read_rn_l(src_i).unwrap(), 0xffff_ffff);
                true
            });

        operator
            .clone()
            .access_cpu(|cpu| {
                cpu.write_rn_l(src_i, 0xffff_ffff).unwrap();
            })
            .should_ccr_n(false)
            .should_ccr_z(true)
            .exec(|cpu| {
                assert_eq!(cpu.read_rn_l(src_i).unwrap(), 0);
                true
            });

        operator
            .clone()
            .access_cpu(|cpu| {
                cpu.write_rn_l(src_i, 0x0000_000f).unwrap();
            })
            .should_ccr_n(true)
            .should_ccr_z(false)
            .exec(|cpu| {
                assert_eq!(cpu.read_rn_l(src_i).unwrap(), 0xffff_fff0);
                true
            });

        operator
            .clone()
            .access_cpu(|cpu| {
                cpu.write_rn_l(src_i, 0xf000_0000).unwrap();
            })
            .should_ccr_n(false)
            .should_ccr_z(false)
            .exec(|cpu| {
                assert_eq!(cpu.read_rn_l(src_i).unwrap(), 0x0fff_ffff);
                true
            });
    });
}

// rotr

#[test]
fn test_rotr_b() {
    // check value, CCR V
    let mut cpu = Cpu::new();
    cpu.pc = MEMORY_START_ADDR;
    cpu.ccr = 0b00001111;

    cpu.bus.memory[0..2].copy_from_slice(&[0x13, 0x80]);
    cpu.write_rn_b(0, 0b1010_0010).unwrap();
    let opcode = cpu.fetch();
    let state = cpu.exec(opcode).unwrap();
    assert_eq!(state, 2);
    assert_eq!(cpu.ccr, 0b00000000);
    assert_eq!(cpu.read_rn_b(0).unwrap(), 0b0101_0001);

    // check register 0xf
    let mut cpu = Cpu::new();
    cpu.pc = MEMORY_START_ADDR;
    cpu.ccr = 0b00001111;

    cpu.bus.memory[0..2].copy_from_slice(&[0x13, 0x8f]);
    cpu.write_rn_b(0xf, 0b1010_0010).unwrap();
    let opcode = cpu.fetch();
    let state = cpu.exec(opcode).unwrap();
    assert_eq!(state, 2);
    assert_eq!(cpu.ccr, 0b00000000);
    assert_eq!(cpu.read_rn_b(0xf).unwrap(), 0b0101_0001);

    // check CCR N, C
    let mut cpu = Cpu::new();
    cpu.pc = MEMORY_START_ADDR;
    cpu.ccr = 0b00000110;

    cpu.bus.memory[0..2].copy_from_slice(&[0x13, 0x80]);
    cpu.write_rn_b(0, 0b0100_0101).unwrap();
    let opcode = cpu.fetch();
    let state = cpu.exec(opcode).unwrap();
    assert_eq!(state, 2);
    assert_eq!(cpu.ccr, 0b00001001);
    assert_eq!(cpu.read_rn_b(0).unwrap(), 0b1010_0010);

    // check CCR Z
    let mut cpu = Cpu::new();
    cpu.pc = MEMORY_START_ADDR;
    cpu.ccr = 0b00001011;

    cpu.bus.memory[0..2].copy_from_slice(&[0x13, 0x80]);
    cpu.write_rn_b(0, 0).unwrap();
    let opcode = cpu.fetch();
    let state = cpu.exec(opcode).unwrap();
    assert_eq!(state, 2);
    assert_eq!(cpu.ccr, 0b00000100);
    assert_eq!(cpu.read_rn_b(0).unwrap(), 0b0);
}

#[test]
fn test_rotr_w() {
    // check value, CCR V
    let mut cpu = Cpu::new();
    cpu.pc = MEMORY_START_ADDR;
    cpu.ccr = 0b00001111;

    cpu.bus.memory[0..2].copy_from_slice(&[0x13, 0x90]);
    cpu.write_rn_w(0, 0b1000_1010_1010_0010).unwrap();
    let opcode = cpu.fetch();
    let state = cpu.exec(opcode).unwrap();
    assert_eq!(state, 2);
    assert_eq!(cpu.ccr, 0b00000000);
    assert_eq!(cpu.read_rn_w(0).unwrap(), 0b0100_0101_0101_0001);

    // check register 0xf
    let mut cpu = Cpu::new();
    cpu.pc = MEMORY_START_ADDR;
    cpu.ccr = 0b00001111;

    cpu.bus.memory[0..2].copy_from_slice(&[0x13, 0x9f]);
    cpu.write_rn_w(0xf, 0b1000_1010_1010_0010).unwrap();
    let opcode = cpu.fetch();
    let state = cpu.exec(opcode).unwrap();
    assert_eq!(state, 2);
    assert_eq!(cpu.ccr, 0b00000000);
    assert_eq!(cpu.read_rn_w(0xf).unwrap(), 0b0100_0101_0101_0001);

    // check CCR N, C
    let mut cpu = Cpu::new();
    cpu.pc = MEMORY_START_ADDR;
    cpu.ccr = 0b00000110;

    cpu.bus.memory[0..2].copy_from_slice(&[0x13, 0x90]);
    cpu.write_rn_w(0, 0b0001_0101_0101_0001).unwrap();
    let opcode = cpu.fetch();
    let state = cpu.exec(opcode).unwrap();
    assert_eq!(state, 2);
    assert_eq!(cpu.ccr, 0b00001001);
    assert_eq!(cpu.read_rn_w(0).unwrap(), 0b1000_1010_1010_1000);

    // check CCR Z
    let mut cpu = Cpu::new();
    cpu.pc = MEMORY_START_ADDR;
    cpu.ccr = 0b00001011;

    cpu.bus.memory[0..2].copy_from_slice(&[0x13, 0x90]);
    cpu.write_rn_w(0, 0).unwrap();
    let opcode = cpu.fetch();
    let state = cpu.exec(opcode).unwrap();
    assert_eq!(state, 2);
    assert_eq!(cpu.ccr, 0b00000100);
    assert_eq!(cpu.read_rn_w(0).unwrap(), 0b0);
}

#[test]
fn test_rotr_l() {
    // check value, CCR V
    let mut cpu = Cpu::new();
    cpu.pc = MEMORY_START_ADDR;
    cpu.ccr = 0b00001111;

    cpu.bus.memory[0..2].copy_from_slice(&[0x13, 0xb0]);
    cpu.write_rn_l(0, 0b1000_1010_1010_1010_1010_1010_1010_0010).unwrap();
    let opcode = cpu.fetch();
    let state = cpu.exec(opcode).unwrap();
    assert_eq!(state, 2);
    assert_eq!(cpu.ccr, 0b00000000);
    assert_eq!(cpu.read_rn_l(0).unwrap(), 0b0100_0101_0101_0101_0101_0101_0101_0001);

    // check register 7
    let mut cpu = Cpu::new();
    cpu.pc = MEMORY_START_ADDR;
    cpu.ccr = 0b00001111;

    cpu.bus.memory[0..2].copy_from_slice(&[0x13, 0xb7]);
    cpu.write_rn_l(7, 0b1000_1010_1010_1010_1010_1010_1010_0010).unwrap();
    let opcode = cpu.fetch();
    let state = cpu.exec(opcode).unwrap();
    assert_eq!(state, 2);
    assert_eq!(cpu.ccr, 0b00000000);
    assert_eq!(cpu.read_rn_l(7).unwrap(), 0b0100_0101_0101_0101_0101_0101_0101_0001);

    // check CCR N, C
    let mut cpu = Cpu::new();
    cpu.pc = MEMORY_START_ADDR;
    cpu.ccr = 0b00000110;

    cpu.bus.memory[0..2].copy_from_slice(&[0x13, 0xb0]);
    cpu.write_rn_l(0, 0b0001_0101_0101_0101_0101_0101_0101_0001).unwrap();
    let opcode = cpu.fetch();
    let state = cpu.exec(opcode).unwrap();
    assert_eq!(state, 2);
    assert_eq!(cpu.ccr, 0b00001001);
    assert_eq!(cpu.read_rn_l(0).unwrap(), 0b1000_1010_1010_1010_1010_1010_1010_1000);

    // check CCR Z
    let mut cpu = Cpu::new();
    cpu.pc = MEMORY_START_ADDR;
    cpu.ccr = 0b00001011;

    cpu.bus.memory[0..2].copy_from_slice(&[0x13, 0xb0]);
    cpu.write_rn_l(0, 0).unwrap();
    let opcode = cpu.fetch();
    let state = cpu.exec(opcode).unwrap();
    assert_eq!(state, 2);
    assert_eq!(cpu.ccr, 0b00000100);
    assert_eq!(cpu.read_rn_l(0).unwrap(), 0b0);
}

// rotxl

#[test]
fn test_rotxl_b() {
    // check CCR N, V, value
    let mut cpu = Cpu::new();
    cpu.ccr = 0b00000111;

    cpu.bus.memory[0..2].copy_from_slice(&[0x12, 0x00]);
    cpu.write_rn_b(0, 0b0101_0100).unwrap();
    let opcode = cpu.fetch();
    let state = cpu.exec(opcode).unwrap();
    assert_eq!(state, 2);
    assert_eq!(cpu.ccr, 0b00001000);
    assert_eq!(cpu.read_rn_b(0).unwrap(), 0b1010_1001);

    // check register 0xf
    let mut cpu = Cpu::new();
    cpu.ccr = 0b00000111;

    cpu.bus.memory[0..2].copy_from_slice(&[0x12, 0x0f]);
    cpu.write_rn_b(0xf, 0b0101_0100).unwrap();
    let opcode = cpu.fetch();
    let state = cpu.exec(opcode).unwrap();
    assert_eq!(state, 2);
    assert_eq!(cpu.ccr, 0b00001000);
    assert_eq!(cpu.read_rn_b(0xf).unwrap(), 0b1010_1001);

    // check CCR Z
    let mut cpu = Cpu::new();
    cpu.ccr = 0b00001010;

    cpu.bus.memory[0..2].copy_from_slice(&[0x12, 0x00]);
    cpu.write_rn_b(0, 0).unwrap();
    let opcode = cpu.fetch();
    let state = cpu.exec(opcode).unwrap();
    assert_eq!(state, 2);
    assert_eq!(cpu.ccr, 0b00000100);
    assert_eq!(cpu.read_rn_b(0).unwrap(), 0);

    // check CCR C
    let mut cpu = Cpu::new();
    cpu.ccr = 0b00001110;

    cpu.bus.memory[0..2].copy_from_slice(&[0x12, 0x00]);
    cpu.write_rn_b(0, 0b1001_0100).unwrap();
    let opcode = cpu.fetch();
    let state = cpu.exec(opcode).unwrap();
    assert_eq!(state, 2);
    assert_eq!(cpu.ccr, 0b00000001);
    assert_eq!(cpu.read_rn_b(0).unwrap(), 0b0010_1000);
}

#[test]
fn test_rotxl_w() {
    // check CCR N, V, value
    let mut cpu = Cpu::new();
    cpu.ccr = 0b00000111;

    cpu.bus.memory[0..2].copy_from_slice(&[0x12, 0x10]);
    cpu.write_rn_w(0, 0b0101_0101_0101_0100).unwrap();
    let opcode = cpu.fetch();
    let state = cpu.exec(opcode).unwrap();
    assert_eq!(state, 2);
    assert_eq!(cpu.ccr, 0b00001000);
    assert_eq!(cpu.read_rn_w(0).unwrap(), 0b1010_1010_1010_1001);

    // check register 0xf
    let mut cpu = Cpu::new();
    cpu.ccr = 0b00000111;

    cpu.bus.memory[0..2].copy_from_slice(&[0x12, 0x1f]);
    cpu.write_rn_w(0xf, 0b0101_0101_0101_0100).unwrap();
    let opcode = cpu.fetch();
    let state = cpu.exec(opcode).unwrap();
    assert_eq!(state, 2);
    assert_eq!(cpu.ccr, 0b00001000);
    assert_eq!(cpu.read_rn_w(0xf).unwrap(), 0b1010_1010_1010_1001);

    // check CCR Z
    let mut cpu = Cpu::new();
    cpu.ccr = 0b00001010;

    cpu.bus.memory[0..2].copy_from_slice(&[0x12, 0x10]);
    cpu.write_rn_w(0, 0).unwrap();
    let opcode = cpu.fetch();
    let state = cpu.exec(opcode).unwrap();
    assert_eq!(state, 2);
    assert_eq!(cpu.ccr, 0b00000100);
    assert_eq!(cpu.read_rn_w(0).unwrap(), 0);

    // check CCR C
    let mut cpu = Cpu::new();
    cpu.ccr = 0b00001110;

    cpu.bus.memory[0..2].copy_from_slice(&[0x12, 0x10]);
    cpu.write_rn_w(0, 0b1001_0101_0101_0100).unwrap();
    let opcode = cpu.fetch();
    let state = cpu.exec(opcode).unwrap();
    assert_eq!(state, 2);
    assert_eq!(cpu.ccr, 0b00000001);
    assert_eq!(cpu.read_rn_w(0).unwrap(), 0b0010_1010_1010_1000);
}

#[test]
fn test_rotxl_l() {
    // check CCR N, V, value
    let mut cpu = Cpu::new();
    cpu.ccr = 0b00000111;

    cpu.bus.memory[0..2].copy_from_slice(&[0x12, 0x30]);
    cpu.write_rn_l(0, 0b0101_0101_0101_0101_0101_0101_0101_0100)
        .unwrap();
    let opcode = cpu.fetch();
    let state = cpu.exec(opcode).unwrap();
    assert_eq!(state, 2);
    assert_eq!(cpu.ccr, 0b00001000);
    assert_eq!(
        cpu.read_rn_l(0).unwrap(),
        0b1010_1010_1010_1010_1010_1010_1010_1001
    );

    // check register 7
    let mut cpu = Cpu::new();
    cpu.ccr = 0b00000111;

    cpu.bus.memory[0..2].copy_from_slice(&[0x12, 0x37]);
    cpu.write_rn_l(7, 0b0101_0101_0101_0101_0101_0101_0101_0100)
        .unwrap();
    let opcode = cpu.fetch();
    let state = cpu.exec(opcode).unwrap();
    assert_eq!(state, 2);
    assert_eq!(cpu.ccr, 0b00001000);
    assert_eq!(
        cpu.read_rn_l(7).unwrap(),
        0b1010_1010_1010_1010_1010_1010_1010_1001
    );

    // check CCR Z
    let mut cpu = Cpu::new();
    cpu.ccr = 0b00001010;

    cpu.bus.memory[0..2].copy_from_slice(&[0x12, 0x30]);
    cpu.write_rn_l(0, 0).unwrap();
    let opcode = cpu.fetch();
    let state = cpu.exec(opcode).unwrap();
    assert_eq!(state, 2);
    assert_eq!(cpu.ccr, 0b00000100);
    assert_eq!(cpu.read_rn_l(0).unwrap(), 0);

    // check CCR C
    let mut cpu = Cpu::new();
    cpu.ccr = 0b00001110;

    cpu.bus.memory[0..2].copy_from_slice(&[0x12, 0x30]);
    cpu.write_rn_l(0, 0b1001_0101_0101_0101_0101_0101_0101_0100)
        .unwrap();
    let opcode = cpu.fetch();
    let state = cpu.exec(opcode).unwrap();
    assert_eq!(state, 2);
    assert_eq!(cpu.ccr, 0b00000001);
    assert_eq!(
        cpu.read_rn_l(0).unwrap(),
        0b0010_1010_1010_1010_1010_1010_1010_1000
    );
}

// stc


#[test]
fn test_stc_b() {
    // Using ImmMode as ccr
    TestHelper::build(ImmMode::new(vec![0, 0xf]), RnMode::new()).run(|operator, ccr, target_i| {
        operator
            .clone()
            .set_opcode(&[0x02, target_i])
            .access_cpu(|cpu| {
                cpu.ccr = ccr;
            })
            .should_check_ccr(false)
            .should_state(2)
            .exec(|cpu| {
                assert_eq!(cpu.read_rn_b(target_i).unwrap(), ccr);
                true
            });
    });
}

#[test]
fn test_stc_w_ern() {
    // Using ImmMode as ccr
    TestHelper::build(ImmMode::new(vec![0, 0xf]), ErnMode::new()).run(|operator, ccr, target_i| {
        operator
            .clone()
            .set_opcode(&[0x01, 0x40, 0x69, (target_i << 4) | 0x80])
            .access_cpu(|cpu| {
                cpu.ccr = ccr;
            })
            .should_state(6)
            .should_check_ccr(false)
            .exec(|cpu| {
                assert_eq!(cpu.read_ern_w(target_i).unwrap(), ccr.into());
                true
            });
    });
}

#[test]
fn test_stc_w_disp16() {
    // Using ImmMode as ccr
    TestHelper::build(ImmMode::new(vec![0, 0xf]), Disp16Mode::new()).run(|operator, ccr, disp| {
        operator
            .clone()
            .set_opcode(&[0x01, 0x40, 0x6f, (disp.er_i << 4) | 0x80, disp.as8(1), disp.as8(2)])
            .access_cpu(|cpu| {
                cpu.ccr = ccr;
                cpu.write_rn_l(disp.er_i, disp.base_addr).unwrap();
            })
            .should_state(8)
            .should_check_ccr(false)
            .exec(|cpu| {
                assert_eq!(cpu.read_disp16_ern_w(disp.er_i, disp.disp).unwrap(), ccr.into());
                true
            });
    });
}

#[test]
fn test_stc_w_disp24() {
    // Using ImmMode as ccr
    TestHelper::build(ImmMode::new(vec![0, 0xf]), Disp24Mode::new()).run(|operator, ccr, disp| {
        operator
            .clone()
            .set_opcode(&[
                0x01,
                0x40,
                0x78,
                (disp.er_i << 4),
                0x6b,
                0xa0,
                disp.as8(1),
                disp.as8(2),
                disp.as8(3),
                disp.as8(4),
            ])
            .access_cpu(|cpu| {
                cpu.ccr = ccr;
                cpu.write_rn_l(disp.er_i, disp.base_addr).unwrap();
            })
            .should_state(12)
            .should_check_ccr(false)
            .exec(|cpu| {
                assert_eq!(cpu.read_disp24_ern_w(disp.er_i, disp.disp).unwrap(), ccr.into());
                true
            });
    });
}

#[test]
fn test_stc_w_inc_ern() {
    // Using ImmMode as ccr
    TestHelper::build(ImmMode::new(vec![0, 0xf]), IncErnMode::new_w()).run(|operator, ccr, inc| {
        operator
            .clone()
            .set_opcode(&[0x01, 0x40, 0x6d, (inc.er_i << 4) | 0x80])
            .access_cpu(|cpu| {
                cpu.ccr = ccr;
                cpu.write_rn_l(inc.er_i, inc.base_addr).unwrap()
            })
            .should_state(8)
            .should_check_ccr(false)
            .exec(|cpu| {
                assert_eq!(cpu.read_abs24_w(inc.base_addr).unwrap(), ccr.into());
                assert_eq!(cpu.read_rn_l(inc.er_i).unwrap(), inc.result_addr);
                true
            });
    })
}

#[test]
fn test_stc_w_abs16() {
    // Using ImmMode as ccr
    TestHelper::build(ImmMode::new(vec![0, 0xf]), Abs16Mode::new()).run(|operator, ccr, abs| {
        operator
            .clone()
            .set_opcode(&[&[0x01, 0x40, 0x6b, 0x80], &abs.to_be_bytes()[..]].concat())
            .access_cpu(|cpu| {
                cpu.ccr = ccr;
            })
            .should_state(8)
            .should_check_ccr(false)
            .exec(|cpu| {
                assert_eq!(cpu.read_abs16_w(abs).unwrap(), ccr.into());
                true
            });
    })
}

#[test]
fn test_stc_w_abs24() {
    // Using ImmMode as ccr
    TestHelper::build(ImmMode::new(vec![0, 0xf]), Abs24Mode::new()).run(|operator, ccr, abs| {
        operator
            .clone()
            .set_opcode(&[&[0x01, 0x40, 0x6b, 0xa0], &abs.to_be_bytes()[..]].concat())
            .access_cpu(|cpu| {
                cpu.ccr = ccr;
            })
            .should_state(10)
            .should_check_ccr(false)
            .exec(|cpu| {
                assert_eq!(cpu.read_abs24_w(abs).unwrap(), ccr.into());
                true
            });
    })
}


// async-era tests of the bit, logic, shift and extension instructions

// band
#[test]
fn test_band_rn() {
    let mut cpu = Cpu::new();
    cpu.ccr = 1;
    cpu.write_rn_b(0, 0x01).unwrap();
    cpu.bus.memory[0..2].copy_from_slice(&[0x76, 0x00]);
    let opcode = cpu.fetch();
    let state = cpu.exec(opcode).unwrap();
    assert_eq!(state, 2);
    assert_eq!(cpu.ccr, 1);

    // bit7
    let mut cpu = Cpu::new();
    cpu.ccr = 1;
    cpu.write_rn_b(0, 0x80).unwrap();
    cpu.bus.memory[0..2].copy_from_slice(&[0x76, 0x70]);
    let opcode = cpu.fetch();
    let state = cpu.exec(opcode).unwrap();
    assert_eq!(state, 2);
    assert_eq!(cpu.ccr, 1);

    // register 0xf
    let mut cpu = Cpu::new();
    cpu.ccr = 1;
    cpu.write_rn_b(0xf, 0x01).unwrap();
    cpu.bus.memory[0..2].copy_from_slice(&[0x76, 0x0f]);
    let opcode = cpu.fetch();
    let state = cpu.exec(opcode).unwrap();
    assert_eq!(state, 2);
    assert_eq!(cpu.ccr, 1);

    let mut cpu = Cpu::new();
    cpu.ccr = 1;
    cpu.write_rn_b(0, 0xfe).unwrap();
    cpu.bus.memory[0..2].copy_from_slice(&[0x76, 0x00]);
    let opcode = cpu.fetch();
    let state = cpu.exec(opcode).unwrap();
    assert_eq!(state, 2);
    assert_eq!(cpu.ccr, 0);

    let mut cpu = Cpu::new();
    cpu.ccr = 0;
    cpu.write_rn_b(0, 0x01).unwrap();
    cpu.bus.memory[0..2].copy_from_slice(&[0x76, 0x00]);
    let opcode = cpu.fetch();
    let state = cpu.exec(opcode).unwrap();
    assert_eq!(state, 2);
    assert_eq!(cpu.ccr, 0);
}

#[test]
fn test_band_ern() {
    let mut cpu = Cpu::new();
    cpu.ccr = 1;
    cpu.write_abs24_b(0xffcf20, 0x01).unwrap();
    cpu.write_rn_l(0, 0xffcf20).unwrap();
    cpu.bus.memory[0..4].copy_from_slice(&[0x7c, 0x00, 0x76, 0x00]);
    let opcode = cpu.fetch();
    let state = cpu.exec(opcode).unwrap();
    assert_eq!(state, 6);
    assert_eq!(cpu.ccr, 1);

    // bit 7
    let mut cpu = Cpu::new();
    cpu.ccr = 1;
    cpu.write_abs24_b(0xffcf20, 0x80).unwrap();
    cpu.write_rn_l(0, 0xffcf20).unwrap();
    cpu.bus.memory[0..4].copy_from_slice(&[0x7c, 0x00, 0x76, 0x70]);
    let opcode = cpu.fetch();
    let state = cpu.exec(opcode).unwrap();
    assert_eq!(state, 6);
    assert_eq!(cpu.ccr, 1);

    // register 7
    let mut cpu = Cpu::new();
    cpu.ccr = 1;
    cpu.write_abs24_b(0xffcf20, 0x01).unwrap();
    cpu.write_rn_l(7, 0xffcf20).unwrap();
    cpu.bus.memory[0..4].copy_from_slice(&[0x7c, 0x70, 0x76, 0x00]);
    let opcode = cpu.fetch();
    let state = cpu.exec(opcode).unwrap();
    assert_eq!(state, 6);
    assert_eq!(cpu.ccr, 1);

    let mut cpu = Cpu::new();
    cpu.ccr = 1;
    cpu.write_abs24_b(0xffcf20, 0xfe).unwrap();
    cpu.write_rn_l(0, 0xffcf20).unwrap();
    cpu.bus.memory[0..4].copy_from_slice(&[0x7c, 0x00, 0x76, 0x00]);
    let opcode = cpu.fetch();
    let state = cpu.exec(opcode).unwrap();
    assert_eq!(state, 6);
    assert_eq!(cpu.ccr, 0);

    let mut cpu = Cpu::new();
    cpu.ccr = 0;
    cpu.write_abs24_b(0xffcf20, 0x01).unwrap();
    cpu.write_rn_l(0, 0xffcf20).unwrap();
    cpu.bus.memory[0..4].copy_from_slice(&[0x7c, 0x00, 0x76, 0x00]);
    let opcode = cpu.fetch();
    let state = cpu.exec(opcode).unwrap();
    assert_eq!(state, 6);
    assert_eq!(cpu.ccr, 0);
}

#[test]
fn test_band_abs() {
    let mut cpu = Cpu::new();
    cpu.ccr = 1;
    cpu.write_abs24_b(0xffff12, 0x01).unwrap();
    cpu.bus.memory[0..4].copy_from_slice(&[0x7e, 0x12, 0x76, 0x00]);
    let opcode = cpu.fetch();
    let state = cpu.exec(opcode).unwrap();
    assert_eq!(state, 6);
    assert_eq!(cpu.ccr, 1);

    // bit 7
    let mut cpu = Cpu::new();
    cpu.ccr = 1;
    cpu.write_abs24_b(0xffff12, 0x80).unwrap();
    cpu.bus.memory[0..4].copy_from_slice(&[0x7e, 0x12, 0x76, 0x70]);
    let opcode = cpu.fetch();
    let state = cpu.exec(opcode).unwrap();
    assert_eq!(state, 6);
    assert_eq!(cpu.ccr, 1);

    let mut cpu = Cpu::new();
    cpu.ccr = 1;
    cpu.write_abs24_b(0xffff12, 0xfe).unwrap();
    cpu.bus.memory[0..4].copy_from_slice(&[0x7e, 0x12, 0x76, 0x00]);
    let opcode = cpu.fetch();
    let state = cpu.exec(opcode).unwrap();
    assert_eq!(state, 6);
    assert_eq!(cpu.ccr, 0);

    let mut cpu = Cpu::new();
    cpu.ccr = 0;
    cpu.write_abs24_b(0xffff12, 0x01).unwrap();
    cpu.bus.memory[0..4].copy_from_slice(&[0x7e, 0x12, 0x76, 0x00]);
    let opcode = cpu.fetch();
    let state = cpu.exec(opcode).unwrap();
    assert_eq!(state, 6);
    assert_eq!(cpu.ccr, 0);
}

// bior
#[test]
fn test_bior_rn() {
    let mut cpu = Cpu::new();
    cpu.ccr = 1;
    cpu.write_rn_b(0, 0xfe).unwrap();
    cpu.bus.memory[0..2].copy_from_slice(&[0x74, 0x80]);
    let opcode = cpu.fetch();
    let state = cpu.exec(opcode).unwrap();
    assert_eq!(state, 2);
    assert_eq!(cpu.ccr, 1);

    // bit7
    let mut cpu = Cpu::new();
    cpu.ccr = 1;
    cpu.write_rn_b(0, 0x7f).unwrap();
    cpu.bus.memory[0..2].copy_from_slice(&[0x74, 0xf0]);
    let opcode = cpu.fetch();
    let state = cpu.exec(opcode).unwrap();
    assert_eq!(state, 2);
    assert_eq!(cpu.ccr, 1);

    // register 0xf
    let mut cpu = Cpu::new();
    cpu.ccr = 1;
    cpu.write_rn_b(0xf, 0xfe).unwrap();
    cpu.bus.memory[0..2].copy_from_slice(&[0x74, 0x8f]);
    let opcode = cpu.fetch();
    let state = cpu.exec(opcode).unwrap();
    assert_eq!(state, 2);
    assert_eq!(cpu.ccr, 1);

    let mut cpu = Cpu::new();
    cpu.ccr = 1;
    cpu.write_rn_b(0, 0x01).unwrap();
    cpu.bus.memory[0..2].copy_from_slice(&[0x74, 0x80]);
    let opcode = cpu.fetch();
    let state = cpu.exec(opcode).unwrap();
    assert_eq!(state, 2);
    assert_eq!(cpu.ccr, 1);

    let mut cpu = Cpu::new();
    cpu.ccr = 0;
    cpu.write_rn_b(0, 0xfe).unwrap();
    cpu.bus.memory[0..2].copy_from_slice(&[0x74, 0x80]);
    let opcode = cpu.fetch();
    let state = cpu.exec(opcode).unwrap();
    assert_eq!(state, 2);
    assert_eq!(cpu.ccr, 1);

    let mut cpu = Cpu::new();
    cpu.ccr = 0;
    cpu.write_rn_b(0, 0x01).unwrap();
    cpu.bus.memory[0..2].copy_from_slice(&[0x74, 0x80]);
    let opcode = cpu.fetch();
    let state = cpu.exec(opcode).unwrap();
    assert_eq!(state, 2);
    assert_eq!(cpu.ccr, 0);
}

#[test]
fn test_bior_ern() {
    let mut cpu = Cpu::new();
    cpu.ccr = 1;
    cpu.write_abs24_b(0xffcf20, 0xfe).unwrap();
    cpu.write_rn_l(0, 0xffcf20).unwrap();
    cpu.bus.memory[0..4].copy_from_slice(&[0x7c, 0x00, 0x74, 0x80]);
    let opcode = cpu.fetch();
    let state = cpu.exec(opcode).unwrap();
    assert_eq!(state, 6);
    assert_eq!(cpu.ccr, 1);

    // bit 7
    let mut cpu = Cpu::new();
    cpu.ccr = 1;
    cpu.write_abs24_b(0xffcf20, 0x7f).unwrap();
    cpu.write_rn_l(0, 0xffcf20).unwrap();
    cpu.bus.memory[0..4].copy_from_slice(&[0x7c, 0x00, 0x74, 0xf0]);
    let opcode = cpu.fetch();
    let state = cpu.exec(opcode).unwrap();
    assert_eq!(state, 6);
    assert_eq!(cpu.ccr, 1);

    // register 7
    let mut cpu = Cpu::new();
    cpu.ccr = 1;
    cpu.write_abs24_b(0xffcf20, 0xfe).unwrap();
    cpu.write_rn_l(7, 0xffcf20).unwrap();
    cpu.bus.memory[0..4].copy_from_slice(&[0x7c, 0x70, 0x74, 0x80]);
    let opcode = cpu.fetch();
    let state = cpu.exec(opcode).unwrap();
    assert_eq!(state, 6);
    assert_eq!(cpu.ccr, 1);

    let mut cpu = Cpu::new();
    cpu.ccr = 1;
    cpu.write_abs24_b(0xffcf20, 0x01).unwrap();
    cpu.write_rn_l(0, 0xffcf20).unwrap();
    cpu.bus.memory[0..4].copy_from_slice(&[0x7c, 0x00, 0x74, 0x80]);
    let opcode = cpu.fetch();
    let state = cpu.exec(opcode).unwrap();
    assert_eq!(state, 6);
    assert_eq!(cpu.ccr, 1);

    let mut cpu = Cpu::new();
    cpu.ccr = 0;
    cpu.write_abs24_b(0xffcf20, 0xfe).unwrap();
    cpu.write_rn_l(0, 0xffcf20).unwrap();
    cpu.bus.memory[0..4].copy_from_slice(&[0x7c, 0x00, 0x74, 0x80]);
    let opcode = cpu.fetch();
    let state = cpu.exec(opcode).unwrap();
    assert_eq!(state, 6);
    assert_eq!(cpu.ccr, 1);

    let mut cpu = Cpu::new();
    cpu.ccr = 0;
    cpu.write_abs24_b(0xffcf20, 0x01).unwrap();
    cpu.write_rn_l(0, 0xffcf20).unwrap();
    cpu.bus.memory[0..4].copy_from_slice(&[0x7c, 0x00, 0x74, 0x80]);
    let opcode = cpu.fetch();
    let state = cpu.exec(opcode).unwrap();
    assert_eq!(state, 6);
    assert_eq!(cpu.ccr, 0);
}

#[test]
fn test_bior_abs() {
    let mut cpu = Cpu::new();
    cpu.ccr = 1;
    cpu.write_abs24_b(0xffff12, 0xfe).unwrap();
    cpu.bus.memory[0..4].copy_from_slice(&[0x7e, 0x12, 0x74, 0x80]);
    let opcode = cpu.fetch();
    let state = cpu.exec(opcode).unwrap();
    assert_eq!(state, 6);
    assert_eq!(cpu.ccr, 1);

    // bit 7
    let mut cpu = Cpu::new();
    cpu.ccr = 1;
    cpu.write_abs24_b(0xffff12, 0x7f).unwrap();
    cpu.bus.memory[0..4].copy_from_slice(&[0x7e, 0x12, 0x74, 0xf0]);
    let opcode = cpu.fetch();
    let state = cpu.exec(opcode).unwrap();
    assert_eq!(state, 6);
    assert_eq!(cpu.ccr, 1);

    let mut cpu = Cpu::new();
    cpu.ccr = 1;
    cpu.write_abs24_b(0xffff12, 0x01).unwrap();
    cpu.bus.memory[0..4].copy_from_slice(&[0x7e, 0x12, 0x74, 0x80]);
    let opcode = cpu.fetch();
    let state = cpu.exec(opcode).unwrap();
    assert_eq!(state, 6);
    assert_eq!(cpu.ccr, 1);

    let mut cpu = Cpu::new();
    cpu.ccr = 0;
    cpu.write_abs24_b(0xffff12, 0xfe).unwrap();
    cpu.bus.memory[0..4].copy_from_slice(&[0x7e, 0x12, 0x74, 0x80]);
    let opcode = cpu.fetch();
    let state = cpu.exec(opcode).unwrap();
    assert_eq!(state, 6);
    assert_eq!(cpu.ccr, 1);

    let mut cpu = Cpu::new();
    cpu.ccr = 0;
    cpu.write_abs24_b(0xffff12, 0x01).unwrap();
    cpu.bus.memory[0..4].copy_from_slice(&[0x7e, 0x12, 0x74, 0x80]);
    let opcode = cpu.fetch();
    let state = cpu.exec(opcode).unwrap();
    assert_eq!(state, 6);
    assert_eq!(cpu.ccr, 0);
}

// bist
#[test]
fn test_bist_rn() {
    let mut cpu = Cpu::new();
    cpu.ccr = 0;
    cpu.write_rn_b(0, 0xfe).unwrap();
    cpu.bus.memory[0..2].copy_from_slice(&[0x67, 0x80]);
    let opcode = cpu.fetch();
    let state = cpu.exec(opcode).unwrap();
    assert_eq!(state, 2);
    assert_eq!(cpu.ccr, 0);
    assert_eq!(cpu.read_rn_b(0).unwrap(), 0xff);

    // bit7
    let mut cpu = Cpu::new();
    cpu.ccr = 0;
    cpu.write_rn_b(0, 0x7f).unwrap();
    cpu.bus.memory[0..2].copy_from_slice(&[0x67, 0xf0]);
    let opcode = cpu.fetch();
    let state = cpu.exec(opcode).unwrap();
    assert_eq!(state, 2);
    assert_eq!(cpu.ccr, 0);
    assert_eq!(cpu.read_rn_b(0).unwrap(), 0xff);

    // register 0xf
    let mut cpu = Cpu::new();
    cpu.ccr = 0;
    cpu.write_rn_b(0xf, 0xfe).unwrap();
    cpu.bus.memory[0..2].copy_from_slice(&[0x67, 0x8f]);
    let opcode = cpu.fetch();
    let state = cpu.exec(opcode).unwrap();
    assert_eq!(state, 2);
    assert_eq!(cpu.ccr, 0);
    assert_eq!(cpu.read_rn_b(0xf).unwrap(), 0xff);

    let mut cpu = Cpu::new();
    cpu.ccr = 1;
    cpu.write_rn_b(0, 0xfe).unwrap();
    cpu.bus.memory[0..2].copy_from_slice(&[0x67, 0x80]);
    let opcode = cpu.fetch();
    let state = cpu.exec(opcode).unwrap();
    assert_eq!(state, 2);
    assert_eq!(cpu.ccr, 1);
    assert_eq!(cpu.read_rn_b(0).unwrap(), 0xfe);
}

#[test]
fn test_bist_ern() {
    let mut cpu = Cpu::new();
    cpu.ccr = 0;
    cpu.write_abs24_b(0xffcf20, 0xfe).unwrap();
    cpu.write_rn_l(0, 0xffcf20).unwrap();
    cpu.bus.memory[0..4].copy_from_slice(&[0x7d, 0x00, 0x67, 0x80]);
    let opcode = cpu.fetch();
    let state = cpu.exec(opcode).unwrap();
    assert_eq!(state, 8);
    assert_eq!(cpu.ccr, 0);
    assert_eq!(cpu.read_ern_b(0).unwrap(), 0xff);

    // bit 7
    let mut cpu = Cpu::new();
    cpu.ccr = 0;
    cpu.write_abs24_b(0xffcf20, 0x7f).unwrap();
    cpu.write_rn_l(0, 0xffcf20).unwrap();
    cpu.bus.memory[0..4].copy_from_slice(&[0x7d, 0x00, 0x67, 0xf0]);
    let opcode = cpu.fetch();
    let state = cpu.exec(opcode).unwrap();
    assert_eq!(state, 8);
    assert_eq!(cpu.ccr, 0);
    assert_eq!(cpu.read_ern_b(0).unwrap(), 0xff);

    // register 7
    let mut cpu = Cpu::new();
    cpu.ccr = 0;
    cpu.write_abs24_b(0xffcf20, 0xfe).unwrap();
    cpu.write_rn_l(7, 0xffcf20).unwrap();
    cpu.bus.memory[0..4].copy_from_slice(&[0x7d, 0x70, 0x67, 0x80]);
    let opcode = cpu.fetch();
    let state = cpu.exec(opcode).unwrap();
    assert_eq!(state, 8);
    assert_eq!(cpu.ccr, 0);
    assert_eq!(cpu.read_ern_b(7).unwrap(), 0xff);

    let mut cpu = Cpu::new();
    cpu.ccr = 1;
    cpu.write_abs24_b(0xffcf20, 0xfe).unwrap();
    cpu.write_rn_l(0, 0xffcf20).unwrap();
    cpu.bus.memory[0..4].copy_from_slice(&[0x7d, 0x00, 0x67, 0x80]);
    let opcode = cpu.fetch();
    let state = cpu.exec(opcode).unwrap();
    assert_eq!(state, 8);
    assert_eq!(cpu.ccr, 1);
    assert_eq!(cpu.read_ern_b(0).unwrap(), 0xfe);
}

#[test]
fn test_bist_abs() {
    let mut cpu = Cpu::new();
    cpu.ccr = 0;
    cpu.write_abs24_b(0xffff12, 0xfe).unwrap();
    cpu.bus.memory[0..4].copy_from_slice(&[0x7f, 0x12, 0x67, 0x80]);
    let opcode = cpu.fetch();
    let state = cpu.exec(opcode).unwrap();
    assert_eq!(state, 8);
    assert_eq!(cpu.ccr, 0);
    assert_eq!(cpu.read_abs24_b(0xffff12).unwrap(), 0xff);

    // bit 7
    let mut cpu = Cpu::new();
    cpu.ccr = 0;
    cpu.write_abs24_b(0xffff12, 0x7f).unwrap();
    cpu.bus.memory[0..4].copy_from_slice(&[0x7f, 0x12, 0x67, 0xf0]);
    let opcode = cpu.fetch();
    let state = cpu.exec(opcode).unwrap();
    assert_eq!(state, 8);
    assert_eq!(cpu.ccr, 0);
    assert_eq!(cpu.read_abs24_b(0xffff12).unwrap(), 0xff);

    let mut cpu = Cpu::new();
    cpu.ccr = 1;
    cpu.write_abs24_b(0xffff12, 0xfe).unwrap();
    cpu.bus.memory[0..4].copy_from_slice(&[0x7f, 0x12, 0x67, 0x80]);
    let opcode = cpu.fetch();
    let state = cpu.exec(opcode).unwrap();
    assert_eq!(state, 8);
    assert_eq!(cpu.ccr, 1);
    assert_eq!(cpu.read_abs24_b(0xffff12).unwrap(), 0xfe);
}

// bset
#[test]
fn test_bset_rn_from_imm() {
    // bit 0
    let mut cpu = Cpu::new();
    cpu.write_rn_b(0, 0xfe).unwrap();
    cpu.bus.memory[0..2].copy_from_slice(&[0x70, 0x00]);
    let opcode = cpu.fetch();
    let state = cpu.exec(opcode).unwrap();
    assert_eq!(state, 2);
    assert_eq!(cpu.read_rn_b(0).unwrap(), 0xff);

    // bit 7
    let mut cpu = Cpu::new();
    cpu.write_rn_b(0, 0x7f).unwrap();
    cpu.bus.memory[0..2].copy_from_slice(&[0x70, 0x70]);
    let opcode = cpu.fetch();
    let state = cpu.exec(opcode).unwrap();
    assert_eq!(state, 2);
    assert_eq!(cpu.read_rn_b(0).unwrap(), 0xff);

    // register 0xf
    let mut cpu = Cpu::new();
    cpu.write_rn_b(0xf, 0xfe).unwrap();
    cpu.bus.memory[0..2].copy_from_slice(&[0x70, 0x0f]);
    let opcode = cpu.fetch();
    let state = cpu.exec(opcode).unwrap();
    assert_eq!(state, 2);
    assert_eq!(cpu.read_rn_b(0xf).unwrap(), 0xff);
}

#[test]
fn test_bset_rn_from_rn() {
    // bit 0
    let mut cpu = Cpu::new();
    cpu.write_rn_b(0, 0).unwrap();
    cpu.write_rn_b(0xf, 0xfe).unwrap();
    cpu.bus.memory[0..2].copy_from_slice(&[0x60, 0x0f]);
    let opcode = cpu.fetch();
    let state = cpu.exec(opcode).unwrap();
    assert_eq!(state, 2);
    assert_eq!(cpu.read_rn_b(0xf).unwrap(), 0xff);

    // bit 7
    let mut cpu = Cpu::new();
    cpu.write_rn_b(0, 7).unwrap();
    cpu.write_rn_b(0xf, 0x7f).unwrap();
    cpu.bus.memory[0..2].copy_from_slice(&[0x60, 0x0f]);
    let opcode = cpu.fetch();
    let state = cpu.exec(opcode).unwrap();
    assert_eq!(state, 2);
    assert_eq!(cpu.read_rn_b(0xf).unwrap(), 0xff);

    // register 0xf
    let mut cpu = Cpu::new();
    cpu.write_rn_b(0xf, 0).unwrap();
    cpu.write_rn_b(0, 0xfe).unwrap();
    cpu.bus.memory[0..2].copy_from_slice(&[0x60, 0xf0]);
    let opcode = cpu.fetch();
    let state = cpu.exec(opcode).unwrap();
    assert_eq!(state, 2);
    assert_eq!(cpu.read_rn_b(0).unwrap(), 0xff);
}

#[test]
fn test_bset_ern() {
    ////////
    // imm

    // bit 0
    let mut cpu = Cpu::new();
    cpu.write_abs24_b(0xffcf20, 0xfe).unwrap();
    cpu.write_rn_l(0, 0xffcf20).unwrap();
    cpu.bus.memory[0..4].copy_from_slice(&[0x7d, 0x00, 0x70, 0x00]);
    let opcode = cpu.fetch();
    let state = cpu.exec(opcode).unwrap();
    assert_eq!(state, 8);
    assert_eq!(cpu.read_ern_b(0).unwrap(), 0xff);

    // bit 7
    let mut cpu = Cpu::new();
    cpu.write_abs24_b(0xffcf20, 0x7f).unwrap();
    cpu.write_rn_l(0, 0xffcf20).unwrap();
    cpu.bus.memory[0..4].copy_from_slice(&[0x7d, 0x00, 0x70, 0x70]);
    let opcode = cpu.fetch();
    let state = cpu.exec(opcode).unwrap();
    assert_eq!(state, 8);
    assert_eq!(cpu.read_ern_b(0).unwrap(), 0xff);

    // register 7
    let mut cpu = Cpu::new();
    cpu.write_abs24_b(0xffcf20, 0x7f).unwrap();
    cpu.write_rn_l(7, 0xffcf20).unwrap();
    cpu.bus.memory[0..4].copy_from_slice(&[0x7d, 0x70, 0x70, 0x70]);
    let opcode = cpu.fetch();
    let state = cpu.exec(opcode).unwrap();
    assert_eq!(state, 8);
    assert_eq!(cpu.read_ern_b(7).unwrap(), 0xff);

    ////////
    // rn

    // bit 0
    let mut cpu = Cpu::new();
    cpu.write_abs24_b(0xffcf20, 0xfe).unwrap();
    cpu.write_rn_l(0, 0xffcf20).unwrap();
    cpu.write_rn_b(0xf, 0).unwrap();
    cpu.bus.memory[0..4].copy_from_slice(&[0x7d, 0x00, 0x60, 0xf0]);
    let opcode = cpu.fetch();
    let state = cpu.exec(opcode).unwrap();
    assert_eq!(state, 8);
    assert_eq!(cpu.read_ern_b(0).unwrap(), 0xff);

    // bit 7
    let mut cpu = Cpu::new();
    cpu.write_abs24_b(0xffcf20, 0x7f).unwrap();
    cpu.write_rn_l(0, 0xffcf20).unwrap();
    cpu.write_rn_b(0xf, 7).unwrap();
    cpu.bus.memory[0..4].copy_from_slice(&[0x7d, 0x00, 0x60, 0xf0]);
    let opcode = cpu.fetch();
    let state = cpu.exec(opcode).unwrap();
    assert_eq!(state, 8);
    assert_eq!(cpu.read_ern_b(0).unwrap(), 0xff);

    // register 7
    let mut cpu = Cpu::new();
    cpu.write_abs24_b(0xffcf20, 0x7f).unwrap();
    cpu.write_rn_l(7, 0xffcf20).unwrap();
    cpu.write_rn_b(0, 7).unwrap();
    cpu.bus.memory[0..4].copy_from_slice(&[0x7d, 0x70, 0x60, 0x00]);
    let opcode = cpu.fetch();
    let state = cpu.exec(opcode).unwrap();
    assert_eq!(state, 8);
    assert_eq!(cpu.read_ern_b(7).unwrap(), 0xff);
}

#[test]
fn test_bset_abs() {
    ////////
    // imm

    // bit 0
    let mut cpu = Cpu::new();
    cpu.write_abs24_b(0xffff12, 0xfe).unwrap();
    cpu.bus.memory[0..4].copy_from_slice(&[0x7f, 0x12, 0x70, 0x00]);
    let opcode = cpu.fetch();
    let state = cpu.exec(opcode).unwrap();
    assert_eq!(state, 8);
    assert_eq!(cpu.read_abs24_b(0xffff12).unwrap(), 0xff);

    // bit 7
    let mut cpu = Cpu::new();
    cpu.write_abs24_b(0xffff12, 0x7f).unwrap();
    cpu.bus.memory[0..4].copy_from_slice(&[0x7f, 0x12, 0x70, 0x70]);
    let opcode = cpu.fetch();
    let state = cpu.exec(opcode).unwrap();
    assert_eq!(state, 8);
    assert_eq!(cpu.read_abs24_b(0xffff12).unwrap(), 0xff);

    ////////
    // rn

    // bit 0
    let mut cpu = Cpu::new();
    cpu.write_abs24_b(0xffff12, 0xfe).unwrap();
    cpu.write_rn_b(0, 0).unwrap();
    cpu.bus.memory[0..4].copy_from_slice(&[0x7f, 0x12, 0x60, 0x00]);
    let opcode = cpu.fetch();
    let state = cpu.exec(opcode).unwrap();
    assert_eq!(state, 8);
    assert_eq!(cpu.read_abs24_b(0xffff12).unwrap(), 0xff);

    // bit 7
    let mut cpu = Cpu::new();
    cpu.write_abs24_b(0xffff12, 0x7f).unwrap();
    cpu.write_rn_b(0, 7).unwrap();
    cpu.bus.memory[0..4].copy_from_slice(&[0x7f, 0x12, 0x60, 0x00]);
    let opcode = cpu.fetch();
    let state = cpu.exec(opcode).unwrap();
    assert_eq!(state, 8);
    assert_eq!(cpu.read_abs24_b(0xffff12).unwrap(), 0xff);

    // register 0xf
    let mut cpu = Cpu::new();
    cpu.write_abs24_b(0xffff12, 0x7f).unwrap();
    cpu.write_rn_b(0xf, 7).unwrap();
    cpu.bus.memory[0..4].copy_from_slice(&[0x7f, 0x12, 0x60, 0xf0]);
    let opcode = cpu.fetch();
    let state = cpu.exec(opcode).unwrap();
    assert_eq!(state, 8);
    assert_eq!(cpu.read_abs24_b(0xffff12).unwrap(), 0xff);
}

// extu
#[test]
fn test_extu_w() {
    let mut cpu = Cpu::new();
    cpu.ccr = 0b00001110;
    cpu.bus.memory[0..2].copy_from_slice(&[0x17, 0x50]);
    cpu.write_rn_w(0, 0xb6a5).unwrap();
    let opcode = cpu.fetch();
    let state = cpu.exec(opcode).unwrap();
    assert_eq!(state, 2);
    assert_eq!(cpu.ccr, 0);
    assert_eq!(cpu.read_rn_w(0).unwrap(), 0xa5);

    // register 0xf
    let mut cpu = Cpu::new();
    cpu.ccr = 0b00001110;
    cpu.bus.memory[0..2].copy_from_slice(&[0x17, 0x5f]);
    cpu.write_rn_w(0xf, 0xb6a5).unwrap();
    let opcode = cpu.fetch();
    let state = cpu.exec(opcode).unwrap();
    assert_eq!(state, 2);
    assert_eq!(cpu.ccr, 0);
    assert_eq!(cpu.read_rn_w(0xf).unwrap(), 0xa5);

    // check CCR Z
    let mut cpu = Cpu::new();
    cpu.ccr = 0b00001110;
    cpu.bus.memory[0..2].copy_from_slice(&[0x17, 0x50]);
    cpu.write_rn_w(0, 0xb600).unwrap();
    let opcode = cpu.fetch();
    let state = cpu.exec(opcode).unwrap();
    assert_eq!(state, 2);
    assert_eq!(cpu.ccr, 0b00000100);
    assert_eq!(cpu.read_rn_w(0).unwrap(), 0);

    // check CCR expected unchanged
    let mut cpu = Cpu::new();
    cpu.ccr = 0b11111111;
    cpu.bus.memory[0..2].copy_from_slice(&[0x17, 0x50]);
    cpu.write_rn_w(0, 0xb6a5).unwrap();
    let opcode = cpu.fetch();
    let state = cpu.exec(opcode).unwrap();
    assert_eq!(state, 2);
    assert_eq!(cpu.ccr, 0b11110001);
    assert_eq!(cpu.read_rn_w(0).unwrap(), 0xa5);
}

#[test]
fn test_extu_l() {
    let mut cpu = Cpu::new();
    cpu.ccr = 0b00001110;
    cpu.bus.memory[0..2].copy_from_slice(&[0x17, 0x70]);
    cpu.write_rn_l(0, 0xd8c7b6a5).unwrap();
    let opcode = cpu.fetch();
    let state = cpu.exec(opcode).unwrap();
    assert_eq!(state, 2);
    assert_eq!(cpu.ccr, 0);
    assert_eq!(cpu.read_rn_l(0).unwrap(), 0x0000b6a5);

    // register 7
    let mut cpu = Cpu::new();
    cpu.ccr = 0b00001110;
    cpu.bus.memory[0..2].copy_from_slice(&[0x17, 0x77]);
    cpu.write_rn_l(7, 0xd8c7b6a5).unwrap();
    let opcode = cpu.fetch();
    let state = cpu.exec(opcode).unwrap();
    assert_eq!(state, 2);
    assert_eq!(cpu.ccr, 0);
    assert_eq!(cpu.read_rn_l(7).unwrap(), 0x0000b6a5);

    // check CCR Z
    let mut cpu = Cpu::new();
    cpu.ccr = 0b00001110;
    cpu.bus.memory[0..2].copy_from_slice(&[0x17, 0x70]);
    cpu.write_rn_l(0, 0xd8c70000).unwrap();
    let opcode = cpu.fetch();
    let state = cpu.exec(opcode).unwrap();
    assert_eq!(state, 2);
    assert_eq!(cpu.ccr, 0b00000100);
    assert_eq!(cpu.read_rn_l(0).unwrap(), 0);

    // check CCR expected unchanged
    let mut cpu = Cpu::new();
    cpu.ccr = 0b11111111;
    cpu.bus.memory[0..2].copy_from_slice(&[0x17, 0x70]);
    cpu.write_rn_l(0, 0xd8c7b6a5).unwrap();
    let opcode = cpu.fetch();
    let state = cpu.exec(opcode).unwrap();
    assert_eq!(state, 2);
    assert_eq!(cpu.ccr, 0b11110001);
    assert_eq!(cpu.read_rn_l(0).unwrap(), 0xb6a5);
}

// or
#[test]
fn test_or_b_imm() {
    let mut cpu = Cpu::new();

    cpu.bus.memory[0..2].copy_from_slice(&[0xc0, 0x30]);
    cpu.write_rn_b(0, 0xaf).unwrap();
    let opcode = cpu.fetch();
    let state = cpu.exec(opcode).unwrap();
    assert_eq!(state, 2);
    assert_eq!(cpu.ccr & 0b00001110, 0b00001000);
    assert_eq!(cpu.read_rn_b(0).unwrap(), 0xbf);

    cpu.pc = MEMORY_START_ADDR;
    cpu.bus.memory[0..2].copy_from_slice(&[0xcf, 0x30]);
    cpu.write_rn_b(0xf, 0xaf).unwrap();
    let opcode = cpu.fetch();
    let state = cpu.exec(opcode).unwrap();
    assert_eq!(state, 2);
    assert_eq!(cpu.ccr & 0b00001110, 0b00001000);
    assert_eq!(cpu.read_rn_b(0xf).unwrap(), 0xbf);

    cpu.pc = MEMORY_START_ADDR;
    cpu.bus.memory[0..2].copy_from_slice(&[0xc0, 0x00]);
    cpu.write_rn_b(0, 0).unwrap();
    let opcode = cpu.fetch();
    cpu.exec(opcode).unwrap();
    assert_eq!(cpu.ccr & 0b00001110, 0b00000100);
    assert_eq!(cpu.read_rn_b(0).unwrap(), 0);
}

#[test]
fn test_or_b_rn() {
    let mut cpu = Cpu::new();

    cpu.bus.memory[0..2].copy_from_slice(&[0x14, 0x0f]);
    cpu.write_rn_b(0, 0xaf).unwrap();
    cpu.write_rn_b(0xf, 0x30).unwrap();
    let opcode = cpu.fetch();
    let state = cpu.exec(opcode).unwrap();
    assert_eq!(state, 2);
    assert_eq!(cpu.ccr & 0b00001110, 0b00001000);
    // check result
    assert_eq!(cpu.read_rn_b(0xf).unwrap(), 0xbf);
    // check no change
    assert_eq!(cpu.read_rn_b(0).unwrap(), 0xaf);

    cpu.pc = MEMORY_START_ADDR;
    cpu.bus.memory[0..2].copy_from_slice(&[0x14, 0xf0]);
    cpu.write_rn_b(0xf, 0xaf).unwrap();
    cpu.write_rn_b(0, 0x30).unwrap();
    let opcode = cpu.fetch();
    let state = cpu.exec(opcode).unwrap();
    assert_eq!(state, 2);
    assert_eq!(cpu.ccr & 0b00001110, 0b00001000);
    // check result
    assert_eq!(cpu.read_rn_b(0).unwrap(), 0xbf);
    // check no change
    assert_eq!(cpu.read_rn_b(0xf).unwrap(), 0xaf);

    cpu.pc = MEMORY_START_ADDR;
    cpu.bus.memory[0..2].copy_from_slice(&[0x14, 0x0f]);
    cpu.write_rn_b(0xf, 0).unwrap();
    cpu.write_rn_b(0, 0).unwrap();
    let opcode = cpu.fetch();
    cpu.exec(opcode).unwrap();
    assert_eq!(cpu.ccr & 0b00001110, 0b00000100);
    assert_eq!(cpu.read_rn_b(0xf).unwrap(), 0);
}

#[test]
fn test_or_w_imm() {
    let mut cpu = Cpu::new();

    cpu.bus.memory[0..4].copy_from_slice(&[0x79, 0x40, 0x30, 0x30]);
    cpu.write_rn_w(0, 0xafaf).unwrap();
    let opcode = cpu.fetch();
    let state = cpu.exec(opcode).unwrap();
    assert_eq!(state, 4);
    assert_eq!(cpu.ccr & 0b00001110, 0b00001000);
    assert_eq!(cpu.read_rn_w(0).unwrap(), 0xbfbf);

    cpu.pc = MEMORY_START_ADDR;
    cpu.bus.memory[0..4].copy_from_slice(&[0x79, 0x4f, 0x30, 0x30]);
    cpu.write_rn_w(0xf, 0xafaf).unwrap();
    let opcode = cpu.fetch();
    let state = cpu.exec(opcode).unwrap();
    assert_eq!(state, 4);
    assert_eq!(cpu.ccr & 0b00001110, 0b00001000);
    assert_eq!(cpu.read_rn_w(0xf).unwrap(), 0xbfbf);

    cpu.pc = MEMORY_START_ADDR;
    cpu.bus.memory[0..4].copy_from_slice(&[0x79, 0x40, 0x00, 0x00]);
    cpu.write_rn_w(0, 0).unwrap();
    let opcode = cpu.fetch();
    cpu.exec(opcode).unwrap();
    assert_eq!(cpu.ccr & 0b00001110, 0b00000100);
    assert_eq!(cpu.read_rn_w(0).unwrap(), 0);
}

#[test]
fn test_or_w_rn() {
    let mut cpu = Cpu::new();

    cpu.bus.memory[0..2].copy_from_slice(&[0x64, 0x0f]);
    cpu.write_rn_w(0, 0xafaf).unwrap();
    cpu.write_rn_w(0xf, 0x3030).unwrap();
    let opcode = cpu.fetch();
    let state = cpu.exec(opcode).unwrap();

    assert_eq!(state, 2);
    assert_eq!(cpu.ccr & 0b00001110, 0b00001000);
    // check result
    assert_eq!(cpu.read_rn_w(0xf).unwrap(), 0xbfbf);
    // check no change
    assert_eq!(cpu.read_rn_w(0).unwrap(), 0xafaf);

    cpu.pc = MEMORY_START_ADDR;
    cpu.bus.memory[0..2].copy_from_slice(&[0x64, 0xf0]);
    cpu.write_rn_w(0xf, 0xafaf).unwrap();
    cpu.write_rn_w(0, 0x3030).unwrap();
    let opcode = cpu.fetch();
    let state = cpu.exec(opcode).unwrap();

    assert_eq!(state, 2);
    assert_eq!(cpu.ccr & 0b00001110, 0b00001000);
    // check result
    assert_eq!(cpu.read_rn_w(0).unwrap(), 0xbfbf);
    // check no change
    assert_eq!(cpu.read_rn_w(0xf).unwrap(), 0xafaf);

    cpu.pc = MEMORY_START_ADDR;
    cpu.bus.memory[0..2].copy_from_slice(&[0x64, 0x0f]);
    cpu.write_rn_w(0xf, 0).unwrap();
    cpu.write_rn_w(0, 0).unwrap();
    let opcode = cpu.fetch();
    cpu.exec(opcode).unwrap();
    assert_eq!(cpu.ccr & 0b00001110, 0b00000100);
    assert_eq!(cpu.read_rn_w(0xf).unwrap(), 0);
}

#[test]
fn test_or_l_imm() {
    let mut cpu = Cpu::new();

    cpu.bus.memory[0..6].copy_from_slice(&[0x7a, 0x40, 0x30, 0x30, 0x30, 0x30]);
    cpu.write_rn_l(0, 0xafafafaf).unwrap();
    let opcode = cpu.fetch();
    let state = cpu.exec(opcode).unwrap();
    assert_eq!(state, 6);
    assert_eq!(cpu.ccr & 0b00001110, 0b00001000);
    assert_eq!(cpu.read_rn_l(0).unwrap(), 0xbfbfbfbf);

    cpu.pc = MEMORY_START_ADDR;
    cpu.bus.memory[0..6].copy_from_slice(&[0x7a, 0x47, 0x30, 0x30, 0x30, 0x30]);
    cpu.write_rn_l(0x7, 0xafafafaf).unwrap();
    let opcode = cpu.fetch();
    let state = cpu.exec(opcode).unwrap();
    assert_eq!(state, 6);
    assert_eq!(cpu.ccr & 0b00001110, 0b00001000);
    assert_eq!(cpu.read_rn_l(0x7).unwrap(), 0xbfbfbfbf);

    cpu.pc = MEMORY_START_ADDR;
    cpu.bus.memory[0..6].copy_from_slice(&[0x7a, 0x40, 0x00, 0x00, 0x00, 0x00]);
    cpu.write_rn_l(0, 0).unwrap();
    let opcode = cpu.fetch();
    cpu.exec(opcode).unwrap();
    assert_eq!(cpu.ccr & 0b00001110, 0b00000100);
    assert_eq!(cpu.read_rn_l(0).unwrap(), 0);
}

#[test]
fn test_or_l_rn() {
    let mut cpu = Cpu::new();

    cpu.bus.memory[0..4].copy_from_slice(&[0x01, 0xf0, 0x64, 0x07]);
    cpu.write_rn_l(0, 0xafafafaf).unwrap();
    cpu.write_rn_l(7, 0x30303030).unwrap();
    let opcode = cpu.fetch();
    let state = cpu.exec(opcode).unwrap();
    assert_eq!(state, 4);
    assert_eq!(cpu.ccr & 0b00001110, 0b00001000);
    // check result
    assert_eq!(cpu.read_rn_l(7).unwrap(), 0xbfbfbfbf);
    // check no change
    assert_eq!(cpu.read_rn_l(0).unwrap(), 0xafafafaf);

    cpu.pc = MEMORY_START_ADDR;
    cpu.bus.memory[0..4].copy_from_slice(&[0x01, 0xf0, 0x64, 0x70]);
    cpu.write_rn_l(7, 0xafafafaf).unwrap();
    cpu.write_rn_l(0, 0x30303030).unwrap();
    let opcode = cpu.fetch();
    let state = cpu.exec(opcode).unwrap();
    assert_eq!(state, 4);
    assert_eq!(cpu.ccr & 0b00001110, 0b00001000);
    // check result
    assert_eq!(cpu.read_rn_l(0).unwrap(), 0xbfbfbfbf);
    // check no change
    assert_eq!(cpu.read_rn_l(7).unwrap(), 0xafafafaf);

    cpu.pc = MEMORY_START_ADDR;
    cpu.bus.memory[0..4].copy_from_slice(&[0x01, 0xf0, 0x64, 0x70]);
    cpu.write_rn_l(7, 0).unwrap();
    cpu.write_rn_l(0, 0).unwrap();
    let opcode = cpu.fetch();
    cpu.exec(opcode).unwrap();
    assert_eq!(cpu.ccr & 0b00001110, 0b00000100);
    assert_eq!(cpu.read_rn_l(0).unwrap(), 0);
}

// rotl
#[test]
fn test_rotl_b() {
    // check CCR N, V
    let mut cpu = Cpu::new();
    cpu.ccr = 0b00001111;

    cpu.bus.memory[0..2].copy_from_slice(&[0x12, 0x80]);
    cpu.write_rn_b(0, 0b0101_0101).unwrap();
    let opcode = cpu.fetch();
    let state = cpu.exec(opcode).unwrap();
    assert_eq!(state, 2);
    assert_eq!(cpu.ccr, 0b00001000);
    assert_eq!(cpu.read_rn_b(0).unwrap(), 0b1010_1010);

    // check register 0xf
    let mut cpu = Cpu::new();
    cpu.ccr = 0b00001111;

    cpu.bus.memory[0..2].copy_from_slice(&[0x12, 0x8f]);
    cpu.write_rn_b(0xf, 0b0101_0101).unwrap();
    let opcode = cpu.fetch();
    let state = cpu.exec(opcode).unwrap();
    assert_eq!(state, 2);
    assert_eq!(cpu.ccr, 0b00001000);
    assert_eq!(cpu.read_rn_b(0xf).unwrap(), 0b1010_1010);

    // check CCR Z
    let mut cpu = Cpu::new();
    cpu.ccr = 0b00001011;

    cpu.bus.memory[0..2].copy_from_slice(&[0x12, 0x80]);
    cpu.write_rn_b(0, 0).unwrap();
    let opcode = cpu.fetch();
    let state = cpu.exec(opcode).unwrap();
    assert_eq!(state, 2);
    assert_eq!(cpu.ccr, 0b00000100);
    assert_eq!(cpu.read_rn_b(0).unwrap(), 0);

    // check CCR C, velue
    let mut cpu = Cpu::new();
    cpu.ccr = 0b00001110;

    cpu.bus.memory[0..2].copy_from_slice(&[0x12, 0x80]);
    cpu.write_rn_b(0, 0b1010_1010).unwrap();
    let opcode = cpu.fetch();
    let state = cpu.exec(opcode).unwrap();
    assert_eq!(state, 2);
    assert_eq!(cpu.ccr, 0b00000001);
    assert_eq!(cpu.read_rn_b(0).unwrap(), 0b0101_0101);
}

#[test]
fn test_rotl_w() {
    // check CCR N, V
    let mut cpu = Cpu::new();
    cpu.ccr = 0b00001111;

    cpu.bus.memory[0..2].copy_from_slice(&[0x12, 0x90]);
    cpu.write_rn_w(0, 0b0101_0101_0101_0101).unwrap();
    let opcode = cpu.fetch();
    let state = cpu.exec(opcode).unwrap();
    assert_eq!(state, 2);
    assert_eq!(cpu.ccr, 0b00001000);
    assert_eq!(cpu.read_rn_w(0).unwrap(), 0b1010_1010_1010_1010);

    // check register 0xf
    let mut cpu = Cpu::new();
    cpu.ccr = 0b00001111;

    cpu.bus.memory[0..2].copy_from_slice(&[0x12, 0x9f]);
    cpu.write_rn_w(0xf, 0b0101_0101_0101_0101).unwrap();
    let opcode = cpu.fetch();
    let state = cpu.exec(opcode).unwrap();
    assert_eq!(state, 2);
    assert_eq!(cpu.ccr, 0b00001000);
    assert_eq!(cpu.read_rn_w(0xf).unwrap(), 0b1010_1010_1010_1010);

    // check CCR Z
    let mut cpu = Cpu::new();
    cpu.ccr = 0b00001011;

    cpu.bus.memory[0..2].copy_from_slice(&[0x12, 0x90]);
    cpu.write_rn_w(0, 0).unwrap();
    let opcode = cpu.fetch();
    let state = cpu.exec(opcode).unwrap();
    assert_eq!(state, 2);
    assert_eq!(cpu.ccr, 0b00000100);
    assert_eq!(cpu.read_rn_w(0).unwrap(), 0);

    // check CCR C, velue
    let mut cpu = Cpu::new();
    cpu.ccr = 0b00001110;

    cpu.bus.memory[0..2].copy_from_slice(&[0x12, 0x90]);
    cpu.write_rn_w(0, 0b1010_1010_1010_1010).unwrap();
    let opcode = cpu.fetch();
    let state = cpu.exec(opcode).unwrap();
    assert_eq!(state, 2);
    assert_eq!(cpu.ccr, 0b00000001);
    assert_eq!(cpu.read_rn_w(0).unwrap(), 0b0101_0101_0101_0101);
}

#[test]
fn test_rotl_l() {
    // check CCR N, V
    let mut cpu = Cpu::new();
    cpu.ccr = 0b00001111;

    cpu.bus.memory[0..2].copy_from_slice(&[0x12, 0xb0]);
    cpu.write_rn_l(0, 0b0101_0101_0101_0101_0101_0101_0101_0101)
        .unwrap();
    let opcode = cpu.fetch();
    let state = cpu.exec(opcode).unwrap();
    assert_eq!(state, 2);
    assert_eq!(cpu.ccr, 0b00001000);
    assert_eq!(
        cpu.read_rn_l(0).unwrap(),
        0b1010_1010_1010_1010_1010_1010_1010_1010
    );

    // check register 7
    let mut cpu = Cpu::new();
    cpu.ccr = 0b00001111;

    cpu.bus.memory[0..2].copy_from_slice(&[0x12, 0xb7]);
    cpu.write_rn_l(7, 0b0101_0101_0101_0101_0101_0101_0101_0101)
        .unwrap();
    let opcode = cpu.fetch();
    let state = cpu.exec(opcode).unwrap();
    assert_eq!(state, 2);
    assert_eq!(cpu.ccr, 0b00001000);
    assert_eq!(
        cpu.read_rn_l(7).unwrap(),
        0b1010_1010_1010_1010_1010_1010_1010_1010
    );

    // check CCR Z
    let mut cpu = Cpu::new();
    cpu.ccr = 0b00001011;

    cpu.bus.memory[0..2].copy_from_slice(&[0x12, 0xb0]);
    cpu.write_rn_l(0, 0).unwrap();
    let opcode = cpu.fetch();
    let state = cpu.exec(opcode).unwrap();
    assert_eq!(state, 2);
    assert_eq!(cpu.ccr, 0b00000100);
    assert_eq!(cpu.read_rn_l(0).unwrap(), 0);

    // check CCR C, velue
    let mut cpu = Cpu::new();
    cpu.ccr = 0b00001110;

    cpu.bus.memory[0..2].copy_from_slice(&[0x12, 0xb0]);
    cpu.write_rn_l(0, 0b1010_1010_1010_1010_1010_1010_1010_1010)
        .unwrap();
    let opcode = cpu.fetch();
    let state = cpu.exec(opcode).unwrap();
    assert_eq!(state, 2);
    assert_eq!(cpu.ccr, 0b00000001);
    assert_eq!(
        cpu.read_rn_l(0).unwrap(),
        0b0101_0101_0101_0101_0101_0101_0101_0101
    );
}

// shal
#[test]
fn test_shal_b() {
    let mut cpu = Cpu::new();
    cpu.pc = MEMORY_START_ADDR;
    cpu.ccr = 0b00000111;

    cpu.bus.memory[0..2].copy_from_slice(&[0x10, 0x80]);
    cpu.write_rn_b(0, 0b0101_0101).unwrap();
    let opcode = cpu.fetch();
    let state = cpu.exec(opcode).unwrap();
    assert_eq!(state, 2);
    assert_eq!(cpu.ccr, 0b00001000);
    assert_eq!(cpu.read_rn_b(0).unwrap(), 0b1010_1010);

    let mut cpu = Cpu::new();
    cpu.pc = MEMORY_START_ADDR;
    cpu.ccr = 0b00000111;

    cpu.bus.memory[0..2].copy_from_slice(&[0x10, 0x8f]);
    cpu.write_rn_b(0xf, 0b0101_0101).unwrap();
    let opcode = cpu.fetch();
    let state = cpu.exec(opcode).unwrap();
    assert_eq!(state, 2);
    assert_eq!(cpu.ccr, 0b00001000);
    assert_eq!(cpu.read_rn_b(0xf).unwrap(), 0b1010_1010);

    // check V
    let mut cpu = Cpu::new();
    cpu.pc = MEMORY_START_ADDR;
    cpu.ccr = 0b00001100;

    cpu.bus.memory[0..2].copy_from_slice(&[0x10, 0x80]);
    cpu.write_rn_b(0, 0b1010_1010).unwrap();
    let opcode = cpu.fetch();
    let state = cpu.exec(opcode).unwrap();
    assert_eq!(state, 2);
    assert_eq!(cpu.ccr, 0b00000011);
    assert_eq!(cpu.read_rn_b(0).unwrap(), 0b0101_0100);

    // check CCR C, Z
    let mut cpu = Cpu::new();
    cpu.pc = MEMORY_START_ADDR;
    cpu.ccr = 0b00001000;

    cpu.bus.memory[0..2].copy_from_slice(&[0x10, 0x80]);
    cpu.write_rn_b(0, 0b1000_0000).unwrap();
    let opcode = cpu.fetch();
    let state = cpu.exec(opcode).unwrap();
    assert_eq!(state, 2);
    assert_eq!(cpu.ccr, 0b00000111);
    assert_eq!(cpu.read_rn_b(0).unwrap(), 0);
}

#[test]
fn test_shal_w() {
    let mut cpu = Cpu::new();
    cpu.pc = MEMORY_START_ADDR;
    cpu.ccr = 0b00000111;

    cpu.bus.memory[0..2].copy_from_slice(&[0x10, 0x90]);
    cpu.write_rn_w(0, 0b0101_0101_0101_0101).unwrap();
    let opcode = cpu.fetch();
    let state = cpu.exec(opcode).unwrap();
    assert_eq!(state, 2);
    assert_eq!(cpu.ccr, 0b00001000);
    assert_eq!(cpu.read_rn_w(0).unwrap(), 0b1010_1010_1010_1010);

    let mut cpu = Cpu::new();
    cpu.pc = MEMORY_START_ADDR;
    cpu.ccr = 0b00000111;

    cpu.bus.memory[0..2].copy_from_slice(&[0x10, 0x9f]);
    cpu.write_rn_w(0xf, 0b0101_0101_0101_0101).unwrap();
    let opcode = cpu.fetch();
    let state = cpu.exec(opcode).unwrap();
    assert_eq!(state, 2);
    assert_eq!(cpu.ccr, 0b00001000);
    assert_eq!(cpu.read_rn_w(0xf).unwrap(), 0b1010_1010_1010_1010);

    // check V
    let mut cpu = Cpu::new();
    cpu.pc = MEMORY_START_ADDR;
    cpu.ccr = 0b00001100;

    cpu.bus.memory[0..2].copy_from_slice(&[0x10, 0x90]);
    cpu.write_rn_w(0, 0b1010_1010_1010_1010).unwrap();
    let opcode = cpu.fetch();
    let state = cpu.exec(opcode).unwrap();
    assert_eq!(state, 2);
    assert_eq!(cpu.ccr, 0b00000011);
    assert_eq!(cpu.read_rn_w(0).unwrap(), 0b0101_0101_0101_0100);

    // check CCR C, Z
    let mut cpu = Cpu::new();
    cpu.pc = MEMORY_START_ADDR;
    cpu.ccr = 0b00001000;

    cpu.bus.memory[0..2].copy_from_slice(&[0x10, 0x90]);
    cpu.write_rn_w(0, 0b1000_0000_0000_0000).unwrap();
    let opcode = cpu.fetch();
    let state = cpu.exec(opcode).unwrap();
    assert_eq!(state, 2);
    assert_eq!(cpu.ccr, 0b00000111);
    assert_eq!(cpu.read_rn_w(0).unwrap(), 0);
}

#[test]
fn test_shal_l() {
    let mut cpu = Cpu::new();
    cpu.pc = MEMORY_START_ADDR;
    cpu.ccr = 0b00000111;

    cpu.bus.memory[0..2].copy_from_slice(&[0x10, 0xb0]);
    cpu.write_rn_l(0, 0b0101_0101_0101_0101_0101_0101_0101_0101)
        .unwrap();
    let opcode = cpu.fetch();
    let state = cpu.exec(opcode).unwrap();
    assert_eq!(state, 2);
    assert_eq!(cpu.ccr, 0b00001000);
    assert_eq!(
        cpu.read_rn_l(0).unwrap(),
        0b1010_1010_1010_1010_1010_1010_1010_1010
    );

    let mut cpu = Cpu::new();
    cpu.pc = MEMORY_START_ADDR;
    cpu.ccr = 0b00000111;

    cpu.bus.memory[0..2].copy_from_slice(&[0x10, 0xb7]);
    cpu.write_rn_l(7, 0b0101_0101_0101_0101_0101_0101_0101_0101)
        .unwrap();
    let opcode = cpu.fetch();
    let state = cpu.exec(opcode).unwrap();
    assert_eq!(state, 2);
    assert_eq!(cpu.ccr, 0b00001000);
    assert_eq!(
        cpu.read_rn_l(7).unwrap(),
        0b1010_1010_1010_1010_1010_1010_1010_1010
    );

    // check V
    let mut cpu = Cpu::new();
    cpu.pc = MEMORY_START_ADDR;
    cpu.ccr = 0b00001100;

    cpu.bus.memory[0..2].copy_from_slice(&[0x10, 0xb0]);
    cpu.write_rn_l(0, 0b1010_1010_1010_1010_1010_1010_1010_1010)
        .unwrap();
    let opcode = cpu.fetch();
    let state = cpu.exec(opcode).unwrap();
    assert_eq!(state, 2);
    assert_eq!(cpu.ccr, 0b00000011);
    assert_eq!(
        cpu.read_rn_l(0).unwrap(),
        0b0101_0101_0101_0101_0101_0101_0101_0100
    );

    // check CCR C, Z
    let mut cpu = Cpu::new();
    cpu.pc = MEMORY_START_ADDR;
    cpu.ccr = 0b00001000;

    cpu.bus.memory[0..2].copy_from_slice(&[0x10, 0xb0]);
    cpu.write_rn_l(0, 0b1000_0000_0000_0000_0000_0000_0000_0000)
        .unwrap();
    let opcode = cpu.fetch();
    let state = cpu.exec(opcode).unwrap();
    assert_eq!(state, 2);
    assert_eq!(cpu.ccr, 0b00000111);
    assert_eq!(cpu.read_rn_l(0).unwrap(), 0);
}

// subs
#[test]
fn test_subs1() {
    let mut cpu = Cpu::new();
    cpu.bus.memory[0..2].copy_from_slice(&[0x1b, 0x00]);
    cpu.write_rn_l(0, 10).unwrap();
    let opcode = cpu.fetch();
    let state = cpu.exec(opcode).unwrap();
    assert_eq!(state, 2);
    assert_eq!(cpu.ccr, 0);
    assert_eq!(cpu.read_rn_l(0).unwrap(), 9);

    // register 7
    let mut cpu = Cpu::new();
    cpu.bus.memory[0..2].copy_from_slice(&[0x1b, 0x07]);
    cpu.write_rn_l(7, 10).unwrap();
    let opcode = cpu.fetch();
    let state = cpu.exec(opcode).unwrap();
    assert_eq!(state, 2);
    assert_eq!(cpu.ccr, 0);
    assert_eq!(cpu.read_rn_l(7).unwrap(), 9);

    // overflow
    let mut cpu = Cpu::new();
    cpu.bus.memory[0..2].copy_from_slice(&[0x1b, 0x00]);
    cpu.write_rn_l(0, std::i32::MIN as u32).unwrap();
    let opcode = cpu.fetch();
    let state = cpu.exec(opcode).unwrap();
    assert_eq!(state, 2);
    assert_eq!(cpu.ccr, 0);
    assert_eq!(cpu.read_rn_l(0).unwrap(), std::i32::MAX as u32);

    // overflow2
    let mut cpu = Cpu::new();
    cpu.bus.memory[0..2].copy_from_slice(&[0x1b, 0x00]);
    cpu.write_rn_l(0, std::u32::MIN).unwrap();
    let opcode = cpu.fetch();
    let state = cpu.exec(opcode).unwrap();
    assert_eq!(state, 2);
    assert_eq!(cpu.ccr, 0);
    assert_eq!(cpu.read_rn_l(0).unwrap(), std::u32::MAX);

    // u32 MAX - 1
    let mut cpu = Cpu::new();
    cpu.bus.memory[0..2].copy_from_slice(&[0x1b, 0x00]);
    cpu.write_rn_l(0, std::u32::MAX).unwrap();
    let opcode = cpu.fetch();
    let state = cpu.exec(opcode).unwrap();
    assert_eq!(state, 2);
    assert_eq!(cpu.ccr, 0);
    assert_eq!(cpu.read_rn_l(0).unwrap(), std::u32::MAX - 1);

    // 0 - 1
    let mut cpu = Cpu::new();
    cpu.bus.memory[0..2].copy_from_slice(&[0x1b, 0x00]);
    cpu.write_rn_l(0, 0).unwrap();
    let opcode = cpu.fetch();
    let state = cpu.exec(opcode).unwrap();
    assert_eq!(state, 2);
    assert_eq!(cpu.ccr, 0);
    assert_eq!(cpu.read_rn_l(0).unwrap(), -1i32 as u32);
}

#[test]
fn test_subs2() {
    let mut cpu = Cpu::new();
    cpu.bus.memory[0..2].copy_from_slice(&[0x1b, 0x80]);
    cpu.write_rn_l(0, 10).unwrap();
    let opcode = cpu.fetch();
    let state = cpu.exec(opcode).unwrap();
    assert_eq!(state, 2);
    assert_eq!(cpu.ccr, 0);
    assert_eq!(cpu.read_rn_l(0).unwrap(), 8);

    // register 7
    let mut cpu = Cpu::new();
    cpu.bus.memory[0..2].copy_from_slice(&[0x1b, 0x87]);
    cpu.write_rn_l(7, 10).unwrap();
    let opcode = cpu.fetch();
    let state = cpu.exec(opcode).unwrap();
    assert_eq!(state, 2);
    assert_eq!(cpu.ccr, 0);
    assert_eq!(cpu.read_rn_l(7).unwrap(), 8);

    // overflow
    let mut cpu = Cpu::new();
    cpu.bus.memory[0..2].copy_from_slice(&[0x1b, 0x80]);
    cpu.write_rn_l(0, std::i32::MIN as u32).unwrap();
    let opcode = cpu.fetch();
    let state = cpu.exec(opcode).unwrap();
    assert_eq!(state, 2);
    assert_eq!(cpu.ccr, 0);
    assert_eq!(cpu.read_rn_l(0).unwrap(), std::i32::MAX as u32 - 1);

    // u32 MAX - 1
    let mut cpu = Cpu::new();
    cpu.bus.memory[0..2].copy_from_slice(&[0x1b, 0x80]);
    cpu.write_rn_l(0, std::u32::MAX).unwrap();
    let opcode = cpu.fetch();
    let state = cpu.exec(opcode).unwrap();
    assert_eq!(state, 2);
    assert_eq!(cpu.ccr, 0);
    assert_eq!(cpu.read_rn_l(0).unwrap(), std::u32::MAX - 2);

    // 0 - 1
    let mut cpu = Cpu::new();
    cpu.bus.memory[0..2].copy_from_slice(&[0x1b, 0x80]);
    cpu.write_rn_l(0, 0).unwrap();
    let opcode = cpu.fetch();
    let state = cpu.exec(opcode).unwrap();
    assert_eq!(state, 2);
    assert_eq!(cpu.ccr, 0);
    assert_eq!(cpu.read_rn_l(0).unwrap(), -2i32 as u32);
}

#[test]
fn test_subs4() {
    let mut cpu = Cpu::new();
    cpu.bus.memory[0..2].copy_from_slice(&[0x1b, 0x90]);
    cpu.write_rn_l(0, 10).unwrap();
    let opcode = cpu.fetch();
    let state = cpu.exec(opcode).unwrap();
    assert_eq!(state, 2);
    assert_eq!(cpu.ccr, 0);
    assert_eq!(cpu.read_rn_l(0).unwrap(), 6);

    // register 7
    let mut cpu = Cpu::new();
    cpu.bus.memory[0..2].copy_from_slice(&[0x1b, 0x97]);
    cpu.write_rn_l(7, 10).unwrap();
    let opcode = cpu.fetch();
    let state = cpu.exec(opcode).unwrap();
    assert_eq!(state, 2);
    assert_eq!(cpu.ccr, 0);
    assert_eq!(cpu.read_rn_l(7).unwrap(), 6);

    // overflow
    let mut cpu = Cpu::new();
    cpu.bus.memory[0..2].copy_from_slice(&[0x1b, 0x90]);
    cpu.write_rn_l(0, std::i32::MIN as u32).unwrap();
    let opcode = cpu.fetch();
    let state = cpu.exec(opcode).unwrap();
    assert_eq!(state, 2);
    assert_eq!(cpu.ccr, 0);
    assert_eq!(cpu.read_rn_l(0).unwrap(), std::i32::MAX as u32 - 3);

    // u32 MAX - 1
    let mut cpu = Cpu::new();
    cpu.bus.memory[0..2].copy_from_slice(&[0x1b, 0x90]);
    cpu.write_rn_l(0, std::u32::MAX).unwrap();
    let opcode = cpu.fetch();
    let state = cpu.exec(opcode).unwrap();
    assert_eq!(state, 2);
    assert_eq!(cpu.ccr, 0);
    assert_eq!(cpu.read_rn_l(0).unwrap(), std::u32::MAX - 4);

    // 0 - 1
    let mut cpu = Cpu::new();
    cpu.bus.memory[0..2].copy_from_slice(&[0x1b, 0x90]);
    cpu.write_rn_l(0, 0).unwrap();
    let opcode = cpu.fetch();
    let state = cpu.exec(opcode).unwrap();
    assert_eq!(state, 2);
    assert_eq!(cpu.ccr, 0);
    assert_eq!(cpu.read_rn_l(0).unwrap(), -4i32 as u32);
}

// xor
#[test]
fn test_xor_b_imm() {
    let mut cpu = Cpu::new();
    cpu.ccr = 0b00000111;
    cpu.bus.memory[0..2].copy_from_slice(&[0xd0, 0x7a]);
    cpu.write_rn_b(0, 0xaf).unwrap();
    let opcode = cpu.fetch();
    let state = cpu.exec(opcode).unwrap();
    assert_eq!(state, 2);
    assert_eq!(cpu.ccr & 0b00001110, 0b00001000);
    assert_eq!(cpu.read_rn_b(0).unwrap(), 0xd5);

    let mut cpu = Cpu::new();
    cpu.ccr = 0b00000111;
    cpu.pc = MEMORY_START_ADDR;
    cpu.bus.memory[0..2].copy_from_slice(&[0xdf, 0x7a]);
    cpu.write_rn_b(0xf, 0xaf).unwrap();
    let opcode = cpu.fetch();
    let state = cpu.exec(opcode).unwrap();
    assert_eq!(state, 2);
    assert_eq!(cpu.ccr & 0b00001110, 0b00001000);
    assert_eq!(cpu.read_rn_b(0xf).unwrap(), 0xd5);

    // check zero
    let mut cpu = Cpu::new();
    cpu.ccr = 0b000001011;
    cpu.pc = MEMORY_START_ADDR;
    cpu.bus.memory[0..2].copy_from_slice(&[0xd0, 0x55]);
    cpu.write_rn_b(0, 0x55).unwrap();
    let opcode = cpu.fetch();
    cpu.exec(opcode).unwrap();
    assert_eq!(cpu.ccr & 0b00001110, 0b00000100);
    assert_eq!(cpu.read_rn_b(0).unwrap(), 0);
}

#[test]
fn test_xor_b_rn() {
    let mut cpu = Cpu::new();
    cpu.ccr = 0b00000111;
    cpu.bus.memory[0..2].copy_from_slice(&[0x15, 0x0f]);
    cpu.write_rn_b(0, 0xaf).unwrap();
    cpu.write_rn_b(0xf, 0x7a).unwrap();
    let opcode = cpu.fetch();
    let state = cpu.exec(opcode).unwrap();
    assert_eq!(state, 2);
    assert_eq!(cpu.ccr & 0b00001110, 0b00001000);
    // check result
    assert_eq!(cpu.read_rn_b(0xf).unwrap(), 0xd5);
    // check no change
    assert_eq!(cpu.read_rn_b(0).unwrap(), 0xaf);

    let mut cpu = Cpu::new();
    cpu.ccr = 0b00000111;
    cpu.pc = MEMORY_START_ADDR;
    cpu.bus.memory[0..2].copy_from_slice(&[0x15, 0xf0]);
    cpu.write_rn_b(0xf, 0xaf).unwrap();
    cpu.write_rn_b(0, 0x7a).unwrap();
    let opcode = cpu.fetch();
    let state = cpu.exec(opcode).unwrap();
    assert_eq!(state, 2);
    assert_eq!(cpu.ccr & 0b00001110, 0b00001000);
    // check result
    assert_eq!(cpu.read_rn_b(0).unwrap(), 0xd5);
    // check no change
    assert_eq!(cpu.read_rn_b(0xf).unwrap(), 0xaf);

    // check zero
    let mut cpu = Cpu::new();
    cpu.ccr = 0b000001011;
    cpu.pc = MEMORY_START_ADDR;
    cpu.bus.memory[0..2].copy_from_slice(&[0x15, 0x0f]);
    cpu.write_rn_b(0xf, 0x55).unwrap();
    cpu.write_rn_b(0, 0x55).unwrap();
    let opcode = cpu.fetch();
    cpu.exec(opcode).unwrap();
    assert_eq!(cpu.ccr & 0b00001110, 0b00000100);
    assert_eq!(cpu.read_rn_b(0xf).unwrap(), 0);
}

#[test]
fn test_xor_w_imm() {
    let mut cpu = Cpu::new();
    cpu.ccr = 0b00000111;
    cpu.bus.memory[0..4].copy_from_slice(&[0x79, 0x50, 0x7a, 0x69]);
    cpu.write_rn_w(0, 0xaf9e).unwrap();
    let opcode = cpu.fetch();
    let state = cpu.exec(opcode).unwrap();
    assert_eq!(state, 4);
    assert_eq!(cpu.ccr & 0b00001110, 0b00001000);
    assert_eq!(cpu.read_rn_w(0).unwrap(), 0xd5f7);

    let mut cpu = Cpu::new();
    cpu.ccr = 0b00000111;
    cpu.pc = MEMORY_START_ADDR;
    cpu.bus.memory[0..4].copy_from_slice(&[0x79, 0x5f, 0x7a, 0x69]);
    cpu.write_rn_w(0xf, 0xaf9e).unwrap();
    let opcode = cpu.fetch();
    let state = cpu.exec(opcode).unwrap();
    assert_eq!(state, 4);
    assert_eq!(cpu.ccr & 0b00001110, 0b00001000);
    assert_eq!(cpu.read_rn_w(0xf).unwrap(), 0xd5f7);

    // check zero
    let mut cpu = Cpu::new();
    cpu.ccr = 0b000001011;
    cpu.pc = MEMORY_START_ADDR;
    cpu.bus.memory[0..4].copy_from_slice(&[0x79, 0x50, 0x55, 0x66]);
    cpu.write_rn_w(0, 0x5566).unwrap();
    let opcode = cpu.fetch();
    cpu.exec(opcode).unwrap();
    assert_eq!(cpu.ccr & 0b00001110, 0b00000100);
    assert_eq!(cpu.read_rn_w(0).unwrap(), 0);
}

#[test]
fn test_xor_w_rn() {
    let mut cpu = Cpu::new();
    cpu.ccr = 0b00000111;
    cpu.bus.memory[0..2].copy_from_slice(&[0x65, 0x0f]);
    cpu.write_rn_w(0, 0x7a69).unwrap();
    cpu.write_rn_w(0xf, 0xaf9e).unwrap();
    let opcode = cpu.fetch();
    let state = cpu.exec(opcode).unwrap();
    assert_eq!(state, 2);
    assert_eq!(cpu.ccr & 0b00001110, 0b00001000);
    // check result
    assert_eq!(cpu.read_rn_w(0xf).unwrap(), 0xd5f7);
    // check no change
    assert_eq!(cpu.read_rn_w(0).unwrap(), 0x7a69);

    let mut cpu = Cpu::new();
    cpu.ccr = 0b00000111;
    cpu.pc = MEMORY_START_ADDR;
    cpu.bus.memory[0..2].copy_from_slice(&[0x65, 0xf0]);
    cpu.write_rn_w(0xf, 0x7a69).unwrap();
    cpu.write_rn_w(0, 0xaf9e).unwrap();
    let opcode = cpu.fetch();
    let state = cpu.exec(opcode).unwrap();
    assert_eq!(state, 2);
    assert_eq!(cpu.ccr & 0b00001110, 0b00001000);
    // check result
    assert_eq!(cpu.read_rn_w(0).unwrap(), 0xd5f7);
    // check no change
    assert_eq!(cpu.read_rn_w(0xf).unwrap(), 0x7a69);

    // check zero
    let mut cpu = Cpu::new();
    cpu.ccr = 0b000001011;
    cpu.pc = MEMORY_START_ADDR;
    cpu.bus.memory[0..2].copy_from_slice(&[0x65, 0x0f]);
    cpu.write_rn_w(0xf, 0x5566).unwrap();
    cpu.write_rn_w(0, 0x5566).unwrap();
    let opcode = cpu.fetch();
    cpu.exec(opcode).unwrap();
    assert_eq!(cpu.ccr & 0b00001110, 0b00000100);
    assert_eq!(cpu.read_rn_w(0xf).unwrap(), 0);
}

#[test]
fn test_xor_l_imm() {
    let mut cpu = Cpu::new();
    cpu.ccr = 0b00000111;
    cpu.bus.memory[0..6].copy_from_slice(&[0x7a, 0x50, 0x7a, 0x69, 0x58, 0x47]);
    cpu.write_rn_l(0, 0xaf9e8d7c).unwrap();
    let opcode = cpu.fetch();
    let state = cpu.exec(opcode).unwrap();
    assert_eq!(state, 6);
    assert_eq!(cpu.ccr & 0b00001110, 0b00001000);
    assert_eq!(cpu.read_rn_l(0).unwrap(), 0xd5f7d53b);

    let mut cpu = Cpu::new();
    cpu.ccr = 0b00000111;
    cpu.pc = MEMORY_START_ADDR;
    cpu.bus.memory[0..6].copy_from_slice(&[0x7a, 0x57, 0x7a, 0x69, 0x58, 0x47]);
    cpu.write_rn_l(0x7, 0xaf9e8d7c).unwrap();
    let opcode = cpu.fetch();
    let state = cpu.exec(opcode).unwrap();
    assert_eq!(state, 6);
    assert_eq!(cpu.ccr & 0b00001110, 0b00001000);
    assert_eq!(cpu.read_rn_l(0x7).unwrap(), 0xd5f7d53b);

    // check zero
    let mut cpu = Cpu::new();
    cpu.ccr = 0b000001011;
    cpu.pc = MEMORY_START_ADDR;
    cpu.bus.memory[0..6].copy_from_slice(&[0x7a, 0x50, 0x55, 0x66, 0x77, 0x88]);
    cpu.write_rn_l(0, 0x55667788).unwrap();
    let opcode = cpu.fetch();
    cpu.exec(opcode).unwrap();
    assert_eq!(cpu.ccr & 0b00001110, 0b00000100);
    assert_eq!(cpu.read_rn_l(0).unwrap(), 0);
}

#[test]
fn test_xor_l_rn() {
    let mut cpu = Cpu::new();
    cpu.ccr = 0b00000111;
    cpu.bus.memory[0..4].copy_from_slice(&[0x01, 0xf0, 0x65, 0x07]);
    cpu.write_rn_l(0, 0x7a695847).unwrap();
    cpu.write_rn_l(7, 0xaf9e8d7c).unwrap();
    let opcode = cpu.fetch();
    let state = cpu.exec(opcode).unwrap();
    assert_eq!(state, 4);
    assert_eq!(cpu.ccr & 0b00001110, 0b00001000);
    // check result
    assert_eq!(cpu.read_rn_l(7).unwrap(), 0xd5f7d53b);
    // check no change
    assert_eq!(cpu.read_rn_l(0).unwrap(), 0x7a695847);

    let mut cpu = Cpu::new();
    cpu.ccr = 0b00000111;
    cpu.pc = MEMORY_START_ADDR;
    cpu.bus.memory[0..4].copy_from_slice(&[0x01, 0xf0, 0x65, 0x70]);
    cpu.write_rn_l(7, 0x7a695847).unwrap();
    cpu.write_rn_l(0, 0xaf9e8d7c).unwrap();
    let opcode = cpu.fetch();
    let state = cpu.exec(opcode).unwrap();
    assert_eq!(state, 4);
    assert_eq!(cpu.ccr & 0b00001110, 0b00001000);
    // check result
    assert_eq!(cpu.read_rn_l(0).unwrap(), 0xd5f7d53b);
    // check no change
    assert_eq!(cpu.read_rn_l(7).unwrap(), 0x7a695847);

    // check zero
    let mut cpu = Cpu::new();
    cpu.ccr = 0b000001011;
    cpu.pc = MEMORY_START_ADDR;
    cpu.bus.memory[0..4].copy_from_slice(&[0x01, 0xf0, 0x65, 0x70]);
    cpu.write_rn_l(7, 0x55667788).unwrap();
    cpu.write_rn_l(0, 0x55667788).unwrap();
    let opcode = cpu.fetch();
    cpu.exec(opcode).unwrap();
    assert_eq!(cpu.ccr & 0b00001110, 0b00000100);
    assert_eq!(cpu.read_rn_l(0).unwrap(), 0);
}
