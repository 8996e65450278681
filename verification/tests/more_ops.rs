use ps1core::cpu::{Cpu, ExceptionType};

// An unaligned SH raises a store address error with the address latched.
#[test]
fn sh_unaligned_faults() {
    let mut cpu = Cpu::new();
    cpu.registers.write(1, 0x2001);
    cpu.registers.program_counter = 0x1000;
    cpu.bus.mem_write_word(0x1000, 0xA4220000).unwrap(); // SH R2, 0(R1)
    cpu.step_instruction();
    assert_eq!((cpu.cop0.cause.0 >> 2) & 0x1F, 5); // AddressErrorStore
    assert_eq!(cpu.cop0.badvaddr, 0x2001);
}

// SH stores the low halfword; LH sign-extends it back, LHU does not.
#[test]
fn sh_lh_lhu_roundtrip() {
    let mut cpu = Cpu::new();
    cpu.registers.write(1, 0x2000);
    cpu.registers.write(2, 0x1234FEDC);
    cpu.execute_opcode(0xA4220000).unwrap(); // SH R2, 0(R1)
    cpu.execute_opcode(0x84230000).unwrap(); // LH R3, 0(R1)
    assert_eq!(cpu.registers.read(3), 0xFFFFFEDC);
    cpu.execute_opcode(0x94230000).unwrap(); // LHU R3, 0(R1)
    assert_eq!(cpu.registers.read(3), 0xFEDC);
}

// SW and LW round a word through memory, CPU-side.
#[test]
fn sw_lw_roundtrip() {
    let mut cpu = Cpu::new();
    cpu.registers.write(1, 0x2000);
    cpu.registers.write(2, 0xCAFEBABE);
    cpu.execute_opcode(0xAC220000).unwrap(); // SW R2, 0(R1)
    cpu.execute_opcode(0x8C230000).unwrap(); // LW R3, 0(R1)
    assert_eq!(cpu.registers.read(3), 0xCAFEBABE);
}

// SB stores only the low byte.
#[test]
fn sb_stores_low_byte() {
    let mut cpu = Cpu::new();
    cpu.registers.write(1, 0x2000);
    cpu.registers.write(2, 0x11223344);
    cpu.execute_opcode(0xA0220000).unwrap(); // SB R2, 0(R1)
    assert_eq!(cpu.bus.mem_read_byte(0x2000).unwrap(), 0x44);
}

// BLEZ branches on zero or negative; BGTZ on strictly positive.
#[test]
fn blez_and_bgtz() {
    let mut cpu = Cpu::new();
    cpu.registers.program_counter = 0x1000;

    cpu.registers.write(1, 0);
    cpu.execute_opcode(0x18200004).unwrap(); // BLEZ R1, +4
    assert_eq!(cpu.registers.delayed_branch, Some(0x1014));

    cpu.registers.delayed_branch = None;
    cpu.registers.write(1, 1);
    cpu.execute_opcode(0x18200004).unwrap(); // BLEZ not taken
    assert_eq!(cpu.registers.delayed_branch, None);
    cpu.execute_opcode(0x1C200004).unwrap(); // BGTZ R1, +4
    assert_eq!(cpu.registers.delayed_branch, Some(0x1014));

    cpu.registers.delayed_branch = None;
    cpu.registers.write(1, 0x80000000);
    cpu.execute_opcode(0x1C200004).unwrap(); // BGTZ not taken on negative
    assert_eq!(cpu.registers.delayed_branch, None);
}

// BNE branches exactly when the registers differ.
#[test]
fn bne_branches_on_difference() {
    let mut cpu = Cpu::new();
    cpu.registers.program_counter = 0x1000;
    cpu.registers.write(1, 7);
    cpu.execute_opcode(0x14200002).unwrap(); // BNE R1, R0, +2
    assert_eq!(cpu.registers.delayed_branch, Some(0x100C));
}

// SUB traps on signed overflow; SUBU wraps.
#[test]
fn sub_overflow_vs_subu() {
    let mut cpu = Cpu::new();
    cpu.registers.write(1, 0x80000000);
    cpu.registers.write(2, 1);
    assert_eq!(
        cpu.execute_opcode(0x00221822), // SUB R3, R1, R2
        Err(ExceptionType::ArithmeticOverflow)
    );
    assert_eq!(cpu.registers.read(3), 0); // destination untouched
    cpu.execute_opcode(0x00221823).unwrap(); // SUBU R3, R1, R2
    assert_eq!(cpu.registers.read(3), 0x7FFFFFFF);
}

// The HI/LO pair moves through MTHI, MTLO, MFHI and MFLO.
#[test]
fn hi_lo_moves() {
    let mut cpu = Cpu::new();
    cpu.registers.write(1, 0xAAAA);
    cpu.registers.write(2, 0xBBBB);
    cpu.execute_opcode(0x00200011).unwrap(); // MTHI R1
    cpu.execute_opcode(0x00400013).unwrap(); // MTLO R2
    cpu.execute_opcode(0x00001810).unwrap(); // MFHI R3
    cpu.execute_opcode(0x00002012).unwrap(); // MFLO R4
    assert_eq!(cpu.registers.read(3), 0xAAAA);
    assert_eq!(cpu.registers.read(4), 0xBBBB);
}

// JR schedules an aligned register target into the delay slot.
#[test]
fn jr_aligned_jumps() {
    let mut cpu = Cpu::new();
    cpu.registers.write(1, 0x3000);
    cpu.execute_opcode(0x00200008).unwrap(); // JR R1
    assert_eq!(cpu.registers.delayed_branch, Some(0x3000));
}

// J keeps the PC's top nibble, also in the BIOS mirror.
#[test]
fn j_keeps_page() {
    let mut cpu = Cpu::new();
    cpu.registers.program_counter = 0xBFC00000;
    cpu.bus.mem_write_word(0xBFC00000, 0x08000800).unwrap(); // J 0x800 words
    cpu.bus.mem_write_word(0xBFC00004, 0x00000000).unwrap();
    cpu.step_instruction();
    cpu.step_instruction();
    assert_eq!(cpu.registers.program_counter, 0xB0002000);
}

// GTE (COP2) instructions are accepted without effect in this stub.
#[test]
fn cop2_stubbed() {
    let mut cpu = Cpu::new();
    assert_eq!(cpu.execute_opcode(0x4A000000), Ok(()));
    assert_eq!(cpu.execute_opcode(0xC8000000), Ok(())); // LWC2
}

// NOR, XOR, OR and AND on register operands.
#[test]
fn bitwise_ops() {
    let mut cpu = Cpu::new();
    cpu.registers.write(1, 0xF0F0F0F0);
    cpu.registers.write(2, 0x0FF00FF0);
    cpu.execute_opcode(0x00221824).unwrap(); // AND R3
    assert_eq!(cpu.registers.read(3), 0x00F000F0);
    cpu.execute_opcode(0x00221825).unwrap(); // OR R3
    assert_eq!(cpu.registers.read(3), 0xFFF0FFF0);
    cpu.execute_opcode(0x00221826).unwrap(); // XOR R3
    assert_eq!(cpu.registers.read(3), 0xFF00FF00);
    cpu.execute_opcode(0x00221827).unwrap(); // NOR R3
    assert_eq!(cpu.registers.read(3), 0x000F000F);
}

// SLTI compares signed, SLTIU compares the sign-extended immediate
// unsigned.
#[test]
fn slti_vs_sltiu() {
    let mut cpu = Cpu::new();
    cpu.registers.write(1, 5);
    cpu.execute_opcode(0x2822FFFF).unwrap(); // SLTI R2, R1, -1
    assert_eq!(cpu.registers.read(2), 0);
    cpu.execute_opcode(0x2C22FFFF).unwrap(); // SLTIU R2, R1, 0xFFFFFFFF
    assert_eq!(cpu.registers.read(2), 1);
}

// Every step charges two cycles: timers and the GPU counter advance.
#[test]
fn step_charges_two_cycles() {
    let mut cpu = Cpu::new();
    cpu.registers.program_counter = 0x1000;
    cpu.bus.mem_write_word(0x1000, 0x00000000).unwrap(); // NOP
    cpu.step_instruction();
    assert_eq!(cpu.bus.timer0.counter, 2);
    assert_eq!(cpu.bus.gpu.counter, 2);
}

// A timer counter accepts MMIO byte writes per lane.
#[test]
fn timer_counter_byte_write() {
    let mut cpu = Cpu::new();
    cpu.bus.mem_write_byte(0x1F801100, 0x34).unwrap();
    cpu.bus.mem_write_byte(0x1F801101, 0x12).unwrap();
    assert_eq!(cpu.bus.timer0.counter, 0x1234);
}
