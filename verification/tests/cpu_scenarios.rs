use ps1core::cpu::{Cpu, ExceptionType};

// ADDU with wrap-around: no exception, the sum truncates.
#[test]
fn addu_no_overflow() {
    let mut cpu = Cpu::new();
    cpu.registers.write(1, 0xFFFFFFFF);
    cpu.registers.program_counter = 0x1000;
    cpu.bus.mem_write_word(0x1000, 0x00211021).unwrap(); // ADDU R2, R1, R1
    cpu.step_instruction();
    assert_eq!(cpu.registers.read(2), 0xFFFFFFFE);
    assert_eq!(cpu.registers.program_counter, 0x1004);
    // no exception: the cause register still holds no code
    assert_eq!(cpu.cop0.cause.0 & 0x7C, 0);
}

// ADDI overflowing a positive maximum: ArithmeticOverflow, destination
// untouched, EPC at the faulting instruction, interrupts off.
#[test]
fn add_overflow_traps() {
    let mut cpu = Cpu::new();
    cpu.registers.write(1, 0x7FFFFFFF);
    cpu.registers.program_counter = 0x1000;
    cpu.bus.mem_write_word(0x1000, 0x20220001).unwrap(); // ADDI R2, R1, 1
    cpu.step_instruction();
    assert_eq!(cpu.registers.read(2), 0); // unchanged
    assert_eq!((cpu.cop0.cause.0 >> 2) & 0x1F, 0xC);
    assert_eq!(cpu.cop0.epc, 0x1000);
    assert_eq!(cpu.cop0.sr.0 & 1, 0); // IEc off
    assert_eq!(cpu.registers.program_counter, 0x80000080);
}

// A taken branch executes its delay slot before control transfers.
#[test]
fn branch_delay_slot() {
    let mut cpu = Cpu::new();
    cpu.registers.program_counter = 0x1000;
    cpu.bus.mem_write_word(0x1000, 0x10000002).unwrap(); // BEQ R0, R0, +2
    cpu.bus.mem_write_word(0x1004, 0x24010042).unwrap(); // ADDIU R1, R0, 0x42
    cpu.step_instruction();
    assert_eq!(cpu.registers.program_counter, 0x1004);
    cpu.step_instruction();
    assert_eq!(cpu.registers.program_counter, 0x100C);
    assert_eq!(cpu.registers.read(1), 0x42);
}

// An unaligned LW faults with the effective address in BadVaddr.
#[test]
fn unaligned_lw_faults() {
    let mut cpu = Cpu::new();
    cpu.registers.write(1, 0x100001);
    cpu.registers.program_counter = 0x1000;
    cpu.bus.mem_write_word(0x1000, 0x8C220000).unwrap(); // LW R2, 0(R1)
    cpu.step_instruction();
    assert_eq!((cpu.cop0.cause.0 >> 2) & 0x1F, 4); // AddressErrorLoad
    assert_eq!(cpu.cop0.badvaddr, 0x100001);
    assert_eq!(cpu.registers.program_counter, 0x80000080);
}

// An exception raised in a branch-delay slot sets BD and points EPC at
// the branch, which will re-execute.
#[test]
fn exception_in_delay_slot_sets_bd() {
    let mut cpu = Cpu::new();
    cpu.registers.write(1, 0x7FFFFFFF);
    cpu.registers.program_counter = 0x1000;
    cpu.bus.mem_write_word(0x1000, 0x10000002).unwrap(); // BEQ R0, R0, +2
    cpu.bus.mem_write_word(0x1004, 0x20220001).unwrap(); // ADDI R2, R1, 1 (overflows)
    cpu.step_instruction();
    cpu.step_instruction();
    assert_ne!(cpu.cop0.cause.0 & 0x80000000, 0); // BD set
    assert_eq!(cpu.cop0.epc, 0x1000); // the branch, not the slot
    assert!(cpu.registers.delayed_branch.is_none());
}

// Writes to R0 are ignored: it always reads zero.
#[test]
fn r0_reads_zero_after_write() {
    let mut cpu = Cpu::new();
    cpu.registers.write(0, 0xDEAD);
    assert_eq!(cpu.registers.read(0), 0);
}

// JR to an unaligned target raises an address error carrying the target.
#[test]
fn jr_unaligned_target_faults() {
    let mut cpu = Cpu::new();
    cpu.registers.write(1, 0x1001);
    assert_eq!(
        cpu.execute_opcode(0x00200008), // JR R1
        Err(ExceptionType::AddressErrorLoad(0x1001))
    );
    assert!(cpu.registers.delayed_branch.is_none());
}

// JAL links R31 past the delay slot and jumps within the 256 MiB page.
#[test]
fn jal_links_and_jumps() {
    let mut cpu = Cpu::new();
    cpu.registers.program_counter = 0x1000;
    cpu.bus.mem_write_word(0x1000, 0x0C000800).unwrap(); // JAL 0x800 -> 0x2000
    cpu.bus.mem_write_word(0x1004, 0x00000000).unwrap(); // NOP in the slot
    cpu.step_instruction();
    cpu.step_instruction();
    assert_eq!(cpu.registers.read(31), 0x1008);
    assert_eq!(cpu.registers.program_counter, 0x2000);
}

// BGEZAL writes the link register before comparing, so testing R31
// itself compares the fresh link value.
#[test]
fn bgezal_links_unconditionally() {
    let mut cpu = Cpu::new();
    cpu.registers.write(1, 0x80000000); // negative: branch not taken
    cpu.registers.program_counter = 0x1000;
    // BGEZAL R1, +4: opcode 1, rs 1, rt 0b10001
    let op = (1 << 26) | (1 << 21) | (0x11 << 16) | 0x0004;
    cpu.execute_opcode(op).unwrap();
    assert_eq!(cpu.registers.read(31), 0x1008);
    assert!(cpu.registers.delayed_branch.is_none());
}

// Signed division truncates toward zero; the remainder takes the
// dividend's sign.
#[test]
fn div_truncates() {
    let mut cpu = Cpu::new();
    cpu.registers.write(1, (-7i32) as u32);
    cpu.registers.write(2, 2);
    cpu.execute_opcode(0x0022001A).unwrap(); // DIV R1, R2
    assert_eq!(cpu.registers.lo, (-3i32) as u32);
    assert_eq!(cpu.registers.hi, (-1i32) as u32);
}

// Division by zero yields the architectural defaults.
#[test]
fn div_by_zero_defaults() {
    let mut cpu = Cpu::new();
    cpu.registers.write(1, (-5i32) as u32);
    cpu.registers.write(2, 0);
    cpu.execute_opcode(0x0022001A).unwrap(); // DIV R1, R2
    assert_eq!(cpu.registers.lo, 1);
    assert_eq!(cpu.registers.hi, (-5i32) as u32);

    cpu.registers.write(1, 5);
    cpu.execute_opcode(0x0022001A).unwrap();
    assert_eq!(cpu.registers.lo, 0xFFFFFFFF);
    assert_eq!(cpu.registers.hi, 5);
}

// The most negative dividend divided by minus one wraps to itself.
#[test]
fn div_min_by_minus_one() {
    let mut cpu = Cpu::new();
    cpu.registers.write(1, 0x80000000);
    cpu.registers.write(2, 0xFFFFFFFF);
    cpu.execute_opcode(0x0022001A).unwrap(); // DIV R1, R2
    assert_eq!(cpu.registers.lo, 0x80000000);
    assert_eq!(cpu.registers.hi, 0);
}

#[test]
fn divu_by_zero_defaults() {
    let mut cpu = Cpu::new();
    cpu.registers.write(1, 5);
    cpu.registers.write(2, 0);
    cpu.execute_opcode(0x0022001B).unwrap(); // DIVU R1, R2
    assert_eq!(cpu.registers.lo, 0xFFFFFFFF);
    assert_eq!(cpu.registers.hi, 5);
}

// MULT forms the full signed 64-bit product in HI:LO.
#[test]
fn mult_signed_product() {
    let mut cpu = Cpu::new();
    cpu.registers.write(1, (-2i32) as u32);
    cpu.registers.write(2, 3);
    cpu.execute_opcode(0x00220018).unwrap(); // MULT R1, R2
    assert_eq!(cpu.registers.lo, (-6i64) as u32);
    assert_eq!(cpu.registers.hi, ((-6i64) >> 32) as u32);
}

#[test]
fn multu_unsigned_product() {
    let mut cpu = Cpu::new();
    cpu.registers.write(1, 0xFFFFFFFF);
    cpu.registers.write(2, 2);
    cpu.execute_opcode(0x00220019).unwrap(); // MULTU R1, R2
    assert_eq!(cpu.registers.lo, 0xFFFFFFFE);
    assert_eq!(cpu.registers.hi, 1);
}

// SLT is a signed comparison, SLTU an unsigned one.
#[test]
fn slt_vs_sltu() {
    let mut cpu = Cpu::new();
    cpu.registers.write(1, 0xFFFFFFFF); // -1 signed, huge unsigned
    cpu.registers.write(2, 1);
    cpu.execute_opcode(0x0022182A).unwrap(); // SLT R3, R1, R2
    assert_eq!(cpu.registers.read(3), 1);
    cpu.execute_opcode(0x0022182B).unwrap(); // SLTU R3, R1, R2
    assert_eq!(cpu.registers.read(3), 0);
}

// SRA propagates the sign bit; SRL shifts in zeroes.
#[test]
fn sra_vs_srl() {
    let mut cpu = Cpu::new();
    cpu.registers.write(1, 0x80000000);
    cpu.execute_opcode(0x00011103).unwrap(); // SRA R2, R1, 4
    assert_eq!(cpu.registers.read(2), 0xF8000000);
    cpu.execute_opcode(0x00011102).unwrap(); // SRL R2, R1, 4
    assert_eq!(cpu.registers.read(2), 0x08000000);
}

// SLLV takes the full five-bit shift count from the register.
#[test]
fn sllv_uses_five_bits() {
    let mut cpu = Cpu::new();
    cpu.registers.write(1, 1);
    cpu.registers.write(2, 24); // a count needing more than three bits
    cpu.execute_opcode((2 << 21) | (1 << 16) | (3 << 11) | 4).unwrap(); // SLLV R3, R1, R2
    assert_eq!(cpu.registers.read(3), 1 << 24);
}

// ANDI uses the zero-extended immediate.
#[test]
fn andi_zero_extends() {
    let mut cpu = Cpu::new();
    cpu.registers.write(1, 0xFFFFFFFF);
    cpu.execute_opcode(0x30228000).unwrap(); // ANDI R2, R1, 0x8000
    assert_eq!(cpu.registers.read(2), 0x8000);
}

#[test]
fn lui_shifts_immediate() {
    let mut cpu = Cpu::new();
    cpu.execute_opcode(0x3C011234).unwrap(); // LUI R1, 0x1234
    assert_eq!(cpu.registers.read(1), 0x12340000);
}

// SYSCALL and BREAK surface their exceptions.
#[test]
fn syscall_and_break() {
    let mut cpu = Cpu::new();
    assert_eq!(cpu.execute_opcode(0x0000000C), Err(ExceptionType::Syscall));
    assert_eq!(cpu.execute_opcode(0x0000000D), Err(ExceptionType::Break));
}

// An opcode outside the implemented set raises Reserved.
#[test]
fn reserved_opcode() {
    let mut cpu = Cpu::new();
    assert_eq!(cpu.execute_opcode(0x70000000), Err(ExceptionType::Reserved));
}

// COP1 is absent on this machine.
#[test]
fn cop1_unusable() {
    let mut cpu = Cpu::new();
    assert_eq!(
        cpu.execute_opcode(0x44000000),
        Err(ExceptionType::CoprocessorUnusable)
    );
}

// LWL and LWR merge the unaligned word with the register per the
// little-endian case table.
#[test]
fn lwl_lwr_merge() {
    let mut cpu = Cpu::new();
    cpu.bus.mem_write_word(0x2000, 0x44332211).unwrap();
    cpu.registers.write(1, 0x2001);

    cpu.registers.write(2, 0xAABBCCDD);
    cpu.execute_opcode(0x88220000).unwrap(); // LWL R2, 0(R1)
    assert_eq!(cpu.registers.read(2), 0xAA443322);

    cpu.registers.write(2, 0xAABBCCDD);
    cpu.execute_opcode(0x98220000).unwrap(); // LWR R2, 0(R1)
    assert_eq!(cpu.registers.read(2), 0x2211CCDD);
}

// SWL and SWR write the complementary parts of an unaligned word.
#[test]
fn swl_swr_store() {
    let mut cpu = Cpu::new();
    cpu.registers.write(1, 0x2001);
    cpu.registers.write(2, 0x44332211);

    cpu.execute_opcode(0xA8220000).unwrap(); // SWL R2, 0(R1)
    assert_eq!(cpu.bus.mem_read_byte(0x2001).unwrap(), 0x11);
    assert_eq!(cpu.bus.mem_read_byte(0x2002).unwrap(), 0x22);
    assert_eq!(cpu.bus.mem_read_byte(0x2003).unwrap(), 0x33);

    cpu.execute_opcode(0xB8220000).unwrap(); // SWR R2, 0(R1)
    assert_eq!(cpu.bus.mem_read_byte(0x2001).unwrap(), 0x44);
    assert_eq!(cpu.bus.mem_read_byte(0x2000).unwrap(), 0x33);
}

// LB sign-extends, LBU does not.
#[test]
fn lb_vs_lbu() {
    let mut cpu = Cpu::new();
    cpu.bus.mem_write_byte(0x2000, 0x80).unwrap();
    cpu.registers.write(1, 0x2000);
    cpu.execute_opcode(0x80220000).unwrap(); // LB R2, 0(R1)
    assert_eq!(cpu.registers.read(2), 0xFFFFFF80);
    cpu.execute_opcode(0x90220000).unwrap(); // LBU R2, 0(R1)
    assert_eq!(cpu.registers.read(2), 0x80);
}

// A load from unmapped space surfaces a bus error through the step.
#[test]
fn bus_error_load() {
    let mut cpu = Cpu::new();
    cpu.registers.write(1, 0x12345678);
    cpu.registers.program_counter = 0x1000;
    cpu.bus.mem_write_word(0x1000, 0x8C220000).unwrap(); // LW R2, 0(R1)
    cpu.step_instruction();
    assert_eq!((cpu.cop0.cause.0 >> 2) & 0x1F, 7); // BusErrorLoad
}

// A pending, enabled interrupt is delivered before the next instruction.
#[test]
fn interrupt_delivery() {
    let mut cpu = Cpu::new();
    cpu.registers.program_counter = 0x1000;
    cpu.bus.mem_write_word(0x1000, 0x00000000).unwrap();
    cpu.bus.interrupt_status = 0x10;
    cpu.bus.interrupt_mask = 0x10;
    cpu.cop0.register_write(12, 0x401).unwrap(); // IEc on, IP2 unmasked
    cpu.step_instruction();
    assert_eq!((cpu.cop0.cause.0 >> 2) & 0x1F, 0); // Interrupt
    assert_eq!(cpu.cop0.epc, 0x1000);
    assert_eq!(cpu.registers.program_counter, 0x80000080);
    assert_eq!(cpu.cop0.sr.0 & 1, 0);
}

// With BEV set, exceptions vector into the BIOS ROM mirror.
#[test]
fn bev_selects_rom_vector() {
    let mut cpu = Cpu::new();
    cpu.cop0.register_write(12, 0x400000).unwrap();
    cpu.registers.program_counter = 0x1000;
    cpu.bus.mem_write_word(0x1000, 0x0000000C).unwrap(); // SYSCALL
    cpu.step_instruction();
    assert_eq!(cpu.registers.program_counter, 0xBFC00180);
}

// RFE pops the interrupt/mode stack pushed by the exception prologue.
#[test]
fn rfe_restores_interrupt_enable() {
    let mut cpu = Cpu::new();
    cpu.cop0.register_write(12, 1).unwrap(); // IEc on
    cpu.handle_exception(ExceptionType::Syscall, false);
    assert_eq!(cpu.cop0.sr.0 & 1, 0);
    cpu.execute_opcode(0x42000010).unwrap(); // RFE
    assert_eq!(cpu.cop0.sr.0 & 1, 1);
}

// A misaligned program counter faults before any fetch.
#[test]
fn misaligned_pc_faults() {
    let mut cpu = Cpu::new();
    cpu.registers.program_counter = 0x1002;
    cpu.step_instruction();
    assert_eq!((cpu.cop0.cause.0 >> 2) & 0x1F, 4);
    assert_eq!(cpu.cop0.badvaddr, 0x1002);
}
