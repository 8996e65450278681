//! The MIPS R3000A-style CPU core: the general register file with its
//! branch-delay slot, the exception kinds an instruction can raise, and the
//! fetch/decode/execute step with precise exception delivery.

use vstd::prelude::*;
use crate::bus::{
    Bus, BusView, bus_read_byte_spec, bus_read_half_spec, bus_read_word_spec,
    bus_write_byte_spec, bus_write_half_spec, bus_write_word_spec, bus_tick_spec, w_lane,
    w_from_lanes,
};
use crate::cop0::{
    Cop0, Cop0View, cop0_read_spec, cop0_write_spec, exception_code_spec, sr_push_spec,
    sr_pop_spec,
};

verus! {

/// The architectural exception kinds this core delivers.  Address errors
/// carry the faulting virtual address, which the prologue latches into
/// BadVaddr.
#[derive(PartialEq, Eq, Structural, Clone, Copy, Debug)]
pub enum ExceptionType {
    /// External interrupt.
    Interrupt,
    /// Address error on a data load or instruction fetch.
    AddressErrorLoad(u32),
    /// Address error on a data store.
    AddressErrorStore(u32),
    /// Bus error on a data load or store.
    BusErrorLoad,
    /// SYSCALL instruction.
    Syscall,
    /// BREAK instruction.
    Break,
    /// Reserved instruction.
    Reserved,
    /// Coprocessor unusable.
    CoprocessorUnusable,
    /// Signed overflow in ADD, ADDI or SUB.
    ArithmeticOverflow,
}

/// Mathematical state of the register file.
#[verifier::ext_equal]
pub struct RegistersView {
    /// The 32 general registers; index 0 always holds zero.
    pub gprs: Seq<u32>,
    pub pc: u32,
    pub hi: u32,
    pub lo: u32,
    /// Target of a branch or jump whose delay slot has not executed yet.
    pub branch: Option<u32>,
}

impl RegistersView {
    /// The register file always holds 32 registers and R0 reads zero.
    pub open spec fn wf(self) -> bool {
        &&& self.gprs.len() == 32
        &&& self.gprs[0] == 0
    }

    /// Value read from register `reg`; R0 reads zero.
    pub open spec fn read_spec(self, reg: u32) -> u32 {
        if reg == 0 {
            0u32
        } else {
            self.gprs[reg as int]
        }
    }

    /// Register file after writing `val` to register `reg`; writes to R0
    /// are ignored.
    pub open spec fn write_spec(self, reg: u32, val: u32) -> RegistersView {
        if reg == 0 {
            self
        } else {
            RegistersView { gprs: self.gprs.update(reg as int, val), ..self }
        }
    }
}

/// General register file, program counter, HI/LO pair and the single
/// branch-delay slot.
pub struct Registers {
    /// The 32 general registers; kept at length 32 with R0 zero.
    pub registers: Vec<u32>,
    pub program_counter: u32,
    pub hi: u32,
    pub lo: u32,
    pub delayed_branch: Option<u32>,
}

impl View for Registers {
    type V = RegistersView;

    open spec fn view(&self) -> RegistersView {
        RegistersView {
            gprs: self.registers@,
            pc: self.program_counter,
            hi: self.hi,
            lo: self.lo,
            branch: self.delayed_branch,
        }
    }
}

impl Registers {
    pub fn new() -> (r: Registers)
        ensures
            r@.wf(),
            r@.gprs =~= Seq::new(32, |i: int| 0u32),
            r@.pc == 0u32,
            r@.hi == 0u32,
            r@.lo == 0u32,
            r@.branch is None,
    {
        let mut gprs: Vec<u32> = Vec::new();
        let mut i: usize = 0;
        while i < 32
            invariant
                i <= 32,
                gprs@.len() == i,
                forall|j: int| 0 <= j < i ==> gprs@[j] == 0u32,
            decreases 32 - i,
        {
            gprs.push(0);
            i = i + 1;
        }
        let r = Registers {
            registers: gprs,
            program_counter: 0,
            hi: 0,
            lo: 0,
            delayed_branch: None,
        };
        proof {
            assert(r@.gprs =~= Seq::new(32, |i: int| 0u32));
        }
        r
    }

    /// Read register `reg`; R0 reads zero.  Out-of-range indices are a
    /// programming error and excluded by precondition.
    pub fn read(&self, reg: u32) -> (val: u32)
        requires
            self@.wf(),
            reg < 32,
        ensures
            val == self@.read_spec(reg),
    {
        if reg == 0 {
            0
        } else {
            self.registers[reg as usize]
        }
    }

    /// Write `val` to register `reg`; writes to R0 are ignored, so R0 still
    /// reads zero afterwards.
    pub fn write(&mut self, reg: u32, val: u32)
        requires
            old(self)@.wf(),
            reg < 32,
        ensures
            final(self)@ == old(self)@.write_spec(reg, val),
            final(self)@.wf(),
    {
        if reg != 0 {
            self.registers[reg as usize] = val;
        }
    }
}

/// R0 is zero after any write to the register file: a write either targets
/// another register and leaves R0 untouched, or targets R0 and is ignored.
pub proof fn lemma_r0_zero_after_write(r: RegistersView, reg: u32, val: u32)
    requires
        r.wf(),
        reg < 32,
    ensures
        r.write_spec(reg, val).wf(),
        r.write_spec(reg, val).read_spec(0) == 0,
{
}

// ---------------------------------------------------------------------------
// Instruction fields and two's-complement arithmetic
// ---------------------------------------------------------------------------

/// Opcode field, bits 31..26.
pub open spec fn op_field(op: u32) -> u32 {
    op / 0x400_0000
}

/// rs field, bits 25..21.
pub open spec fn rs_field(op: u32) -> u32 {
    (op / 0x20_0000) % 32
}

/// rt field, bits 20..16.
pub open spec fn rt_field(op: u32) -> u32 {
    (op / 0x1_0000) % 32
}

/// rd field, bits 15..11.
pub open spec fn rd_field(op: u32) -> u32 {
    (op / 0x800) % 32
}

/// Shift-amount field, bits 10..6.
pub open spec fn sa_field(op: u32) -> u32 {
    (op / 0x40) % 32
}

/// Function field, bits 5..0.
pub open spec fn funct_field(op: u32) -> u32 {
    op % 64
}

/// 16-bit immediate, zero-extended.
pub open spec fn imm16(op: u32) -> u32 {
    op % 0x1_0000
}

/// 26-bit jump target field.
pub open spec fn imm26(op: u32) -> u32 {
    op % 0x400_0000
}

/// A 16-bit value sign-extended to 32 bits.
pub open spec fn sext16(x: u32) -> u32 {
    if x % 0x1_0000 >= 0x8000 {
        (x % 0x1_0000 + 0xFFFF_0000) as u32
    } else {
        (x % 0x1_0000) as u32
    }
}

/// A byte sign-extended to 32 bits.
pub open spec fn sext8(b: u8) -> u32 {
    if b >= 0x80 {
        (b + 0xFFFF_FF00) as u32
    } else {
        b as u32
    }
}

/// Sign bit of a 32-bit word.
pub open spec fn sig_bit(x: u32) -> bool {
    x >= 0x8000_0000
}

/// The word read as a two's-complement signed integer.
pub open spec fn to_signed(x: u32) -> int {
    if sig_bit(x) {
        x - 0x1_0000_0000
    } else {
        x as int
    }
}

/// Magnitude of the word read as a two's-complement signed integer.
pub open spec fn mag(x: u32) -> int {
    if sig_bit(x) {
        0x1_0000_0000 - x
    } else {
        x as int
    }
}

/// Signed overflow of a two's-complement sum: the operands' signs agree
/// and differ from the sum's sign.
pub open spec fn add_overflows(a: u32, b: u32) -> bool {
    sig_bit(a) == sig_bit(b) && sig_bit(a.wrapping_add(b)) != sig_bit(a)
}

/// Two's-complement negation.
pub open spec fn neg_w(x: u32) -> u32 {
    0u32.wrapping_sub(x)
}

/// Arithmetic (sign-propagating) right shift by `sh` (< 32).
pub open spec fn sra_spec(x: u32, sh: u32) -> u32 {
    if sh == 0 {
        x
    } else if sig_bit(x) {
        (x >> sh) | (0xFFFF_FFFFu32 << ((32 - sh) as u32))
    } else {
        x >> sh
    }
}

/// The signed 64-bit product of the two words, reduced to its
/// two's-complement bit pattern in [0, 2^64).
pub open spec fn mult_product(a: u32, b: u32) -> int {
    (to_signed(a) * to_signed(b)) % 0x1_0000_0000_0000_0000
}

/// Low word of the signed product.
pub open spec fn mult_lo(a: u32, b: u32) -> u32 {
    (mult_product(a, b) % 0x1_0000_0000) as u32
}

/// High word of the signed product.
pub open spec fn mult_hi(a: u32, b: u32) -> u32 {
    (mult_product(a, b) / 0x1_0000_0000) as u32
}

/// Low word of the unsigned 64-bit product.
pub open spec fn multu_lo(a: u32, b: u32) -> u32 {
    ((a * b) % 0x1_0000_0000) as u32
}

/// High word of the unsigned 64-bit product.
pub open spec fn multu_hi(a: u32, b: u32) -> u32 {
    ((a * b) / 0x1_0000_0000) as u32
}

/// Bit pattern of the truncated signed quotient (divisor nonzero): the
/// magnitudes divide and the result takes the product of the signs.
pub open spec fn div_q(a: u32, b: u32) -> u32 {
    let q = mag(a) / mag(b);
    if sig_bit(a) == sig_bit(b) {
        (q % 0x1_0000_0000) as u32
    } else {
        ((0x1_0000_0000 - q) % 0x1_0000_0000) as u32
    }
}

/// Bit pattern of the remainder of truncated signed division (divisor
/// nonzero): magnitude remainder with the dividend's sign.
pub open spec fn div_r(a: u32, b: u32) -> u32 {
    let r = mag(a) % mag(b);
    if sig_bit(a) {
        ((0x1_0000_0000 - r) % 0x1_0000_0000) as u32
    } else {
        r as u32
    }
}

/// Branch target: the delay slot's address plus the sign-extended
/// immediate in words.
pub open spec fn branch_target(pc: u32, op: u32) -> u32 {
    pc.wrapping_add(4).wrapping_add(sext16(imm16(op)).wrapping_mul(4))
}

// ---------------------------------------------------------------------------
// The machine state and the step function
// ---------------------------------------------------------------------------

/// Mathematical state of the whole machine.
#[verifier::ext_equal]
pub struct CpuView {
    pub regs: RegistersView,
    pub cop0: Cop0View,
    pub bus: BusView,
}

/// Outcome of executing one decoded instruction: the machine afterwards
/// and the exception it raised, if any.
#[verifier::ext_equal]
pub struct StepResult {
    pub cpu: CpuView,
    pub ex: Option<ExceptionType>,
}

impl CpuView {
    pub open spec fn wf(self) -> bool {
        &&& self.regs.wf()
        &&& self.bus.wf()
    }

    /// Value of general register `r`.
    pub open spec fn reg(self, r: u32) -> u32 {
        self.regs.read_spec(r)
    }

    /// The machine with general register `r` set to `v`.
    pub open spec fn with_reg(self, r: u32, v: u32) -> CpuView {
        CpuView { regs: self.regs.write_spec(r, v), ..self }
    }

    /// The machine with a branch scheduled into the delay slot.
    pub open spec fn with_branch(self, t: u32) -> CpuView {
        CpuView { regs: RegistersView { branch: Some(t), ..self.regs }, ..self }
    }

    /// The machine with a new bus state.
    pub open spec fn with_bus(self, b: BusView) -> CpuView {
        CpuView { bus: b, ..self }
    }

    /// Successful completion.
    pub open spec fn ok(self) -> StepResult {
        StepResult { cpu: self, ex: None }
    }

    /// Completion raising exception `e`.
    pub open spec fn err(self, e: ExceptionType) -> StepResult {
        StepResult { cpu: self, ex: Some(e) }
    }
}

/// The exception prologue: EPC latches the faulting instruction (the
/// branch when the fault sat in its delay slot), the cause records the
/// code and the BD flag, the status stack pushes with interrupts off and
/// kernel mode on, address errors latch BadVaddr, any pending delayed
/// branch is discarded (EPC already points at the branch, which will
/// re-execute), and control moves to the exception vector chosen by BEV.
pub open spec fn prologue_spec(s: CpuView, e: ExceptionType, in_slot: bool) -> CpuView {
    let epc = if in_slot {
        s.regs.pc.wrapping_sub(4)
    } else {
        s.regs.pc
    };
    let cause1 = if in_slot {
        s.cop0.cause | 0x8000_0000u32
    } else {
        s.cop0.cause & 0x7FFF_FFFFu32
    };
    let cause2 = (cause1 & 0xFFFF_FF83) | (exception_code_spec(e) << 2u32);
    let sr = (sr_push_spec(s.cop0.sr) & 0xFFFF_FFFE) & 0xFFFF_FFFD;
    let badvaddr = match e {
        ExceptionType::AddressErrorLoad(a) => a,
        ExceptionType::AddressErrorStore(a) => a,
        _ => s.cop0.badvaddr,
    };
    let pc = if sr & 0x40_0000 != 0 {
        0xBFC0_0180u32
    } else {
        0x8000_0080u32
    };
    CpuView {
        regs: RegistersView { pc, branch: None, ..s.regs },
        cop0: Cop0View { sr, cause: cause2, epc, badvaddr, ..s.cop0 },
        bus: s.bus,
    }
}

/// SPECIAL-class instructions (opcode 0), selected by the function field.
pub open spec fn exec_special_spec(s: CpuView, op: u32) -> StepResult {
    let f = funct_field(op);
    let rs = rs_field(op);
    let rt = rt_field(op);
    let rd = rd_field(op);
    let sa = sa_field(op);
    if f == 0 {
        // SLL
        s.with_reg(rd, s.reg(rt) << sa).ok()
    } else if f == 2 {
        // SRL
        s.with_reg(rd, s.reg(rt) >> sa).ok()
    } else if f == 3 {
        // SRA
        s.with_reg(rd, sra_spec(s.reg(rt), sa)).ok()
    } else if f == 4 {
        // SLLV
        s.with_reg(rd, s.reg(rt) << (s.reg(rs) % 32)).ok()
    } else if f == 6 {
        // SRLV
        s.with_reg(rd, s.reg(rt) >> (s.reg(rs) % 32)).ok()
    } else if f == 7 {
        // SRAV
        s.with_reg(rd, sra_spec(s.reg(rt), s.reg(rs) % 32)).ok()
    } else if f == 8 {
        // JR: an unaligned target faults at once with the target as the
        // bad address
        let t = s.reg(rs);
        if t % 4 == 0 {
            s.with_branch(t).ok()
        } else {
            s.err(ExceptionType::AddressErrorLoad(t))
        }
    } else if f == 9 {
        // JALR
        let t = s.reg(rs);
        s.with_reg(rd, s.regs.pc.wrapping_add(8)).with_branch(t).ok()
    } else if f == 12 {
        s.err(ExceptionType::Syscall)
    } else if f == 13 {
        s.err(ExceptionType::Break)
    } else if f == 16 {
        // MFHI
        s.with_reg(rd, s.regs.hi).ok()
    } else if f == 17 {
        // MTHI
        CpuView { regs: RegistersView { hi: s.reg(rs), ..s.regs }, ..s }.ok()
    } else if f == 18 {
        // MFLO
        s.with_reg(rd, s.regs.lo).ok()
    } else if f == 19 {
        // MTLO
        CpuView { regs: RegistersView { lo: s.reg(rs), ..s.regs }, ..s }.ok()
    } else if f == 24 {
        // MULT
        let a = s.reg(rs);
        let b = s.reg(rt);
        CpuView {
            regs: RegistersView { lo: mult_lo(a, b), hi: mult_hi(a, b), ..s.regs },
            ..s
        }.ok()
    } else if f == 25 {
        // MULTU
        let a = s.reg(rs);
        let b = s.reg(rt);
        CpuView {
            regs: RegistersView { lo: multu_lo(a, b), hi: multu_hi(a, b), ..s.regs },
            ..s
        }.ok()
    } else if f == 26 {
        // DIV: division by zero yields the architectural defaults
        let a = s.reg(rs);
        let b = s.reg(rt);
        if b == 0 {
            CpuView {
                regs: RegistersView {
                    hi: a,
                    lo: if sig_bit(a) {
                        1u32
                    } else {
                        0xFFFF_FFFFu32
                    },
                    ..s.regs
                },
                ..s
            }.ok()
        } else {
            CpuView { regs: RegistersView { lo: div_q(a, b), hi: div_r(a, b), ..s.regs }, ..s }.ok()
        }
    } else if f == 27 {
        // DIVU
        let a = s.reg(rs);
        let b = s.reg(rt);
        if b == 0 {
            CpuView { regs: RegistersView { hi: a, lo: 0xFFFF_FFFFu32, ..s.regs }, ..s }.ok()
        } else {
            CpuView { regs: RegistersView { lo: a / b, hi: a % b, ..s.regs }, ..s }.ok()
        }
    } else if f == 32 {
        // ADD: traps on signed overflow, leaving the destination alone
        let a = s.reg(rs);
        let b = s.reg(rt);
        if add_overflows(a, b) {
            s.err(ExceptionType::ArithmeticOverflow)
        } else {
            s.with_reg(rd, a.wrapping_add(b)).ok()
        }
    } else if f == 33 {
        // ADDU
        s.with_reg(rd, s.reg(rs).wrapping_add(s.reg(rt))).ok()
    } else if f == 34 {
        // SUB: the difference as a two's-complement sum, trapping as ADD
        let a = s.reg(rs);
        let b = neg_w(s.reg(rt));
        if add_overflows(a, b) {
            s.err(ExceptionType::ArithmeticOverflow)
        } else {
            s.with_reg(rd, a.wrapping_add(b)).ok()
        }
    } else if f == 35 {
        // SUBU
        s.with_reg(rd, s.reg(rs).wrapping_add(neg_w(s.reg(rt)))).ok()
    } else if f == 36 {
        s.with_reg(rd, s.reg(rs) & s.reg(rt)).ok()
    } else if f == 37 {
        s.with_reg(rd, s.reg(rs) | s.reg(rt)).ok()
    } else if f == 38 {
        s.with_reg(rd, s.reg(rs) ^ s.reg(rt)).ok()
    } else if f == 39 {
        // NOR
        s.with_reg(rd, !(s.reg(rs) | s.reg(rt))).ok()
    } else if f == 42 {
        // SLT
        s.with_reg(rd, if to_signed(s.reg(rs)) < to_signed(s.reg(rt)) { 1u32 } else { 0u32 }).ok()
    } else if f == 43 {
        // SLTU
        s.with_reg(rd, if s.reg(rs) < s.reg(rt) { 1u32 } else { 0u32 }).ok()
    } else {
        s.err(ExceptionType::Reserved)
    }
}

/// REGIMM-class branches (opcode 1): BLTZ, BGEZ and their linking forms,
/// selected by the rt field.  The linking forms write R31 before the
/// register is compared, as the hardware interpreter did.
pub open spec fn exec_regimm_spec(s: CpuView, op: u32) -> StepResult {
    let name = rt_field(op);
    let s1 = if name / 16 % 2 == 1 {
        s.with_reg(31, s.regs.pc.wrapping_add(8))
    } else {
        s
    };
    let taken = (name % 2 == 1) == !sig_bit(s1.reg(rs_field(op)));
    if taken {
        s1.with_branch(branch_target(s.regs.pc, op)).ok()
    } else {
        s1.ok()
    }
}

/// COP0-class instructions (opcode 16): MFC0, MTC0, RFE; the TLB
/// operations and the control moves are reserved on this coprocessor.
pub open spec fn exec_cop0_spec(s: CpuView, op: u32) -> StepResult {
    let sub = rs_field(op);
    if sub == 0 {
        // MFC0
        match cop0_read_spec(s.cop0, rd_field(op)) {
            Ok(v) => s.with_reg(rt_field(op), v).ok(),
            Err(e) => s.err(e),
        }
    } else if sub == 4 {
        // MTC0
        match cop0_write_spec(s.cop0, rd_field(op), s.reg(rt_field(op))) {
            Ok(c) => CpuView { cop0: c, ..s }.ok(),
            Err(e) => s.err(e),
        }
    } else if sub >= 16 {
        if funct_field(op) == 16 {
            // RFE
            CpuView { cop0: Cop0View { sr: sr_pop_spec(s.cop0.sr), ..s.cop0 }, ..s }.ok()
        } else {
            s.err(ExceptionType::Reserved)
        }
    } else {
        s.err(ExceptionType::Reserved)
    }
}

/// Execute one fetched instruction word against the machine state (the
/// delay slot already consumed, the program counter still at the
/// instruction).  Unknown opcodes raise a reserved-instruction exception;
/// COP1 and COP3 raise coprocessor-unusable; the GTE (COP2) is stubbed to
/// accept its instructions without effect.  (Opaque: callers reason
/// through `execute_opcode`'s contract or reveal it.)
#[verifier::opaque]
pub open spec fn exec_instr_spec(s: CpuView, op: u32) -> StepResult {
    let o = op_field(op);
    let rs = rs_field(op);
    let rt = rt_field(op);
    let simm = sext16(imm16(op));
    if o == 0 {
        exec_special_spec(s, op)
    } else if o == 1 {
        exec_regimm_spec(s, op)
    } else if o == 2 {
        // J
        s.with_branch((s.regs.pc & 0xF000_0000) | ((imm26(op) * 4) as u32)).ok()
    } else if o == 3 {
        // JAL
        s.with_reg(31, s.regs.pc.wrapping_add(8)).with_branch(
            (s.regs.pc & 0xF000_0000) | ((imm26(op) * 4) as u32),
        ).ok()
    } else if o == 4 {
        // BEQ
        if s.reg(rs) == s.reg(rt) {
            s.with_branch(branch_target(s.regs.pc, op)).ok()
        } else {
            s.ok()
        }
    } else if o == 5 {
        // BNE
        if s.reg(rs) != s.reg(rt) {
            s.with_branch(branch_target(s.regs.pc, op)).ok()
        } else {
            s.ok()
        }
    } else if o == 6 {
        // BLEZ
        if to_signed(s.reg(rs)) <= 0 {
            s.with_branch(branch_target(s.regs.pc, op)).ok()
        } else {
            s.ok()
        }
    } else if o == 7 {
        // BGTZ
        if to_signed(s.reg(rs)) > 0 {
            s.with_branch(branch_target(s.regs.pc, op)).ok()
        } else {
            s.ok()
        }
    } else if o == 8 {
        // ADDI
        let a = s.reg(rs);
        if add_overflows(a, simm) {
            s.err(ExceptionType::ArithmeticOverflow)
        } else {
            s.with_reg(rt, a.wrapping_add(simm)).ok()
        }
    } else if o == 9 {
        // ADDIU
        s.with_reg(rt, s.reg(rs).wrapping_add(simm)).ok()
    } else if o == 10 {
        // SLTI
        s.with_reg(rt, if to_signed(s.reg(rs)) < to_signed(simm) { 1u32 } else { 0u32 }).ok()
    } else if o == 11 {
        // SLTIU
        s.with_reg(rt, if s.reg(rs) < simm { 1u32 } else { 0u32 }).ok()
    } else if o == 12 {
        // ANDI (zero-extended immediate)
        s.with_reg(rt, s.reg(rs) & imm16(op)).ok()
    } else if o == 13 {
        // ORI
        s.with_reg(rt, s.reg(rs) | imm16(op)).ok()
    } else if o == 14 {
        // XORI
        s.with_reg(rt, s.reg(rs) ^ imm16(op)).ok()
    } else if o == 15 {
        // LUI
        s.with_reg(rt, (imm16(op) * 0x1_0000) as u32).ok()
    } else if o == 16 {
        exec_cop0_spec(s, op)
    } else if o == 17 || o == 19 {
        s.err(ExceptionType::CoprocessorUnusable)
    } else if o == 18 {
        // COP2 (GTE) stub
        s.ok()
    } else {
        exec_mem_spec(s, op)
    }
}

/// Loads, stores and the coprocessor transfer opcodes (opcode >= 32).
pub open spec fn exec_mem_spec(s: CpuView, op: u32) -> StepResult {
    let o = op_field(op);
    if 32 <= o <= 38 {
        exec_load_spec(s, op)
    } else if 40 <= o <= 46 {
        exec_store_spec(s, op)
    } else if o == 48 || o == 56 {
        // LWC0 / SWC0: no load or store path on the system coprocessor
        s.err(ExceptionType::Reserved)
    } else if o == 49 || o == 51 || o == 57 || o == 59 {
        // LWC1 / LWC3 / SWC1 / SWC3
        s.err(ExceptionType::CoprocessorUnusable)
    } else if o == 50 || o == 58 {
        // LWC2 / SWC2: GTE transfers stubbed
        s.ok()
    } else {
        s.err(ExceptionType::Reserved)
    }
}

/// The load opcodes (32..38).
pub open spec fn exec_load_spec(s: CpuView, op: u32) -> StepResult {
    let o = op_field(op);
    let rs = rs_field(op);
    let rt = rt_field(op);
    let simm = sext16(imm16(op));
    if o == 32 {
        // LB
        let addr = s.reg(rs).wrapping_add(simm);
        match bus_read_byte_spec(s.bus, addr) {
            Ok(b) => s.with_reg(rt, sext8(b)).ok(),
            Err(e) => s.err(e),
        }
    } else if o == 33 {
        // LH
        let addr = s.reg(rs).wrapping_add(simm);
        if addr % 2 != 0 {
            s.err(ExceptionType::AddressErrorLoad(addr))
        } else {
            match bus_read_half_spec(s.bus, addr) {
                Ok(h) => s.with_reg(rt, sext16(h as u32)).ok(),
                Err(e) => s.err(e),
            }
        }
    } else if o == 34 {
        // LWL per the interpreter's little-endian case table
        let addr = s.reg(rs).wrapping_add(simm);
        match bus_read_word_spec(s.bus, addr & 0xFFFF_FFFC) {
            Ok(w) => {
                let r = s.reg(rt);
                let v = if addr % 4 == 0 {
                    w
                } else if addr % 4 == 1 {
                    w_from_lanes(w_lane(w, 1), w_lane(w, 2), w_lane(w, 3), w_lane(r, 3))
                } else if addr % 4 == 2 {
                    w_from_lanes(w_lane(w, 2), w_lane(w, 3), w_lane(r, 2), w_lane(r, 3))
                } else {
                    w_from_lanes(w_lane(w, 3), w_lane(r, 1), w_lane(r, 2), w_lane(r, 3))
                };
                s.with_reg(rt, v).ok()
            },
            Err(e) => s.err(e),
        }
    } else if o == 35 {
        // LW
        let addr = s.reg(rs).wrapping_add(simm);
        if addr % 4 != 0 {
            s.err(ExceptionType::AddressErrorLoad(addr))
        } else {
            match bus_read_word_spec(s.bus, addr) {
                Ok(w) => s.with_reg(rt, w).ok(),
                Err(e) => s.err(e),
            }
        }
    } else if o == 36 {
        // LBU
        let addr = s.reg(rs).wrapping_add(simm);
        match bus_read_byte_spec(s.bus, addr) {
            Ok(b) => s.with_reg(rt, b as u32).ok(),
            Err(e) => s.err(e),
        }
    } else if o == 37 {
        // LHU
        let addr = s.reg(rs).wrapping_add(simm);
        if addr % 2 != 0 {
            s.err(ExceptionType::AddressErrorLoad(addr))
        } else {
            match bus_read_half_spec(s.bus, addr) {
                Ok(h) => s.with_reg(rt, h as u32).ok(),
                Err(e) => s.err(e),
            }
        }
    } else if o == 38 {
        // LWR per the interpreter's little-endian case table
        let addr = s.reg(rs).wrapping_add(simm);
        match bus_read_word_spec(s.bus, addr & 0xFFFF_FFFC) {
            Ok(w) => {
                let r = s.reg(rt);
                let v = if addr % 4 == 0 {
                    w_from_lanes(w_lane(r, 0), w_lane(r, 1), w_lane(r, 2), w_lane(w, 0))
                } else if addr % 4 == 1 {
                    w_from_lanes(w_lane(r, 0), w_lane(r, 1), w_lane(w, 0), w_lane(w, 1))
                } else if addr % 4 == 2 {
                    w_from_lanes(w_lane(r, 0), w_lane(w, 0), w_lane(w, 1), w_lane(w, 2))
                } else {
                    w
                };
                s.with_reg(rt, v).ok()
            },
            Err(e) => s.err(e),
        }
    } else {
        s.err(ExceptionType::Reserved)
    }
}

/// The store opcodes (40..46).
pub open spec fn exec_store_spec(s: CpuView, op: u32) -> StepResult {
    let o = op_field(op);
    let rs = rs_field(op);
    let rt = rt_field(op);
    let simm = sext16(imm16(op));
    if o == 40 {
        // SB
        let addr = s.reg(rs).wrapping_add(simm);
        match bus_write_byte_spec(s.bus, addr, (s.reg(rt) % 256) as u8) {
            Ok(b2) => s.with_bus(b2).ok(),
            Err(e) => s.err(e),
        }
    } else if o == 41 {
        // SH
        let addr = s.reg(rs).wrapping_add(simm);
        if addr % 2 != 0 {
            s.err(ExceptionType::AddressErrorStore(addr))
        } else {
            let r = bus_write_half_spec(s.bus, addr, (s.reg(rt) % 0x1_0000) as u16);
            match r.1 {
                None => s.with_bus(r.0).ok(),
                Some(e) => s.with_bus(r.0).err(e),
            }
        }
    } else if o == 42 {
        exec_swl_spec(s, op)
    } else if o == 43 {
        // SW
        let addr = s.reg(rs).wrapping_add(simm);
        if addr % 4 != 0 {
            s.err(ExceptionType::AddressErrorStore(addr))
        } else {
            let r = bus_write_word_spec(s.bus, addr, s.reg(rt));
            match r.1 {
                None => s.with_bus(r.0).ok(),
                Some(e) => s.with_bus(r.0).err(e),
            }
        }
    } else if o == 46 {
        exec_swr_spec(s, op)
    } else {
        s.err(ExceptionType::Reserved)
    }
}

/// SWL (store word left) per the interpreter's little-endian case table.
pub open spec fn exec_swl_spec(s: CpuView, op: u32) -> StepResult {
    let rs = rs_field(op);
    let rt = rt_field(op);
    let simm = sext16(imm16(op));
    {
        let addr = s.reg(rs).wrapping_add(simm);
        let v = s.reg(rt);
        if addr % 4 == 0 {
            match bus_write_byte_spec(s.bus, addr, w_lane(v, 0)) {
                Err(e) => s.err(e),
                Ok(b1) => match bus_write_byte_spec(b1, (addr + 1) as u32, w_lane(v, 1)) {
                    Err(e) => s.with_bus(b1).err(e),
                    Ok(b2) => match bus_write_byte_spec(b2, (addr + 2) as u32, w_lane(v, 2)) {
                        Err(e) => s.with_bus(b2).err(e),
                        Ok(b3) => match bus_write_byte_spec(
                            b3,
                            (addr + 3) as u32,
                            w_lane(v, 3),
                        ) {
                            Err(e) => s.with_bus(b3).err(e),
                            Ok(b4) => s.with_bus(b4).ok(),
                        },
                    },
                },
            }
        } else if addr % 4 == 1 {
            match bus_write_byte_spec(s.bus, addr, w_lane(v, 0)) {
                Err(e) => s.err(e),
                Ok(b1) => match bus_write_byte_spec(b1, (addr + 1) as u32, w_lane(v, 1)) {
                    Err(e) => s.with_bus(b1).err(e),
                    Ok(b2) => match bus_write_byte_spec(b2, (addr + 2) as u32, w_lane(v, 2)) {
                        Err(e) => s.with_bus(b2).err(e),
                        Ok(b3) => s.with_bus(b3).ok(),
                    },
                },
            }
        } else if addr % 4 == 2 {
            match bus_write_byte_spec(s.bus, addr, w_lane(v, 0)) {
                Err(e) => s.err(e),
                Ok(b1) => match bus_write_byte_spec(b1, (addr + 1) as u32, w_lane(v, 1)) {
                    Err(e) => s.with_bus(b1).err(e),
                    Ok(b2) => s.with_bus(b2).ok(),
                },
            }
        } else {
            match bus_write_byte_spec(s.bus, addr, w_lane(v, 0)) {
                Err(e) => s.err(e),
                Ok(b1) => s.with_bus(b1).ok(),
            }
        }
    }
}

/// SWR (store word right) per the interpreter's little-endian case table.
pub open spec fn exec_swr_spec(s: CpuView, op: u32) -> StepResult {
    let rs = rs_field(op);
    let rt = rt_field(op);
    let simm = sext16(imm16(op));
    {
        let addr = s.reg(rs).wrapping_add(simm);
        let v = s.reg(rt);
        if addr % 4 == 0 {
            match bus_write_byte_spec(s.bus, addr, w_lane(v, 3)) {
                Err(e) => s.err(e),
                Ok(b1) => s.with_bus(b1).ok(),
            }
        } else if addr % 4 == 1 {
            match bus_write_byte_spec(s.bus, addr, w_lane(v, 3)) {
                Err(e) => s.err(e),
                Ok(b1) => match bus_write_byte_spec(b1, (addr - 1) as u32, w_lane(v, 2)) {
                    Err(e) => s.with_bus(b1).err(e),
                    Ok(b2) => s.with_bus(b2).ok(),
                },
            }
        } else if addr % 4 == 2 {
            match bus_write_byte_spec(s.bus, addr, w_lane(v, 3)) {
                Err(e) => s.err(e),
                Ok(b1) => match bus_write_byte_spec(b1, (addr - 1) as u32, w_lane(v, 2)) {
                    Err(e) => s.with_bus(b1).err(e),
                    Ok(b2) => match bus_write_byte_spec(b2, (addr - 2) as u32, w_lane(v, 1)) {
                        Err(e) => s.with_bus(b2).err(e),
                        Ok(b3) => s.with_bus(b3).ok(),
                    },
                },
            }
        } else {
            match bus_write_byte_spec(s.bus, addr, w_lane(v, 3)) {
                Err(e) => s.err(e),
                Ok(b1) => match bus_write_byte_spec(b1, (addr - 1) as u32, w_lane(v, 2)) {
                    Err(e) => s.with_bus(b1).err(e),
                    Ok(b2) => match bus_write_byte_spec(b2, (addr - 2) as u32, w_lane(v, 1)) {
                        Err(e) => s.with_bus(b2).err(e),
                        Ok(b3) => match bus_write_byte_spec(
                            b3,
                            (addr - 3) as u32,
                            w_lane(v, 0),
                        ) {
                            Err(e) => s.with_bus(b3).err(e),
                            Ok(b4) => s.with_bus(b4).ok(),
                        },
                    },
                },
            }
        }
    }
}

/// One machine step.  In order: the hardware interrupt line latches into
/// cause IP2; an enabled pending interrupt is delivered; a misaligned PC
/// faults; the instruction is fetched (a bus error being delivered like
/// any exception); a pending delayed branch is consumed to choose the
/// next PC; the instruction executes; the bus advances two cycles; an
/// exception enters the prologue, otherwise the next PC commits.
pub open spec fn cpu_step_spec(s: CpuView) -> CpuView {
    let pending = s.bus.istat & s.bus.imask != 0;
    let cause1 = if pending {
        s.cop0.cause | 0x400u32
    } else {
        s.cop0.cause & 0xFFFF_FBFFu32
    };
    let s1 = CpuView { cop0: Cop0View { cause: cause1, ..s.cop0 }, ..s };
    if s1.cop0.sr & 1 != 0 && (s1.cop0.sr & 0xFF00) & (cause1 & 0xFF00) != 0 {
        prologue_spec(s1, ExceptionType::Interrupt, s1.regs.branch is Some)
    } else if s1.regs.pc % 4 != 0 {
        prologue_spec(s1, ExceptionType::AddressErrorLoad(s1.regs.pc), false)
    } else {
        match bus_read_word_spec(s1.bus, s1.regs.pc) {
            Err(e) => prologue_spec(s1, e, s1.regs.branch is Some),
            Ok(op) => {
                let in_slot = s1.regs.branch is Some;
                let next_pc = match s1.regs.branch {
                    Some(t) => t,
                    None => s1.regs.pc.wrapping_add(4),
                };
                let s2 = CpuView { regs: RegistersView { branch: None, ..s1.regs }, ..s1 };
                let r = exec_instr_spec(s2, op);
                let s3 = r.cpu.with_bus(bus_tick_spec(r.cpu.bus, 2));
                match r.ex {
                    Some(e) => prologue_spec(s3, e, in_slot),
                    None => CpuView { regs: RegistersView { pc: next_pc, ..s3.regs }, ..s3 },
                }
            },
        }
    }
}

/// A scheduled delayed branch, if any, targets a word-aligned address.
pub open spec fn branch_aligned(r: RegistersView) -> bool {
    match r.branch {
        Some(t) => t % 4 == 0,
        None => true,
    }
}

/// JALR is the one instruction that can schedule an unaligned branch
/// target: it copies its source register unchecked (JR checks and
/// faults instead).
pub open spec fn is_unaligned_jalr(s: CpuView, op: u32) -> bool {
    op_field(op) == 0 && funct_field(op) == 9 && s.reg(rs_field(op)) % 4 != 0
}

/// A branch target computed from an aligned PC is aligned: both the
/// fall-through address and the shifted immediate are multiples of four,
/// and wrapping preserves residues modulo four.
pub proof fn lemma_branch_target_aligned(pc: u32, op: u32)
    requires
        pc % 4 == 0,
    ensures
        branch_target(pc, op) % 4 == 0,
{
    let z = sext16(imm16(op));
    let m = z.wrapping_mul(4);
    assert(m % 4 == 0) by {
        let p: int = (z as int) * 4;
        let q: int = p / 0x1_0000_0000;
        assert(p % 0x1_0000_0000 == p - 0x1_0000_0000 * q);
        assert(p - 0x1_0000_0000 * q == 4 * ((z as int) - 0x4000_0000 * q));
        vstd::arithmetic::div_mod::lemma_mod_multiples_vanish(
            (z as int) - 0x4000_0000 * q,
            0,
            4,
        );
        assert((z as nat * 4) % 0x1_0000_0000 == m);
    }
    let a = pc.wrapping_add(4);
    assert(a % 4 == 0);
    assert(a.wrapping_add(m) % 4 == 0);
}

/// Jump targets keep the upper nibble of the PC and a word-shifted
/// 26-bit field; with an aligned PC the result is aligned.
pub proof fn lemma_jump_target_aligned(pc: u32, op: u32)
    requires
        pc % 4 == 0,
    ensures
        ((pc & 0xF000_0000) | ((imm26(op) * 4) as u32)) % 4 == 0,
{
    let m = (imm26(op) * 4) as u32;
    assert(m % 4 == 0);
    assert(((pc & 0xF000_0000) | m) % 4 == 0) by (bit_vector)
        requires
            m % 4 == 0,
    ;
}

/// Executing an instruction never moves the PC: only the commit step
/// and the exception prologue do.
#[verifier::rlimit(100)]
pub proof fn lemma_exec_preserves_pc(s: CpuView, op: u32)
    ensures
        exec_instr_spec(s, op).cpu.regs.pc == s.regs.pc,
{
    reveal(exec_instr_spec);
}

/// Executing an instruction never moves the PC (only the commit step
/// does), and every instruction but an unaligned-target JALR leaves the
/// delay slot either empty or holding an aligned target.
#[verifier::rlimit(100)]
pub proof fn lemma_exec_branch_aligned(s: CpuView, op: u32)
    requires
        s.regs.pc % 4 == 0,
        branch_aligned(s.regs),
        !is_unaligned_jalr(s, op),
    ensures
        exec_instr_spec(s, op).cpu.regs.pc == s.regs.pc,
        branch_aligned(exec_instr_spec(s, op).cpu.regs),
{
    reveal(exec_instr_spec);
    lemma_branch_target_aligned(s.regs.pc, op);
    lemma_jump_target_aligned(s.regs.pc, op);
}

/// The cause word after the hardware interrupt line latches into IP2.
pub open spec fn latched_cause(s: CpuView) -> u32 {
    if s.bus.istat & s.bus.imask != 0 {
        s.cop0.cause | 0x400u32
    } else {
        s.cop0.cause & 0xFFFF_FBFFu32
    }
}

/// Whether the step delivers a pending interrupt before executing.
pub open spec fn step_takes_interrupt(s: CpuView) -> bool {
    s.cop0.sr & 1 != 0 && (s.cop0.sr & 0xFF00) & (latched_cause(s) & 0xFF00) != 0
}

/// The machine as the execute phase sees it: interrupt line latched and
/// the delayed branch consumed.
pub open spec fn step_consumed_state(s: CpuView) -> CpuView {
    CpuView {
        regs: RegistersView { branch: None, ..s.regs },
        cop0: Cop0View { cause: latched_cause(s), ..s.cop0 },
        ..s
    }
}

/// The PC is a multiple of four after every step that did not execute an
/// unaligned-target JALR, and the delay slot again holds only aligned
/// targets: committed branch targets were checked or computed aligned,
/// the fall-through adds four, and the exception vectors are aligned
/// constants.  (After a JALR of an unaligned register value the next
/// fetch faults with an address error, which restores alignment.)
#[verifier::rlimit(100)]
pub proof fn lemma_step_pc_aligned(s: CpuView)
    requires
        s.regs.pc % 4 == 0,
        branch_aligned(s.regs),
        match bus_read_word_spec(s.bus, s.regs.pc) {
            Ok(op) => !is_unaligned_jalr(step_consumed_state(s), op),
            Err(_) => true,
        },
    ensures
        cpu_step_spec(s).regs.pc % 4 == 0,
        branch_aligned(cpu_step_spec(s).regs),
{
    let s1 = CpuView { cop0: Cop0View { cause: latched_cause(s), ..s.cop0 }, ..s };
    if !step_takes_interrupt(s) {
        match bus_read_word_spec(s1.bus, s1.regs.pc) {
            Err(e) => {},
            Ok(op) => {
                let s2 = CpuView { regs: RegistersView { branch: None, ..s1.regs }, ..s1 };
                assert(s2 =~= step_consumed_state(s));
                lemma_exec_branch_aligned(s2, op);
            },
        }
    }
}

/// When the executed instruction raises an exception, the BD flag
/// (cause bit 31) records exactly whether the instruction sat in a
/// branch-delay slot — that is, whether this step consumed a pending
/// delayed branch — and EPC then points back at the branch itself.
#[verifier::rlimit(100)]
pub proof fn lemma_bd_iff_delay_slot(s: CpuView, op: u32, e: ExceptionType)
    requires
        !step_takes_interrupt(s),
        s.regs.pc % 4 == 0,
        bus_read_word_spec(s.bus, s.regs.pc) == Ok::<u32, ExceptionType>(op),
        exec_instr_spec(step_consumed_state(s), op).ex == Some(e),
    ensures
        (cpu_step_spec(s).cop0.cause & 0x8000_0000u32 != 0) == (s.regs.branch is Some),
        cpu_step_spec(s).cop0.epc == (if s.regs.branch is Some {
            s.regs.pc.wrapping_sub(4)
        } else {
            s.regs.pc
        }),
{
    let k = exception_code_spec(e);
    assert(k < 32);
    let s1 = CpuView { cop0: Cop0View { cause: latched_cause(s), ..s.cop0 }, ..s };
    let s2 = CpuView { regs: RegistersView { branch: None, ..s1.regs }, ..s1 };
    assert(s2 =~= step_consumed_state(s));
    lemma_exec_preserves_pc(s2, op);
    assert(forall|c: u32, k2: u32|
        k2 < 32 ==> (((c | 0x8000_0000u32) & 0xFFFF_FF83 | (k2 << 2u32)) & 0x8000_0000u32 != 0))
        by (bit_vector);
    assert(forall|c: u32, k2: u32|
        k2 < 32 ==> (((c & 0x7FFF_FFFFu32) & 0xFFFF_FF83 | (k2 << 2u32)) & 0x8000_0000u32 == 0))
        by (bit_vector);
}

/// The exception option of a step as the `Result` the interpreter
/// returns.
pub open spec fn to_result(ex: Option<ExceptionType>) -> Result<(), ExceptionType> {
    match ex {
        None => Ok(()),
        Some(e) => Err(e),
    }
}

/// The signed product computed by magnitudes: the two's-complement bit
/// pattern of the product is the magnitudes' product, negated modulo 2^64
/// when exactly one factor is negative.
pub proof fn lemma_mult_bits(a: u32, b: u32)
    ensures
        mult_product(a, b) == (if sig_bit(a) != sig_bit(b) {
            if mag(a) * mag(b) == 0 {
                0int
            } else {
                0x1_0000_0000_0000_0000 - mag(a) * mag(b)
            }
        } else {
            mag(a) * mag(b)
        }),
{
    let n: int = 0x1_0000_0000_0000_0000;
    let ma = mag(a);
    let mb = mag(b);
    let m = ma * mb;
    assert(0 <= ma <= 0x8000_0000);
    assert(0 <= mb <= 0x8000_0000);
    assert(m <= 0x4000_0000_0000_0000 && m >= 0) by (nonlinear_arith)
        requires
            0 <= ma <= 0x8000_0000,
            0 <= mb <= 0x8000_0000,
            m == ma * mb,
    ;
    if sig_bit(a) == sig_bit(b) {
        if sig_bit(a) {
            assert(to_signed(a) * to_signed(b) == m) by (nonlinear_arith)
                requires
                    to_signed(a) == 0 - ma,
                    to_signed(b) == 0 - mb,
                    m == ma * mb,
            ;
        } else {
            assert(to_signed(a) * to_signed(b) == m);
        }
        vstd::arithmetic::div_mod::lemma_small_mod(m as nat, n as nat);
    } else {
        if sig_bit(a) {
            assert(to_signed(a) * to_signed(b) == 0 - m) by (nonlinear_arith)
                requires
                    to_signed(a) == 0 - ma,
                    to_signed(b) == mb,
                    m == ma * mb,
            ;
        } else {
            assert(to_signed(a) * to_signed(b) == 0 - m) by (nonlinear_arith)
                requires
                    to_signed(a) == ma,
                    to_signed(b) == 0 - mb,
                    m == ma * mb,
            ;
        }
        if m == 0 {
            assert((0 - m) % n == 0);
        } else {
            vstd::arithmetic::div_mod::lemma_mod_multiples_vanish(1, 0 - m, n);
            vstd::arithmetic::div_mod::lemma_small_mod((n - m) as nat, n as nat);
            assert((0 - m) % n == n - m);
        }
    }
}

/// A 16-bit value sign-extended to 32 bits.
pub fn sign_extend_16(x: u32) -> (r: u32)
    ensures
        r == sext16(x),
{
    let low = x % 0x1_0000;
    if low >= 0x8000 {
        low + 0xFFFF_0000
    } else {
        low
    }
}

/// A byte sign-extended to 32 bits.
pub fn sign_extend_8(b: u8) -> (r: u32)
    ensures
        r == sext8(b),
{
    if b >= 0x80 {
        b as u32 + 0xFFFF_FF00
    } else {
        b as u32
    }
}

/// Arithmetic right shift by `sh` (< 32).
pub fn shift_right_arithmetic(x: u32, sh: u32) -> (r: u32)
    requires
        sh < 32,
    ensures
        r == sra_spec(x, sh),
{
    if sh == 0 {
        x
    } else if x >= 0x8000_0000 {
        (x >> sh) | (0xFFFF_FFFFu32 << (32 - sh))
    } else {
        x >> sh
    }
}

/// The CPU: register file, system-control coprocessor and the bus.
pub struct Cpu {
    pub cop0: Cop0,
    pub registers: Registers,
    pub bus: Bus,
}

impl View for Cpu {
    type V = CpuView;

    open spec fn view(&self) -> CpuView {
        CpuView { regs: self.registers@, cop0: self.cop0@, bus: self.bus@ }
    }
}

impl Cpu {
    pub fn new() -> (c: Cpu)
        ensures
            c@.wf(),
            c@.regs.pc == 0u32,
            c@.regs.hi == 0u32,
            c@.regs.lo == 0u32,
            c@.regs.branch is None,
            forall|i: int| 0 <= i < 32 ==> c@.regs.gprs[i] == 0u32,
            c@.cop0.sr == 0u32,
            c@.cop0.cause == 0u32,
            c@.cop0.epc == 0u32,
            c@.cop0.badvaddr == 0u32,
            c@.bus.istat == 0u32,
            c@.bus.imask == 0u32,
    {
        let registers = Registers::new();
        let bus = Bus::new();
        let cop0 = Cop0::new();
        Cpu { cop0, registers, bus }
    }

    /// The wrapping sum together with the signed-overflow flag ADD, ADDI
    /// and SUB trap on.
    pub fn add(arg1: u32, arg2: u32) -> (r: (u32, bool))
        ensures
            r.0 == arg1.wrapping_add(arg2),
            r.1 == add_overflows(arg1, arg2),
    {
        let sum = arg1.wrapping_add(arg2);
        let overflow = ((arg1 >= 0x8000_0000) == (arg2 >= 0x8000_0000)) && ((sum >= 0x8000_0000)
            != (arg1 >= 0x8000_0000));
        (sum, overflow)
    }

    /// The wrapping sum; never traps.
    pub fn addu(arg1: u32, arg2: u32) -> (r: u32)
        ensures
            r == arg1.wrapping_add(arg2),
    {
        arg1.wrapping_add(arg2)
    }

    /// Architectural effects of a raised exception; see `prologue_spec`.
    pub fn handle_exception(&mut self, exception: ExceptionType, in_delay_slot: bool)
        ensures
            final(self)@ == prologue_spec(old(self)@, exception, in_delay_slot),
            old(self)@.wf() ==> final(self)@.wf(),
    {
        if in_delay_slot {
            self.cop0.epc = self.registers.program_counter.wrapping_sub(4);
            self.cop0.cause.set_branch_delay(true);
        } else {
            self.cop0.epc = self.registers.program_counter;
            self.cop0.cause.set_branch_delay(false);
        }

        self.cop0.cause.set_exception_code(exception);

        self.cop0.sr.push_interrupt();
        self.cop0.sr.set_interrupt(false);
        self.cop0.sr.set_kernel_mode(true);

        match exception {
            ExceptionType::AddressErrorLoad(addr) => {
                self.cop0.badvaddr = addr;
            },
            ExceptionType::AddressErrorStore(addr) => {
                self.cop0.badvaddr = addr;
            },
            _ => {},
        }

        // EPC points at the branch when the fault sat in its delay slot,
        // so the branch re-executes after the handler; the pending target
        // itself is discarded.
        self.registers.delayed_branch = None;

        if self.cop0.sr.bev_is_set() {
            self.registers.program_counter = 0xBFC00180;
        } else {
            self.registers.program_counter = 0x80000080;
        }
        proof {
            assert(self@ =~= prologue_spec(old(self)@, exception, in_delay_slot));
        }
    }

    /// SPECIAL-class instructions (opcode 0).
    #[verifier::rlimit(100)]
    fn op_special(&mut self, opcode: u32) -> (r: Result<(), ExceptionType>)
        requires
            old(self)@.wf(),
        ensures
            final(self)@ == exec_special_spec(old(self)@, opcode).cpu,
            r == to_result(exec_special_spec(old(self)@, opcode).ex),
            final(self)@.wf(),
    {
        let f = opcode % 64;
        let rs = (opcode / 0x20_0000) % 32;
        let rt = (opcode / 0x1_0000) % 32;
        let rd = (opcode / 0x800) % 32;
        let sa = (opcode / 0x40) % 32;
        if f == 0 {
            let v = self.registers.read(rt) << sa;
            self.registers.write(rd, v);
            Ok(())
        } else if f == 2 {
            let v = self.registers.read(rt) >> sa;
            self.registers.write(rd, v);
            Ok(())
        } else if f == 3 {
            let v = shift_right_arithmetic(self.registers.read(rt), sa);
            self.registers.write(rd, v);
            Ok(())
        } else if f == 4 {
            let sh = self.registers.read(rs) % 32;
            let v = self.registers.read(rt) << sh;
            self.registers.write(rd, v);
            Ok(())
        } else if f == 6 {
            let sh = self.registers.read(rs) % 32;
            let v = self.registers.read(rt) >> sh;
            self.registers.write(rd, v);
            Ok(())
        } else if f == 7 {
            let sh = self.registers.read(rs) % 32;
            let v = shift_right_arithmetic(self.registers.read(rt), sh);
            self.registers.write(rd, v);
            Ok(())
        } else if f == 8 {
            // JR
            let target = self.registers.read(rs);
            if target % 4 == 0 {
                self.registers.delayed_branch = Some(target);
                Ok(())
            } else {
                Err(ExceptionType::AddressErrorLoad(target))
            }
        } else if f == 9 {
            // JALR
            let target = self.registers.read(rs);
            let link = self.registers.program_counter.wrapping_add(8);
            self.registers.write(rd, link);
            self.registers.delayed_branch = Some(target);
            Ok(())
        } else if f == 12 {
            Err(ExceptionType::Syscall)
        } else if f == 13 {
            Err(ExceptionType::Break)
        } else if f == 16 {
            let v = self.registers.hi;
            self.registers.write(rd, v);
            Ok(())
        } else if f == 17 {
            self.registers.hi = self.registers.read(rs);
            Ok(())
        } else if f == 18 {
            let v = self.registers.lo;
            self.registers.write(rd, v);
            Ok(())
        } else if f == 19 {
            self.registers.lo = self.registers.read(rs);
            Ok(())
        } else if f == 24 {
            // MULT
            let a = self.registers.read(rs);
            let b = self.registers.read(rt);
            let ma: u32 = if a >= 0x8000_0000 {
                0u32.wrapping_sub(a)
            } else {
                a
            };
            let mb: u32 = if b >= 0x8000_0000 {
                0u32.wrapping_sub(b)
            } else {
                b
            };
            proof {
                assert((ma as int) * (mb as int) <= 0x4000_0000_0000_0000) by (nonlinear_arith)
                    requires
                        0 <= ma <= 0x8000_0000,
                        0 <= mb <= 0x8000_0000,
                ;
                lemma_mult_bits(a, b);
            }
            let p: u64 = (ma as u64) * (mb as u64);
            let neg = (a >= 0x8000_0000) != (b >= 0x8000_0000);
            let pn: u64 = if neg {
                0u64.wrapping_sub(p)
            } else {
                p
            };
            self.registers.lo = (pn % 0x1_0000_0000) as u32;
            self.registers.hi = (pn / 0x1_0000_0000) as u32;
            Ok(())
        } else if f == 25 {
            // MULTU
            let a = self.registers.read(rs);
            let b = self.registers.read(rt);
            proof {
                assert((a as int) * (b as int) < 0x1_0000_0000_0000_0000) by (nonlinear_arith)
                    requires
                        0 <= a < 0x1_0000_0000,
                        0 <= b < 0x1_0000_0000,
                ;
            }
            let p: u64 = (a as u64) * (b as u64);
            self.registers.lo = (p % 0x1_0000_0000) as u32;
            self.registers.hi = (p / 0x1_0000_0000) as u32;
            Ok(())
        } else if f == 26 {
            // DIV
            let a = self.registers.read(rs);
            let b = self.registers.read(rt);
            if b == 0 {
                self.registers.hi = a;
                self.registers.lo = if a >= 0x8000_0000 {
                    1
                } else {
                    0xFFFF_FFFF
                };
                Ok(())
            } else {
                let ma: u32 = if a >= 0x8000_0000 {
                    0u32.wrapping_sub(a)
                } else {
                    a
                };
                let mb: u32 = if b >= 0x8000_0000 {
                    0u32.wrapping_sub(b)
                } else {
                    b
                };
                let q = ma / mb;
                let rem = ma % mb;
                self.registers.lo = if (a >= 0x8000_0000) == (b >= 0x8000_0000) {
                    q
                } else {
                    0u32.wrapping_sub(q)
                };
                self.registers.hi = if a >= 0x8000_0000 {
                    0u32.wrapping_sub(rem)
                } else {
                    rem
                };
                Ok(())
            }
        } else if f == 27 {
            // DIVU
            let a = self.registers.read(rs);
            let b = self.registers.read(rt);
            if b == 0 {
                self.registers.hi = a;
                self.registers.lo = 0xFFFF_FFFF;
            } else {
                self.registers.lo = a / b;
                self.registers.hi = a % b;
            }
            Ok(())
        } else if f == 32 {
            // ADD
            let (sum, overflow) = Cpu::add(self.registers.read(rs), self.registers.read(rt));
            if overflow {
                Err(ExceptionType::ArithmeticOverflow)
            } else {
                self.registers.write(rd, sum);
                Ok(())
            }
        } else if f == 33 {
            let sum = Cpu::addu(self.registers.read(rs), self.registers.read(rt));
            self.registers.write(rd, sum);
            Ok(())
        } else if f == 34 {
            // SUB
            let (diff, overflow) = Cpu::add(
                self.registers.read(rs),
                0u32.wrapping_sub(self.registers.read(rt)),
            );
            if overflow {
                Err(ExceptionType::ArithmeticOverflow)
            } else {
                self.registers.write(rd, diff);
                Ok(())
            }
        } else if f == 35 {
            let diff = Cpu::addu(
                self.registers.read(rs),
                0u32.wrapping_sub(self.registers.read(rt)),
            );
            self.registers.write(rd, diff);
            Ok(())
        } else if f == 36 {
            let v = self.registers.read(rs) & self.registers.read(rt);
            self.registers.write(rd, v);
            Ok(())
        } else if f == 37 {
            let v = self.registers.read(rs) | self.registers.read(rt);
            self.registers.write(rd, v);
            Ok(())
        } else if f == 38 {
            let v = self.registers.read(rs) ^ self.registers.read(rt);
            self.registers.write(rd, v);
            Ok(())
        } else if f == 39 {
            let v = !(self.registers.read(rs) | self.registers.read(rt));
            self.registers.write(rd, v);
            Ok(())
        } else if f == 42 {
            // SLT
            let a = self.registers.read(rs);
            let b = self.registers.read(rt);
            let lt = if (a >= 0x8000_0000) == (b >= 0x8000_0000) {
                a < b
            } else {
                a >= 0x8000_0000
            };
            self.registers.write(rd, if lt { 1 } else { 0 });
            Ok(())
        } else if f == 43 {
            // SLTU
            let lt = self.registers.read(rs) < self.registers.read(rt);
            self.registers.write(rd, if lt { 1 } else { 0 });
            Ok(())
        } else {
            Err(ExceptionType::Reserved)
        }
    }

    /// REGIMM-class branches (opcode 1).
    fn op_regimm(&mut self, opcode: u32) -> (r: Result<(), ExceptionType>)
        requires
            old(self)@.wf(),
        ensures
            final(self)@ == exec_regimm_spec(old(self)@, opcode).cpu,
            r == to_result(exec_regimm_spec(old(self)@, opcode).ex),
            final(self)@.wf(),
    {
        let rs = (opcode / 0x20_0000) % 32;
        let name = (opcode / 0x1_0000) % 32;
        let simm = sign_extend_16(opcode % 0x1_0000);

        // The linking variants write R31 unconditionally, before the
        // comparison register is read.
        if (name / 16) % 2 == 1 {
            let link = self.registers.program_counter.wrapping_add(8);
            self.registers.write(31, link);
        }

        let taken = (name % 2 == 1) == (self.registers.read(rs) < 0x8000_0000);
        if taken {
            let target = self.registers.program_counter.wrapping_add(4).wrapping_add(
                simm.wrapping_mul(4),
            );
            self.registers.delayed_branch = Some(target);
        }
        Ok(())
    }

    /// COP0-class instructions (opcode 16).
    fn op_cop0(&mut self, opcode: u32) -> (r: Result<(), ExceptionType>)
        requires
            old(self)@.wf(),
        ensures
            final(self)@ == exec_cop0_spec(old(self)@, opcode).cpu,
            r == to_result(exec_cop0_spec(old(self)@, opcode).ex),
            final(self)@.wf(),
    {
        let sub = (opcode / 0x20_0000) % 32;
        let rt = (opcode / 0x1_0000) % 32;
        let rd = (opcode / 0x800) % 32;
        if sub == 0 {
            // MFC0
            match self.cop0.register_read(rd) {
                Ok(v) => {
                    self.registers.write(rt, v);
                    Ok(())
                },
                Err(e) => Err(e),
            }
        } else if sub == 4 {
            // MTC0
            let v = self.registers.read(rt);
            match self.cop0.register_write(rd, v) {
                Ok(_) => Ok(()),
                Err(e) => Err(e),
            }
        } else if sub >= 16 {
            if opcode % 64 == 16 {
                // RFE
                self.cop0.sr.pop_interrupt();
                Ok(())
            } else {
                // The TLB operations: this CPU has no TLB
                Err(ExceptionType::Reserved)
            }
        } else {
            Err(ExceptionType::Reserved)
        }
    }

    /// Execute one fetched instruction word; the returned error is the
    /// exception the instruction raised, with all side effects up to that
    /// point applied.
    #[verifier::rlimit(100)]
    pub fn execute_opcode(&mut self, opcode: u32) -> (r: Result<(), ExceptionType>)
        requires
            old(self)@.wf(),
        ensures
            final(self)@ == exec_instr_spec(old(self)@, opcode).cpu,
            r == to_result(exec_instr_spec(old(self)@, opcode).ex),
            final(self)@.wf(),
    {
        proof {
            reveal(exec_instr_spec);
        }
        let o = opcode / 0x400_0000;
        let rs = (opcode / 0x20_0000) % 32;
        let rt = (opcode / 0x1_0000) % 32;
        let simm = sign_extend_16(opcode % 0x1_0000);
        if o == 0 {
            self.op_special(opcode)
        } else if o == 1 {
            self.op_regimm(opcode)
        } else if o == 2 {
            // J
            let target = (self.registers.program_counter & 0xF000_0000) | ((opcode % 0x400_0000)
                * 4);
            self.registers.delayed_branch = Some(target);
            Ok(())
        } else if o == 3 {
            // JAL
            let link = self.registers.program_counter.wrapping_add(8);
            self.registers.write(31, link);
            let target = (self.registers.program_counter & 0xF000_0000) | ((opcode % 0x400_0000)
                * 4);
            self.registers.delayed_branch = Some(target);
            Ok(())
        } else if o == 4 {
            // BEQ
            if self.registers.read(rs) == self.registers.read(rt) {
                let target = self.registers.program_counter.wrapping_add(4).wrapping_add(
                    simm.wrapping_mul(4),
                );
                self.registers.delayed_branch = Some(target);
            }
            Ok(())
        } else if o == 5 {
            // BNE
            if self.registers.read(rs) != self.registers.read(rt) {
                let target = self.registers.program_counter.wrapping_add(4).wrapping_add(
                    simm.wrapping_mul(4),
                );
                self.registers.delayed_branch = Some(target);
            }
            Ok(())
        } else if o == 6 {
            // BLEZ
            let v = self.registers.read(rs);
            if v >= 0x8000_0000 || v == 0 {
                let target = self.registers.program_counter.wrapping_add(4).wrapping_add(
                    simm.wrapping_mul(4),
                );
                self.registers.delayed_branch = Some(target);
            }
            Ok(())
        } else if o == 7 {
            // BGTZ
            let v = self.registers.read(rs);
            if v < 0x8000_0000 && v > 0 {
                let target = self.registers.program_counter.wrapping_add(4).wrapping_add(
                    simm.wrapping_mul(4),
                );
                self.registers.delayed_branch = Some(target);
            }
            Ok(())
        } else if o == 8 {
            // ADDI
            let (sum, overflow) = Cpu::add(self.registers.read(rs), simm);
            if overflow {
                Err(ExceptionType::ArithmeticOverflow)
            } else {
                self.registers.write(rt, sum);
                Ok(())
            }
        } else if o == 9 {
            // ADDIU
            let sum = Cpu::addu(self.registers.read(rs), simm);
            self.registers.write(rt, sum);
            Ok(())
        } else if o == 10 {
            // SLTI
            let a = self.registers.read(rs);
            let lt = if (a >= 0x8000_0000) == (simm >= 0x8000_0000) {
                a < simm
            } else {
                a >= 0x8000_0000
            };
            self.registers.write(rt, if lt { 1 } else { 0 });
            Ok(())
        } else if o == 11 {
            // SLTIU
            let lt = self.registers.read(rs) < simm;
            self.registers.write(rt, if lt { 1 } else { 0 });
            Ok(())
        } else if o == 12 {
            // ANDI
            let v = self.registers.read(rs) & (opcode % 0x1_0000);
            self.registers.write(rt, v);
            Ok(())
        } else if o == 13 {
            // ORI
            let v = self.registers.read(rs) | (opcode % 0x1_0000);
            self.registers.write(rt, v);
            Ok(())
        } else if o == 14 {
            // XORI
            let v = self.registers.read(rs) ^ (opcode % 0x1_0000);
            self.registers.write(rt, v);
            Ok(())
        } else if o == 15 {
            // LUI
            self.registers.write(rt, (opcode % 0x1_0000) * 0x1_0000);
            Ok(())
        } else if o == 16 {
            self.op_cop0(opcode)
        } else if o == 17 || o == 19 {
            // COP1 / COP3: not present
            Err(ExceptionType::CoprocessorUnusable)
        } else if o == 18 {
            // COP2 (GTE): stubbed
            Ok(())
        } else {
            self.op_mem(opcode)
        }
    }

    /// Loads, stores and coprocessor transfers (opcode >= 32).
    fn op_mem(&mut self, opcode: u32) -> (r: Result<(), ExceptionType>)
        requires
            old(self)@.wf(),
        ensures
            final(self)@ == exec_mem_spec(old(self)@, opcode).cpu,
            r == to_result(exec_mem_spec(old(self)@, opcode).ex),
            final(self)@.wf(),
    {
        let o = opcode / 0x400_0000;
        if 32 <= o && o <= 38 {
            self.op_load(opcode)
        } else if 40 <= o && o <= 46 {
            self.op_store(opcode)
        } else if o == 48 || o == 56 {
            Err(ExceptionType::Reserved)
        } else if o == 49 || o == 51 || o == 57 || o == 59 {
            Err(ExceptionType::CoprocessorUnusable)
        } else if o == 50 || o == 58 {
            Ok(())
        } else {
            Err(ExceptionType::Reserved)
        }
    }

    /// The load opcodes.
    #[verifier::rlimit(100)]
    fn op_load(&mut self, opcode: u32) -> (r: Result<(), ExceptionType>)
        requires
            old(self)@.wf(),
        ensures
            final(self)@ == exec_load_spec(old(self)@, opcode).cpu,
            r == to_result(exec_load_spec(old(self)@, opcode).ex),
            final(self)@.wf(),
    {
        let o = opcode / 0x400_0000;
        let rs = (opcode / 0x20_0000) % 32;
        let rt = (opcode / 0x1_0000) % 32;
        let simm = sign_extend_16(opcode % 0x1_0000);
        if o == 32 {
            // LB
            let addr = self.registers.read(rs).wrapping_add(simm);
            match self.bus.mem_read_byte(addr) {
                Ok(b) => {
                    let v = sign_extend_8(b);
                    self.registers.write(rt, v);
                    Ok(())
                },
                Err(e) => Err(e),
            }
        } else if o == 33 {
            // LH
            let addr = self.registers.read(rs).wrapping_add(simm);
            if addr % 2 != 0 {
                Err(ExceptionType::AddressErrorLoad(addr))
            } else {
                match self.bus.mem_read_halfword(addr) {
                    Ok(h) => {
                        let v = sign_extend_16(h as u32);
                        self.registers.write(rt, v);
                        Ok(())
                    },
                    Err(e) => Err(e),
                }
            }
        } else if o == 34 {
            // LWL
            let addr = self.registers.read(rs).wrapping_add(simm);
            match self.bus.mem_read_word(addr & 0xFFFF_FFFC) {
                Ok(w) => {
                    let rv = self.registers.read(rt);
                    let ofs = addr % 4;
                    let v = if ofs == 0 {
                        w
                    } else if ofs == 1 {
                        Bus::word_from_lanes(
                            Bus::word_lane(w, 1),
                            Bus::word_lane(w, 2),
                            Bus::word_lane(w, 3),
                            Bus::word_lane(rv, 3),
                        )
                    } else if ofs == 2 {
                        Bus::word_from_lanes(
                            Bus::word_lane(w, 2),
                            Bus::word_lane(w, 3),
                            Bus::word_lane(rv, 2),
                            Bus::word_lane(rv, 3),
                        )
                    } else {
                        Bus::word_from_lanes(
                            Bus::word_lane(w, 3),
                            Bus::word_lane(rv, 1),
                            Bus::word_lane(rv, 2),
                            Bus::word_lane(rv, 3),
                        )
                    };
                    self.registers.write(rt, v);
                    Ok(())
                },
                Err(e) => Err(e),
            }
        } else if o == 35 {
            // LW
            let addr = self.registers.read(rs).wrapping_add(simm);
            if addr % 4 != 0 {
                Err(ExceptionType::AddressErrorLoad(addr))
            } else {
                match self.bus.mem_read_word(addr) {
                    Ok(w) => {
                        self.registers.write(rt, w);
                        Ok(())
                    },
                    Err(e) => Err(e),
                }
            }
        } else if o == 36 {
            // LBU
            let addr = self.registers.read(rs).wrapping_add(simm);
            match self.bus.mem_read_byte(addr) {
                Ok(b) => {
                    self.registers.write(rt, b as u32);
                    Ok(())
                },
                Err(e) => Err(e),
            }
        } else if o == 37 {
            // LHU
            let addr = self.registers.read(rs).wrapping_add(simm);
            if addr % 2 != 0 {
                Err(ExceptionType::AddressErrorLoad(addr))
            } else {
                match self.bus.mem_read_halfword(addr) {
                    Ok(h) => {
                        self.registers.write(rt, h as u32);
                        Ok(())
                    },
                    Err(e) => Err(e),
                }
            }
        } else if o == 38 {
            // LWR
            let addr = self.registers.read(rs).wrapping_add(simm);
            match self.bus.mem_read_word(addr & 0xFFFF_FFFC) {
                Ok(w) => {
                    let rv = self.registers.read(rt);
                    let ofs = addr % 4;
                    let v = if ofs == 0 {
                        Bus::word_from_lanes(
                            Bus::word_lane(rv, 0),
                            Bus::word_lane(rv, 1),
                            Bus::word_lane(rv, 2),
                            Bus::word_lane(w, 0),
                        )
                    } else if ofs == 1 {
                        Bus::word_from_lanes(
                            Bus::word_lane(rv, 0),
                            Bus::word_lane(rv, 1),
                            Bus::word_lane(w, 0),
                            Bus::word_lane(w, 1),
                        )
                    } else if ofs == 2 {
                        Bus::word_from_lanes(
                            Bus::word_lane(rv, 0),
                            Bus::word_lane(w, 0),
                            Bus::word_lane(w, 1),
                            Bus::word_lane(w, 2),
                        )
                    } else {
                        w
                    };
                    self.registers.write(rt, v);
                    Ok(())
                },
                Err(e) => Err(e),
            }
        } else {
            Err(ExceptionType::Reserved)
        }
    }

    /// The store opcodes.
    #[verifier::rlimit(100)]
    fn op_store(&mut self, opcode: u32) -> (r: Result<(), ExceptionType>)
        requires
            old(self)@.wf(),
        ensures
            final(self)@ == exec_store_spec(old(self)@, opcode).cpu,
            r == to_result(exec_store_spec(old(self)@, opcode).ex),
            final(self)@.wf(),
    {
        let o = opcode / 0x400_0000;
        let rs = (opcode / 0x20_0000) % 32;
        let rt = (opcode / 0x1_0000) % 32;
        let simm = sign_extend_16(opcode % 0x1_0000);
        if o == 40 {
            // SB
            let addr = self.registers.read(rs).wrapping_add(simm);
            let byte = (self.registers.read(rt) % 256) as u8;
            match self.bus.mem_write_byte(addr, byte) {
                Ok(_) => Ok(()),
                Err(e) => Err(e),
            }
        } else if o == 41 {
            // SH
            let addr = self.registers.read(rs).wrapping_add(simm);
            if addr % 2 != 0 {
                Err(ExceptionType::AddressErrorStore(addr))
            } else {
                let half = (self.registers.read(rt) % 0x1_0000) as u16;
                match self.bus.mem_write_halfword(addr, half) {
                    Ok(_) => Ok(()),
                    Err(e) => Err(e),
                }
            }
        } else if o == 42 {
            self.op_swl(opcode)
        } else if o == 43 {
            // SW
            let addr = self.registers.read(rs).wrapping_add(simm);
            if addr % 4 != 0 {
                Err(ExceptionType::AddressErrorStore(addr))
            } else {
                let v = self.registers.read(rt);
                match self.bus.mem_write_word(addr, v) {
                    Ok(_) => Ok(()),
                    Err(e) => Err(e),
                }
            }
        } else if o == 46 {
            self.op_swr(opcode)
        } else {
            Err(ExceptionType::Reserved)
        }
    }

    /// SWL (store word left).
    #[verifier::rlimit(100)]
    fn op_swl(&mut self, opcode: u32) -> (r: Result<(), ExceptionType>)
        requires
            old(self)@.wf(),
        ensures
            final(self)@ == exec_swl_spec(old(self)@, opcode).cpu,
            r == to_result(exec_swl_spec(old(self)@, opcode).ex),
            final(self)@.wf(),
    {
        let rs = (opcode / 0x20_0000) % 32;
        let rt = (opcode / 0x1_0000) % 32;
        let simm = sign_extend_16(opcode % 0x1_0000);
        {
            let addr = self.registers.read(rs).wrapping_add(simm);
            let v = self.registers.read(rt);
            let ofs = addr % 4;
            if ofs == 0 {
                match self.bus.mem_write_byte(addr, Bus::word_lane(v, 0)) {
                    Ok(_) => {},
                    Err(e) => {
                        return Err(e);
                    },
                };
                match self.bus.mem_write_byte(addr + 1, Bus::word_lane(v, 1)) {
                    Ok(_) => {},
                    Err(e) => {
                        return Err(e);
                    },
                };
                match self.bus.mem_write_byte(addr + 2, Bus::word_lane(v, 2)) {
                    Ok(_) => {},
                    Err(e) => {
                        return Err(e);
                    },
                };
                match self.bus.mem_write_byte(addr + 3, Bus::word_lane(v, 3)) {
                Ok(_) => Ok(()),
                Err(e) => Err(e),
            }
            } else if ofs == 1 {
                match self.bus.mem_write_byte(addr, Bus::word_lane(v, 0)) {
                    Ok(_) => {},
                    Err(e) => {
                        return Err(e);
                    },
                };
                match self.bus.mem_write_byte(addr + 1, Bus::word_lane(v, 1)) {
                    Ok(_) => {},
                    Err(e) => {
                        return Err(e);
                    },
                };
                match self.bus.mem_write_byte(addr + 2, Bus::word_lane(v, 2)) {
                Ok(_) => Ok(()),
                Err(e) => Err(e),
            }
            } else if ofs == 2 {
                match self.bus.mem_write_byte(addr, Bus::word_lane(v, 0)) {
                    Ok(_) => {},
                    Err(e) => {
                        return Err(e);
                    },
                };
                match self.bus.mem_write_byte(addr + 1, Bus::word_lane(v, 1)) {
                Ok(_) => Ok(()),
                Err(e) => Err(e),
            }
            } else {
                match self.bus.mem_write_byte(addr, Bus::word_lane(v, 0)) {
                Ok(_) => Ok(()),
                Err(e) => Err(e),
            }
            }
        }
    }

    /// SWR (store word right).
    #[verifier::rlimit(100)]
    fn op_swr(&mut self, opcode: u32) -> (r: Result<(), ExceptionType>)
        requires
            old(self)@.wf(),
        ensures
            final(self)@ == exec_swr_spec(old(self)@, opcode).cpu,
            r == to_result(exec_swr_spec(old(self)@, opcode).ex),
            final(self)@.wf(),
    {
        let rs = (opcode / 0x20_0000) % 32;
        let rt = (opcode / 0x1_0000) % 32;
        let simm = sign_extend_16(opcode % 0x1_0000);
        {
            let addr = self.registers.read(rs).wrapping_add(simm);
            let v = self.registers.read(rt);
            let ofs = addr % 4;
            if ofs == 0 {
                match self.bus.mem_write_byte(addr, Bus::word_lane(v, 3)) {
                Ok(_) => Ok(()),
                Err(e) => Err(e),
            }
            } else if ofs == 1 {
                match self.bus.mem_write_byte(addr, Bus::word_lane(v, 3)) {
                    Ok(_) => {},
                    Err(e) => {
                        return Err(e);
                    },
                };
                match self.bus.mem_write_byte(addr - 1, Bus::word_lane(v, 2)) {
                Ok(_) => Ok(()),
                Err(e) => Err(e),
            }
            } else if ofs == 2 {
                match self.bus.mem_write_byte(addr, Bus::word_lane(v, 3)) {
                    Ok(_) => {},
                    Err(e) => {
                        return Err(e);
                    },
                };
                match self.bus.mem_write_byte(addr - 1, Bus::word_lane(v, 2)) {
                    Ok(_) => {},
                    Err(e) => {
                        return Err(e);
                    },
                };
                match self.bus.mem_write_byte(addr - 2, Bus::word_lane(v, 1)) {
                Ok(_) => Ok(()),
                Err(e) => Err(e),
            }
            } else {
                match self.bus.mem_write_byte(addr, Bus::word_lane(v, 3)) {
                    Ok(_) => {},
                    Err(e) => {
                        return Err(e);
                    },
                };
                match self.bus.mem_write_byte(addr - 1, Bus::word_lane(v, 2)) {
                    Ok(_) => {},
                    Err(e) => {
                        return Err(e);
                    },
                };
                match self.bus.mem_write_byte(addr - 2, Bus::word_lane(v, 1)) {
                    Ok(_) => {},
                    Err(e) => {
                        return Err(e);
                    },
                };
                match self.bus.mem_write_byte(addr - 3, Bus::word_lane(v, 0)) {
                Ok(_) => Ok(()),
                Err(e) => Err(e),
            }
            }
        }
    }

    /// One machine step; see `cpu_step_spec` for the precise transition.
    pub fn step_instruction(&mut self)
        requires
            old(self)@.wf(),
        ensures
            final(self)@ == cpu_step_spec(old(self)@),
            final(self)@.wf(),
    {
        // Latch the hardware interrupt line into cause IP2.
        let pending = self.bus.interrupt_status & self.bus.interrupt_mask > 0;
        self.cop0.cause.set_interrupt_pending(pending);

        // Deliver an enabled pending interrupt.
        if self.cop0.sr.interrupt_enabled() && (self.cop0.sr.interrupt_mask()
            & self.cop0.cause.interrupt_pending()) > 0 {
            let slot = self.registers.delayed_branch.is_some();
            self.handle_exception(ExceptionType::Interrupt, slot);
            return;
        }

        // A misaligned program counter faults before the fetch.
        if self.registers.program_counter % 4 != 0 {
            let pc = self.registers.program_counter;
            self.handle_exception(ExceptionType::AddressErrorLoad(pc), false);
            return;
        }

        // Fetch; a bus error is delivered like any other exception.
        let opcode = match self.bus.mem_read_word(self.registers.program_counter) {
            Ok(w) => w,
            Err(e) => {
                let slot = self.registers.delayed_branch.is_some();
                self.handle_exception(e, slot);
                return;
            },
        };

        // Consume a pending delayed branch to choose the next PC.
        let (next_pc, in_delay_slot) = match self.registers.delayed_branch {
            Some(addr) => (addr, true),
            None => (self.registers.program_counter.wrapping_add(4), false),
        };
        self.registers.delayed_branch = None;

        let result = self.execute_opcode(opcode);

        // Each instruction costs two cycles, charged even when it raised
        // an exception: the work was done before the fault took effect.
        self.bus.tick(2);

        match result {
            Err(exception) => self.handle_exception(exception, in_delay_slot),
            Ok(_) => self.registers.program_counter = next_pc,
        }
    }
}

} // verus!
