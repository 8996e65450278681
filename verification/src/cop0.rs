//! The system-control coprocessor: status register with its three-deep
//! interrupt/mode stack, cause register, exception program counter,
//! BadVaddr and the breakpoint registers.

use vstd::prelude::*;
use crate::cpu::ExceptionType;

verus! {

/// Bits of the status register a MTC0 may change.
pub const SR_WRITE_MASK: u32 = 0x507FFF2F;

/// Bits of the cause register that are software writable (the two
/// software-interrupt pending bits).
pub const CAUSE_WRITE_MASK: u32 = 0x300;

/// The status word after an exception pushes the interrupt/mode stack: the
/// low six bits (current, previous and old interrupt/mode pairs) shift up
/// by two, the oldest pair being preserved in bits 6..7.
pub open spec fn sr_push_spec(s: u32) -> u32 {
    (s & 0xFFFF_FF03) | ((s & 0x3F) << 2u32)
}

/// The status word after RFE pops the interrupt/mode stack: bits 2..7
/// shift back down by two, bits 6..7 staying in place.
pub open spec fn sr_pop_spec(s: u32) -> u32 {
    (s & 0xFFFF_FFC0) | ((s & 0xFC) >> 2u32)
}

/// The architectural exception code delivered into cause bits 2..6.
pub open spec fn exception_code_spec(e: ExceptionType) -> u32 {
    match e {
        ExceptionType::Interrupt => 0u32,
        ExceptionType::AddressErrorLoad(_) => 4u32,
        ExceptionType::AddressErrorStore(_) => 5u32,
        ExceptionType::BusErrorLoad => 7u32,
        ExceptionType::Syscall => 8u32,
        ExceptionType::Break => 9u32,
        ExceptionType::Reserved => 0xAu32,
        ExceptionType::CoprocessorUnusable => 0xBu32,
        ExceptionType::ArithmeticOverflow => 0xCu32,
    }
}

/// The status register (COP0 register 12).
pub struct StatusRegister(pub u32);

/// The cause register (COP0 register 13).
pub struct CauseRegister(pub u32);

impl StatusRegister {
    /// Set or clear IEc, the current interrupt-enable bit (bit 0).
    pub fn set_interrupt(&mut self, ie: bool)
        ensures
            final(self).0 == (if ie {
                old(self).0 | 0x1u32
            } else {
                old(self).0 & 0xFFFF_FFFEu32
            }),
    {
        if ie {
            self.0 = self.0 | 0x1;
        } else {
            self.0 = self.0 & 0xFFFF_FFFE;
        }
    }

    /// Set or clear KUc, the current mode bit (bit 1); zero means kernel
    /// mode, so entering kernel mode clears the bit.
    pub fn set_kernel_mode(&mut self, kernel: bool)
        ensures
            final(self).0 == (if kernel {
                old(self).0 & 0xFFFF_FFFDu32
            } else {
                old(self).0 | 0x2u32
            }),
    {
        if kernel {
            self.0 = self.0 & 0xFFFF_FFFD;
        } else {
            self.0 = self.0 | 0x2;
        }
    }

    /// Push the interrupt/mode stack on exception entry.
    pub fn push_interrupt(&mut self)
        ensures
            final(self).0 == sr_push_spec(old(self).0),
    {
        self.0 = (self.0 & 0xFFFF_FF03) | ((self.0 & 0x3F) << 2u32);
    }

    /// Pop the interrupt/mode stack on RFE.
    pub fn pop_interrupt(&mut self)
        ensures
            final(self).0 == sr_pop_spec(old(self).0),
    {
        self.0 = (self.0 & 0xFFFF_FFC0) | ((self.0 & 0xFC) >> 2u32);
    }

    /// Whether IEc (bit 0) allows interrupts.
    pub fn interrupt_enabled(&self) -> (r: bool)
        ensures
            r == (self.0 & 0x1u32 != 0),
    {
        self.0 & 0x1 != 0
    }

    /// The interrupt mask, bits 8..15, kept in place.
    pub fn interrupt_mask(&self) -> (r: u32)
        ensures
            r == self.0 & 0xFF00u32,
    {
        self.0 & 0xFF00
    }

    /// Whether BEV (bit 22) selects the boot exception vector.
    pub fn bev_is_set(&self) -> (r: bool)
        ensures
            r == (self.0 & 0x40_0000u32 != 0),
    {
        self.0 & 0x40_0000 != 0
    }
}

impl CauseRegister {
    /// Write the exception code of `exception` into bits 2..6.
    pub fn set_exception_code(&mut self, exception: ExceptionType)
        ensures
            final(self).0 == (old(self).0 & 0xFFFF_FF83u32) | (exception_code_spec(exception)
                << 2u32),
    {
        let code: u32 = match exception {
            ExceptionType::Interrupt => 0,
            ExceptionType::AddressErrorLoad(_) => 4,
            ExceptionType::AddressErrorStore(_) => 5,
            ExceptionType::BusErrorLoad => 7,
            ExceptionType::Syscall => 8,
            ExceptionType::Break => 9,
            ExceptionType::Reserved => 0xA,
            ExceptionType::CoprocessorUnusable => 0xB,
            ExceptionType::ArithmeticOverflow => 0xC,
        };
        self.0 = (self.0 & 0xFFFF_FF83) | (code << 2u32);
    }

    /// Set or clear BD (bit 31), the branch-delay flag.
    pub fn set_branch_delay(&mut self, bd: bool)
        ensures
            final(self).0 == (if bd {
                old(self).0 | 0x8000_0000u32
            } else {
                old(self).0 & 0x7FFF_FFFFu32
            }),
    {
        if bd {
            self.0 = self.0 | 0x8000_0000;
        } else {
            self.0 = self.0 & 0x7FFF_FFFF;
        }
    }

    /// Set or clear IP2 (bit 10), the hardware interrupt-pending aggregate.
    pub fn set_interrupt_pending(&mut self, pending: bool)
        ensures
            final(self).0 == (if pending {
                old(self).0 | 0x400u32
            } else {
                old(self).0 & 0xFFFF_FBFFu32
            }),
    {
        if pending {
            self.0 = self.0 | 0x400;
        } else {
            self.0 = self.0 & 0xFFFF_FBFF;
        }
    }

    /// The interrupt-pending field, bits 8..15, kept in place.
    pub fn interrupt_pending(&self) -> (r: u32)
        ensures
            r == self.0 & 0xFF00u32,
    {
        self.0 & 0xFF00
    }
}

/// Mathematical state of the coprocessor.
#[verifier::ext_equal]
pub struct Cop0View {
    pub sr: u32,
    pub cause: u32,
    pub epc: u32,
    pub badvaddr: u32,
    pub target: u32,
    pub bpc: u32,
    pub bda: u32,
    pub bdam: u32,
    pub bpcm: u32,
    pub debug: u32,
}

/// Value a MFC0 of register `reg` returns; registers 0..2, 4 and 10 are
/// reserved and surface a reserved-instruction exception.
pub open spec fn cop0_read_spec(c: Cop0View, reg: u32) -> Result<u32, ExceptionType> {
    match reg {
        3u32 => Ok(c.bpc),
        5u32 => Ok(c.bda),
        6u32 => Ok(c.target),
        7u32 => Ok(c.debug),
        8u32 => Ok(c.badvaddr),
        9u32 => Ok(c.bdam),
        11u32 => Ok(c.bpcm),
        12u32 => Ok(c.sr),
        13u32 => Ok(c.cause),
        14u32 => Ok(c.epc),
        15u32 => Ok(0x2u32),
        _ => if 16 <= reg <= 31 {
            Ok(0u32)
        } else {
            Err(ExceptionType::Reserved)
        },
    }
}

/// Coprocessor state after a MTC0 of `val` to register `reg`.  BadVaddr,
/// EPC, PRID and Target are hardware-read-only and ignore writes; SR and
/// cause writes pass through their write masks; registers 16..31 ignore
/// writes; registers 0..2, 4 and 10 are reserved and surface a
/// reserved-instruction exception.
pub open spec fn cop0_write_spec(c: Cop0View, reg: u32, val: u32) -> Result<
    Cop0View,
    ExceptionType,
> {
    match reg {
        3u32 => Ok(Cop0View { bpc: val, ..c }),
        5u32 => Ok(Cop0View { bda: val, ..c }),
        6u32 => Ok(c),
        7u32 => Ok(Cop0View { debug: val, ..c }),
        8u32 => Ok(c),
        9u32 => Ok(Cop0View { bdam: val, ..c }),
        11u32 => Ok(Cop0View { bpcm: val, ..c }),
        12u32 => Ok(
            Cop0View { sr: (c.sr & !SR_WRITE_MASK) | (val & SR_WRITE_MASK), ..c },
        ),
        13u32 => Ok(
            Cop0View { cause: (c.cause & !CAUSE_WRITE_MASK) | (val & CAUSE_WRITE_MASK), ..c },
        ),
        14u32 => Ok(c),
        15u32 => Ok(c),
        _ => if 16 <= reg <= 31 {
            Ok(c)
        } else {
            Err(ExceptionType::Reserved)
        },
    }
}

/// System-control coprocessor registers.
pub struct Cop0 {
    pub sr: StatusRegister,
    pub cause: CauseRegister,
    pub epc: u32,
    pub badvaddr: u32,
    pub target: u32,
    pub breakpoint_program_counter: u32,
    pub breakpoint_data_address: u32,
    pub breakpoint_data_address_mask: u32,
    pub breakpoint_program_counter_mask: u32,
    pub debug: u32,
}

impl View for Cop0 {
    type V = Cop0View;

    open spec fn view(&self) -> Cop0View {
        Cop0View {
            sr: self.sr.0,
            cause: self.cause.0,
            epc: self.epc,
            badvaddr: self.badvaddr,
            target: self.target,
            bpc: self.breakpoint_program_counter,
            bda: self.breakpoint_data_address,
            bdam: self.breakpoint_data_address_mask,
            bpcm: self.breakpoint_program_counter_mask,
            debug: self.debug,
        }
    }
}

impl Cop0 {
    pub fn new() -> (c: Cop0)
        ensures
            c@ == (Cop0View {
                sr: 0u32,
                cause: 0u32,
                epc: 0u32,
                badvaddr: 0u32,
                target: 0u32,
                bpc: 0u32,
                bda: 0u32,
                bdam: 0u32,
                bpcm: 0u32,
                debug: 0u32,
            }),
    {
        Cop0 {
            sr: StatusRegister(0),
            cause: CauseRegister(0),
            epc: 0,
            badvaddr: 0,
            target: 0,
            breakpoint_program_counter: 0,
            breakpoint_data_address: 0,
            breakpoint_data_address_mask: 0,
            breakpoint_program_counter_mask: 0,
            debug: 0,
        }
    }

    /// MFC0: read a coprocessor register.
    pub fn register_read(&self, reg: u32) -> (r: Result<u32, ExceptionType>)
        ensures
            r == cop0_read_spec(self@, reg),
    {
        match reg {
            3 => Ok(self.breakpoint_program_counter),
            5 => Ok(self.breakpoint_data_address),
            6 => Ok(self.target),
            7 => Ok(self.debug),
            8 => Ok(self.badvaddr),
            9 => Ok(self.breakpoint_data_address_mask),
            11 => Ok(self.breakpoint_program_counter_mask),
            12 => Ok(self.sr.0),
            13 => Ok(self.cause.0),
            14 => Ok(self.epc),
            15 => Ok(0x00000002),
            _ => if 16 <= reg && reg <= 31 {
                Ok(0)
            } else {
                Err(ExceptionType::Reserved)
            },
        }
    }

    /// MTC0: write a coprocessor register, observing the per-register
    /// write masks.
    pub fn register_write(&mut self, reg: u32, val: u32) -> (r: Result<(), ExceptionType>)
        ensures
            match cop0_write_spec(old(self)@, reg, val) {
                Ok(c) => r is Ok && final(self)@ == c,
                Err(e) => r == Err::<(), ExceptionType>(e) && final(self)@ == old(self)@,
            },
    {
        match reg {
            3 => self.breakpoint_program_counter = val,
            5 => self.breakpoint_data_address = val,
            6 => {},
            7 => self.debug = val,
            8 => {},
            9 => self.breakpoint_data_address_mask = val,
            11 => self.breakpoint_program_counter_mask = val,
            12 => self.sr.0 = (self.sr.0 & !SR_WRITE_MASK) | (val & SR_WRITE_MASK),
            13 => self.cause.0 = (self.cause.0 & !CAUSE_WRITE_MASK) | (val & CAUSE_WRITE_MASK),
            14 => {},
            15 => {},
            _ => {
                if !(16 <= reg && reg <= 31) {
                    return Err(ExceptionType::Reserved);
                }
            },
        }
        Ok(())
    }
}

/// Pushing the interrupt/mode stack and popping it with no intervening
/// write restores the low six status bits: the current, previous and old
/// interrupt/mode pairs all come back.
pub proof fn lemma_sr_push_pop_restores(s: u32)
    ensures
        sr_pop_spec(sr_push_spec(s)) & 0x3F == s & 0x3F,
{
    assert((((((s & 0xFFFF_FF03) | ((s & 0x3F) << 2u32)) & 0xFFFF_FFC0) | ((((s & 0xFFFF_FF03) | ((
    s & 0x3F) << 2u32)) & 0xFC) >> 2u32)) & 0x3F) == s & 0x3F) by (bit_vector);
}

} // verus!
