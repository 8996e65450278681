//! The memory bus: physical address decoding with kernel-segment
//! mirroring, the flat storage regions, the interrupt status/mask words,
//! the three timers and the GPU ports.
//!
//! Halfword and word accesses assemble and decompose bytes through the
//! byte operations so the region decoding applies uniformly; the two GPU
//! ports are word-sized and dispatched before byte decomposition.

use vstd::prelude::*;
use crate::cpu::ExceptionType;
use crate::gpu::{Gpu, GpuView, gpu_tick_spec, gp0_spec, FRAME_CYCLES};
use crate::timer::{Timer, TimerView};
use crate::zero_bytes;

verus! {

/// 64 KiB kernel scratch area.
pub const KERNEL_BYTES: usize = 65536;

/// 2 MiB main RAM backing (1 MiB addressable through each mirror).
pub const RAM_BYTES: usize = 2097152;

/// 1 KiB scratchpad.
pub const SCRATCH_BYTES: usize = 1024;

/// 512 KiB BIOS ROM (the rest of its 4 MiB window stays reserved).
pub const ROM_BYTES: usize = 524288;

/// 512 bytes of CPU cache-control space; writes are stored but have no
/// other effect.
pub const CACHE_CTL_BYTES: usize = 512;

/// A 16-bit register with its low byte replaced.
pub open spec fn h_set_lo(x: u16, v: u8) -> u16 {
    (v + 256 * (x as int / 256)) as u16
}

/// A 16-bit register with its high byte replaced.
pub open spec fn h_set_hi(x: u16, v: u8) -> u16 {
    ((x as int % 256) + 256 * v) as u16
}

/// Byte lane `lane` (0..3) of a 32-bit register.
pub open spec fn w_lane(w: u32, lane: int) -> u8 {
    if lane == 0 {
        (w as int % 256) as u8
    } else if lane == 1 {
        ((w as int / 256) % 256) as u8
    } else if lane == 2 {
        ((w as int / 65536) % 256) as u8
    } else {
        ((w as int / 16777216) % 256) as u8
    }
}

/// A 32-bit register reassembled from its four byte lanes with lane
/// `lane` replaced by `v`.
pub open spec fn w_set_lane(w: u32, lane: int, v: u8) -> u32 {
    let l0: int = if lane == 0 { v as int } else { w_lane(w, 0) as int };
    let l1: int = if lane == 1 { v as int } else { w_lane(w, 1) as int };
    let l2: int = if lane == 2 { v as int } else { w_lane(w, 2) as int };
    let l3: int = if lane == 3 { v as int } else { w_lane(w, 3) as int };
    (l0 + 256 * l1 + 65536 * l2 + 16777216 * l3) as u32
}

/// A 32-bit word assembled from four byte lanes, little-endian.
pub open spec fn w_from_lanes(b0: u8, b1: u8, b2: u8, b3: u8) -> u32 {
    (b0 + 256 * b1 + 65536 * b2 + 16777216 * b3) as u32
}

/// MMIO byte read of a timer block: the counter, mode and target each sit
/// in the low half of a four-byte slot whose upper two bytes read zero.
pub open spec fn timer_byte_spec(t: TimerView, lane: int) -> u8 {
    if lane == 0 {
        (t.counter as int % 256) as u8
    } else if lane == 1 {
        (t.counter as int / 256) as u8
    } else if lane == 4 {
        (t.mode as int % 256) as u8
    } else if lane == 5 {
        (t.mode as int / 256) as u8
    } else if lane == 8 {
        (t.target as int % 256) as u8
    } else if lane == 9 {
        (t.target as int / 256) as u8
    } else {
        0u8
    }
}

/// MMIO byte write of a timer block: counter and target take the byte in
/// the addressed lane; a mode byte goes through the mode-write protocol
/// (counter cleared, IRQ re-armed, line forced deasserted); the upper two
/// bytes of each slot ignore writes.
pub open spec fn timer_byte_write_spec(t: TimerView, lane: int, v: u8) -> TimerView {
    if lane == 0 {
        TimerView { counter: h_set_lo(t.counter, v), ..t }
    } else if lane == 1 {
        TimerView { counter: h_set_hi(t.counter, v), ..t }
    } else if lane == 4 {
        t.write_mode_spec(h_set_lo(t.mode, v))
    } else if lane == 5 {
        t.write_mode_spec(h_set_hi(t.mode, v))
    } else if lane == 8 {
        TimerView { target: h_set_lo(t.target, v), ..t }
    } else if lane == 9 {
        TimerView { target: h_set_hi(t.target, v), ..t }
    } else {
        t
    }
}

/// Mathematical state of the bus.
#[verifier::ext_equal]
pub struct BusView {
    pub kernel: Seq<u8>,
    pub ram: Seq<u8>,
    pub scratchpad: Seq<u8>,
    pub kernel_rom: Seq<u8>,
    pub cache_ctl: Seq<u8>,
    pub istat: u32,
    pub imask: u32,
    pub timer0: TimerView,
    pub timer1: TimerView,
    pub timer2: TimerView,
    pub gpu: GpuView,
}

impl BusView {
    pub open spec fn wf(self) -> bool {
        &&& self.kernel.len() == KERNEL_BYTES
        &&& self.ram.len() == RAM_BYTES
        &&& self.scratchpad.len() == SCRATCH_BYTES
        &&& self.kernel_rom.len() == ROM_BYTES
        &&& self.cache_ctl.len() == CACHE_CTL_BYTES
        &&& self.gpu.wf()
    }

    pub open spec fn timer(self, i: int) -> TimerView {
        if i == 0 {
            self.timer0
        } else if i == 1 {
            self.timer1
        } else {
            self.timer2
        }
    }

    pub open spec fn with_timer(self, i: int, t: TimerView) -> BusView {
        if i == 0 {
            BusView { timer0: t, ..self }
        } else if i == 1 {
            BusView { timer1: t, ..self }
        } else {
            BusView { timer2: t, ..self }
        }
    }
}

/// Decoded byte read.  Unmapped addresses, and byte access to the
/// word-sized GPU ports, give a bus error.  The expansion-ROM window is
/// not populated and reads as unmapped.  (Opaque: callers reason through
/// `mem_read_byte`'s contract; proofs about the decode itself reveal it.)
#[verifier::opaque]
pub open spec fn bus_read_byte_spec(b: BusView, addr: u32) -> Result<u8, ExceptionType> {
    if addr < 0x10000 {
        Ok(b.kernel[addr as int])
    } else if 0x8000_0000 <= addr < 0x8001_0000 {
        Ok(b.kernel[addr - 0x8000_0000])
    } else if 0xA000_0000 <= addr < 0xA001_0000 {
        Ok(b.kernel[addr - 0xA000_0000])
    } else if 0x10_0000 <= addr < 0x20_0000 {
        Ok(b.ram[addr - 0x10_0000])
    } else if 0x8010_0000 <= addr < 0x8020_0000 {
        Ok(b.ram[addr - 0x8010_0000])
    } else if 0xA010_0000 <= addr < 0xA020_0000 {
        Ok(b.ram[addr - 0xA010_0000])
    } else if 0x1F80_0000 <= addr < 0x1F80_0400 {
        Ok(b.scratchpad[addr - 0x1F80_0000])
    } else if 0x9F80_0000 <= addr < 0x9F80_0400 {
        Ok(b.scratchpad[addr - 0x9F80_0000])
    } else if 0x1FC0_0000 <= addr < 0x1FC8_0000 {
        Ok(b.kernel_rom[addr - 0x1FC0_0000])
    } else if 0x9FC0_0000 <= addr < 0x9FC8_0000 {
        Ok(b.kernel_rom[addr - 0x9FC0_0000])
    } else if 0xBFC0_0000 <= addr < 0xBFC8_0000 {
        Ok(b.kernel_rom[addr - 0xBFC0_0000])
    } else if 0x1F80_1070 <= addr < 0x1F80_1074 {
        Ok(w_lane(b.istat, addr - 0x1F80_1070))
    } else if 0x1F80_1074 <= addr < 0x1F80_1078 {
        Ok(w_lane(b.imask, addr - 0x1F80_1074))
    } else if 0x1F80_1100 <= addr < 0x1F80_1130 {
        let off = addr - 0x1F80_1100;
        if off % 16 < 12 {
            Ok(timer_byte_spec(b.timer(off / 16), off % 16))
        } else {
            Err(ExceptionType::BusErrorLoad)
        }
    } else if 0xFFFE_0000 <= addr < 0xFFFE_0200 {
        Ok(b.cache_ctl[addr - 0xFFFE_0000])
    } else {
        Err(ExceptionType::BusErrorLoad)
    }
}

/// Decoded byte write.  Interrupt-status bytes acknowledge: a zero bit in
/// the written value clears the pending bit; mask bytes store the value.
/// (Opaque, as `bus_read_byte_spec` is.)
#[verifier::opaque]
pub open spec fn bus_write_byte_spec(b: BusView, addr: u32, val: u8) -> Result<
    BusView,
    ExceptionType,
> {
    if addr < 0x10000 {
        Ok(BusView { kernel: b.kernel.update(addr as int, val), ..b })
    } else if 0x8000_0000 <= addr < 0x8001_0000 {
        Ok(BusView { kernel: b.kernel.update(addr - 0x8000_0000, val), ..b })
    } else if 0xA000_0000 <= addr < 0xA001_0000 {
        Ok(BusView { kernel: b.kernel.update(addr - 0xA000_0000, val), ..b })
    } else if 0x10_0000 <= addr < 0x20_0000 {
        Ok(BusView { ram: b.ram.update(addr - 0x10_0000, val), ..b })
    } else if 0x8010_0000 <= addr < 0x8020_0000 {
        Ok(BusView { ram: b.ram.update(addr - 0x8010_0000, val), ..b })
    } else if 0xA010_0000 <= addr < 0xA020_0000 {
        Ok(BusView { ram: b.ram.update(addr - 0xA010_0000, val), ..b })
    } else if 0x1F80_0000 <= addr < 0x1F80_0400 {
        Ok(BusView { scratchpad: b.scratchpad.update(addr - 0x1F80_0000, val), ..b })
    } else if 0x9F80_0000 <= addr < 0x9F80_0400 {
        Ok(BusView { scratchpad: b.scratchpad.update(addr - 0x9F80_0000, val), ..b })
    } else if 0x1FC0_0000 <= addr < 0x1FC8_0000 {
        Ok(BusView { kernel_rom: b.kernel_rom.update(addr - 0x1FC0_0000, val), ..b })
    } else if 0x9FC0_0000 <= addr < 0x9FC8_0000 {
        Ok(BusView { kernel_rom: b.kernel_rom.update(addr - 0x9FC0_0000, val), ..b })
    } else if 0xBFC0_0000 <= addr < 0xBFC8_0000 {
        Ok(BusView { kernel_rom: b.kernel_rom.update(addr - 0xBFC0_0000, val), ..b })
    } else if 0x1F80_1070 <= addr < 0x1F80_1074 {
        let lane = addr - 0x1F80_1070;
        Ok(BusView { istat: w_set_lane(b.istat, lane, w_lane(b.istat, lane) & val), ..b })
    } else if 0x1F80_1074 <= addr < 0x1F80_1078 {
        Ok(BusView { imask: w_set_lane(b.imask, addr - 0x1F80_1074, val), ..b })
    } else if 0x1F80_1100 <= addr < 0x1F80_1130 {
        let off = addr - 0x1F80_1100;
        if off % 16 < 12 {
            Ok(
                b.with_timer(
                    off / 16,
                    timer_byte_write_spec(b.timer(off / 16), off % 16, val),
                ),
            )
        } else {
            Err(ExceptionType::BusErrorLoad)
        }
    } else if 0xFFFE_0000 <= addr < 0xFFFE_0200 {
        Ok(BusView { cache_ctl: b.cache_ctl.update(addr - 0xFFFE_0000, val), ..b })
    } else {
        Err(ExceptionType::BusErrorLoad)
    }
}

/// Every mapped byte address sits below the top of the cache-control
/// window, so `addr + 3` cannot wrap during a word access that started on
/// a mapped byte.
pub proof fn lemma_mapped_byte_bound(b: BusView, addr: u32)
    requires
        bus_read_byte_spec(b, addr) is Ok,
    ensures
        addr < 0xFFFE_0200,
{
    reveal(bus_read_byte_spec);
}

/// Every mapped byte address accepts its write below the top of the
/// cache-control window, like `lemma_mapped_byte_bound` for reads.
pub proof fn lemma_mapped_write_bound(b: BusView, addr: u32, v: u8)
    requires
        bus_write_byte_spec(b, addr, v) is Ok,
    ensures
        addr < 0xFFFE_0200,
{
    reveal(bus_write_byte_spec);
}

/// Decoded halfword read: two byte reads, little-endian, the first error
/// winning.
pub open spec fn bus_read_half_spec(b: BusView, addr: u32) -> Result<u16, ExceptionType> {
    match bus_read_byte_spec(b, addr) {
        Err(e) => Err(e),
        Ok(b0) => match bus_read_byte_spec(b, (addr + 1) as u32) {
            Err(e) => Err(e),
            Ok(b1) => Ok((b0 + 256 * b1) as u16),
        },
    }
}

/// Decoded word read: the word-sized GPU ports first, then four byte
/// reads, little-endian.
pub open spec fn bus_read_word_spec(b: BusView, addr: u32) -> Result<u32, ExceptionType> {
    if addr == 0x1F80_1810 {
        Ok(0x1400_0000u32)
    } else if addr == 0x1F80_1814 {
        Ok(b.gpu.status | 0x1400_0000u32)
    } else {
        match bus_read_byte_spec(b, addr) {
            Err(e) => Err(e),
            Ok(b0) => match bus_read_byte_spec(b, (addr + 1) as u32) {
                Err(e) => Err(e),
                Ok(b1) => match bus_read_byte_spec(b, (addr + 2) as u32) {
                    Err(e) => Err(e),
                    Ok(b2) => match bus_read_byte_spec(b, (addr + 3) as u32) {
                        Err(e) => Err(e),
                        Ok(b3) => Ok((b0 + 256 * b1 + 65536 * b2 + 16777216 * b3) as u32),
                    },
                },
            },
        }
    }
}

/// Decoded halfword write: two byte writes, low byte first.  The pair is
/// the resulting bus state and the error, if any; an error on the second
/// byte leaves the first byte written.
pub open spec fn bus_write_half_spec(b: BusView, addr: u32, val: u16) -> (
    BusView,
    Option<ExceptionType>,
) {
    match bus_write_byte_spec(b, addr, (val as int % 256) as u8) {
        Err(e) => (b, Some(e)),
        Ok(b1) => match bus_write_byte_spec(b1, (addr + 1) as u32, (val as int / 256) as u8) {
            Err(e) => (b1, Some(e)),
            Ok(b2) => (b2, None),
        },
    }
}

/// Decoded word write: the word-sized GPU ports first, then four byte
/// writes, low byte first.  The pair is the resulting bus state and the
/// error, if any; bytes written before an error stay written.
pub open spec fn bus_write_word_spec(b: BusView, addr: u32, val: u32) -> (
    BusView,
    Option<ExceptionType>,
) {
    if addr == 0x1F80_1810 {
        (BusView { gpu: gp0_spec(b.gpu, val), ..b }, None)
    } else if addr == 0x1F80_1814 {
        (b, None)
    } else {
        match bus_write_byte_spec(b, addr, w_lane(val, 0)) {
            Err(e) => (b, Some(e)),
            Ok(b1) => match bus_write_byte_spec(b1, (addr + 1) as u32, w_lane(val, 1)) {
                Err(e) => (b1, Some(e)),
                Ok(b2) => match bus_write_byte_spec(b2, (addr + 2) as u32, w_lane(val, 2)) {
                    Err(e) => (b2, Some(e)),
                    Ok(b3) => match bus_write_byte_spec(b3, (addr + 3) as u32, w_lane(val, 3)) {
                        Err(e) => (b3, Some(e)),
                        Ok(b4) => (b4, None),
                    },
                },
            },
        }
    }
}

/// Addresses decoding to a plain byte-storage region (the kernel area,
/// main RAM, the scratchpad and the BIOS ROM through every mirror, and
/// the cache-control window), as opposed to MMIO registers or unmapped
/// space.
pub open spec fn is_storage_addr(addr: u32) -> bool {
    ||| addr < 0x10000
    ||| 0x8000_0000 <= addr < 0x8001_0000
    ||| 0xA000_0000 <= addr < 0xA001_0000
    ||| 0x10_0000 <= addr < 0x20_0000
    ||| 0x8010_0000 <= addr < 0x8020_0000
    ||| 0xA010_0000 <= addr < 0xA020_0000
    ||| 0x1F80_0000 <= addr < 0x1F80_0400
    ||| 0x9F80_0000 <= addr < 0x9F80_0400
    ||| 0x1FC0_0000 <= addr < 0x1FC8_0000
    ||| 0x9FC0_0000 <= addr < 0x9FC8_0000
    ||| 0xBFC0_0000 <= addr < 0xBFC8_0000
    ||| 0xFFFE_0000 <= addr < 0xFFFE_0200
}

/// A word is exactly its four byte lanes reassembled.
pub proof fn lemma_word_lanes(w: u32)
    ensures
        w_from_lanes(w_lane(w, 0), w_lane(w, 1), w_lane(w, 2), w_lane(w, 3)) == w,
{
    let x = w as int;
    vstd::arithmetic::div_mod::lemma_div_denominator(x, 256, 256);
    vstd::arithmetic::div_mod::lemma_div_denominator(x, 65536, 256);
    assert(x == 256 * (x / 256) + x % 256);
    assert(x / 256 == 256 * ((x / 256) / 256) + (x / 256) % 256);
    assert(x / 65536 == 256 * ((x / 65536) / 256) + (x / 65536) % 256);
    assert(x / 16777216 < 256);
}

/// Writing a word to any 4-byte-aligned storage address and reading it
/// back yields the written value: the four byte writes land in the same
/// region at consecutive offsets, and the read reassembles them.  (MMIO
/// registers are excluded: timer slots read their upper bytes as zero,
/// mode writes pass through the mode-write protocol, status writes
/// acknowledge, and the GPU ports pair a command port with a status
/// response.)
#[verifier::rlimit(100)]
pub proof fn lemma_mem_word_round_trip(b: BusView, addr: u32, val: u32)
    requires
        b.wf(),
        addr % 4 == 0,
        is_storage_addr(addr),
    ensures
        bus_write_word_spec(b, addr, val).1 is None,
        bus_read_word_spec(bus_write_word_spec(b, addr, val).0, addr) == Ok::<
            u32,
            ExceptionType,
        >(val),
{
    reveal(bus_read_byte_spec);
    reveal(bus_write_byte_spec);
    lemma_word_lanes(val);
}

/// One bus cycle: each timer ticks once and any raised timer IRQ sets its
/// bit (4, 5 or 6) in the interrupt status word.
pub open spec fn bus_cycle_spec(b: BusView) -> BusView {
    let s0 = if b.timer0.tick_raises() {
        0x10u32
    } else {
        0u32
    };
    let s1 = if b.timer1.tick_raises() {
        0x20u32
    } else {
        0u32
    };
    let s2 = if b.timer2.tick_raises() {
        0x40u32
    } else {
        0u32
    };
    BusView {
        timer0: b.timer0.tick_spec(),
        timer1: b.timer1.tick_spec(),
        timer2: b.timer2.tick_spec(),
        istat: b.istat | s0 | s1 | s2,
        ..b
    }
}

/// `n` bus cycles in sequence.
pub open spec fn bus_cycles_spec(b: BusView, n: nat) -> BusView
    decreases n,
{
    if n == 0 {
        b
    } else {
        bus_cycle_spec(bus_cycles_spec(b, (n - 1) as nat))
    }
}

/// `tick(n)`: each of the `n` cycles ticks each timer once, then the
/// GPU's frame counter advances by `n`.
pub open spec fn bus_tick_spec(b: BusView, n: u32) -> BusView {
    let b2 = bus_cycles_spec(b, n as nat);
    BusView { gpu: gpu_tick_spec(b2.gpu, n), ..b2 }
}

/// The memory bus.
pub struct Bus {
    pub kernel: Vec<u8>,
    pub ram: Vec<u8>,
    pub scratchpad: Vec<u8>,
    pub kernel_rom: Vec<u8>,
    pub cache_ctl: Vec<u8>,
    pub interrupt_status: u32,
    pub interrupt_mask: u32,
    pub timer0: Timer,
    pub timer1: Timer,
    pub timer2: Timer,
    pub gpu: Gpu,
}

impl View for Bus {
    type V = BusView;

    open spec fn view(&self) -> BusView {
        BusView {
            kernel: self.kernel@,
            ram: self.ram@,
            scratchpad: self.scratchpad@,
            kernel_rom: self.kernel_rom@,
            cache_ctl: self.cache_ctl@,
            istat: self.interrupt_status,
            imask: self.interrupt_mask,
            timer0: self.timer0@,
            timer1: self.timer1@,
            timer2: self.timer2@,
            gpu: self.gpu@,
        }
    }
}

impl Bus {
    pub fn new() -> (b: Bus)
        ensures
            b@.wf(),
            forall|i: int| 0 <= i < KERNEL_BYTES ==> b@.kernel[i] == 0u8,
            forall|i: int| 0 <= i < RAM_BYTES ==> b@.ram[i] == 0u8,
            forall|i: int| 0 <= i < SCRATCH_BYTES ==> b@.scratchpad[i] == 0u8,
            forall|i: int| 0 <= i < ROM_BYTES ==> b@.kernel_rom[i] == 0u8,
            forall|i: int| 0 <= i < CACHE_CTL_BYTES ==> b@.cache_ctl[i] == 0u8,
            b@.istat == 0u32,
            b@.imask == 0u32,
            b@.timer0 == (TimerView { counter: 0u16, mode: 0u16, target: 0xFFu16, allow_irq: true }),
            b@.timer1 == (TimerView { counter: 0u16, mode: 0u16, target: 0xFFu16, allow_irq: true }),
            b@.timer2 == (TimerView { counter: 0u16, mode: 0u16, target: 0xFFu16, allow_irq: true }),
            b@.gpu.state == crate::gpu::Gp0State::WaitingForCommand,
            b@.gpu.counter == 0u64,
            b@.gpu.frame_ready == false,
    {
        Bus {
            kernel: zero_bytes(KERNEL_BYTES),
            ram: zero_bytes(RAM_BYTES),
            scratchpad: zero_bytes(SCRATCH_BYTES),
            kernel_rom: zero_bytes(ROM_BYTES),
            cache_ctl: zero_bytes(CACHE_CTL_BYTES),
            interrupt_status: 0,
            interrupt_mask: 0,
            timer0: Timer::new(),
            timer1: Timer::new(),
            timer2: Timer::new(),
            gpu: Gpu::new(),
        }
    }

    /// MMIO byte read of one timer block at offset `lane` (0..11).
    fn timer_byte(t: &Timer, lane: u32) -> (r: u8)
        requires
            lane < 12,
        ensures
            r == timer_byte_spec(t@, lane as int),
    {
        if lane == 0 {
            (t.counter % 256) as u8
        } else if lane == 1 {
            (t.counter / 256) as u8
        } else if lane == 4 {
            (t.mode % 256) as u8
        } else if lane == 5 {
            (t.mode / 256) as u8
        } else if lane == 8 {
            (t.target_value % 256) as u8
        } else if lane == 9 {
            (t.target_value / 256) as u8
        } else {
            0
        }
    }

    /// MMIO byte write of one timer block at offset `lane` (0..11).
    fn timer_write_byte(t: &mut Timer, lane: u32, val: u8)
        requires
            lane < 12,
        ensures
            final(t)@ == timer_byte_write_spec(old(t)@, lane as int, val),
    {
        if lane == 0 {
            t.counter = val as u16 + 256 * (t.counter / 256);
        } else if lane == 1 {
            t.counter = (t.counter % 256) + 256 * (val as u16);
        } else if lane == 4 {
            let m = val as u16 + 256 * (t.mode / 256);
            t.write_to_mode(m);
        } else if lane == 5 {
            let m = (t.mode % 256) + 256 * (val as u16);
            t.write_to_mode(m);
        } else if lane == 8 {
            t.target_value = val as u16 + 256 * (t.target_value / 256);
        } else if lane == 9 {
            t.target_value = (t.target_value % 256) + 256 * (val as u16);
        }
    }

    /// A 32-bit word assembled from four byte lanes, little-endian.
    pub(crate) fn word_from_lanes(b0: u8, b1: u8, b2: u8, b3: u8) -> (r: u32)
        ensures
            r == w_from_lanes(b0, b1, b2, b3),
    {
        b0 as u32 + 256 * (b1 as u32) + 65536 * (b2 as u32) + 16777216 * (b3 as u32)
    }

    /// Byte lane `lane` of a 32-bit register.
    pub(crate) fn word_lane(w: u32, lane: u32) -> (r: u8)
        requires
            lane < 4,
        ensures
            r == w_lane(w, lane as int),
    {
        if lane == 0 {
            (w % 256) as u8
        } else if lane == 1 {
            ((w / 256) % 256) as u8
        } else if lane == 2 {
            ((w / 65536) % 256) as u8
        } else {
            ((w / 16777216) % 256) as u8
        }
    }

    /// A 32-bit register with byte lane `lane` replaced by `v`.
    fn word_set_lane(w: u32, lane: u32, v: u8) -> (r: u32)
        requires
            lane < 4,
        ensures
            r == w_set_lane(w, lane as int, v),
    {
        let l0: u32 = if lane == 0 { v as u32 } else { w % 256 };
        let l1: u32 = if lane == 1 { v as u32 } else { (w / 256) % 256 };
        let l2: u32 = if lane == 2 { v as u32 } else { (w / 65536) % 256 };
        let l3: u32 = if lane == 3 { v as u32 } else { (w / 16777216) % 256 };
        l0 + 256 * l1 + 65536 * l2 + 16777216 * l3
    }

    /// Read one byte at `addr`.
    pub fn mem_read_byte(&self, addr: u32) -> (r: Result<u8, ExceptionType>)
        requires
            self@.wf(),
        ensures
            r == bus_read_byte_spec(self@, addr),
    {
        proof {
            reveal(bus_read_byte_spec);
        }
        if addr < 0x10000 {
            Ok(self.kernel[addr as usize])
        } else if 0x8000_0000 <= addr && addr < 0x8001_0000 {
            Ok(self.kernel[(addr - 0x8000_0000) as usize])
        } else if 0xA000_0000 <= addr && addr < 0xA001_0000 {
            Ok(self.kernel[(addr - 0xA000_0000) as usize])
        } else if 0x10_0000 <= addr && addr < 0x20_0000 {
            Ok(self.ram[(addr - 0x10_0000) as usize])
        } else if 0x8010_0000 <= addr && addr < 0x8020_0000 {
            Ok(self.ram[(addr - 0x8010_0000) as usize])
        } else if 0xA010_0000 <= addr && addr < 0xA020_0000 {
            Ok(self.ram[(addr - 0xA010_0000) as usize])
        } else if 0x1F80_0000 <= addr && addr < 0x1F80_0400 {
            Ok(self.scratchpad[(addr - 0x1F80_0000) as usize])
        } else if 0x9F80_0000 <= addr && addr < 0x9F80_0400 {
            Ok(self.scratchpad[(addr - 0x9F80_0000) as usize])
        } else if 0x1FC0_0000 <= addr && addr < 0x1FC8_0000 {
            Ok(self.kernel_rom[(addr - 0x1FC0_0000) as usize])
        } else if 0x9FC0_0000 <= addr && addr < 0x9FC8_0000 {
            Ok(self.kernel_rom[(addr - 0x9FC0_0000) as usize])
        } else if 0xBFC0_0000 <= addr && addr < 0xBFC8_0000 {
            Ok(self.kernel_rom[(addr - 0xBFC0_0000) as usize])
        } else if 0x1F80_1070 <= addr && addr < 0x1F80_1074 {
            Ok(Bus::word_lane(self.interrupt_status, addr - 0x1F80_1070))
        } else if 0x1F80_1074 <= addr && addr < 0x1F80_1078 {
            Ok(Bus::word_lane(self.interrupt_mask, addr - 0x1F80_1074))
        } else if 0x1F80_1100 <= addr && addr < 0x1F80_1130 {
            let off = addr - 0x1F80_1100;
            let lane = off % 16;
            if lane < 12 {
                let ti = off / 16;
                if ti == 0 {
                    Ok(Bus::timer_byte(&self.timer0, lane))
                } else if ti == 1 {
                    Ok(Bus::timer_byte(&self.timer1, lane))
                } else {
                    Ok(Bus::timer_byte(&self.timer2, lane))
                }
            } else {
                Err(ExceptionType::BusErrorLoad)
            }
        } else if 0xFFFE_0000 <= addr && addr < 0xFFFE_0200 {
            Ok(self.cache_ctl[(addr - 0xFFFE_0000) as usize])
        } else {
            Err(ExceptionType::BusErrorLoad)
        }
    }

    /// Write one byte at `addr`.
    pub fn mem_write_byte(&mut self, addr: u32, val: u8) -> (r: Result<(), ExceptionType>)
        requires
            old(self)@.wf(),
        ensures
            match bus_write_byte_spec(old(self)@, addr, val) {
                Ok(b2) => r is Ok && final(self)@ == b2,
                Err(e) => r == Err::<(), ExceptionType>(e) && final(self)@ == old(self)@,
            },
            final(self)@.wf(),
    {
        proof {
            reveal(bus_write_byte_spec);
        }
        if addr < 0x10000 {
            self.kernel[addr as usize] = val;
            Ok(())
        } else if 0x8000_0000 <= addr && addr < 0x8001_0000 {
            self.kernel[(addr - 0x8000_0000) as usize] = val;
            Ok(())
        } else if 0xA000_0000 <= addr && addr < 0xA001_0000 {
            self.kernel[(addr - 0xA000_0000) as usize] = val;
            Ok(())
        } else if 0x10_0000 <= addr && addr < 0x20_0000 {
            self.ram[(addr - 0x10_0000) as usize] = val;
            Ok(())
        } else if 0x8010_0000 <= addr && addr < 0x8020_0000 {
            self.ram[(addr - 0x8010_0000) as usize] = val;
            Ok(())
        } else if 0xA010_0000 <= addr && addr < 0xA020_0000 {
            self.ram[(addr - 0xA010_0000) as usize] = val;
            Ok(())
        } else if 0x1F80_0000 <= addr && addr < 0x1F80_0400 {
            self.scratchpad[(addr - 0x1F80_0000) as usize] = val;
            Ok(())
        } else if 0x9F80_0000 <= addr && addr < 0x9F80_0400 {
            self.scratchpad[(addr - 0x9F80_0000) as usize] = val;
            Ok(())
        } else if 0x1FC0_0000 <= addr && addr < 0x1FC8_0000 {
            self.kernel_rom[(addr - 0x1FC0_0000) as usize] = val;
            Ok(())
        } else if 0x9FC0_0000 <= addr && addr < 0x9FC8_0000 {
            self.kernel_rom[(addr - 0x9FC0_0000) as usize] = val;
            Ok(())
        } else if 0xBFC0_0000 <= addr && addr < 0xBFC8_0000 {
            self.kernel_rom[(addr - 0xBFC0_0000) as usize] = val;
            Ok(())
        } else if 0x1F80_1070 <= addr && addr < 0x1F80_1074 {
            let lane = addr - 0x1F80_1070;
            let cur = Bus::word_lane(self.interrupt_status, lane);
            self.interrupt_status = Bus::word_set_lane(self.interrupt_status, lane, cur & val);
            Ok(())
        } else if 0x1F80_1074 <= addr && addr < 0x1F80_1078 {
            let lane = addr - 0x1F80_1074;
            self.interrupt_mask = Bus::word_set_lane(self.interrupt_mask, lane, val);
            Ok(())
        } else if 0x1F80_1100 <= addr && addr < 0x1F80_1130 {
            let off = addr - 0x1F80_1100;
            let lane = off % 16;
            if lane < 12 {
                let ti = off / 16;
                if ti == 0 {
                    Bus::timer_write_byte(&mut self.timer0, lane, val);
                } else if ti == 1 {
                    Bus::timer_write_byte(&mut self.timer1, lane, val);
                } else {
                    Bus::timer_write_byte(&mut self.timer2, lane, val);
                }
                Ok(())
            } else {
                Err(ExceptionType::BusErrorLoad)
            }
        } else if 0xFFFE_0000 <= addr && addr < 0xFFFE_0200 {
            self.cache_ctl[(addr - 0xFFFE_0000) as usize] = val;
            Ok(())
        } else {
            Err(ExceptionType::BusErrorLoad)
        }
    }

    /// Read a little-endian halfword at `addr`.
    pub fn mem_read_halfword(&self, addr: u32) -> (r: Result<u16, ExceptionType>)
        requires
            self@.wf(),
        ensures
            r == bus_read_half_spec(self@, addr),
    {
        let b0 = match self.mem_read_byte(addr) {
            Ok(v) => v,
            Err(e) => {
                return Err(e);
            },
        };
        proof {
            lemma_mapped_byte_bound(self@, addr);
        }
        let b1 = match self.mem_read_byte(addr + 1) {
            Ok(v) => v,
            Err(e) => {
                return Err(e);
            },
        };
        Ok(b0 as u16 + 256 * (b1 as u16))
    }

    /// Write a little-endian halfword at `addr`.
    pub fn mem_write_halfword(&mut self, addr: u32, val: u16) -> (r: Result<(), ExceptionType>)
        requires
            old(self)@.wf(),
        ensures
            final(self)@ == bus_write_half_spec(old(self)@, addr, val).0,
            match bus_write_half_spec(old(self)@, addr, val).1 {
                None => r is Ok,
                Some(e) => r == Err::<(), ExceptionType>(e),
            },
            final(self)@.wf(),
    {
        match self.mem_write_byte(addr, (val % 256) as u8) {
            Ok(_) => {},
            Err(e) => {
                return Err(e);
            },
        };
        proof {
            lemma_mapped_write_bound(old(self)@, addr, (val % 256) as u8);
        }
        self.mem_write_byte(addr + 1, (val / 256) as u8)
    }

    /// Read a little-endian word at `addr`; the GPU ports respond with
    /// GPUREAD and GPUSTAT.
    pub fn mem_read_word(&self, addr: u32) -> (r: Result<u32, ExceptionType>)
        requires
            self@.wf(),
        ensures
            r == bus_read_word_spec(self@, addr),
    {
        if addr == 0x1F80_1810 {
            return Ok(self.gpu.gpuread());
        }
        if addr == 0x1F80_1814 {
            return Ok(self.gpu.gpustat());
        }
        let b0 = match self.mem_read_byte(addr) {
            Ok(v) => v,
            Err(e) => {
                return Err(e);
            },
        };
        proof {
            lemma_mapped_byte_bound(self@, addr);
        }
        let b1 = match self.mem_read_byte(addr + 1) {
            Ok(v) => v,
            Err(e) => {
                return Err(e);
            },
        };
        let b2 = match self.mem_read_byte(addr + 2) {
            Ok(v) => v,
            Err(e) => {
                return Err(e);
            },
        };
        let b3 = match self.mem_read_byte(addr + 3) {
            Ok(v) => v,
            Err(e) => {
                return Err(e);
            },
        };
        Ok(b0 as u32 + 256 * (b1 as u32) + 65536 * (b2 as u32) + 16777216 * (b3 as u32))
    }

    /// Write a little-endian word at `addr`; the GPU ports take GP0 and
    /// GP1 command words.
    pub fn mem_write_word(&mut self, addr: u32, val: u32) -> (r: Result<(), ExceptionType>)
        requires
            old(self)@.wf(),
        ensures
            final(self)@ == bus_write_word_spec(old(self)@, addr, val).0,
            match bus_write_word_spec(old(self)@, addr, val).1 {
                None => r is Ok,
                Some(e) => r == Err::<(), ExceptionType>(e),
            },
            final(self)@.wf(),
    {
        if addr == 0x1F80_1810 {
            self.gpu.gp0_write(val);
            return Ok(());
        }
        if addr == 0x1F80_1814 {
            self.gpu.gp1_write(val);
            return Ok(());
        }
        match self.mem_write_byte(addr, (val % 256) as u8) {
            Ok(_) => {},
            Err(e) => {
                return Err(e);
            },
        };
        proof {
            lemma_mapped_write_bound(old(self)@, addr, (val % 256) as u8);
        }
        match self.mem_write_byte(addr + 1, ((val / 256) % 256) as u8) {
            Ok(_) => {},
            Err(e) => {
                return Err(e);
            },
        };
        match self.mem_write_byte(addr + 2, ((val / 65536) % 256) as u8) {
            Ok(_) => {},
            Err(e) => {
                return Err(e);
            },
        };
        self.mem_write_byte(addr + 3, ((val / 16777216) % 256) as u8)
    }

    /// Fill the BIOS ROM region from a byte image, truncating an image
    /// longer than the region; trailing ROM bytes keep their value.
    pub fn load_bios(&mut self, data: &Vec<u8>)
        requires
            old(self)@.wf(),
        ensures
            final(self)@.wf(),
            final(self)@ == (BusView {
                kernel_rom: final(self)@.kernel_rom,
                ..old(self)@
            }),
            final(self)@.kernel_rom.len() == ROM_BYTES,
            forall|i: int|
                0 <= i < ROM_BYTES ==> final(self)@.kernel_rom[i] == (if i < data@.len() {
                    data@[i]
                } else {
                    old(self)@.kernel_rom[i]
                }),
    {
        let n = if data.len() < ROM_BYTES {
            data.len()
        } else {
            ROM_BYTES
        };
        let mut i: usize = 0;
        while i < n
            invariant
                old(self)@.wf(),
                n <= data@.len(),
                n <= ROM_BYTES,
                i <= n,
                self@ == (BusView { kernel_rom: self@.kernel_rom, ..old(self)@ }),
                self@.kernel_rom.len() == ROM_BYTES,
                forall|j: int|
                    0 <= j < ROM_BYTES ==> self@.kernel_rom[j] == (if j < i {
                        data@[j]
                    } else {
                        old(self)@.kernel_rom[j]
                    }),
            decreases n - i,
        {
            let b = data[i];
            self.kernel_rom[i] = b;
            i = i + 1;
        }
    }

    /// Advance time by `cycles` bus cycles: each cycle ticks every timer
    /// once, latching raised IRQs into the status word, and the GPU frame
    /// counter advances by `cycles`.
    pub fn tick(&mut self, cycles: u32)
        requires
            old(self)@.wf(),
            cycles <= FRAME_CYCLES,
        ensures
            final(self)@ == bus_tick_spec(old(self)@, cycles),
            final(self)@.wf(),
    {
        let mut i: u32 = 0;
        while i < cycles
            invariant
                i <= cycles,
                self@ == bus_cycles_spec(old(self)@, i as nat),
                self@.wf(),
                cycles <= FRAME_CYCLES,
            decreases cycles - i,
        {
            let ghost prev = self@;
            let r0 = self.timer0.tick();
            let r1 = self.timer1.tick();
            let r2 = self.timer2.tick();
            let s0: u32 = if r0 { 0x10 } else { 0 };
            let s1: u32 = if r1 { 0x20 } else { 0 };
            let s2: u32 = if r2 { 0x40 } else { 0 };
            self.interrupt_status = self.interrupt_status | s0 | s1 | s2;
            proof {
                assert(self@ =~= bus_cycle_spec(prev));
            }
            i = i + 1;
        }
        self.gpu.tick(cycles);
    }
}

} // verus!
