use ps1core::bus::Bus;
use ps1core::cpu::ExceptionType;
use ps1core::gpu::Gp0State;

// A word written to any storage region reads back, here through RAM.
#[test]
fn ram_word_round_trip() {
    let mut bus = Bus::new();
    bus.mem_write_word(0x100100, 0x12345678).unwrap();
    assert_eq!(bus.mem_read_word(0x100100).unwrap(), 0x12345678);
}

// The kernel area is one backing store behind three mirrors.
#[test]
fn kernel_mirrors_share_storage() {
    let mut bus = Bus::new();
    bus.mem_write_word(0x00001000, 0xCAFEF00D).unwrap();
    assert_eq!(bus.mem_read_word(0x80001000).unwrap(), 0xCAFEF00D);
    assert_eq!(bus.mem_read_word(0xA0001000).unwrap(), 0xCAFEF00D);
}

// RAM and the scratchpad mirror likewise, and bytes land little-endian.
#[test]
fn ram_mirrors_and_endianness() {
    let mut bus = Bus::new();
    bus.mem_write_word(0x80100000, 0x44332211).unwrap();
    assert_eq!(bus.mem_read_byte(0x00100000).unwrap(), 0x11);
    assert_eq!(bus.mem_read_byte(0x00100003).unwrap(), 0x44);
    assert_eq!(bus.mem_read_word(0xA0100000).unwrap(), 0x44332211);

    bus.mem_write_halfword(0x1F800010, 0xBEEF).unwrap();
    assert_eq!(bus.mem_read_halfword(0x9F800010).unwrap(), 0xBEEF);
}

// The BIOS ROM region accepts loads and reads back through its mirrors.
#[test]
fn rom_round_trip() {
    let mut bus = Bus::new();
    bus.mem_write_word(0x1FC00000, 0x0BADF00D).unwrap();
    assert_eq!(bus.mem_read_word(0xBFC00000).unwrap(), 0x0BADF00D);
    assert_eq!(bus.mem_read_word(0x9FC00000).unwrap(), 0x0BADF00D);
}

// Cache-control writes are observable and otherwise inert.
#[test]
fn cache_control_round_trip() {
    let mut bus = Bus::new();
    bus.mem_write_word(0xFFFE0130, 0x00000804).unwrap();
    assert_eq!(bus.mem_read_word(0xFFFE0130).unwrap(), 0x00000804);
}

// Unmapped space gives a bus error, on loads and on stores.
#[test]
fn unmapped_access_errors() {
    let mut bus = Bus::new();
    assert_eq!(
        bus.mem_read_word(0x12345678),
        Err(ExceptionType::BusErrorLoad)
    );
    assert_eq!(
        bus.mem_write_byte(0x1F000000, 1), // expansion-ROM window: unpopulated
        Err(ExceptionType::BusErrorLoad)
    );
}

// The interrupt mask stores what is written; byte reads pick lanes.
#[test]
fn interrupt_mask_lanes() {
    let mut bus = Bus::new();
    bus.mem_write_word(0x1F801074, 0x0000ABCD).unwrap();
    assert_eq!(bus.interrupt_mask, 0xABCD);
    assert_eq!(bus.mem_read_byte(0x1F801074).unwrap(), 0xCD);
    assert_eq!(bus.mem_read_byte(0x1F801075).unwrap(), 0xAB);
    assert_eq!(bus.mem_read_byte(0x1F801076).unwrap(), 0x00);
}

// Interrupt-status writes acknowledge: zero bits clear pending bits.
#[test]
fn interrupt_status_write_zero_clears() {
    let mut bus = Bus::new();
    bus.interrupt_status = 0xFF;
    bus.mem_write_byte(0x1F801070, 0x0F).unwrap();
    assert_eq!(bus.interrupt_status, 0x0F);
    bus.mem_write_word(0x1F801070, 0).unwrap();
    assert_eq!(bus.interrupt_status, 0);
}

// Timer counters are byte-addressable; the upper half of each slot
// reads as zero.
#[test]
fn timer_mmio_lanes() {
    let mut bus = Bus::new();
    bus.timer1.counter = 0x1234;
    assert_eq!(bus.mem_read_byte(0x1F801110).unwrap(), 0x34);
    assert_eq!(bus.mem_read_byte(0x1F801111).unwrap(), 0x12);
    assert_eq!(bus.mem_read_byte(0x1F801112).unwrap(), 0);
    assert_eq!(bus.mem_read_byte(0x1F801113).unwrap(), 0);
    assert_eq!(bus.mem_read_word(0x1F801110).unwrap(), 0x1234);
}

// Writing a timer's mode through MMIO goes through the mode-write
// protocol: counter cleared, low ten bits stored, IRQ line forced high.
#[test]
fn timer_mmio_mode_write() {
    let mut bus = Bus::new();
    bus.timer0.counter = 55;
    bus.mem_write_halfword(0x1F801104, 0x0020).unwrap();
    assert_eq!(bus.timer0.counter, 0);
    assert_eq!(bus.timer0.mode, 0x420);
    assert_eq!(bus.mem_read_halfword(0x1F801104).unwrap(), 0x420);
}

// Timer target writes land in the 16-bit register.
#[test]
fn timer_mmio_target_write() {
    let mut bus = Bus::new();
    bus.mem_write_halfword(0x1F801128, 0x00FE).unwrap();
    assert_eq!(bus.timer2.target_value, 0xFE);
}

// The top four bytes of each timer slot are unmapped.
#[test]
fn timer_slot_tail_unmapped() {
    let mut bus = Bus::new();
    assert_eq!(
        bus.mem_read_byte(0x1F80110C),
        Err(ExceptionType::BusErrorLoad)
    );
}

// Each tick cycle advances every timer; a raise latches its status bit.
#[test]
fn tick_latches_timer_irq() {
    let mut bus = Bus::new();
    bus.timer0.write_to_mode(0x10); // irq at target
    bus.timer0.target_value = 2;
    bus.tick(2);
    assert_eq!(bus.timer0.counter, 2);
    assert_eq!(bus.timer1.counter, 2);
    assert_eq!(bus.timer2.counter, 2);
    assert_ne!(bus.interrupt_status & 0x10, 0); // timer0 -> bit 4
    assert_eq!(bus.interrupt_status & 0x60, 0);
}

// Ticking advances the GPU frame counter along with the timers.
#[test]
fn tick_advances_gpu() {
    let mut bus = Bus::new();
    bus.tick(10);
    assert_eq!(bus.gpu.counter, 10);
}

// The GPU ports are word-mapped: GP0 drives the command machine, the
// status port answers reads.
#[test]
fn gpu_ports_through_bus() {
    let mut bus = Bus::new();
    assert_eq!(bus.mem_read_word(0x1F801810).unwrap(), 0x14000000);
    assert_eq!(bus.mem_read_word(0x1F801814).unwrap(), 0x14000000);
    bus.mem_write_word(0x1F801810, 0xA0000000).unwrap();
    bus.mem_write_word(0x1F801810, 0).unwrap();
    bus.mem_write_word(0x1F801810, 0x00010001).unwrap(); // 1 x 1
    bus.mem_write_word(0x1F801810, 0x00005432).unwrap();
    assert!(matches!(bus.gpu.gp0_state, Gp0State::WaitingForCommand));
    assert_eq!(bus.gpu.vram[0], 0x32);
    assert_eq!(bus.gpu.vram[1], 0x54);
    // byte access to the word-sized ports is refused
    assert_eq!(
        bus.mem_read_byte(0x1F801810),
        Err(ExceptionType::BusErrorLoad)
    );
}

// A halfword straddling the end of a region writes its first byte and
// then faults.
#[test]
fn partial_write_at_region_end() {
    let mut bus = Bus::new();
    assert_eq!(
        bus.mem_write_halfword(0x0000FFFF, 0xAABB),
        Err(ExceptionType::BusErrorLoad)
    );
    assert_eq!(bus.mem_read_byte(0x0000FFFF).unwrap(), 0xBB);
}

// The BIOS loader fills the ROM from the start of the image.
#[test]
fn load_bios_fills_rom() {
    let mut bus = Bus::new();
    bus.load_bios(&vec![0x11, 0x22, 0x33]);
    assert_eq!(bus.mem_read_byte(0xBFC00000).unwrap(), 0x11);
    assert_eq!(bus.mem_read_byte(0xBFC00001).unwrap(), 0x22);
    assert_eq!(bus.mem_read_byte(0xBFC00002).unwrap(), 0x33);
    assert_eq!(bus.mem_read_byte(0xBFC00003).unwrap(), 0);
}

// A timer slot is not plain storage: the upper two bytes of the counter
// word ignore writes and read as zero, so a full word does not round
// trip there (unlike every storage region).
#[test]
fn timer_word_not_plain_storage() {
    let mut bus = Bus::new();
    bus.mem_write_word(0x1F801100, 0x12345678).unwrap();
    assert_eq!(bus.mem_read_word(0x1F801100).unwrap(), 0x5678);
}

// GP1 words are accepted without effect in this stub.
#[test]
fn gp1_write_is_inert() {
    let mut bus = Bus::new();
    bus.mem_write_word(0x1F801814, 0xFFFFFFFF).unwrap();
    assert_eq!(bus.mem_read_word(0x1F801814).unwrap(), 0x14000000);
    assert!(matches!(bus.gpu.gp0_state, Gp0State::WaitingForCommand));
}
