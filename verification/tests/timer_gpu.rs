use ps1core::gpu::{Gp0State, Gpu};
use ps1core::timer::Timer;

// IRQ at the counter maximum: one-shot raises on the wrap tick only.
#[test]
fn timer0_wrap_irq() {
    let mut t = Timer::new();
    t.write_to_mode(0x20); // irq-at-max, one-shot
    t.target_value = 0;
    for i in 0..65535u32 {
        let raised = t.tick();
        if i == 65534 {
            assert!(raised); // counter reached 0xFFFF
        } else {
            assert!(!raised);
        }
    }
    assert!(!t.tick()); // one-shot: silent after the raise
}

// With repeat set, the IRQ raises again on the next wrap.
#[test]
fn timer_wrap_irq_repeats() {
    let mut t = Timer::new();
    t.write_to_mode(0x60); // irq-at-max, repeat
    t.target_value = 0;
    let mut raises = 0u32;
    for _ in 0..131072u32 {
        if t.tick() {
            raises += 1;
        }
    }
    assert_eq!(raises, 2); // once per 65536 ticks
}

// IRQ at the target value, and the reset-after-target counter clear.
#[test]
fn timer_target_irq_and_reset() {
    let mut t = Timer::new();
    t.write_to_mode(0x18); // reset after target + irq at target
    t.target_value = 3;
    assert!(!t.tick());
    assert!(!t.tick());
    assert!(t.tick()); // counter reached 3
    assert!(!t.tick()); // counter cleared after passing the target
    assert_eq!(t.counter, 0);
}

// A pulse-mode raise drives the IRQ line (mode bit 10) low.
#[test]
fn timer_pulse_clears_irq_line() {
    let mut t = Timer::new();
    t.write_to_mode(0x10); // irq at target, pulse mode
    t.target_value = 1;
    assert_eq!(t.mode & 0x400, 0x400);
    assert!(t.tick());
    assert_eq!(t.mode & 0x400, 0);
}

// A toggle-mode raise flips the IRQ line instead.
#[test]
fn timer_toggle_flips_irq_line() {
    let mut t = Timer::new();
    t.write_to_mode(0xD0); // irq at target, repeat, toggle
    t.target_value = 1;
    assert!(t.tick());
    assert_eq!(t.mode & 0x400, 0);
    t.counter = 0;
    assert!(t.tick());
    assert_eq!(t.mode & 0x400, 0x400);
}

// The mode write clears the counter, re-arms the IRQ and masks the
// stored bits.
#[test]
fn timer_mode_write() {
    let mut t = Timer::new();
    t.counter = 99;
    t.write_to_mode(0xFFFF);
    assert_eq!(t.counter, 0);
    assert_eq!(t.mode, 0x7FF); // low ten bits plus the forced IRQ line
}

// A 2x1 CPU-to-VRAM blit: one data word carries both pixels and the
// machine returns to waiting.
#[test]
fn cpu_to_vram_blit_2x1() {
    let mut gpu = Gpu::new();
    gpu.gp0_write(0xA0000000); // CPU-to-VRAM blit
    gpu.gp0_write(0x00000000); // x = 0, y = 0
    gpu.gp0_write(0x00010002); // w = 2, h = 1
    gpu.gp0_write(0xBBBBAAAA);
    assert_eq!(gpu.vram[0], 0xAA);
    assert_eq!(gpu.vram[1], 0xAA);
    assert_eq!(gpu.vram[2], 0xBB);
    assert_eq!(gpu.vram[3], 0xBB);
    assert!(matches!(gpu.gp0_state, Gp0State::WaitingForCommand));
}

// A 3x2 blit takes exactly ceil(6 / 2) = 3 data words; the transfer is
// still in flight before the last one.
#[test]
fn cpu_to_vram_blit_3x2_word_count() {
    let mut gpu = Gpu::new();
    gpu.gp0_write(0xA0000000);
    gpu.gp0_write(0x00000000);
    gpu.gp0_write(0x00020003); // w = 3, h = 2
    gpu.gp0_write(0x11110000);
    assert!(matches!(gpu.gp0_state, Gp0State::ReceivingData(_)));
    gpu.gp0_write(0x33332222);
    assert!(matches!(gpu.gp0_state, Gp0State::ReceivingData(_)));
    gpu.gp0_write(0x55554444);
    assert!(matches!(gpu.gp0_state, Gp0State::WaitingForCommand));
    // six pixels written row-major
    assert_eq!(gpu.vram[0], 0x00);
    assert_eq!(gpu.vram[2], 0x11);
    assert_eq!(gpu.vram[4], 0x22);
    assert_eq!(gpu.vram[2048], 0x33); // second row starts at byte 2 * 1024
    assert_eq!(gpu.vram[2050], 0x44);
    assert_eq!(gpu.vram[2052], 0x55);
}

// A blit starting near the right edge wraps horizontally.
#[test]
fn blit_wraps_on_x() {
    let mut gpu = Gpu::new();
    gpu.gp0_write(0xA0000000);
    gpu.gp0_write(0x000003FF); // x = 1023, y = 0
    gpu.gp0_write(0x00010002); // w = 2, h = 1
    gpu.gp0_write(0xBBBBAAAA);
    assert_eq!(gpu.vram[2 * 1023], 0xAA); // last column
    assert_eq!(gpu.vram[0], 0xBB); // wrapped to column 0
}

// The rectangle dispatch paints one RGB555 pixel from the command word.
#[test]
fn rectangle_paints_one_pixel() {
    let mut gpu = Gpu::new();
    gpu.gp0_write(0x600880FF); // class 3; colour B = 0x08, G = 0x80, R = 0xFF
    gpu.gp0_write(0x00020005); // x = 5, y = 2
    assert!(matches!(gpu.gp0_state, Gp0State::WaitingForCommand));
    let addr = 2 * (1024 * 2 + 5);
    // pixel = 31 | 16 << 5 | 1 << 10 = 0x061F
    assert_eq!(gpu.vram[addr], 0x1F);
    assert_eq!(gpu.vram[addr + 1], 0x06);
}

// GPUREAD idles and GPUSTAT reports both ready bits.
#[test]
fn gpuread_and_gpustat() {
    let gpu = Gpu::new();
    assert_eq!(gpu.gpuread(), 0x14000000);
    assert_eq!(gpu.gpustat(), 0x14000000);
}

// Crossing the frame boundary readies a frame and carries the residual.
#[test]
fn frame_pacing() {
    let mut gpu = Gpu::new();
    gpu.tick(564479);
    assert!(!gpu.frame_is_ready);
    gpu.tick(3);
    assert!(gpu.frame_is_ready);
    assert_eq!(gpu.counter, 2);
}

// The 5-to-8-bit channel widening rounds to nearest.
#[test]
fn channel_widening() {
    assert_eq!(ps1core::gpu::convert_5bit_to_8bit(0), 0);
    assert_eq!(ps1core::gpu::convert_5bit_to_8bit(31), 255);
    assert_eq!(ps1core::gpu::convert_5bit_to_8bit(16), 132);
    assert_eq!(ps1core::gpu::convert_5bit_to_8bit(1), 8);
}

// Rendering expands each stored pixel to an RGB triple.
#[test]
fn render_vram_expands_pixels() {
    let mut gpu = Gpu::new();
    // store pixel 0x061F (R = 31, G = 16, B = 1) at (0, 0)
    gpu.vram[0] = 0x1F;
    gpu.vram[1] = 0x06;
    let out = gpu.render_vram();
    assert_eq!(out.len(), 3 * 1024 * 512);
    assert_eq!(out[0], 255);
    assert_eq!(out[1], 132);
    assert_eq!(out[2], 8);
    assert_eq!(out[3], 0); // next pixel is black
}

// A blit starting on the last row wraps vertically.
#[test]
fn blit_wraps_on_y() {
    let mut gpu = Gpu::new();
    gpu.gp0_write(0xA0000000);
    gpu.gp0_write(0x01FF0000); // x = 0, y = 511
    gpu.gp0_write(0x00020001); // w = 1, h = 2
    gpu.gp0_write(0xBBBBAAAA);
    assert_eq!(gpu.vram[2 * 1024 * 511], 0xAA); // last row
    assert_eq!(gpu.vram[0], 0xBB); // wrapped to row 0
    assert!(matches!(gpu.gp0_state, Gp0State::WaitingForCommand));
}

// Zero blit dimensions mean the full extent; the descriptor reports
// 1024 x 512.
#[test]
fn blit_zero_size_means_full() {
    let mut gpu = Gpu::new();
    gpu.gp0_write(0xA0000000);
    gpu.gp0_write(0x00000000);
    gpu.gp0_write(0x00000000); // w = 0 -> 1024, h = 0 -> 512
    match gpu.gp0_state {
        Gp0State::ReceivingData(_) => {}
        _ => panic!("expected a transfer in flight"),
    }
    // the first data word lands at (0, 0) and (1, 0)
    gpu.gp0_write(0xBBBBAAAA);
    assert_eq!(gpu.vram[0], 0xAA);
    assert_eq!(gpu.vram[2], 0xBB);
}
