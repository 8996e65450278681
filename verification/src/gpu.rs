//! Minimal GPU: a GP0 command dispatcher feeding a 1024x512 grid of 16-bit
//! RGB555 pixels in VRAM, with frame pacing driven by the bus cycle count.
//!
//! The dispatcher is a three-state machine consuming one 32-bit word per
//! transition: waiting for a command, collecting a command's parameters, or
//! streaming pixel data of a CPU-to-VRAM blit into the framebuffer.

use vstd::prelude::*;
use crate::zero_bytes;

verus! {

/// Cycles per rough NTSC field; crossing this boundary readies a frame.
pub const FRAME_CYCLES: u64 = 564480;

/// Bytes of VRAM: 1024 x 512 pixels, two bytes each.
pub const VRAM_BYTES: usize = 1048576;

/// Progress of a CPU-to-VRAM blit: destination rectangle and the cursor of
/// the next pixel to write.
#[derive(PartialEq, Eq, Structural, Clone, Copy, Debug)]
pub struct VramCopyFields {
    pub vram_x: u16,
    pub vram_y: u16,
    pub width: u16,
    pub height: u16,
    pub current_row: u16,
    pub current_col: u16,
}

/// State of the GP0 port.
#[derive(PartialEq, Eq, Structural, Clone, Copy, Debug)]
pub enum Gp0State {
    /// The next word selects a command class.
    WaitingForCommand,
    /// Collecting parameters of `command`; the next word lands in
    /// `params[idx]`.
    ReceivingParams { command: u8, idx: u8 },
    /// Streaming two pixels per word into VRAM.
    ReceivingData(VramCopyFields),
}

/// Number of the last parameter word a command class collects before it is
/// dispatched.  The rectangle's command word itself sits at `params[0]`.
pub open spec fn param_limit_spec(command: u8) -> u8 {
    match command {
        3u8 => 1u8,
        4u8 => 2u8,
        5u8 => 1u8,
        6u8 => 1u8,
        _ => 0u8,
    }
}

/// The blit rectangle is non-empty and in range, and the cursor sits on a
/// pixel still to be written.
pub open spec fn blit_fields_wf(f: VramCopyFields) -> bool {
    &&& f.vram_x < 1024
    &&& f.vram_y < 512
    &&& 1 <= f.width <= 1024
    &&& 1 <= f.height <= 512
    &&& f.current_col < f.width
    &&& f.current_row < f.height
}

/// A GP0 state the dispatcher can actually reach.
pub open spec fn gp0_state_wf(s: Gp0State) -> bool {
    match s {
        Gp0State::WaitingForCommand => true,
        Gp0State::ReceivingParams { command, idx } => {
            &&& (command == 3 || command == 4 || command == 5 || command == 6)
            &&& idx <= param_limit_spec(command)
            &&& (command == 3 ==> idx >= 1)
        },
        Gp0State::ReceivingData(f) => blit_fields_wf(f),
    }
}

/// Mathematical state of the GPU.
#[verifier::ext_equal]
pub struct GpuView {
    pub state: Gp0State,
    pub params: Seq<u32>,
    pub vram: Seq<u8>,
    pub frame_ready: bool,
    pub counter: u64,
    pub status: u32,
}

impl GpuView {
    pub open spec fn wf(self) -> bool {
        &&& self.vram.len() == VRAM_BYTES
        &&& self.params.len() == 16
        &&& self.counter < FRAME_CYCLES
        &&& gp0_state_wf(self.state)
    }
}

/// VRAM byte offset of pixel (x, y), wrapping on both axes.
pub open spec fn vram_addr_spec(x: int, y: int) -> int {
    2 * (1024 * (y % 512) + (x % 1024))
}

/// VRAM after storing the 16-bit pixel `p` at (x, y), little-endian,
/// wrapping on both axes.
pub open spec fn put_pixel_spec(v: Seq<u8>, x: int, y: int, p: u16) -> Seq<u8> {
    let a = vram_addr_spec(x, y);
    v.update(a, (p % 256) as u8).update(a + 1, (p / 256) as u8)
}

/// RGB555 pixel drawn by a rectangle command word: each 8-bit colour
/// channel of the low 24 bits shifted right by three.
pub open spec fn rect_pixel_spec(cmd: u32) -> u16 {
    ((cmd % 256) / 8 + 32 * ((cmd / 256) % 256 / 8) + 1024 * ((cmd / 65536) % 256 / 8)) as u16
}

/// VRAM after the one-pixel rectangle dispatch paints at the coordinates
/// of `params[1]` with the colour of the command word in `params[0]`.
pub open spec fn rect_draw_spec(g: GpuView) -> Seq<u8> {
    put_pixel_spec(
        g.vram,
        (g.params[1] as int) % 1024,
        ((g.params[1] as int) / 65536) % 512,
        rect_pixel_spec(g.params[0]),
    )
}

/// Blit descriptor decoded from the two parameter words: coordinates
/// masked to 10 and 9 bits, sizes masked likewise with zero meaning the
/// full extent.
pub open spec fn blit_init_spec(p: Seq<u32>) -> VramCopyFields {
    VramCopyFields {
        vram_x: ((p[0] as int) % 1024) as u16,
        vram_y: (((p[0] as int) / 65536) % 512) as u16,
        width: if (p[1] as int) % 1024 == 0 {
            1024u16
        } else {
            ((p[1] as int) % 1024) as u16
        },
        height: if ((p[1] as int) / 65536) % 512 == 0 {
            512u16
        } else {
            (((p[1] as int) / 65536) % 512) as u16
        },
        current_row: 0u16,
        current_col: 0u16,
    }
}

/// The pixel just written was the blit's last one.
pub open spec fn blit_finished(f: VramCopyFields) -> bool {
    f.current_col + 1 == f.width && f.current_row + 1 == f.height
}

/// Cursor after one pixel: next column, wrapping to the next row.
pub open spec fn blit_advance(f: VramCopyFields) -> VramCopyFields {
    if f.current_col + 1 < f.width {
        VramCopyFields { current_col: (f.current_col + 1) as u16, ..f }
    } else {
        VramCopyFields { current_col: 0u16, current_row: (f.current_row + 1) as u16, ..f }
    }
}

/// Effect of one data word of a CPU-to-VRAM blit: the word's two
/// little-endian 16-bit pixels land at the cursor and its successor; the
/// transfer ends (dropping an unused second pixel) when the rectangle is
/// full.
pub open spec fn gp0_data_word_spec(vram: Seq<u8>, f: VramCopyFields, word: u32) -> (
    Seq<u8>,
    Gp0State,
) {
    let hw0 = ((word as int) % 65536) as u16;
    let hw1 = ((word as int) / 65536) as u16;
    let v1 = put_pixel_spec(
        vram,
        f.vram_x + f.current_col,
        f.vram_y + f.current_row,
        hw0,
    );
    if blit_finished(f) {
        (v1, Gp0State::WaitingForCommand)
    } else {
        let f1 = blit_advance(f);
        let v2 = put_pixel_spec(
            v1,
            f1.vram_x + f1.current_col,
            f1.vram_y + f1.current_row,
            hw1,
        );
        if blit_finished(f1) {
            (v2, Gp0State::WaitingForCommand)
        } else {
            (v2, Gp0State::ReceivingData(blit_advance(f1)))
        }
    }
}

/// One transition of the GP0 state machine on an incoming word.  Command
/// classes 0, 1, 2 and 7 and the dispatches of classes 4 and 6 are stubs
/// that consume their words without effect.
pub open spec fn gp0_spec(g: GpuView, val: u32) -> GpuView {
    match g.state {
        Gp0State::WaitingForCommand => {
            let cls = (val as int) / 0x2000_0000;
            if cls == 3 {
                GpuView {
                    state: Gp0State::ReceivingParams { command: 3u8, idx: 1u8 },
                    params: g.params.update(0, val),
                    ..g
                }
            } else if cls == 4 {
                GpuView { state: Gp0State::ReceivingParams { command: 4u8, idx: 0u8 }, ..g }
            } else if cls == 5 {
                GpuView { state: Gp0State::ReceivingParams { command: 5u8, idx: 0u8 }, ..g }
            } else if cls == 6 {
                GpuView { state: Gp0State::ReceivingParams { command: 6u8, idx: 0u8 }, ..g }
            } else {
                g
            }
        },
        Gp0State::ReceivingParams { command, idx } => {
            let g2 = GpuView { params: g.params.update(idx as int, val), ..g };
            if idx == param_limit_spec(command) {
                if command == 3 {
                    GpuView {
                        state: Gp0State::WaitingForCommand,
                        vram: rect_draw_spec(g2),
                        ..g2
                    }
                } else if command == 5 {
                    GpuView { state: Gp0State::ReceivingData(blit_init_spec(g2.params)), ..g2 }
                } else {
                    GpuView { state: Gp0State::WaitingForCommand, ..g2 }
                }
            } else {
                GpuView {
                    state: Gp0State::ReceivingParams { command, idx: (idx + 1) as u8 },
                    ..g2
                }
            }
        },
        Gp0State::ReceivingData(f) => {
            let r = gp0_data_word_spec(g.vram, f, val);
            GpuView { state: r.1, vram: r.0, ..g }
        },
    }
}

/// Frame pacing: the counter advances by `cycles`; on crossing the frame
/// boundary the residual carries forward and the frame is flagged ready.
/// The flag is cleared by the presentation side, not here.
pub open spec fn gpu_tick_spec(g: GpuView, cycles: u32) -> GpuView {
    if g.counter + cycles >= FRAME_CYCLES {
        GpuView { counter: (g.counter + cycles - FRAME_CYCLES) as u64, frame_ready: true, ..g }
    } else {
        GpuView { counter: (g.counter + cycles) as u64, ..g }
    }
}

/// 16-bit pixel stored little-endian at pixel index `i` of VRAM.
pub open spec fn vram_pixel_spec(v: Seq<u8>, i: int) -> int {
    v[2 * i] + 256 * v[2 * i + 1]
}

/// A 5-bit colour channel widened to 8 bits: the nearest integer to
/// `c * 255 / 31` (the quotient is never exactly half way).
pub open spec fn expand5_spec(c: int) -> u8 {
    ((c * 510 + 31) / 62) as u8
}

/// GP0 command dispatcher, VRAM store and frame pacing.
pub struct Gpu {
    pub gp0_state: Gp0State,
    /// Parameter buffer; always 16 words.
    pub params: Vec<u32>,
    /// 1024 x 512 grid of 16-bit pixels, two bytes each, little-endian.
    pub vram: Vec<u8>,
    pub frame_is_ready: bool,
    pub counter: u64,
    pub status: u32,
}

impl View for Gpu {
    type V = GpuView;

    open spec fn view(&self) -> GpuView {
        GpuView {
            state: self.gp0_state,
            params: self.params@,
            vram: self.vram@,
            frame_ready: self.frame_is_ready,
            counter: self.counter,
            status: self.status,
        }
    }
}

impl Gpu {
    pub fn new() -> (g: Gpu)
        ensures
            g@.wf(),
            g@.state == Gp0State::WaitingForCommand,
            g@.frame_ready == false,
            g@.counter == 0u64,
            g@.status == 0u32,
            forall|i: int| 0 <= i < VRAM_BYTES ==> g@.vram[i] == 0u8,
            forall|i: int| 0 <= i < 16 ==> g@.params[i] == 0u32,
    {
        let mut params: Vec<u32> = Vec::new();
        let mut i: usize = 0;
        while i < 16
            invariant
                i <= 16,
                params@.len() == i,
                forall|j: int| 0 <= j < i ==> params@[j] == 0u32,
            decreases 16 - i,
        {
            params.push(0);
            i = i + 1;
        }
        Gpu {
            gp0_state: Gp0State::WaitingForCommand,
            params,
            vram: zero_bytes(VRAM_BYTES),
            frame_is_ready: false,
            counter: 0,
            status: 0,
        }
    }

    /// Last parameter index of a command class.
    pub fn param_limit(command: u8) -> (r: u8)
        ensures
            r == param_limit_spec(command),
    {
        match command {
            3 => 1,
            4 => 2,
            5 => 1,
            6 => 1,
            _ => 0,
        }
    }

    /// Feed one word to the GP0 port.
    pub fn gp0_write(&mut self, val: u32)
        requires
            old(self)@.wf(),
        ensures
            final(self)@ == gp0_spec(old(self)@, val),
            final(self)@.wf(),
    {
        match self.gp0_state {
            Gp0State::WaitingForCommand => {
                let cls = val / 0x2000_0000;
                if cls == 3 {
                    self.params[0] = val;
                    self.gp0_state = Gp0State::ReceivingParams { command: 3, idx: 1 };
                } else if cls == 4 {
                    self.gp0_state = Gp0State::ReceivingParams { command: 4, idx: 0 };
                } else if cls == 5 {
                    self.gp0_state = Gp0State::ReceivingParams { command: 5, idx: 0 };
                } else if cls == 6 {
                    self.gp0_state = Gp0State::ReceivingParams { command: 6, idx: 0 };
                }
            },
            Gp0State::ReceivingParams { command, idx } => {
                self.params[idx as usize] = val;
                let limit = Gpu::param_limit(command);
                if idx == limit {
                    if command == 3 {
                        self.draw_1x1_untextured_rectangle();
                        self.gp0_state = Gp0State::WaitingForCommand;
                    } else if command == 5 {
                        let st = self.cpu_to_vram_init();
                        self.gp0_state = st;
                    } else {
                        self.gp0_state = Gp0State::WaitingForCommand;
                    }
                } else {
                    self.gp0_state = Gp0State::ReceivingParams { command, idx: idx + 1 };
                }
            },
            Gp0State::ReceivingData(fields) => {
                let st = self.cpu_to_vram_process(val, fields);
                self.gp0_state = st;
            },
        }
    }

    /// Decode the blit descriptor from the collected parameters.
    pub fn cpu_to_vram_init(&self) -> (st: Gp0State)
        requires
            self@.wf(),
        ensures
            st == Gp0State::ReceivingData(blit_init_spec(self@.params)),
            gp0_state_wf(st),
    {
        let vram_x = (self.params[0] % 1024) as u16;
        let vram_y = ((self.params[0] / 65536) % 512) as u16;

        let mut width = (self.params[1] % 1024) as u16;
        if width == 0 {
            width = 1024;
        }

        let mut height = ((self.params[1] / 65536) % 512) as u16;
        if height == 0 {
            height = 512;
        }

        Gp0State::ReceivingData(
            VramCopyFields {
                vram_x,
                vram_y,
                width,
                height,
                current_row: 0,
                current_col: 0,
            },
        )
    }

    /// Store one 16-bit pixel at (x, y), wrapping on both axes.
    fn put_pixel(&mut self, x: u16, y: u16, p: u16)
        requires
            old(self)@.wf(),
        ensures
            final(self)@ == (GpuView { vram: put_pixel_spec(old(self)@.vram, x as int, y as int, p), ..old(self)@ }),
            final(self)@.wf(),
    {
        let px = (x % 1024) as usize;
        let py = (y % 512) as usize;
        let addr: usize = 2 * (1024 * py + px);
        self.vram[addr] = (p % 256) as u8;
        self.vram[addr + 1] = (p / 256) as u8;
    }

    /// Write the two pixels of one blit data word and report the follow-on
    /// state; the caller stores that state.
    pub fn cpu_to_vram_process(&mut self, word: u32, fields: VramCopyFields) -> (st: Gp0State)
        requires
            old(self)@.wf(),
            blit_fields_wf(fields),
        ensures
            final(self)@ == (GpuView {
                vram: gp0_data_word_spec(old(self)@.vram, fields, word).0,
                ..old(self)@
            }),
            st == gp0_data_word_spec(old(self)@.vram, fields, word).1,
            final(self)@.wf(),
            gp0_state_wf(st),
    {
        let hw0 = (word % 65536) as u16;
        let hw1 = (word / 65536) as u16;

        self.put_pixel(
            fields.vram_x + fields.current_col,
            fields.vram_y + fields.current_row,
            hw0,
        );
        if fields.current_col + 1 == fields.width && fields.current_row + 1 == fields.height {
            return Gp0State::WaitingForCommand;
        }

        let f1 = if fields.current_col + 1 < fields.width {
            VramCopyFields { current_col: fields.current_col + 1, ..fields }
        } else {
            VramCopyFields { current_col: 0, current_row: fields.current_row + 1, ..fields }
        };

        self.put_pixel(f1.vram_x + f1.current_col, f1.vram_y + f1.current_row, hw1);
        if f1.current_col + 1 == f1.width && f1.current_row + 1 == f1.height {
            return Gp0State::WaitingForCommand;
        }

        let f2 = if f1.current_col + 1 < f1.width {
            VramCopyFields { current_col: f1.current_col + 1, ..f1 }
        } else {
            VramCopyFields { current_col: 0, current_row: f1.current_row + 1, ..f1 }
        };
        Gp0State::ReceivingData(f2)
    }

    /// Rectangle dispatch: paint one pixel at the coordinates of
    /// `params[1]` with the RGB555 colour taken from the command word.
    pub fn draw_1x1_untextured_rectangle(&mut self)
        requires
            old(self)@.wf(),
        ensures
            final(self)@ == (GpuView { vram: rect_draw_spec(old(self)@), ..old(self)@ }),
            final(self)@.wf(),
    {
        let command = self.params[0];
        let parameter = self.params[1];

        let r = (command % 256) / 8;
        let g = ((command / 256) % 256) / 8;
        let b = ((command / 65536) % 256) / 8;
        let pixel = (r + 32 * g + 1024 * b) as u16;

        let x = (parameter % 1024) as u16;
        let y = ((parameter / 65536) % 512) as u16;
        self.put_pixel(x, y, pixel);
    }

    /// GP1 port: display control is stubbed; words are accepted without
    /// effect.
    pub fn gp1_write(&mut self, val: u32)
        ensures
            final(self)@ == old(self)@,
    {
        let _ = val;
    }

    /// GPUREAD: no VRAM-to-CPU blit is ever active in this stub, so the
    /// idle pattern is returned.
    pub fn gpuread(&self) -> (r: u32)
        ensures
            r == 0x1400_0000u32,
    {
        0x14000000
    }

    /// GPUSTAT: status word with "ready to receive command" (bit 26) and
    /// "ready to receive DMA" (bit 28) always reported.
    pub fn gpustat(&self) -> (r: u32)
        ensures
            r == self@.status | 0x1400_0000u32,
    {
        self.status | 0x14000000
    }

    /// Advance the frame counter by `cycles`.
    pub fn tick(&mut self, cycles: u32)
        requires
            old(self)@.counter < FRAME_CYCLES,
        ensures
            final(self)@ == gpu_tick_spec(old(self)@, cycles),
            old(self)@.wf() && cycles <= FRAME_CYCLES ==> final(self)@.wf(),
    {
        self.counter = self.counter + cycles as u64;

        if self.counter >= FRAME_CYCLES {
            self.frame_is_ready = true;
            self.counter = self.counter - FRAME_CYCLES;
        }
    }

    /// Convert VRAM to a row-major RGB888 byte buffer, three bytes per
    /// pixel, each RGB555 channel widened with `convert_5bit_to_8bit`.
    pub fn render_vram(&self) -> (out: Vec<u8>)
        requires
            self@.wf(),
        ensures
            out@.len() == 3 * 524288,
            forall|i: int| #![trigger vram_pixel_spec(self@.vram, i)] 0 <= i < 524288 ==> {
                let p = vram_pixel_spec(self@.vram, i);
                &&& out@[3 * i] == expand5_spec(p % 32)
                &&& out@[3 * i + 1] == expand5_spec((p / 32) % 32)
                &&& out@[3 * i + 2] == expand5_spec((p / 1024) % 32)
            },
    {
        let mut out: Vec<u8> = Vec::new();
        let mut i: usize = 0;
        while i < 524288
            invariant
                self@.wf(),
                i <= 524288,
                out@.len() == 3 * i,
                forall|j: int| #![trigger vram_pixel_spec(self@.vram, j)] 0 <= j < i ==> {
                    let p = vram_pixel_spec(self@.vram, j);
                    &&& out@[3 * j] == expand5_spec(p % 32)
                    &&& out@[3 * j + 1] == expand5_spec((p / 32) % 32)
                    &&& out@[3 * j + 2] == expand5_spec((p / 1024) % 32)
                },
            decreases 524288 - i,
        {
            let lo = self.vram[2 * i];
            let hi = self.vram[2 * i + 1];
            let p: u32 = lo as u32 + 256 * (hi as u32);
            out.push(convert_5bit_to_8bit((p % 32) as u16));
            out.push(convert_5bit_to_8bit(((p / 32) % 32) as u16));
            out.push(convert_5bit_to_8bit(((p / 1024) % 32) as u16));
            i = i + 1;
        }
        out
    }
}

/// Number of pixels a blit has already written: the cursor's rank in
/// row-major order.
pub open spec fn blit_written(f: VramCopyFields) -> int {
    f.current_row * f.width + f.current_col
}

/// Total number of pixels a blit writes.
pub open spec fn blit_total(f: VramCopyFields) -> int {
    f.width * f.height
}

/// Number of pixels a blit has still to write.
pub open spec fn blit_remaining(f: VramCopyFields) -> int {
    blit_total(f) - blit_written(f)
}

/// VRAM byte offset of the pixel the cursor points at.
pub open spec fn blit_cursor_addr(f: VramCopyFields) -> int {
    vram_addr_spec(f.vram_x + f.current_col, f.vram_y + f.current_row)
}

/// A well-formed blit cursor has at least one pixel left.
pub proof fn lemma_blit_remaining_pos(f: VramCopyFields)
    requires
        blit_fields_wf(f),
    ensures
        1 <= blit_remaining(f) <= blit_total(f),
{
    assert(f.current_row * f.width + f.current_col <= f.width * f.height - 1) by (nonlinear_arith)
        requires
            0 <= f.current_row <= f.height - 1,
            0 <= f.current_col <= f.width - 1,
            1 <= f.width,
            1 <= f.height,
    ;
    assert(f.current_row * f.width + f.current_col >= 0) by (nonlinear_arith)
        requires
            0 <= f.current_row,
            0 <= f.current_col,
            0 <= f.width,
    ;
}

/// Advancing the cursor moves it to the pixel of the next rank.
pub proof fn lemma_blit_advance(f: VramCopyFields)
    requires
        blit_fields_wf(f),
        !blit_finished(f),
    ensures
        blit_fields_wf(blit_advance(f)),
        blit_written(blit_advance(f)) == blit_written(f) + 1,
        blit_advance(f).width == f.width,
        blit_advance(f).height == f.height,
        blit_advance(f).vram_x == f.vram_x,
        blit_advance(f).vram_y == f.vram_y,
{
    if f.current_col + 1 < f.width {
    } else {
        assert((f.current_row + 1) * f.width == f.current_row * f.width + f.width)
            by (nonlinear_arith);
    }
}

/// The cursor sits on the last pixel exactly when its row-major rank is
/// the last one.
pub proof fn lemma_blit_finished_iff(f: VramCopyFields)
    requires
        blit_fields_wf(f),
    ensures
        blit_finished(f) == (blit_written(f) == blit_total(f) - 1),
{
    if blit_finished(f) {
        assert((f.current_row + 1) * f.width == f.current_row * f.width + f.width)
            by (nonlinear_arith);
        assert(f.height * f.width == f.width * f.height) by (nonlinear_arith);
    } else if blit_written(f) == blit_total(f) - 1 {
        assert(f.current_col == f.width - 1 && f.current_row == f.height - 1)
            by (nonlinear_arith)
            requires
                f.current_row * f.width + f.current_col == f.width * f.height - 1,
                0 <= f.current_col < f.width,
                0 <= f.current_row < f.height,
                1 <= f.width,
                1 <= f.height,
        ;
    }
}

/// One data word of a blit writes exactly `min(2, remaining)` pixels:
/// every VRAM byte outside those pixels keeps its value, the cursor
/// advances by the pixels written, and the machine returns to waiting
/// exactly when the rectangle is full.
pub proof fn lemma_blit_word_exact(vram: Seq<u8>, f: VramCopyFields, word: u32)
    requires
        vram.len() == VRAM_BYTES,
        blit_fields_wf(f),
    ensures
        gp0_data_word_spec(vram, f, word).0.len() == vram.len(),
        (gp0_data_word_spec(vram, f, word).1 == Gp0State::WaitingForCommand) == (blit_remaining(f)
            <= 2),
        blit_remaining(f) == 1 ==> forall|a: int|
            0 <= a < vram.len() && a != blit_cursor_addr(f) && a != blit_cursor_addr(f) + 1
                ==> gp0_data_word_spec(vram, f, word).0[a] == vram[a],
        blit_remaining(f) >= 2 ==> forall|a: int|
            0 <= a < vram.len() && a != blit_cursor_addr(f) && a != blit_cursor_addr(f) + 1 && a
                != blit_cursor_addr(blit_advance(f)) && a != blit_cursor_addr(blit_advance(f)) + 1
                ==> gp0_data_word_spec(vram, f, word).0[a] == vram[a],
        match gp0_data_word_spec(vram, f, word).1 {
            Gp0State::ReceivingData(f2) => {
                &&& blit_fields_wf(f2)
                &&& blit_remaining(f2) == blit_remaining(f) - 2
                &&& f2.width == f.width
                &&& f2.height == f.height
                &&& f2.vram_x == f.vram_x
                &&& f2.vram_y == f.vram_y
            },
            Gp0State::WaitingForCommand => true,
            _ => false,
        },
{
    lemma_blit_remaining_pos(f);
    lemma_blit_finished_iff(f);
    if !blit_finished(f) {
        lemma_blit_advance(f);
        let f1 = blit_advance(f);
        lemma_blit_finished_iff(f1);
        if !blit_finished(f1) {
            lemma_blit_advance(f1);
            lemma_blit_remaining_pos(f1);
            assert(blit_remaining(f) > 2);
        }
    }
}

/// The GP0 machine after feeding it each word of `ws` in turn.
pub open spec fn run_gp0_words(g: GpuView, ws: Seq<u32>) -> GpuView
    decreases ws.len(),
{
    if ws.len() == 0 {
        g
    } else {
        run_gp0_words(gp0_spec(g, ws[0]), ws.drop_first())
    }
}

/// A CPU-to-VRAM blit consumes exactly one data word per two remaining
/// pixels (rounded up) and then returns to waiting for a command: with
/// the fresh descriptor that is ceil(width * height / 2) words for
/// exactly width * height pixels, every one placed with wrap on both
/// axes by `gp0_data_word_spec`.
pub proof fn lemma_blit_run_to_completion(g: GpuView, f: VramCopyFields, ws: Seq<u32>)
    requires
        g.wf(),
        g.state == Gp0State::ReceivingData(f),
        ws.len() == (blit_remaining(f) + 1) / 2,
    ensures
        run_gp0_words(g, ws).state == Gp0State::WaitingForCommand,
        run_gp0_words(g, ws).wf(),
        run_gp0_words(g, ws).params == g.params,
        run_gp0_words(g, ws).counter == g.counter,
        run_gp0_words(g, ws).frame_ready == g.frame_ready,
    decreases ws.len(),
{
    lemma_blit_remaining_pos(f);
    lemma_blit_word_exact(g.vram, f, ws[0]);
    let g2 = gp0_spec(g, ws[0]);
    if blit_remaining(f) <= 2 {
        assert(ws.len() == 1);
        assert(run_gp0_words(g2, ws.drop_first()) == g2);
    } else {
        match g2.state {
            Gp0State::ReceivingData(f2) => {
                lemma_blit_run_to_completion(g2, f2, ws.drop_first());
            },
            _ => {
                assert(false);
            },
        }
    }
}

/// Widen a 5-bit colour channel to 8 bits, rounding to the nearest integer
/// of `color * 255 / 31` (the exact value is never half way between two
/// integers, so no tie break is needed).
pub fn convert_5bit_to_8bit(color: u16) -> (r: u8)
    requires
        color < 32,
    ensures
        r == expand5_spec(color as int),
{
    ((color as u32 * 510 + 31) / 62) as u8
}

} // verus!
