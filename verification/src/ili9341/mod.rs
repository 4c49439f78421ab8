//! ILI9341 panel driver over SPI1 (4-wire: CS, D/C, SCK, MOSI) and the dirty
//! tile map of the demo.
//!
//! Every command byte and every data byte goes out in its own chip-select
//! frame; pixel data goes out by DMA in 16-bit frames.

pub mod cmd;
pub mod laws;

use vstd::prelude::*;

use crate::hw::{
    frames_sent, lemma_dma_burst_frames, lemma_frames_sent_concat, lemma_frames_sent_none,
    backlight_on, backlight_set_duty_ops, cs_high, cs_high_op, cs_low, cs_low_op, dc_cmd,
    dc_cmd_op, dc_data, dc_data_op, delay_ms, delay_ms_op, delay_us, delay_us_op, platform_init,
    platform_init_ops, rst_high, rst_high_op, rst_low, rst_low_op, spi_dma_pixels,
    spi_dma_pixels_ops, spi_write, spi_write16, spi_write16_ops, spi_write_ops, Program, RegOp,
    BACKLIGHT_PWM_MAX,
};

verus! {

pub const WIDTH: u16 = 240;
pub const HEIGHT: u16 = 320;

pub const TILE_W: u16 = 40;
pub const TILE_H: u16 = 40;

/// Tiles per row: `WIDTH / TILE_W`.
pub const TILES_X: u16 = 6;
/// Tile rows: `HEIGHT / TILE_H`.
pub const TILES_Y: u16 = 8;
/// `TILES_X * TILES_Y`.
pub const TILE_COUNT: usize = 48;

/// Largest DMA burst: the 16-bit transfer counter.
pub const DMA_MAX_CHUNK: u32 = 0xFFFF;

// --- Framing -------------------------------------------------------------------

/// A command byte: D/C low, CS low, the byte, CS high.
pub open spec fn cmd_ops(c: u8) -> Seq<RegOp> {
    seq![dc_cmd_op(), cs_low_op()] + spi_write_ops(c) + seq![cs_high_op()]
}

/// A data byte: D/C high, CS low, the byte, CS high.
pub open spec fn data_ops(d: u8) -> Seq<RegOp> {
    seq![dc_data_op(), cs_low_op()] + spi_write_ops(d) + seq![cs_high_op()]
}

/// A 16-bit data word in one 16-bit SPI frame.
pub open spec fn data16_ops(v: u16) -> Seq<RegOp> {
    seq![dc_data_op(), cs_low_op()] + spi_write16_ops(v) + seq![cs_high_op()]
}

/// The column range `x0..=x1` and page range `y0..=y1` of the drawing window.
pub open spec fn window_ops(x0: u16, y0: u16, x1: u16, y1: u16) -> Seq<RegOp> {
    cmd_ops(cmd::COLUMN_ADDR) + data16_ops(x0) + data16_ops(x1) + cmd_ops(cmd::PAGE_ADDR)
        + data16_ops(y0) + data16_ops(y1)
}

/// Each byte of `ps` as a data byte, in order.
pub open spec fn params_ops(ps: Seq<u8>) -> Seq<RegOp>
    decreases ps.len(),
{
    if ps.len() == 0 {
        Seq::empty()
    } else {
        params_ops(ps.drop_last()) + data_ops(ps.last())
    }
}

/// Each entry of a register table: its command, then its parameters.
pub open spec fn table_ops(t: Seq<(u8, Seq<u8>)>) -> Seq<RegOp>
    decreases t.len(),
{
    if t.len() == 0 {
        Seq::empty()
    } else {
        table_ops(t.drop_last()) + cmd_ops(t.last().0) + params_ops(t.last().1)
    }
}

/// Post-reset / power-on register block.
pub open spec fn init_table() -> Seq<(u8, Seq<u8>)> {
    seq![
        (cmd::POWERA, seq![0x39u8, 0x2C, 0x00, 0x34, 0x02]),
        (cmd::POWERB, seq![0x00u8, 0xC1, 0x30]),
        (cmd::DTCA, seq![0x85u8, 0x00, 0x78]),
        (cmd::DTCB, seq![0x00u8, 0x00]),
        (cmd::POWER_SEQ, seq![0x64u8, 0x03, 0x12, 0x81]),
        (cmd::PRC, seq![0x20u8]),
        (cmd::POWER1, seq![0x23u8]),
        (cmd::POWER2, seq![0x10u8]),
        (cmd::VCOM1, seq![0x3Eu8, 0x28]),
        (cmd::VCOM2, seq![0x86u8]),
        (cmd::MAC, seq![0x48u8]),
        (cmd::PIXEL_FORMAT, seq![0x55u8]),
        (cmd::FRC, seq![0x00u8, 0x13]),
        (cmd::DFC, seq![0x08u8, 0x82, 0x27]),
        (cmd::ENABLE_3G, seq![0x00u8]),
        (cmd::COLUMN_ADDR, seq![0x00u8, 0x00, 0x00, 0xEF]),
        (cmd::PAGE_ADDR, seq![0x00u8, 0x00, 0x01, 0x3F]),
        (cmd::GAMMA_SET, seq![0x01u8]),
        (
            cmd::PGAMMA,
            seq![
                0x0Fu8, 0x31, 0x2B, 0x0C, 0x0E, 0x08, 0x4E, 0xF1, 0x37, 0x07, 0x10, 0x03, 0x0E,
                0x09, 0x00,
            ],
        ),
        (
            cmd::NGAMMA,
            seq![
                0x00u8, 0x0E, 0x14, 0x03, 0x11, 0x07, 0x31, 0xC1, 0x48, 0x08, 0x0F, 0x0C, 0x31,
                0x36, 0x0F,
            ],
        ),
    ]
}

/// Number of entries of [`init_table`].
pub const INIT_TABLE_LEN: usize = 20;

/// The panel bring-up: board set-up, hardware reset pulse, software reset,
/// the register table, sleep out, display on, memory write, tearing-effect
/// line on, backlight full on.
pub open spec fn init_ops(pwm_ready: bool) -> Seq<RegOp> {
    platform_init_ops()
        + seq![rst_low_op(), delay_us_op(10), rst_high_op(), delay_us_op(10)]
        + cmd_ops(cmd::SWRESET)
        + seq![delay_ms_op(100)]
        + table_ops(init_table())
        + cmd_ops(cmd::SLEEP_OUT)
        + seq![delay_ms_op(10)]
        + cmd_ops(cmd::DISPLAY_ON)
        + seq![delay_ms_op(10)]
        + cmd_ops(cmd::GRAM)
        + cmd_ops(cmd::TE_ON)
        + data_ops(0)
        + backlight_set_duty_ops(pwm_ready, BACKLIGHT_PWM_MAX)
}

/// Window, memory write, write continue, then D/C high and CS low for the
/// pixel stream.
pub open spec fn gram_write_start_ops(x0: u16, y0: u16, x1: u16, y1: u16) -> Seq<RegOp> {
    window_ops(x0, y0, x1, y1) + cmd_ops(cmd::GRAM) + cmd_ops(cmd::WRITE_CONTINUE) + seq![
        dc_data_op(),
        cs_low_op(),
    ]
}

/// `left` repetitions of pixel `start`, in DMA bursts of at most
/// `DMA_MAX_CHUNK` frames.
pub open spec fn solid_chunks_ops(left: nat, start: usize) -> Seq<RegOp>
    decreases left,
{
    if left == 0 {
        Seq::empty()
    } else if left <= DMA_MAX_CHUNK {
        spi_dma_pixels_ops(start, left as u16, false)
    } else {
        spi_dma_pixels_ops(start, DMA_MAX_CHUNK as u16, false) + solid_chunks_ops(
            (left - DMA_MAX_CHUNK) as nat,
            start,
        )
    }
}

/// Pixels along one side of a filled rectangle: `a1 - a0 + 1`, or `1` when
/// `a1 < a0`.
pub open spec fn fill_extent(a0: u16, a1: u16) -> nat {
    if a1 >= a0 { (a1 - a0 + 1) as nat } else { 1 }
}

/// Pixels of the filled rectangle `(x0, y0)..=(x1, y1)`.
pub open spec fn fill_pixels(x0: u16, y0: u16, x1: u16, y1: u16) -> nat {
    fill_extent(x0, x1) * fill_extent(y0, y1)
}

/// What `fill_rectangle` accepts: each side at most `u16::MAX` pixels.
pub open spec fn fill_rectangle_accepts(x0: u16, y0: u16, x1: u16, y1: u16) -> bool {
    fill_extent(x0, x1) <= u16::MAX && fill_extent(y0, y1) <= u16::MAX
}

/// The solid fill of `(x0, y0)..=(x1, y1)` with the color at pixel `start`.
pub open spec fn fill_rectangle_ops(x0: u16, y0: u16, x1: u16, y1: u16, start: usize) -> Seq<RegOp> {
    gram_write_start_ops(x0, y0, x1, y1) + solid_chunks_ops(fill_pixels(x0, y0, x1, y1), start)
        + seq![cs_high_op()]
}

/// Pixels that `push_pixels` expects for `(x0, y0)..=(x1, y1)`.
pub open spec fn push_expected(x0: u16, y0: u16, x1: u16, y1: u16) -> int {
    (x1 + 1 - x0) * (y1 + 1 - y0)
}

/// What `push_pixels` accepts without panicking: neither side negative, and a
/// pixel count that fits in `u32`.
pub open spec fn push_pixels_accepts(x0: u16, y0: u16, x1: u16, y1: u16) -> bool {
    &&& x0 <= x1 + 1
    &&& y0 <= y1 + 1
    &&& push_expected(x0, y0, x1, y1) <= u32::MAX
}

/// `push_pixels` sends a buffer of `len` pixels when it holds exactly the
/// window's pixel count.
pub open spec fn push_pixels_sends(x0: u16, y0: u16, x1: u16, y1: u16, len: nat) -> bool {
    len == push_expected(x0, y0, x1, y1)
}

/// `left` pixels of the pool from pixel `start` on, in order, in DMA bursts
/// of at most `DMA_MAX_CHUNK` frames (memory increment on).
pub open spec fn buffer_chunks_ops(left: nat, start: nat) -> Seq<RegOp>
    decreases left,
{
    if left == 0 {
        Seq::empty()
    } else if left <= DMA_MAX_CHUNK {
        spi_dma_pixels_ops(start as usize, left as u16, true)
    } else {
        spi_dma_pixels_ops(start as usize, DMA_MAX_CHUNK as u16, true) + buffer_chunks_ops(
            (left - DMA_MAX_CHUNK) as nat,
            (start + DMA_MAX_CHUNK) as nat,
        )
    }
}

/// The buffer write of the `len` pixels of the pool from pixel `start` on.
pub open spec fn push_pixels_ops(x0: u16, y0: u16, x1: u16, y1: u16, len: nat, start: usize) -> Seq<
    RegOp,
> {
    gram_write_start_ops(x0, y0, x1, y1) + buffer_chunks_ops(len, start as nat) + seq![cs_high_op()]
}

/// The solid fill of tile `(tx, ty)` with the color at pixel `start`.
pub open spec fn solid_tile_ops(tx: u16, ty: u16, start: usize) -> Seq<RegOp> {
    fill_rectangle_ops(
        (tx * TILE_W) as u16,
        (ty * TILE_H) as u16,
        (tx * TILE_W + TILE_W - 1) as u16,
        (ty * TILE_H + TILE_H - 1) as u16,
        start,
    )
}

/// The driver. The panel is write-only: all state lives in the panel itself.
pub struct Ili9341;

impl Ili9341 {
    pub fn new() -> (lcd: Self) {
        Ili9341
    }

    /// The panel bring-up program. `pwm_ready` tells whether the backlight PWM
    /// already runs; it does afterwards.
    pub fn init(&self, pwm_ready: &mut bool) -> (ops: Vec<RegOp>)
        ensures
            ops@ == init_ops(*old(pwm_ready)),
            *final(pwm_ready),
    {
        let mut ops = platform_init();
        ops.push(rst_low());
        ops.push(delay_us(10));
        ops.push(rst_high());
        ops.push(delay_us(10));
        let mut c = self.cmd(cmd::SWRESET);
        ops.append(&mut c);
        ops.push(delay_ms(100));
        let ghost head = ops@;
        let mut i: usize = 0;
        while i < INIT_TABLE_LEN
            invariant
                i <= INIT_TABLE_LEN,
                init_table().len() == INIT_TABLE_LEN,
                ops@ == head + table_ops(init_table().take(i as int)),
            decreases INIT_TABLE_LEN - i,
        {
            let (c, params) = init_entry(i);
            let mut cmd_part = self.cmd(c);
            ops.append(&mut cmd_part);
            let mut param_part = self.params(&params);
            ops.append(&mut param_part);
            proof {
                let t = init_table().take(i as int + 1);
                assert(t.drop_last() =~= init_table().take(i as int));
                assert(t.last() == init_table()[i as int]);
            }
            i += 1;
        }
        assert(init_table().take(INIT_TABLE_LEN as int) =~= init_table());
        let mut c = self.cmd(cmd::SLEEP_OUT);
        ops.append(&mut c);
        ops.push(delay_ms(10));
        let mut c = self.cmd(cmd::DISPLAY_ON);
        ops.append(&mut c);
        ops.push(delay_ms(10));
        let mut c = self.cmd(cmd::GRAM);
        ops.append(&mut c);
        let mut c = self.cmd(cmd::TE_ON);
        ops.append(&mut c);
        let mut d = self.data(0x00);
        ops.append(&mut d);
        let mut bl = backlight_on(pwm_ready);
        ops.append(&mut bl);
        assert(ops@ =~= init_ops(*old(pwm_ready)));
        ops
    }

    fn cmd(&self, c: u8) -> (ops: Vec<RegOp>)
        ensures
            ops@ == cmd_ops(c),
    {
        let mut ops: Vec<RegOp> = Vec::new();
        ops.push(dc_cmd());
        ops.push(cs_low());
        let mut w = spi_write(c);
        ops.append(&mut w);
        ops.push(cs_high());
        assert(ops@ =~= cmd_ops(c));
        ops
    }

    fn data(&self, d: u8) -> (ops: Vec<RegOp>)
        ensures
            ops@ == data_ops(d),
    {
        let mut ops: Vec<RegOp> = Vec::new();
        ops.push(dc_data());
        ops.push(cs_low());
        let mut w = spi_write(d);
        ops.append(&mut w);
        ops.push(cs_high());
        assert(ops@ =~= data_ops(d));
        ops
    }

    fn data16(&self, v: u16) -> (ops: Vec<RegOp>)
        ensures
            ops@ == data16_ops(v),
    {
        let mut ops: Vec<RegOp> = Vec::new();
        ops.push(dc_data());
        ops.push(cs_low());
        let mut w = spi_write16(v);
        ops.append(&mut w);
        ops.push(cs_high());
        assert(ops@ =~= data16_ops(v));
        ops
    }

    fn params(&self, ps: &Vec<u8>) -> (ops: Vec<RegOp>)
        ensures
            ops@ == params_ops(ps@),
    {
        let mut ops: Vec<RegOp> = Vec::new();
        let mut j: usize = 0;
        while j < ps.len()
            invariant
                j <= ps@.len(),
                ops@ == params_ops(ps@.take(j as int)),
            decreases ps@.len() - j,
        {
            let mut d = self.data(ps[j]);
            ops.append(&mut d);
            proof {
                let t = ps@.take(j as int + 1);
                assert(t.drop_last() =~= ps@.take(j as int));
            }
            j += 1;
        }
        assert(ps@.take(ps@.len() as int) =~= ps@);
        ops
    }

    /// Set the drawing window to columns `x0..=x1`, pages `y0..=y1`.
    pub fn set_window(&self, x0: u16, y0: u16, x1: u16, y1: u16) -> (ops: Vec<RegOp>)
        ensures
            ops@ == window_ops(x0, y0, x1, y1),
    {
        let mut ops = self.cmd(cmd::COLUMN_ADDR);
        let mut a = self.data16(x0);
        ops.append(&mut a);
        let mut a = self.data16(x1);
        ops.append(&mut a);
        let mut a = self.cmd(cmd::PAGE_ADDR);
        ops.append(&mut a);
        let mut a = self.data16(y0);
        ops.append(&mut a);
        let mut a = self.data16(y1);
        ops.append(&mut a);
        assert(ops@ =~= window_ops(x0, y0, x1, y1));
        ops
    }

    fn gram_write_start(&self, x0: u16, y0: u16, x1: u16, y1: u16) -> (ops: Vec<RegOp>)
        ensures
            ops@ == gram_write_start_ops(x0, y0, x1, y1),
    {
        let mut ops = self.set_window(x0, y0, x1, y1);
        let mut c = self.cmd(cmd::GRAM);
        ops.append(&mut c);
        let mut c = self.cmd(cmd::WRITE_CONTINUE);
        ops.append(&mut c);
        ops.push(dc_data());
        ops.push(cs_low());
        assert(ops@ =~= gram_write_start_ops(x0, y0, x1, y1));
        ops
    }

    /// Append to `prog` the solid RGB565 fill of `(x0, y0)..=(x1, y1)`: the
    /// color goes into the pixel pool once and DMA repeats it (no memory
    /// increment).
    pub fn emit_fill_rectangle(&self, prog: &mut Program, x0: u16, y0: u16, x1: u16, y1: u16, color: u16)
        requires
            fill_rectangle_accepts(x0, y0, x1, y1),
        ensures
            final(prog).ops@ == old(prog).ops@ + fill_rectangle_ops(
                x0,
                y0,
                x1,
                y1,
                old(prog).pixels@.len() as usize,
            ),
            final(prog).pixels@ == old(prog).pixels@.push(color),
    {
        let w: u16 = (if x1 >= x0 { x1 - x0 } else { 0 }) + 1;
        let h: u16 = (if y1 >= y0 { y1 - y0 } else { 0 }) + 1;
        assert((w as u32) * (h as u32) <= u32::MAX) by (nonlinear_arith)
            requires
                w <= u16::MAX,
                h <= u16::MAX,
        ;
        let pixels: u32 = (w as u32) * (h as u32);
        assert(pixels == fill_pixels(x0, y0, x1, y1));
        if pixels == 0 {
            assert(false) by (nonlinear_arith)
                requires
                    w >= 1,
                    h >= 1,
                    pixels == w * h,
                    pixels == 0,
            ;
            return;
        }
        let start = prog.pixels.len();
        prog.pixels.push(color);
        let mut head = self.gram_write_start(x0, y0, x1, y1);
        prog.ops.append(&mut head);
        let ghost before = prog.ops@;
        let mut left: u32 = pixels;
        while left > 0
            invariant
                prog.pixels@ == old(prog).pixels@.push(color),
                prog.ops@ + solid_chunks_ops(left as nat, start) == before + solid_chunks_ops(
                    pixels as nat,
                    start,
                ),
            decreases left,
        {
            let chunk: u16 = if left <= DMA_MAX_CHUNK { left as u16 } else { DMA_MAX_CHUNK as u16 };
            let mut burst = spi_dma_pixels(start, chunk, false);
            let ghost ops_before = prog.ops@;
            prog.ops.append(&mut burst);
            let ghost next = (left - chunk) as nat;
            assert(solid_chunks_ops(left as nat, start) =~= spi_dma_pixels_ops(start, chunk, false)
                + solid_chunks_ops(next, start));
            assert(prog.ops@ + solid_chunks_ops(next, start) =~= ops_before + solid_chunks_ops(
                left as nat,
                start,
            ));
            left -= chunk as u32;
        }
        assert(prog.ops@ =~= before + solid_chunks_ops(pixels as nat, start));
        prog.ops.push(cs_high());
        assert(prog.ops@ =~= old(prog).ops@ + fill_rectangle_ops(x0, y0, x1, y1, start));
    }

    /// Solid RGB565 rectangle `(x0, y0)..=(x1, y1)` via DMA.
    pub fn fill_rectangle(&self, x0: u16, y0: u16, x1: u16, y1: u16, color: u16) -> (prog: Program)
        requires
            fill_rectangle_accepts(x0, y0, x1, y1),
        ensures
            prog.ops@ == fill_rectangle_ops(x0, y0, x1, y1, 0),
            prog.pixels@ == seq![color],
    {
        let mut prog = Program::new();
        self.emit_fill_rectangle(&mut prog, x0, y0, x1, y1, color);
        assert(prog.ops@ =~= fill_rectangle_ops(x0, y0, x1, y1, 0));
        assert(prog.pixels@ =~= seq![color]);
        prog
    }

    /// Append to `prog` the fill of tile `(tx, ty)` with one color.
    pub fn emit_solid_tile(&self, prog: &mut Program, tx: u16, ty: u16, color: u16)
        requires
            tx * TILE_W + TILE_W - 1 <= u16::MAX,
            ty * TILE_H + TILE_H - 1 <= u16::MAX,
        ensures
            final(prog).ops@ == old(prog).ops@ + solid_tile_ops(tx, ty, old(prog).pixels@.len() as usize),
            final(prog).pixels@ == old(prog).pixels@.push(color),
    {
        let x0 = tx * TILE_W;
        let y0 = ty * TILE_H;
        self.emit_fill_rectangle(prog, x0, y0, x0 + TILE_W - 1, y0 + TILE_H - 1, color);
    }

    /// Push one solid-color tile (no tile buffer: one color repeated by DMA).
    pub fn push_solid_tile(&self, tx: u16, ty: u16, color: u16) -> (prog: Program)
        requires
            tx * TILE_W + TILE_W - 1 <= u16::MAX,
            ty * TILE_H + TILE_H - 1 <= u16::MAX,
        ensures
            prog.ops@ == solid_tile_ops(tx, ty, 0),
            prog.pixels@ == seq![color],
    {
        let mut prog = Program::new();
        self.emit_solid_tile(&mut prog, tx, ty, color);
        assert(prog.ops@ =~= solid_tile_ops(tx, ty, 0));
        assert(prog.pixels@ =~= seq![color]);
        prog
    }

    /// Append to `prog` the RGB565 buffer `buf` for `(x0, y0)..=(x1, y1)`;
    /// nothing when `buf` does not hold exactly the window's pixel count.
    pub fn emit_pixels(&self, prog: &mut Program, x0: u16, y0: u16, x1: u16, y1: u16, buf: &[u16])
        requires
            push_pixels_accepts(x0, y0, x1, y1),
        ensures
            push_pixels_sends(x0, y0, x1, y1, buf@.len()) ==> {
                &&& final(prog).ops@ == old(prog).ops@ + push_pixels_ops(
                    x0,
                    y0,
                    x1,
                    y1,
                    buf@.len(),
                    old(prog).pixels@.len() as usize,
                )
                &&& final(prog).pixels@ == old(prog).pixels@ + buf@
            },
            !push_pixels_sends(x0, y0, x1, y1, buf@.len()) ==> {
                &&& final(prog).ops@ == old(prog).ops@
                &&& final(prog).pixels@ == old(prog).pixels@
            },
    {
        let expected: u32 = (x1 as u32 + 1 - x0 as u32) * (y1 as u32 + 1 - y0 as u32);
        let len64: u64 = buf.len() as u64;
        if len64 != expected as u64 {
            return;
        }
        let start = prog.pixels.len();
        let mut k: usize = 0;
        while k < buf.len()
            invariant
                k <= buf@.len(),
                prog.pixels@ == old(prog).pixels@ + buf@.take(k as int),
                prog.ops@ == old(prog).ops@,
            decreases buf@.len() - k,
        {
            prog.pixels.push(buf[k]);
            assert(buf@.take(k as int + 1) =~= buf@.take(k as int).push(buf@[k as int]));
            k += 1;
        }
        assert(buf@.take(buf@.len() as int) =~= buf@);
        let mut head = self.gram_write_start(x0, y0, x1, y1);
        prog.ops.append(&mut head);
        let ghost before = prog.ops@;
        let len = buf.len();
        let total = prog.pixels.len();
        let mut left: usize = len;
        let mut pos: usize = start;
        while left > 0
            invariant
                pos + left == start + len,
                start + len == total,
                prog.pixels@ == old(prog).pixels@ + buf@,
                prog.ops@ + buffer_chunks_ops(left as nat, pos as nat) == before + buffer_chunks_ops(
                    len as nat,
                    start as nat,
                ),
            decreases left,
        {
            let chunk: u16 = if left <= DMA_MAX_CHUNK as usize { left as u16 } else { DMA_MAX_CHUNK as u16 };
            let mut burst = spi_dma_pixels(pos, chunk, true);
            let ghost ops_before = prog.ops@;
            prog.ops.append(&mut burst);
            let ghost next_left = (left - chunk) as nat;
            let ghost next_pos = (pos + chunk) as nat;
            assert(buffer_chunks_ops(left as nat, pos as nat) =~= spi_dma_pixels_ops(pos, chunk, true)
                + buffer_chunks_ops(next_left, next_pos));
            assert(prog.ops@ + buffer_chunks_ops(next_left, next_pos) =~= ops_before + buffer_chunks_ops(
                left as nat,
                pos as nat,
            ));
            left -= chunk as usize;
            pos += chunk as usize;
        }
        assert(prog.ops@ =~= before + buffer_chunks_ops(len as nat, start as nat));
        prog.ops.push(cs_high());
        assert(prog.ops@ =~= old(prog).ops@ + push_pixels_ops(x0, y0, x1, y1, buf@.len(), start));
    }

    /// RGB565 buffer via DMA (memory increment on) into `(x0, y0)..=(x1, y1)`,
    /// the whole buffer in order, in bursts of at most `DMA_MAX_CHUNK` frames;
    /// an empty program when `buf` does not hold the window's pixel count.
    pub fn push_pixels(&self, x0: u16, y0: u16, x1: u16, y1: u16, buf: &[u16]) -> (prog: Program)
        requires
            push_pixels_accepts(x0, y0, x1, y1),
        ensures
            push_pixels_sends(x0, y0, x1, y1, buf@.len()) ==> {
                &&& prog.ops@ == push_pixels_ops(x0, y0, x1, y1, buf@.len(), 0)
                &&& prog.pixels@ == buf@
            },
            !push_pixels_sends(x0, y0, x1, y1, buf@.len()) ==> {
                &&& prog.ops@ == Seq::<RegOp>::empty()
                &&& prog.pixels@ == Seq::<u16>::empty()
            },
    {
        let mut prog = Program::new();
        self.emit_pixels(&mut prog, x0, y0, x1, y1, buf);
        assert(push_pixels_sends(x0, y0, x1, y1, buf@.len()) ==> prog.ops@ =~= push_pixels_ops(
            x0,
            y0,
            x1,
            y1,
            buf@.len(),
            0,
        ));
        assert(push_pixels_sends(x0, y0, x1, y1, buf@.len()) ==> prog.pixels@ =~= buf@);
        prog
    }
}


// --- Pixel accounting ---------------------------------------------------------------

proof fn lemma_cmd_no_frames(c: u8)
    ensures
        frames_sent(cmd_ops(c)) == 0,
        frames_sent(data_ops(c)) == 0,
{
    lemma_frames_sent_none(cmd_ops(c));
    lemma_frames_sent_none(data_ops(c));
}

proof fn lemma_data16_no_frames(v: u16)
    ensures
        frames_sent(data16_ops(v)) == 0,
{
    lemma_frames_sent_none(data16_ops(v));
}

proof fn lemma_gram_write_start_no_frames(x0: u16, y0: u16, x1: u16, y1: u16)
    ensures
        frames_sent(gram_write_start_ops(x0, y0, x1, y1)) == 0,
{
    lemma_cmd_no_frames(cmd::COLUMN_ADDR);
    lemma_cmd_no_frames(cmd::PAGE_ADDR);
    lemma_cmd_no_frames(cmd::GRAM);
    lemma_cmd_no_frames(cmd::WRITE_CONTINUE);
    lemma_data16_no_frames(x0);
    lemma_data16_no_frames(x1);
    lemma_data16_no_frames(y0);
    lemma_data16_no_frames(y1);
    let a1 = cmd_ops(cmd::COLUMN_ADDR);
    let a2 = a1 + data16_ops(x0);
    let a3 = a2 + data16_ops(x1);
    let a4 = a3 + cmd_ops(cmd::PAGE_ADDR);
    let a5 = a4 + data16_ops(y0);
    let a6 = a5 + data16_ops(y1);
    lemma_frames_sent_concat(a1, data16_ops(x0));
    lemma_frames_sent_concat(a2, data16_ops(x1));
    lemma_frames_sent_concat(a3, cmd_ops(cmd::PAGE_ADDR));
    lemma_frames_sent_concat(a4, data16_ops(y0));
    lemma_frames_sent_concat(a5, data16_ops(y1));
    let tail = seq![dc_data_op(), cs_low_op()];
    lemma_frames_sent_none(tail);
    lemma_frames_sent_concat(a6, cmd_ops(cmd::GRAM));
    lemma_frames_sent_concat(a6 + cmd_ops(cmd::GRAM), cmd_ops(cmd::WRITE_CONTINUE));
    lemma_frames_sent_concat(a6 + cmd_ops(cmd::GRAM) + cmd_ops(cmd::WRITE_CONTINUE), tail);
}

proof fn lemma_solid_chunks_frames(n: nat, start: usize)
    ensures
        frames_sent(solid_chunks_ops(n, start)) == n,
    decreases n,
{
    if n == 0 {
    } else if n <= DMA_MAX_CHUNK {
        lemma_dma_burst_frames(start, n as u16, false);
    } else {
        lemma_dma_burst_frames(start, DMA_MAX_CHUNK as u16, false);
        lemma_solid_chunks_frames((n - DMA_MAX_CHUNK) as nat, start);
        lemma_frames_sent_concat(
            spi_dma_pixels_ops(start, DMA_MAX_CHUNK as u16, false),
            solid_chunks_ops((n - DMA_MAX_CHUNK) as nat, start),
        );
    }
}

/// A solid fill streams exactly one frame per pixel of the rectangle, in
/// bursts of at most `DMA_MAX_CHUNK` frames.
pub proof fn lemma_fill_rectangle_frames(x0: u16, y0: u16, x1: u16, y1: u16, start: usize)
    ensures
        frames_sent(fill_rectangle_ops(x0, y0, x1, y1, start)) == fill_pixels(x0, y0, x1, y1),
        fill_pixels(x0, y0, x1, y1) >= 1,
{
    lemma_gram_write_start_no_frames(x0, y0, x1, y1);
    lemma_solid_chunks_frames(fill_pixels(x0, y0, x1, y1), start);
    let head = gram_write_start_ops(x0, y0, x1, y1);
    let body = solid_chunks_ops(fill_pixels(x0, y0, x1, y1), start);
    let tail = seq![cs_high_op()];
    lemma_frames_sent_none(tail);
    lemma_frames_sent_concat(head, body);
    lemma_frames_sent_concat(head + body, tail);
    assert(fill_pixels(x0, y0, x1, y1) >= 1) by (nonlinear_arith)
        requires
            fill_extent(x0, x1) >= 1,
            fill_extent(y0, y1) >= 1,
            fill_pixels(x0, y0, x1, y1) == fill_extent(x0, x1) * fill_extent(y0, y1),
    ;
}

proof fn lemma_buffer_chunks_frames(n: nat, start: nat)
    ensures
        frames_sent(buffer_chunks_ops(n, start)) == n,
    decreases n,
{
    if n == 0 {
    } else if n <= DMA_MAX_CHUNK {
        lemma_dma_burst_frames(start as usize, n as u16, true);
    } else {
        lemma_dma_burst_frames(start as usize, DMA_MAX_CHUNK as u16, true);
        lemma_buffer_chunks_frames((n - DMA_MAX_CHUNK) as nat, (start + DMA_MAX_CHUNK) as nat);
        lemma_frames_sent_concat(
            spi_dma_pixels_ops(start as usize, DMA_MAX_CHUNK as u16, true),
            buffer_chunks_ops((n - DMA_MAX_CHUNK) as nat, (start + DMA_MAX_CHUNK) as nat),
        );
    }
}

/// A buffer write streams one frame per pixel of the buffer, whatever its
/// length, in bursts of at most `DMA_MAX_CHUNK` frames.
pub proof fn lemma_push_pixels_frames(x0: u16, y0: u16, x1: u16, y1: u16, len: nat, start: usize)
    ensures
        frames_sent(push_pixels_ops(x0, y0, x1, y1, len, start)) == len,
{
    lemma_gram_write_start_no_frames(x0, y0, x1, y1);
    lemma_buffer_chunks_frames(len, start as nat);
    let head = gram_write_start_ops(x0, y0, x1, y1);
    let body = buffer_chunks_ops(len, start as nat);
    let tail = seq![cs_high_op()];
    lemma_frames_sent_none(tail);
    lemma_frames_sent_concat(head, body);
    lemma_frames_sent_concat(head + body, tail);
}

/// Every panel transaction ends with the panel deselected (CS high): each
/// command, data byte, data word, window set-up, solid fill and buffer write.
pub proof fn lemma_transactions_end_deselected(
    c: u8,
    v: u16,
    x0: u16,
    y0: u16,
    x1: u16,
    y1: u16,
    len: nat,
    start: usize,
)
    ensures
        cmd_ops(c).last() == cs_high_op(),
        data_ops(c).last() == cs_high_op(),
        data16_ops(v).last() == cs_high_op(),
        window_ops(x0, y0, x1, y1).last() == cs_high_op(),
        fill_rectangle_ops(x0, y0, x1, y1, start).last() == cs_high_op(),
        push_pixels_ops(x0, y0, x1, y1, len, start).last() == cs_high_op(),
{
}

// --- Dirty tile map --------------------------------------------------------------

/// Index of the first `true` of `d` at or after `k`.
pub open spec fn first_dirty_from(d: Seq<bool>, k: int) -> Option<int>
    decreases d.len() - k,
{
    if k < 0 || k >= d.len() {
        None
    } else if d[k] {
        Some(k)
    } else {
        first_dirty_from(d, k + 1)
    }
}

/// Index of the first dirty tile.
pub open spec fn first_dirty(d: Seq<bool>) -> Option<int> {
    first_dirty_from(d, 0)
}

/// Tile coordinates `(tx, ty)` of row-major tile index `i`.
pub open spec fn tile_of(i: int) -> (u16, u16) {
    ((i % TILES_X as int) as u16, (i / TILES_X as int) as u16)
}

/// Row-major index of tile `(x, y)`.
pub open spec fn tile_index(x: u16, y: u16) -> int {
    y * TILES_X + x
}

/// What `next` returns for the map `d`.
pub open spec fn next_tile(d: Seq<bool>) -> Option<(u16, u16)> {
    match first_dirty(d) {
        Some(i) => Some(tile_of(i)),
        None => None,
    }
}

/// Which tiles still have to be drawn, row-major.
pub struct Tiles {
    pub dirty: [bool; TILE_COUNT],
}

impl Tiles {
    /// Every tile dirty.
    pub fn new() -> (t: Self)
        ensures
            t.dirty@ == Seq::new(TILE_COUNT as nat, |i: int| true),
    {
        let t = Tiles { dirty: [true; TILE_COUNT] };
        assert(t.dirty@ =~= Seq::new(TILE_COUNT as nat, |i: int| true));
        t
    }

    /// The first dirty tile in row-major order, if any.
    pub fn next(&self) -> (r: Option<(u16, u16)>)
        ensures
            r == next_tile(self.dirty@),
    {
        let mut i: usize = 0;
        while i < TILE_COUNT
            invariant
                i <= TILE_COUNT,
                self.dirty@.len() == TILE_COUNT,
                first_dirty(self.dirty@) == first_dirty_from(self.dirty@, i as int),
            decreases TILE_COUNT - i,
        {
            if self.dirty[i] {
                return Some(((i as u16) % TILES_X, (i as u16) / TILES_X));
            }
            i += 1;
        }
        None
    }

    /// Mark tile `(x, y)` drawn.
    pub fn clear(&mut self, x: u16, y: u16)
        requires
            tile_index(x, y) < TILE_COUNT,
        ensures
            final(self).dirty@ == old(self).dirty@.update(tile_index(x, y), false),
    {
        self.dirty[(y * TILES_X + x) as usize] = false;
    }

    /// Mark every tile dirty.
    pub fn mark_all(&mut self)
        ensures
            final(self).dirty@ == Seq::new(TILE_COUNT as nat, |i: int| true),
    {
        let mut i: usize = 0;
        while i < TILE_COUNT
            invariant
                i <= TILE_COUNT,
                self.dirty@.len() == TILE_COUNT,
                forall|j: int| 0 <= j < i ==> self.dirty@[j],
            decreases TILE_COUNT - i,
        {
            self.dirty[i] = true;
            i += 1;
        }
        assert(self.dirty@ =~= Seq::new(TILE_COUNT as nat, |i: int| true));
    }
}

proof fn lemma_first_dirty_from_is_least(d: Seq<bool>, k: int)
    requires
        0 <= k,
    ensures
        match first_dirty_from(d, k) {
            Some(i) => k <= i < d.len() && d[i] && forall|j: int| k <= j < i ==> !d[j],
            None => forall|j: int| k <= j < d.len() ==> !d[j],
        },
    decreases d.len() - k,
{
    if k < d.len() && !d[k] {
        lemma_first_dirty_from_is_least(d, k + 1);
    }
}

/// `next` finds the least dirty tile: the index it names is dirty and every
/// tile before it is clean; it finds none exactly when no tile is dirty.
pub proof fn lemma_first_dirty_is_least(d: Seq<bool>)
    ensures
        match first_dirty(d) {
            Some(i) => 0 <= i < d.len() && d[i] && forall|j: int| 0 <= j < i ==> !d[j],
            None => forall|j: int| 0 <= j < d.len() ==> !d[j],
        },
{
    lemma_first_dirty_from_is_least(d, 0);
}

proof fn lemma_first_dirty_from_same_suffix(d: Seq<bool>, e: Seq<bool>, k: int)
    requires
        0 <= k,
        d.len() == e.len(),
        forall|j: int| k <= j < d.len() ==> d[j] == e[j],
    ensures
        first_dirty_from(d, k) == first_dirty_from(e, k),
    decreases d.len() - k,
{
    if k < d.len() {
        lemma_first_dirty_from_same_suffix(d, e, k + 1);
    }
}

proof fn lemma_first_dirty_from_skips_clean(d: Seq<bool>, k: int, m: int)
    requires
        0 <= k <= m,
        forall|j: int| k <= j < m && j < d.len() ==> !d[j],
    ensures
        first_dirty_from(d, k) == first_dirty_from(d, m),
    decreases m - k,
{
    if k < m && k < d.len() {
        lemma_first_dirty_from_skips_clean(d, k + 1, m);
    }
}

/// Clearing the tile that `next` returned makes `next` return the first dirty
/// tile after it.
pub proof fn lemma_clear_advances(d: Seq<bool>, i: int)
    requires
        first_dirty(d) == Some(i),
    ensures
        first_dirty(d.update(i, false)) == first_dirty_from(d, i + 1),
{
    lemma_first_dirty_is_least(d);
    let e = d.update(i, false);
    lemma_first_dirty_from_skips_clean(e, 0, i + 1);
    lemma_first_dirty_from_same_suffix(e, d, i + 1);
}

/// The tile map after `mark_all` and `k` rounds of drawing the tile that
/// `next` returns and clearing it: tiles `0..k` clean, the rest dirty.
pub open spec fn swept(k: int) -> Seq<bool> {
    Seq::new(TILE_COUNT as nat, |j: int| j >= k)
}

/// Tile coordinates and row-major index agree on the map.
pub proof fn lemma_tile_index_of(i: int)
    requires
        0 <= i < TILE_COUNT,
    ensures
        tile_of(i).0 < TILES_X,
        tile_of(i).1 < TILES_Y,
        tile_index(tile_of(i).0, tile_of(i).1) == i,
{
}

/// A sweep visits the tiles in row-major order: after `mark_all` and `k`
/// rounds, `next` returns tile `k`, and clearing it gives the state of round
/// `k + 1`; after all `TILE_COUNT` rounds `next` returns `None`.
pub proof fn lemma_sweep_order(k: int)
    requires
        0 <= k <= TILE_COUNT,
    ensures
        k < TILE_COUNT ==> next_tile(swept(k)) == Some(tile_of(k)),
        k < TILE_COUNT ==> swept(k).update(tile_index(tile_of(k).0, tile_of(k).1), false) == swept(k + 1),
        k == TILE_COUNT ==> next_tile(swept(k)) == None::<(u16, u16)>,
        swept(0) == Seq::new(TILE_COUNT as nat, |i: int| true),
{
    lemma_first_dirty_is_least(swept(k));
    if k < TILE_COUNT {
        lemma_tile_index_of(k);
        assert(swept(k)[k]);
        assert(swept(k).update(k, false) =~= swept(k + 1));
    }
    assert(swept(0) =~= Seq::new(TILE_COUNT as nat, |i: int| true));
}

/// Entry `i` of the power-on register table.
fn init_entry(i: usize) -> (entry: (u8, Vec<u8>))
    requires
        i < INIT_TABLE_LEN,
    ensures
        entry.0 == init_table()[i as int].0,
        entry.1@ == init_table()[i as int].1,
{
    let entry = match i {
        0 => (cmd::POWERA, vec![0x39u8, 0x2C, 0x00, 0x34, 0x02]),
        1 => (cmd::POWERB, vec![0x00u8, 0xC1, 0x30]),
        2 => (cmd::DTCA, vec![0x85u8, 0x00, 0x78]),
        3 => (cmd::DTCB, vec![0x00u8, 0x00]),
        4 => (cmd::POWER_SEQ, vec![0x64u8, 0x03, 0x12, 0x81]),
        5 => (cmd::PRC, vec![0x20u8]),
        6 => (cmd::POWER1, vec![0x23u8]),
        7 => (cmd::POWER2, vec![0x10u8]),
        8 => (cmd::VCOM1, vec![0x3Eu8, 0x28]),
        9 => (cmd::VCOM2, vec![0x86u8]),
        10 => (cmd::MAC, vec![0x48u8]),
        11 => (cmd::PIXEL_FORMAT, vec![0x55u8]),
        12 => (cmd::FRC, vec![0x00u8, 0x13]),
        13 => (cmd::DFC, vec![0x08u8, 0x82, 0x27]),
        14 => (cmd::ENABLE_3G, vec![0x00u8]),
        15 => (cmd::COLUMN_ADDR, vec![0x00u8, 0x00, 0x00, 0xEF]),
        16 => (cmd::PAGE_ADDR, vec![0x00u8, 0x00, 0x01, 0x3F]),
        17 => (cmd::GAMMA_SET, vec![0x01u8]),
        18 => (
            cmd::PGAMMA,
            vec![
                0x0Fu8, 0x31, 0x2B, 0x0C, 0x0E, 0x08, 0x4E, 0xF1, 0x37, 0x07, 0x10, 0x03, 0x0E,
                0x09, 0x00,
            ],
        ),
        _ => (
            cmd::NGAMMA,
            vec![
                0x00u8, 0x0E, 0x14, 0x03, 0x11, 0x07, 0x31, 0xC1, 0x48, 0x08, 0x0F, 0x0C, 0x31,
                0x36, 0x0F,
            ],
        ),
    };
    assert(entry.1@ =~= init_table()[i as int].1);
    entry
}

} // verus!
