//! What the panel receives from the driver's programs, decoded from the
//! register accesses alone: every write to the SPI data register is a byte
//! (or 16-bit word) for the panel, a command while D/C is low and data while
//! it is high.

use vstd::prelude::*;

use crate::hw::{RegOp, Width};
use super::{
    cmd_ops, data16_ops, data_ops, fill_pixels, window_ops, fill_rectangle_ops, gram_write_start_ops, init_ops, init_table,
    params_ops, solid_chunks_ops, solid_tile_ops, table_ops, DMA_MAX_CHUNK, TILE_H, TILE_W,
};
use crate::hw::spi_dma_pixels_ops;

verus! {

/// The register table of the bring-up as the panel receives it.
pub open spec fn init_table_literal() -> Seq<(bool, u32)> {
    seq![
    (false, 0xCBu32),
    (true, 0x39u32),
    (true, 0x2Cu32),
    (true, 0x00u32),
    (true, 0x34u32),
    (true, 0x02u32),
    (false, 0xCFu32),
    (true, 0x00u32),
    (true, 0xC1u32),
    (true, 0x30u32),
    (false, 0xE8u32),
    (true, 0x85u32),
    (true, 0x00u32),
    (true, 0x78u32),
    (false, 0xEAu32),
    (true, 0x00u32),
    (true, 0x00u32),
    (false, 0xEDu32),
    (true, 0x64u32),
    (true, 0x03u32),
    (true, 0x12u32),
    (true, 0x81u32),
    (false, 0xF7u32),
    (true, 0x20u32),
    (false, 0xC0u32),
    (true, 0x23u32),
    (false, 0xC1u32),
    (true, 0x10u32),
    (false, 0xC5u32),
    (true, 0x3Eu32),
    (true, 0x28u32),
    (false, 0xC7u32),
    (true, 0x86u32),
    (false, 0x36u32),
    (true, 0x48u32),
    (false, 0x3Au32),
    (true, 0x55u32),
    (false, 0xB1u32),
    (true, 0x00u32),
    (true, 0x13u32),
    (false, 0xB6u32),
    (true, 0x08u32),
    (true, 0x82u32),
    (true, 0x27u32),
    (false, 0xF2u32),
    (true, 0x00u32),
    (false, 0x2Au32),
    (true, 0x00u32),
    (true, 0x00u32),
    (true, 0x00u32),
    (true, 0xEFu32),
    (false, 0x2Bu32),
    (true, 0x00u32),
    (true, 0x00u32),
    (true, 0x01u32),
    (true, 0x3Fu32),
    (false, 0x26u32),
    (true, 0x01u32),
    (false, 0xE0u32),
    (true, 0x0Fu32),
    (true, 0x31u32),
    (true, 0x2Bu32),
    (true, 0x0Cu32),
    (true, 0x0Eu32),
    (true, 0x08u32),
    (true, 0x4Eu32),
    (true, 0xF1u32),
    (true, 0x37u32),
    (true, 0x07u32),
    (true, 0x10u32),
    (true, 0x03u32),
    (true, 0x0Eu32),
    (true, 0x09u32),
    (true, 0x00u32),
    (false, 0xE1u32),
    (true, 0x00u32),
    (true, 0x0Eu32),
    (true, 0x14u32),
    (true, 0x03u32),
    (true, 0x11u32),
    (true, 0x07u32),
    (true, 0x31u32),
    (true, 0xC1u32),
    (true, 0x48u32),
    (true, 0x08u32),
    (true, 0x0Fu32),
    (true, 0x0Cu32),
    (true, 0x31u32),
    (true, 0x36u32),
    (true, 0x0Fu32),
]
}

/// Address of the SPI1 data register.
pub open spec fn spi_data_register() -> u32 {
    0x4001_300C
}

/// Address of GPIOD `BSHR`, which drives D/C (PD3).
pub open spec fn gpiod_bshr() -> u32 {
    0x4001_1410
}

/// Address of DMA1 channel 3 `CFGR`.
pub open spec fn dma_ch3_cfgr() -> u32 {
    0x4002_0030
}

/// The D/C level after `op`, from `dc` before: `BSHR` value 0x0000_0008
/// raises PD3 (data), 0x0008_0000 lowers it (command).
pub open spec fn dc_after_op(op: RegOp, dc: bool) -> bool {
    match op {
        RegOp::Write { addr, value, .. } => if addr == gpiod_bshr() && value == 0x0000_0008 {
            true
        } else if addr == gpiod_bshr() && value == 0x0008_0000 {
            false
        } else {
            dc
        },
        _ => dc,
    }
}

/// The D/C level after `ops`, from `dc` before.
pub open spec fn dc_after(ops: Seq<RegOp>, dc: bool) -> bool
    decreases ops.len(),
{
    if ops.len() == 0 {
        dc
    } else {
        dc_after(ops.drop_first(), dc_after_op(ops[0], dc))
    }
}

/// What the panel receives from `ops` when D/C starts at `dc`: each value
/// written to the SPI data register, with `true` for data and `false` for a
/// command.
pub open spec fn panel_stream(ops: Seq<RegOp>, dc: bool) -> Seq<(bool, u32)>
    decreases ops.len(),
{
    if ops.len() == 0 {
        Seq::empty()
    } else {
        let here = match ops[0] {
            RegOp::Write { addr, value, .. } => if addr == spi_data_register() {
                seq![(dc, value)]
            } else {
                Seq::empty()
            },
            _ => Seq::empty(),
        };
        here + panel_stream(ops.drop_first(), dc_after_op(ops[0], dc))
    }
}

proof fn lemma_panel_stream_concat(a: Seq<RegOp>, b: Seq<RegOp>, dc: bool)
    ensures
        panel_stream(a + b, dc) == panel_stream(a, dc) + panel_stream(b, dc_after(a, dc)),
        dc_after(a + b, dc) == dc_after(b, dc_after(a, dc)),
    decreases a.len(),
{
    if a.len() == 0 {
        assert(a + b =~= b);
        assert(panel_stream(a, dc) + panel_stream(b, dc) =~= panel_stream(b, dc));
    } else {
        assert((a + b).drop_first() =~= a.drop_first() + b);
        assert((a + b)[0] == a[0]);
        lemma_panel_stream_concat(a.drop_first(), b, dc_after_op(a[0], dc));
        assert(panel_stream(a + b, dc) =~= panel_stream(a, dc) + panel_stream(b, dc_after(a, dc)));
    }
}

proof fn lemma_bshr_values()
    ensures
        1u32 << 19u32 == 0x0008_0000u32,
        1u32 << 3u32 == 0x0000_0008u32,
        1u32 << 17u32 == 0x0002_0000u32,
        1u32 << 1u32 == 0x0000_0002u32,
{
    assert(1u32 << 19u32 == 0x0008_0000u32 && 1u32 << 3u32 == 0x0000_0008u32 && 1u32 << 17u32 == 0x0002_0000u32
        && 1u32 << 1u32 == 0x0000_0002u32) by (bit_vector);
}

/// A command frame delivers exactly its byte, as a command, and leaves D/C
/// low; a data frame delivers its byte as data and leaves D/C high.
pub proof fn lemma_frame_streams(c: u8, dc: bool)
    ensures
        panel_stream(cmd_ops(c), dc) == seq![(false, c as u32)],
        dc_after(cmd_ops(c), dc) == false,
        panel_stream(data_ops(c), dc) == seq![(true, c as u32)],
        dc_after(data_ops(c), dc) == true,
{
    lemma_bshr_values();
    reveal_with_fuel(panel_stream, 8);
    reveal_with_fuel(dc_after, 8);
    assert(panel_stream(cmd_ops(c), dc) =~= seq![(false, c as u32)]);
    assert(panel_stream(data_ops(c), dc) =~= seq![(true, c as u32)]);
}

proof fn lemma_params_stream(ps: Seq<u8>, dc: bool)
    ensures
        ps.len() > 0 ==> dc_after(params_ops(ps), dc) == true,
        ps.len() == 0 ==> dc_after(params_ops(ps), dc) == dc,
        panel_stream(params_ops(ps), dc).len() == ps.len(),
        forall|k: int| 0 <= k < ps.len() ==> #[trigger] panel_stream(params_ops(ps), dc)[k] == (true, ps[k] as u32),
    decreases ps.len(),
{
    if ps.len() > 0 {
        lemma_params_stream(ps.drop_last(), dc);
        let d0 = dc_after(params_ops(ps.drop_last()), dc);
        lemma_frame_streams(ps.last(), d0);
        lemma_panel_stream_concat(params_ops(ps.drop_last()), data_ops(ps.last()), dc);
    } else {
        reveal_with_fuel(panel_stream, 1);
        reveal_with_fuel(dc_after, 1);
    }
}

proof fn lemma_table_ops_concat(a: Seq<(u8, Seq<u8>)>, b: Seq<(u8, Seq<u8>)>)
    ensures
        table_ops(a + b) == table_ops(a) + table_ops(b),
    decreases b.len(),
{
    if b.len() == 0 {
        assert(a + b =~= a);
        assert(table_ops(a) + table_ops(b) =~= table_ops(a));
    } else {
        lemma_table_ops_concat(a, b.drop_last());
        assert((a + b).drop_last() =~= a + b.drop_last());
        assert((a + b).last() == b.last());
        assert(table_ops(a + b) =~= table_ops(a) + table_ops(b));
    }
}

/// The bring-up puts the panel in 16-bit RGB565 mode, the format of the
/// pixel frames the driver streams: the panel receives the PIXEL_FORMAT
/// command 0x3A followed directly by the data byte 0x55.
pub proof fn lemma_init_selects_rgb565(pwm_ready: bool)
    ensures
        exists|i: int|
            0 <= i && i + 1 < panel_stream(init_ops(pwm_ready), false).len()
                && #[trigger] panel_stream(init_ops(pwm_ready), false)[i] == (false, 0x3Au32)
                && panel_stream(init_ops(pwm_ready), false)[i + 1] == (true, 0x55u32),
{
    let t = init_table();
    let before = t.take(11);
    let entry = t.subrange(11, 12);
    let after = t.skip(12);
    assert(t =~= before + entry + after);
    lemma_table_ops_concat(before + entry, after);
    lemma_table_ops_concat(before, entry);
    assert(entry.drop_last() =~= Seq::<(u8, Seq<u8>)>::empty());
    assert(entry.last() == (0x3Au8, seq![0x55u8]));
    let mid = cmd_ops(0x3A) + params_ops(seq![0x55u8]);
    assert(table_ops(entry.drop_last()) =~= Seq::<RegOp>::empty());
    assert(table_ops(entry) == table_ops(entry.drop_last()) + cmd_ops(0x3A) + params_ops(seq![0x55u8]));
    assert(table_ops(entry) =~= mid);
    let ops = init_ops(pwm_ready);
    let p = crate::hw::platform_init_ops()
        + seq![crate::hw::rst_low_op(), crate::hw::delay_us_op(10), crate::hw::rst_high_op(), crate::hw::delay_us_op(10)]
        + cmd_ops(super::cmd::SWRESET)
        + seq![crate::hw::delay_ms_op(100)];
    let s = cmd_ops(super::cmd::SLEEP_OUT)
        + seq![crate::hw::delay_ms_op(10)]
        + cmd_ops(super::cmd::DISPLAY_ON)
        + seq![crate::hw::delay_ms_op(10)]
        + cmd_ops(super::cmd::GRAM)
        + cmd_ops(super::cmd::TE_ON)
        + data_ops(0)
        + crate::hw::backlight_set_duty_ops(pwm_ready, crate::hw::BACKLIGHT_PWM_MAX);
    let a = p + table_ops(before);
    let c = table_ops(after) + s;
    assert(ops =~= a + mid + c);
    lemma_panel_stream_concat(a + mid, c, false);
    lemma_panel_stream_concat(a, mid, false);
    let d = dc_after(a, false);
    lemma_panel_stream_concat(cmd_ops(0x3A), params_ops(seq![0x55u8]), d);
    lemma_frame_streams(0x3A, d);
    lemma_params_stream(seq![0x55u8], false);
    assert(seq![0x55u8].len() == 1);
    let i = panel_stream(a, false).len() as int;
    let st = panel_stream(ops, false);
    assert(st[i] == (false, 0x3Au32));
    assert(st[i + 1] == (true, 0x55u32));
}

/// An operation of a solid fill that reads pool pixel `start`: it never turns
/// DMA memory increment (`CFGR` bit 7) on, and every DMA source it names is
/// pixel `start`.
pub open spec fn repeats_pixel(op: RegOp, start: usize) -> bool {
    match op {
        RegOp::Modify { addr, set, .. } => addr == dma_ch3_cfgr() ==> set & 0x80 == 0,
        RegOp::Write { addr, value, .. } => addr == dma_ch3_cfgr() ==> value & 0x80 == 0,
        RegOp::WritePixelAddress { start: s, .. } => s == start,
        _ => true,
    }
}

pub open spec fn all_repeat_pixel(ops: Seq<RegOp>, start: usize) -> bool {
    forall|i: int| 0 <= i < ops.len() ==> repeats_pixel(#[trigger] ops[i], start)
}

proof fn lemma_all_repeat_concat(a: Seq<RegOp>, b: Seq<RegOp>, start: usize)
    requires
        all_repeat_pixel(a, start),
        all_repeat_pixel(b, start),
    ensures
        all_repeat_pixel(a + b, start),
{
    assert forall|i: int| 0 <= i < (a + b).len() implies repeats_pixel(#[trigger] (a + b)[i], start) by {
        if i < a.len() {
            assert((a + b)[i] == a[i]);
        } else {
            assert((a + b)[i] == b[i - a.len()]);
        }
    }
}

proof fn lemma_solid_chunks_repeat(n: nat, start: usize)
    ensures
        all_repeat_pixel(solid_chunks_ops(n, start), start),
        n > 0 ==> solid_chunks_ops(n, start)[1] == (RegOp::Modify {
            width: Width::Bits32,
            addr: dma_ch3_cfgr(),
            clear: 0x80,
            set: 0,
        }),
    decreases n,
{
    assert(0u32 & 0x80u32 == 0 && 1u32 & 0x80u32 == 0) by (bit_vector);
    if n == 0 {
    } else if n <= DMA_MAX_CHUNK {
        let b = spi_dma_pixels_ops(start, n as u16, false);
        assert(all_repeat_pixel(b, start));
    } else {
        let b = spi_dma_pixels_ops(start, DMA_MAX_CHUNK as u16, false);
        assert(all_repeat_pixel(b, start));
        lemma_solid_chunks_repeat((n - DMA_MAX_CHUNK) as nat, start);
        lemma_all_repeat_concat(b, solid_chunks_ops((n - DMA_MAX_CHUNK) as nat, start), start);
    }
}

/// A solid fill sends one color: no operation of it turns DMA memory
/// increment on, its first burst turns it off, and every DMA source it names
/// is the pool pixel `start` that holds the color. So each of the
/// `fill_pixels` frames it streams is that pixel.
pub proof fn lemma_fill_repeats_one_color(x0: u16, y0: u16, x1: u16, y1: u16, start: usize)
    ensures
        all_repeat_pixel(fill_rectangle_ops(x0, y0, x1, y1, start), start),
        exists|i: int|
            0 <= i < fill_rectangle_ops(x0, y0, x1, y1, start).len()
                && #[trigger] fill_rectangle_ops(x0, y0, x1, y1, start)[i] == (RegOp::Modify {
                width: Width::Bits32,
                addr: dma_ch3_cfgr(),
                clear: 0x80,
                set: 0,
            }),
{
    let head = gram_write_start_ops(x0, y0, x1, y1);
    let n = fill_pixels(x0, y0, x1, y1);
    let body = solid_chunks_ops(n, start);
    let tail = seq![crate::hw::cs_high_op()];
    assert(all_repeat_pixel(head, start));
    assert(all_repeat_pixel(tail, start));
    lemma_solid_chunks_repeat(n, start);
    lemma_all_repeat_concat(head, body, start);
    lemma_all_repeat_concat(head + body, tail, start);
    super::lemma_fill_rectangle_frames(x0, y0, x1, y1, start);
    let ops = fill_rectangle_ops(x0, y0, x1, y1, start);
    assert(ops == head + body + tail);
    assert(ops[head.len() as int + 1] == body[1]);
}

/// The panel stream of a register table: for each entry its command, then its
/// parameters as data.
pub open spec fn table_stream(t: Seq<(u8, Seq<u8>)>) -> Seq<(bool, u32)>
    decreases t.len(),
{
    if t.len() == 0 {
        Seq::empty()
    } else {
        table_stream(t.drop_last()) + seq![(false, t.last().0 as u32)] + Seq::new(
            t.last().1.len(),
            |k: int| (true, t.last().1[k] as u32),
        )
    }
}


/// The bytes the ILI9341 bring-up sends, as the datasheet sequence gives
/// them: software reset; power control A/B, driver timing A/B, power-on
/// sequence, pump ratio, power 1/2, VCOM 1/2, memory access 0x48, pixel
/// format 0x55 (16-bit RGB565), frame rate, display function, 3-gamma off,
/// full column 0..=239 and page 0..=319 ranges, gamma curve 1 and the positive
/// and negative gamma tables; sleep out, display on, memory write, tearing
/// effect on (mode 0).
pub open spec fn ili9341_bring_up_stream() -> Seq<(bool, u32)> {
    seq![(false, 0x01u32)] + init_table_literal() + seq![
        (false, 0x11u32),
        (false, 0x29u32),
        (false, 0x2Cu32),
        (false, 0x35u32),
        (true, 0x00u32),
    ]
}

#[verifier::rlimit(100)]
proof fn lemma_init_table_stream()
    ensures
        table_stream(init_table()) == init_table_literal(),
{
    reveal_with_fuel(table_stream, 21);
    assert(table_stream(init_table()) =~= init_table_literal());
}

proof fn lemma_params_stream_is(ps: Seq<u8>, dc: bool)
    ensures
        panel_stream(params_ops(ps), dc) == Seq::new(ps.len(), |k: int| (true, ps[k] as u32)),
{
    lemma_params_stream(ps, dc);
    assert(panel_stream(params_ops(ps), dc) =~= Seq::new(ps.len(), |k: int| (true, ps[k] as u32)));
}

proof fn lemma_table_stream(t: Seq<(u8, Seq<u8>)>, dc: bool)
    ensures
        panel_stream(table_ops(t), dc) == table_stream(t),
        t.len() > 0 ==> dc_after(table_ops(t), dc) == (t.last().1.len() > 0),
    decreases t.len(),
{
    if t.len() > 0 {
        let rest = t.drop_last();
        let (c, ps) = t.last();
        lemma_table_stream(rest, dc);
        let d0 = dc_after(table_ops(rest), dc);
        lemma_panel_stream_concat(table_ops(rest) + cmd_ops(c), params_ops(ps), dc);
        lemma_panel_stream_concat(table_ops(rest), cmd_ops(c), dc);
        lemma_frame_streams(c, d0);
        lemma_params_stream_is(ps, false);
        lemma_params_stream(ps, false);
        assert(panel_stream(table_ops(t), dc) =~= table_stream(t));
    } else {
        reveal_with_fuel(panel_stream, 1);
    }
}

/// A program that never writes the SPI data register sends the panel nothing
/// and leaves D/C where it was or wherever its `BSHR` writes put it.
proof fn lemma_silent(ops: Seq<RegOp>, dc: bool)
    requires
        forall|i: int| 0 <= i < ops.len() ==> !(#[trigger] ops[i] matches RegOp::Write { addr, .. } && addr == spi_data_register()),
    ensures
        panel_stream(ops, dc) == Seq::<(bool, u32)>::empty(),
    decreases ops.len(),
{
    if ops.len() > 0 {
        assert forall|i: int| 0 <= i < ops.drop_first().len() implies !(#[trigger] ops.drop_first()[i] matches RegOp::Write { addr, .. } && addr == spi_data_register()) by {
            assert(ops.drop_first()[i] == ops[i + 1]);
        }
        lemma_silent(ops.drop_first(), dc_after_op(ops[0], dc));
        assert(!(ops[0] matches RegOp::Write { addr, .. } && addr == spi_data_register()));
        assert(panel_stream(ops, dc) =~= Seq::<(bool, u32)>::empty());
    }
}

/// The panel bring-up sends the panel exactly the ILI9341 power-on sequence,
/// byte for byte, commands and data as the datasheet gives them (see
/// `ili9341_bring_up_stream`), whether or not the backlight PWM was running.
pub proof fn lemma_init_stream(pwm_ready: bool)
    ensures
        panel_stream(init_ops(pwm_ready), false) == ili9341_bring_up_stream(),
{
    let p1 = crate::hw::platform_init_ops()
        + seq![crate::hw::rst_low_op(), crate::hw::delay_us_op(10), crate::hw::rst_high_op(), crate::hw::delay_us_op(10)];
    let p2 = seq![crate::hw::delay_ms_op(100)];
    let tbl = table_ops(init_table());
    let w10 = seq![crate::hw::delay_ms_op(10)];
    let bl = crate::hw::backlight_set_duty_ops(pwm_ready, crate::hw::BACKLIGHT_PWM_MAX);
    let c1 = cmd_ops(super::cmd::SWRESET);
    let c2 = cmd_ops(super::cmd::SLEEP_OUT);
    let c3 = cmd_ops(super::cmd::DISPLAY_ON);
    let c4 = cmd_ops(super::cmd::GRAM);
    let c5 = cmd_ops(super::cmd::TE_ON);
    let d1 = data_ops(0);
    let ops = init_ops(pwm_ready);
    assert(ops == p1 + c1 + p2 + tbl + c2 + w10 + c3 + w10 + c4 + c5 + d1 + bl);
    lemma_silent(p1, false);
    assert forall|dc: bool| panel_stream(p2, dc) == Seq::<(bool, u32)>::empty() by { lemma_silent(p2, dc); }
    assert forall|dc: bool| panel_stream(w10, dc) == Seq::<(bool, u32)>::empty() by { lemma_silent(w10, dc); }
    assert forall|dc: bool| panel_stream(bl, dc) == Seq::<(bool, u32)>::empty() by { lemma_silent(bl, dc); }
    assert forall|dc: bool| panel_stream(tbl, dc) == init_table_literal() by {
        lemma_table_stream(init_table(), dc);
        lemma_init_table_stream();
    }
    assert forall|c: u8, dc: bool| #[trigger] panel_stream(cmd_ops(c), dc) == seq![(false, c as u32)] by {
        lemma_frame_streams(c, dc);
    }
    lemma_frame_streams(0, false);
    assert forall|dc: bool| panel_stream(d1, dc) == seq![(true, 0u32)] by { lemma_frame_streams(0, dc); }
    let s1 = p1;
    let s2 = s1 + c1;
    let s3 = s2 + p2;
    let s4 = s3 + tbl;
    let s5 = s4 + c2;
    let s6 = s5 + w10;
    let s7 = s6 + c3;
    let s8 = s7 + w10;
    let s9 = s8 + c4;
    let s10 = s9 + c5;
    let s11 = s10 + d1;
    lemma_panel_stream_concat(s1, c1, false);
    lemma_panel_stream_concat(s2, p2, false);
    lemma_panel_stream_concat(s3, tbl, false);
    lemma_panel_stream_concat(s4, c2, false);
    lemma_panel_stream_concat(s5, w10, false);
    lemma_panel_stream_concat(s6, c3, false);
    lemma_panel_stream_concat(s7, w10, false);
    lemma_panel_stream_concat(s8, c4, false);
    lemma_panel_stream_concat(s9, c5, false);
    lemma_panel_stream_concat(s10, d1, false);
    lemma_panel_stream_concat(s11, bl, false);
    assert(panel_stream(ops, false) =~= ili9341_bring_up_stream());
}

proof fn lemma_data16_stream(v: u16, dc: bool)
    ensures
        panel_stream(data16_ops(v), dc) == seq![(true, v as u32)],
        dc_after(data16_ops(v), dc) == true,
{
    lemma_bshr_values();
    reveal_with_fuel(panel_stream, 8);
    reveal_with_fuel(dc_after, 8);
    assert(panel_stream(data16_ops(v), dc) =~= seq![(true, v as u32)]);
}

/// Setting the window sends the column range then the page range: command
/// 0x2A with `x0`, `x1`, then command 0x2B with `y0`, `y1`, each bound one
/// 16-bit data word.
pub proof fn lemma_window_stream(x0: u16, y0: u16, x1: u16, y1: u16, dc: bool)
    ensures
        panel_stream(window_ops(x0, y0, x1, y1), dc) == seq![
            (false, 0x2Au32),
            (true, x0 as u32),
            (true, x1 as u32),
            (false, 0x2Bu32),
            (true, y0 as u32),
            (true, y1 as u32),
        ],
        dc_after(window_ops(x0, y0, x1, y1), dc) == true,
{
    let a1 = cmd_ops(0x2A);
    let a2 = a1 + data16_ops(x0);
    let a3 = a2 + data16_ops(x1);
    let a4 = a3 + cmd_ops(0x2B);
    let a5 = a4 + data16_ops(y0);
    lemma_frame_streams(0x2A, dc);
    lemma_panel_stream_concat(a1, data16_ops(x0), dc);
    lemma_data16_stream(x0, false);
    lemma_panel_stream_concat(a2, data16_ops(x1), dc);
    lemma_data16_stream(x1, true);
    lemma_panel_stream_concat(a3, cmd_ops(0x2B), dc);
    lemma_frame_streams(0x2B, true);
    lemma_panel_stream_concat(a4, data16_ops(y0), dc);
    lemma_data16_stream(y0, false);
    lemma_panel_stream_concat(a5, data16_ops(y1), dc);
    lemma_data16_stream(y1, true);
    assert(panel_stream(window_ops(x0, y0, x1, y1), dc) =~= seq![
        (false, 0x2Au32),
        (true, x0 as u32),
        (true, x1 as u32),
        (false, 0x2Bu32),
        (true, y0 as u32),
        (true, y1 as u32),
    ]);
}

/// Every pixel write opens with the window, then the memory write (0x2C) and
/// write continue (0x3C) commands, and leaves D/C high for the pixel data.
pub proof fn lemma_gram_write_stream(x0: u16, y0: u16, x1: u16, y1: u16, dc: bool)
    ensures
        panel_stream(gram_write_start_ops(x0, y0, x1, y1), dc) == seq![
            (false, 0x2Au32),
            (true, x0 as u32),
            (true, x1 as u32),
            (false, 0x2Bu32),
            (true, y0 as u32),
            (true, y1 as u32),
            (false, 0x2Cu32),
            (false, 0x3Cu32),
        ],
        dc_after(gram_write_start_ops(x0, y0, x1, y1), dc) == true,
{
    let w = window_ops(x0, y0, x1, y1);
    let t = seq![crate::hw::dc_data_op(), crate::hw::cs_low_op()];
    lemma_window_stream(x0, y0, x1, y1, dc);
    lemma_panel_stream_concat(w, cmd_ops(0x2C), dc);
    lemma_frame_streams(0x2C, true);
    lemma_panel_stream_concat(w + cmd_ops(0x2C), cmd_ops(0x3C), dc);
    lemma_frame_streams(0x3C, false);
    lemma_panel_stream_concat(w + cmd_ops(0x2C) + cmd_ops(0x3C), t, dc);
    lemma_bshr_values();
    reveal_with_fuel(panel_stream, 3);
    reveal_with_fuel(dc_after, 3);
    assert(panel_stream(t, false) =~= Seq::<(bool, u32)>::empty());
    assert(panel_stream(gram_write_start_ops(x0, y0, x1, y1), dc) =~= seq![
        (false, 0x2Au32),
        (true, x0 as u32),
        (true, x1 as u32),
        (false, 0x2Bu32),
        (true, y0 as u32),
        (true, y1 as u32),
        (false, 0x2Cu32),
        (false, 0x3Cu32),
    ]);
}

proof fn lemma_solid_chunks_silent(n: nat, start: usize, dc: bool)
    ensures
        panel_stream(solid_chunks_ops(n, start), dc) == Seq::<(bool, u32)>::empty(),
    decreases n,
{
    if n == 0 {
        reveal_with_fuel(panel_stream, 1);
    } else if n <= DMA_MAX_CHUNK {
        lemma_silent(spi_dma_pixels_ops(start, n as u16, false), dc);
    } else {
        let b = spi_dma_pixels_ops(start, DMA_MAX_CHUNK as u16, false);
        lemma_silent(b, dc);
        lemma_solid_chunks_silent((n - DMA_MAX_CHUNK) as nat, start, dc_after(b, dc));
        lemma_panel_stream_concat(b, solid_chunks_ops((n - DMA_MAX_CHUNK) as nat, start), dc);
    }
}

/// The command and data bytes of a solid fill of `(x0, y0)..=(x1, y1)` are
/// its window, memory write and write continue; everything else goes by DMA.
/// For tile `(tx, ty)` the window is columns `40 tx ..= 40 tx + 39` and pages
/// `40 ty ..= 40 ty + 39`.
pub proof fn lemma_fill_stream(x0: u16, y0: u16, x1: u16, y1: u16, start: usize, tx: u16, ty: u16, dc: bool)
    ensures
        panel_stream(fill_rectangle_ops(x0, y0, x1, y1, start), dc) == seq![
            (false, 0x2Au32),
            (true, x0 as u32),
            (true, x1 as u32),
            (false, 0x2Bu32),
            (true, y0 as u32),
            (true, y1 as u32),
            (false, 0x2Cu32),
            (false, 0x3Cu32),
        ],
        tx * 40 + 39 <= u16::MAX && ty * 40 + 39 <= u16::MAX ==> panel_stream(solid_tile_ops(tx, ty, start), dc)
            == seq![
            (false, 0x2Au32),
            (true, (tx * 40) as u32),
            (true, (tx * 40 + 39) as u32),
            (false, 0x2Bu32),
            (true, (ty * 40) as u32),
            (true, (ty * 40 + 39) as u32),
            (false, 0x2Cu32),
            (false, 0x3Cu32),
        ],
{
    assert forall|a: u16, b: u16, c: u16, d: u16|
        panel_stream(#[trigger] fill_rectangle_ops(a, b, c, d, start), dc) == seq![
            (false, 0x2Au32),
            (true, a as u32),
            (true, c as u32),
            (false, 0x2Bu32),
            (true, b as u32),
            (true, d as u32),
            (false, 0x2Cu32),
            (false, 0x3Cu32),
        ] by {
        let head = gram_write_start_ops(a, b, c, d);
        let body = solid_chunks_ops(fill_pixels(a, b, c, d), start);
        let tail = seq![crate::hw::cs_high_op()];
        lemma_gram_write_stream(a, b, c, d, dc);
        lemma_panel_stream_concat(head, body, dc);
        lemma_solid_chunks_silent(fill_pixels(a, b, c, d), start, dc_after(head, dc));
        lemma_panel_stream_concat(head + body, tail, dc);
        lemma_silent(tail, dc_after(head + body, dc));
        assert(panel_stream(fill_rectangle_ops(a, b, c, d, start), dc) =~= seq![
            (false, 0x2Au32),
            (true, a as u32),
            (true, c as u32),
            (false, 0x2Bu32),
            (true, b as u32),
            (true, d as u32),
            (false, 0x2Cu32),
            (false, 0x3Cu32),
        ]);
    }
    assert(fill_rectangle_ops(x0, y0, x1, y1, start) == fill_rectangle_ops(x0, y0, x1, y1, start));
    if tx * 40 + 39 <= u16::MAX && ty * 40 + 39 <= u16::MAX {
        let t = solid_tile_ops(tx, ty, start);
        assert(t == fill_rectangle_ops(
            (tx * TILE_W) as u16,
            (ty * TILE_H) as u16,
            (tx * TILE_W + TILE_W - 1) as u16,
            (ty * TILE_H + TILE_H - 1) as u16,
            start,
        ));
    }
}

} // verus!
