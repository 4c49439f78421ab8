//! The demo loop: on each tearing-effect edge, paint the next dirty tile in
//! its gradient color (or mark every tile dirty again when none is left) and
//! draw the banner text.

use vstd::prelude::*;
use vstd::string::StringSliceAdditionalSpecFns;

use crate::font::fixed::{self, box_image, fixed_text_ops, fixed_text_pixels, GLYPH_DMA_CAP, GLYPH_PIXELS};
use crate::hw::Program;
use crate::ili9341::{
    first_dirty, lemma_first_dirty_is_least, lemma_tile_index_of, solid_tile_ops, tile_of,
    Ili9341, Tiles, HEIGHT, TILE_COUNT, TILE_H, TILE_W, WIDTH,
};

verus! {

/// What the tearing-effect interrupt shares with the main loop.
pub struct TeState {
    /// An edge came since the main loop last looked.
    pub flag: bool,
    /// Edges seen, modulo 2^32.
    pub irq_count: u32,
}

impl TeState {
    pub fn new() -> (te: Self)
        ensures
            !te.flag,
            te.irq_count == 0,
    {
        TeState { flag: false, irq_count: 0 }
    }
}

/// The tearing-effect interrupt: count the edge (wrapping) and raise the flag.
pub fn exti7_0_irqhandler(te: &mut TeState)
    ensures
        final(te).irq_count == (old(te).irq_count + 1) % 0x1_0000_0000,
        final(te).flag,
{
    te.irq_count = te.irq_count.wrapping_add(1);
    te.flag = true;
}

/// Whether the banner text is drawn each frame.
pub fn tx_demo_condition() -> (b: bool)
    ensures
        b,
{
    true
}

/// The gradient color of tile `(tx, ty)` in RGB565: red from the column, green
/// from the row, blue zero.
pub open spec fn tile_color_spec(tx: u16, ty: u16) -> u16 {
    (((tx * 31 / 6) as u16) << 11u16) | (((ty * 63 / 8) as u16) << 5u16)
}

/// The gradient color of tile `(tx, ty)`.
pub fn tile_color(tx: u16, ty: u16) -> (c: u16)
    requires
        tx * 31 <= u16::MAX,
        ty * 63 <= u16::MAX,
    ensures
        c == tile_color_spec(tx, ty),
        tx < 6 && ty < 8 ==> c >> 11u16 == tx * 31 / 6,
        tx < 6 && ty < 8 ==> (c >> 5u16) & 0x3F == ty * 63 / 8,
        c & 0x1F == 0,
{
    let tiles_x = WIDTH / TILE_W;
    let tiles_y = HEIGHT / TILE_H;
    let r: u16 = tx * 31 / tiles_x;
    let g: u16 = ty * 63 / tiles_y;
    let c = (r << 11u16) | (g << 5u16);
    assert(r < 32 && g < 64 ==> c >> 11u16 == r && (c >> 5u16) & 0x3F == g) by (bit_vector)
        requires
            c == (r << 11u16) | (g << 5u16),
    ;
    assert(c & 0x1F == 0) by (bit_vector)
        requires
            c == (r << 11u16) | (g << 5u16),
    ;
    c
}

/// One frame of work: the interrupt count to report and the program to run.
pub struct FrameWork {
    pub irq_count: u32,
    pub program: Program,
}

/// The banner: "HELLO" at (10, 10), white on black.
pub open spec fn banner_ops(base: nat) -> Seq<crate::hw::RegOp> {
    fixed_text_ops(5, 10, 10, base)
}

pub open spec fn banner_pixels() -> Seq<u16> {
    fixed_text_pixels(5, 0xFFFF, 0x0000)
}

/// One pass of the main loop. With no tearing-effect edge pending, nothing
/// happens. Otherwise the flag is lowered and the frame's work returned: the
/// first dirty tile painted and cleared (or, none being dirty, all tiles
/// marked dirty), then the banner.
pub fn frame_step(
    lcd: &Ili9341,
    tiles: &mut Tiles,
    te: &mut TeState,
    glyph_buf: &mut [u16; GLYPH_DMA_CAP],
) -> (work: Option<FrameWork>)
    ensures
        !old(te).flag ==> {
            &&& work is None
            &&& final(te).flag == old(te).flag
            &&& final(te).irq_count == old(te).irq_count
            &&& final(tiles).dirty@ == old(tiles).dirty@
            &&& final(glyph_buf)@ == old(glyph_buf)@
        },
        old(te).flag ==> {
            &&& work is Some
            &&& work.unwrap().irq_count == old(te).irq_count
            &&& !final(te).flag
            &&& final(te).irq_count == old(te).irq_count
            &&& final(glyph_buf)@ == box_image(0xFFFF, 0x0000) + old(glyph_buf)@.subrange(
                GLYPH_PIXELS as int,
                GLYPH_DMA_CAP as int,
            )
            &&& match first_dirty(old(tiles).dirty@) {
                Some(i) => {
                    &&& final(tiles).dirty@ == old(tiles).dirty@.update(i, false)
                    &&& work.unwrap().program.ops@ == solid_tile_ops(tile_of(i).0, tile_of(i).1, 0)
                        + banner_ops(1)
                    &&& work.unwrap().program.pixels@ == seq![tile_color_spec(tile_of(i).0, tile_of(i).1)]
                        + banner_pixels()
                },
                None => {
                    &&& final(tiles).dirty@ == Seq::new(TILE_COUNT as nat, |j: int| true)
                    &&& work.unwrap().program.ops@ == banner_ops(0)
                    &&& work.unwrap().program.pixels@ == banner_pixels()
                },
            }
        },
{
    if !te.flag {
        return None;
    }
    te.flag = false;
    let irq_count = te.irq_count;
    let mut prog = Program::new();
    proof {
        lemma_first_dirty_is_least(tiles.dirty@);
    }
    match tiles.next() {
        Some((tx, ty)) => {
            let ghost i = first_dirty(tiles.dirty@).unwrap();
            proof {
                lemma_tile_index_of(i);
            }
            let color = tile_color(tx, ty);
            lcd.emit_solid_tile(&mut prog, tx, ty, color);
            tiles.clear(tx, ty);
        },
        None => {
            tiles.mark_all();
        },
    }
    if tx_demo_condition() {
        let text = "HELLO";
        proof {
            reveal_strlit("HELLO");
            vstd::string::is_ascii_spec_bytes(text);
        }
        assert(text.spec_bytes().len() == 5);
        fixed::emit_text(lcd, &mut prog, text, 10, 10, 0xFFFF, 0x0000, glyph_buf);
    }
    Some(FrameWork { irq_count, program: prog })
}

} // verus!
