//! Fixed 6×8 text: every character is drawn as the same boxed glyph of six
//! bytes, each byte giving 8 pixels, most significant bit first.

use vstd::prelude::*;
use vstd::arithmetic::div_mod::lemma_fundamental_div_mod_converse;
use vstd::slice::slice_subrange;
use vstd::string::StringSliceAdditionalSpecFns;

use crate::hw::{Program, RegOp};
use crate::ili9341::{push_pixels_ops, Ili9341};

verus! {

pub const FONT_W: u8 = 6;
pub const FONT_H: u8 = 8;
/// Size of the glyph buffer.
pub const GLYPH_DMA_CAP: usize = 512;
/// Pixels of one glyph: `FONT_W * FONT_H`.
pub const GLYPH_PIXELS: usize = 48;

/// The glyph bytes: a box with a smaller box inside.
pub open spec fn glyph_bytes() -> Seq<u8> {
    seq![0xFFu8, 0x81, 0xBD, 0xA5, 0x81, 0xFF]
}

fn glyph(_c: u8) -> (g: [u8; 6])
    ensures
        g@ == glyph_bytes(),
{
    let g = [0xFFu8, 0x81, 0xBD, 0xA5, 0x81, 0xFF];
    assert(g@ =~= glyph_bytes());
    g
}

/// Pixel `k` of the glyph: bit `7 - k % 8` of byte `k / 8` selects `fg`.
pub open spec fn box_pixel(k: int, fg: u16, bg: u16) -> u16 {
    if (glyph_bytes()[k / 8] >> ((7 - k % 8) as u8)) & 1u8 == 1u8 {
        fg
    } else {
        bg
    }
}

/// The 48 pixels of the glyph.
pub open spec fn box_image(fg: u16, bg: u16) -> Seq<u16> {
    Seq::new(GLYPH_PIXELS as nat, |k: int| box_pixel(k, fg, bg))
}

/// The 48 pixels of the fixed glyph, in the order they are streamed, are the
/// bytes 0xFF, 0x81, 0xBD, 0xA5, 0x81, 0xFF read most significant bit first:
/// `########`, `#......#`, `#.####.#`, `#.#..#.#`, `#......#`, `########`
/// (`#` = `fg`, `.` = `bg`).
pub proof fn lemma_box_glyph(fg: u16, bg: u16)
    ensures
        box_image(fg, bg) == seq![
        fg, fg, fg, fg, fg, fg, fg, fg, fg, bg, bg, bg, bg, bg, bg, fg, fg, bg, fg, fg, fg, fg, bg, fg, fg, bg, fg, bg, bg, fg, bg, fg, fg, bg, bg, bg, bg, bg, bg, fg, fg, fg, fg, fg, fg, fg, fg, fg,
    ],
{
    assert((0x81u8 >> 7u8) & 1u8 == 1u8 && (0x81u8 >> 6u8) & 1u8 == 0u8 && (0x81u8 >> 5u8) & 1u8 == 0u8 && (0x81u8 >> 4u8) & 1u8 == 0u8 && (0x81u8 >> 3u8) & 1u8 == 0u8 && (0x81u8 >> 2u8) & 1u8 == 0u8 && (0x81u8 >> 1u8) & 1u8 == 0u8 && (0x81u8 >> 0u8) & 1u8 == 1u8 && (0xA5u8 >> 7u8) & 1u8 == 1u8 && (0xA5u8 >> 6u8) & 1u8 == 0u8 && (0xA5u8 >> 5u8) & 1u8 == 1u8 && (0xA5u8 >> 4u8) & 1u8 == 0u8 && (0xA5u8 >> 3u8) & 1u8 == 0u8 && (0xA5u8 >> 2u8) & 1u8 == 1u8 && (0xA5u8 >> 1u8) & 1u8 == 0u8 && (0xA5u8 >> 0u8) & 1u8 == 1u8 && (0xBDu8 >> 7u8) & 1u8 == 1u8 && (0xBDu8 >> 6u8) & 1u8 == 0u8 && (0xBDu8 >> 5u8) & 1u8 == 1u8 && (0xBDu8 >> 4u8) & 1u8 == 1u8 && (0xBDu8 >> 3u8) & 1u8 == 1u8 && (0xBDu8 >> 2u8) & 1u8 == 1u8 && (0xBDu8 >> 1u8) & 1u8 == 0u8 && (0xBDu8 >> 0u8) & 1u8 == 1u8 && (0xFFu8 >> 7u8) & 1u8 == 1u8 && (0xFFu8 >> 6u8) & 1u8 == 1u8 && (0xFFu8 >> 5u8) & 1u8 == 1u8 && (0xFFu8 >> 4u8) & 1u8 == 1u8 && (0xFFu8 >> 3u8) & 1u8 == 1u8 && (0xFFu8 >> 2u8) & 1u8 == 1u8 && (0xFFu8 >> 1u8) & 1u8 == 1u8 && (0xFFu8 >> 0u8) & 1u8 == 1u8) by (bit_vector);
    assert(box_image(fg, bg) =~= seq![
        fg, fg, fg, fg, fg, fg, fg, fg, fg, bg, bg, bg, bg, bg, bg, fg, fg, bg, fg, fg, fg, fg, bg, fg, fg, bg, fg, bg, bg, fg, bg, fg, fg, bg, bg, bg, bg, bg, bg, fg, fg, fg, fg, fg, fg, fg, fg, fg,
    ]);
}

fn rasterize_glyph(ch: u8, fg: u16, bg: u16, out: &mut [u16]) -> (n: usize)
    requires
        old(out)@.len() >= GLYPH_PIXELS,
    ensures
        n == GLYPH_PIXELS,
        final(out)@.len() == old(out)@.len(),
        forall|k: int| 0 <= k < GLYPH_PIXELS ==> final(out)@[k] == box_pixel(k, fg, bg),
        forall|k: int| GLYPH_PIXELS <= k < final(out)@.len() ==> final(out)@[k] == old(out)@[k],
{
    let g = glyph(ch);
    let mut i: usize = 0;
    let mut b: usize = 0;
    while b < 6
        invariant
            g@ == glyph_bytes(),
            old(out)@.len() >= GLYPH_PIXELS,
            b <= 6,
            i == b * 8,
            out@.len() == old(out)@.len(),
            forall|k: int| 0 <= k < i ==> out@[k] == box_pixel(k, fg, bg),
            forall|k: int| i <= k < out@.len() ==> out@[k] == old(out)@[k],
        decreases 6 - b,
    {
        let byte = g[b];
        let mut bit: u8 = 0;
        while bit < 8
            invariant
                g@ == glyph_bytes(),
                old(out)@.len() >= GLYPH_PIXELS,
                b < 6,
                byte == glyph_bytes()[b as int],
                bit <= 8,
                i == b * 8 + bit,
                out@.len() == old(out)@.len(),
                forall|k: int| 0 <= k < i ==> out@[k] == box_pixel(k, fg, bg),
                forall|k: int| i <= k < out@.len() ==> out@[k] == old(out)@[k],
            decreases 8 - bit,
        {
            let on = (byte >> (7 - bit)) & 1;
            out[i] = if on == 1 { fg } else { bg };
            proof {
                lemma_fundamental_div_mod_converse(i as int, 8, b as int, bit as int);
            }
            i += 1;
            bit += 1;
        }
        b += 1;
    }
    i
}

/// The program of one glyph at `(x, y)` with pixels from pool index `start`.
pub open spec fn fixed_char_ops(x: u16, y: u16, start: nat) -> Seq<RegOp> {
    push_pixels_ops(
        x,
        y,
        (x + FONT_W - 1) as u16,
        (y + FONT_H - 1) as u16,
        GLYPH_PIXELS as nat,
        start as usize,
    )
}

/// Append to `prog` the glyph at `(x, y)`, rasterized in `glyph_buf`.
pub fn emit_char(
    lcd: &Ili9341,
    prog: &mut Program,
    ch: u8,
    x: u16,
    y: u16,
    fg: u16,
    bg: u16,
    glyph_buf: &mut [u16; GLYPH_DMA_CAP],
)
    requires
        x + FONT_W <= u16::MAX,
        y + FONT_H <= u16::MAX,
    ensures
        final(prog).ops@ == old(prog).ops@ + fixed_char_ops(x, y, old(prog).pixels@.len()),
        final(prog).pixels@ == old(prog).pixels@ + box_image(fg, bg),
        final(glyph_buf)@ == box_image(fg, bg) + old(glyph_buf)@.subrange(GLYPH_PIXELS as int, GLYPH_DMA_CAP as int),
{
    let pixels = (FONT_W as u16) * (FONT_H as u16);
    rasterize_glyph(ch, fg, bg, glyph_buf);
    let image = slice_subrange(glyph_buf.as_slice(), 0, pixels as usize);
    assert(image@ =~= box_image(fg, bg));
    assert(glyph_buf@ =~= box_image(fg, bg) + old(glyph_buf)@.subrange(GLYPH_PIXELS as int, GLYPH_DMA_CAP as int));
    lcd.emit_pixels(prog, x, y, x + FONT_W as u16 - 1, y + FONT_H as u16 - 1, image);
}

/// Draw the glyph at `(x, y)`, rasterized in `glyph_buf`.
pub fn draw_char(lcd: &Ili9341, ch: u8, x: u16, y: u16, fg: u16, bg: u16, glyph_buf: &mut [u16; GLYPH_DMA_CAP]) -> (prog: Program)
    requires
        x + FONT_W <= u16::MAX,
        y + FONT_H <= u16::MAX,
    ensures
        prog.ops@ == fixed_char_ops(x, y, 0),
        prog.pixels@ == box_image(fg, bg),
        final(glyph_buf)@ == box_image(fg, bg) + old(glyph_buf)@.subrange(GLYPH_PIXELS as int, GLYPH_DMA_CAP as int),
{
    let mut prog = Program::new();
    emit_char(lcd, &mut prog, ch, x, y, fg, bg, glyph_buf);
    assert(prog.ops@ =~= fixed_char_ops(x, y, 0));
    assert(prog.pixels@ =~= box_image(fg, bg));
    prog
}

/// The program of a text of `n` characters from `(x, y)`: character `i` at
/// `x + 6 i`, its pixels at pool index `base + 48 i`.
pub open spec fn fixed_text_ops(n: nat, x: u16, y: u16, base: nat) -> Seq<RegOp>
    decreases n,
{
    if n == 0 {
        Seq::empty()
    } else {
        fixed_text_ops((n - 1) as nat, x, y, base) + fixed_char_ops(
            (x + FONT_W * (n - 1)) as u16,
            y,
            (base + GLYPH_PIXELS * (n - 1)) as nat,
        )
    }
}

/// `n` copies of the glyph image.
pub open spec fn fixed_text_pixels(n: nat, fg: u16, bg: u16) -> Seq<u16>
    decreases n,
{
    if n == 0 {
        Seq::empty()
    } else {
        fixed_text_pixels((n - 1) as nat, fg, bg) + box_image(fg, bg)
    }
}

/// What `draw_text` needs: the pen and every glyph window stay inside the
/// `u16` range.
pub open spec fn fixed_text_accepts(n: nat, x: u16, y: u16) -> bool {
    &&& x + FONT_W * n <= u16::MAX
    &&& n > 0 ==> y + FONT_H <= u16::MAX
}

proof fn lemma_fixed_text_pixels_len(n: nat, fg: u16, bg: u16)
    ensures
        fixed_text_pixels(n, fg, bg).len() == GLYPH_PIXELS * n,
    decreases n,
{
    if n > 0 {
        lemma_fixed_text_pixels_len((n - 1) as nat, fg, bg);
    }
}

/// Append to `prog` the text `s` from `(x, y)`, 6 pixels a character.
pub fn emit_text(
    lcd: &Ili9341,
    prog: &mut Program,
    s: &str,
    x: u16,
    y: u16,
    fg: u16,
    bg: u16,
    glyph_buf: &mut [u16; GLYPH_DMA_CAP],
)
    requires
        fixed_text_accepts(s.spec_bytes().len(), x, y),
    ensures
        final(prog).ops@ == old(prog).ops@ + fixed_text_ops(s.spec_bytes().len(), x, y, old(prog).pixels@.len()),
        final(prog).pixels@ == old(prog).pixels@ + fixed_text_pixels(s.spec_bytes().len(), fg, bg),
        s.spec_bytes().len() == 0 ==> final(glyph_buf)@ == old(glyph_buf)@,
        s.spec_bytes().len() > 0 ==> final(glyph_buf)@ == box_image(fg, bg) + old(glyph_buf)@.subrange(
            GLYPH_PIXELS as int,
            GLYPH_DMA_CAP as int,
        ),
{
    let bytes = s.as_bytes();
    let ghost ops0 = prog.ops@;
    let ghost pix0 = prog.pixels@;
    let mut cx = x;
    let mut i: usize = 0;
    while i < bytes.len()
        invariant
            bytes@ == s.spec_bytes(),
            fixed_text_accepts(bytes@.len(), x, y),
            i <= bytes@.len(),
            cx == x + FONT_W * i,
            prog.ops@ == ops0 + fixed_text_ops(i as nat, x, y, pix0.len()),
            prog.pixels@ == pix0 + fixed_text_pixels(i as nat, fg, bg),
            i == 0 ==> glyph_buf@ == old(glyph_buf)@,
            i > 0 ==> glyph_buf@ == box_image(fg, bg) + old(glyph_buf)@.subrange(GLYPH_PIXELS as int, GLYPH_DMA_CAP as int),
        decreases bytes@.len() - i,
    {
        let c = bytes[i];
        proof {
            lemma_fixed_text_pixels_len(i as nat, fg, bg);
        }
        let ghost before = glyph_buf@;
        emit_char(lcd, prog, c, cx, y, fg, bg, glyph_buf);
        proof {
            assert(glyph_buf@ =~= box_image(fg, bg) + old(glyph_buf)@.subrange(GLYPH_PIXELS as int, GLYPH_DMA_CAP as int));
            assert(prog.ops@ =~= ops0 + fixed_text_ops(i as nat + 1, x, y, pix0.len()));
            assert(prog.pixels@ =~= pix0 + fixed_text_pixels(i as nat + 1, fg, bg));
        }
        cx = cx + FONT_W as u16;
        i += 1;
    }
}

/// Draw `s` from `(x, y)`, every byte as the boxed glyph, 6 pixels apart.
pub fn draw_text(lcd: &Ili9341, s: &str, x: u16, y: u16, fg: u16, bg: u16, glyph_buf: &mut [u16; GLYPH_DMA_CAP]) -> (prog: Program)
    requires
        fixed_text_accepts(s.spec_bytes().len(), x, y),
    ensures
        prog.ops@ == fixed_text_ops(s.spec_bytes().len(), x, y, 0),
        prog.pixels@ == fixed_text_pixels(s.spec_bytes().len(), fg, bg),
        s.spec_bytes().len() == 0 ==> final(glyph_buf)@ == old(glyph_buf)@,
        s.spec_bytes().len() > 0 ==> final(glyph_buf)@ == box_image(fg, bg) + old(glyph_buf)@.subrange(
            GLYPH_PIXELS as int,
            GLYPH_DMA_CAP as int,
        ),
{
    let mut prog = Program::new();
    emit_text(lcd, &mut prog, s, x, y, fg, bg, glyph_buf);
    assert(prog.ops@ =~= fixed_text_ops(s.spec_bytes().len(), x, y, 0));
    assert(prog.pixels@ =~= fixed_text_pixels(s.spec_bytes().len(), fg, bg));
    prog
}

} // verus!
