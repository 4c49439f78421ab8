//! Bitmap text rendering (Tilen Majerle font format, SPI DMA).
//!
//! A font holds, for each printable ASCII character from `' '` to `'~'`,
//! `height` rows of 16 bits; the leftmost pixel of a row is bit 15. A
//! character without a glyph is drawn as the space.

pub mod fixed;

use vstd::prelude::*;
use vstd::arithmetic::div_mod::lemma_fundamental_div_mod_converse;
use vstd::slice::slice_subrange;
use vstd::string::StringSliceAdditionalSpecFns;

use crate::hw::Program;
use crate::ili9341::{push_pixels_ops, Ili9341};

verus! {

/// Size of the glyph buffer: the most pixels a glyph may have.
pub const GLYPH_DMA_CAP: usize = 512;

/// Printable ASCII from space (`0x20`) through `~` (`0x7E`).
pub const GLYPH_COUNT: usize = 95;

/// Font descriptor (same layout as C `TM_FontDef_t`).
pub struct Font {
    pub width: u8,
    pub height: u8,
    /// `height` rows per glyph, glyphs in character order from the space.
    pub data: &'static [u16],
}

/// Rows `start..end` of the font data that hold the glyph of `ch`, for a
/// printable `ch`.
pub open spec fn glyph_span(ch: u8, height: u8) -> Option<(int, int)> {
    if ch < 0x20 || ch - 0x20 >= GLYPH_COUNT {
        None
    } else {
        Some(((ch - 0x20) * height, (ch - 0x20) * height + height))
    }
}

/// Pixel `k` (row-major, `w` pixels a row) of the glyph with rows `rows`:
/// `fg` where the row bit is set, `bg` elsewhere.
pub open spec fn glyph_pixel(rows: Seq<u16>, w: u8, fg: u16, bg: u16, k: int) -> u16 {
    let row = rows[k / (w as int)];
    let col = k % (w as int);
    if (row << (col as u16)) & 0x8000u16 != 0 {
        fg
    } else {
        bg
    }
}

impl Font {
    /// The glyph rows, as stored.
    pub open spec fn data_view(&self) -> Seq<u16> {
        self.data@
    }

    /// The rows of the glyph of `ch`, if `ch` is printable and the data holds
    /// them.
    pub open spec fn rows_of(&self, ch: u8) -> Option<Seq<u16>> {
        match glyph_span(ch, self.height) {
            Some((s, e)) => if e <= self.data_view().len() {
                Some(self.data_view().subrange(s, e))
            } else {
                None
            },
            None => None,
        }
    }

    /// The rows drawn for `ch`: its own, else those of the space, else none.
    pub open spec fn drawn_rows(&self, ch: u8) -> Seq<u16> {
        match self.rows_of(ch) {
            Some(r) => r,
            None => match self.rows_of(0x20) {
                Some(r) => r,
                None => Seq::empty(),
            },
        }
    }

    /// Pixels of one glyph.
    pub open spec fn pixels_spec(&self) -> nat {
        self.width as nat * self.height as nat
    }

    /// The pixels sent for `ch` when the glyph buffer held `buf`: the
    /// rasterized rows, or, where no rows were drawn, what the buffer held.
    pub open spec fn glyph_image(&self, ch: u8, fg: u16, bg: u16, buf: Seq<u16>) -> Seq<u16> {
        Seq::new(
            self.pixels_spec(),
            |k: int|
                if k < self.drawn_rows(ch).len() * self.width {
                    glyph_pixel(self.drawn_rows(ch), self.width, fg, bg, k)
                } else {
                    buf[k]
                },
        )
    }

    pub fn new(width: u8, height: u8, data: &'static [u16]) -> (f: Self)
        ensures
            f.width == width,
            f.height == height,
            f.data_view() == data@,
    {
        Self { width, height, data }
    }

    /// Pixels of one glyph: `width * height`.
    pub fn glyph_pixels(&self) -> (n: usize)
        ensures
            n == self.pixels_spec(),
    {
        assert(self.width as int * self.height as int <= 255 * 255) by (nonlinear_arith)
            requires
                self.width <= 255,
                self.height <= 255,
        ;
        self.width as usize * self.height as usize
    }

    fn glyph_rows(&self, ch: u8) -> (r: Option<&[u16]>)
        ensures
            match self.rows_of(ch) {
                Some(rows) => r is Some && r.unwrap()@ == rows,
                None => r is None,
            },
    {
        let idx = match ch.checked_sub(0x20u8) {
            Some(i) => i as usize,
            None => return None,
        };
        if idx >= GLYPH_COUNT {
            return None;
        }
        assert(idx as int * self.height as int <= 94 * 255) by (nonlinear_arith)
            requires
                idx < 95,
                self.height <= 255,
        ;
        let start = idx * self.height as usize;
        let end = start + self.height as usize;
        if end <= self.data.len() {
            Some(slice_subrange(self.data, start, end))
        } else {
            None
        }
    }
}

/// A glyph has `height` rows whenever the font data holds the space glyph,
/// and none at all otherwise.
pub proof fn lemma_drawn_rows_len(font: &Font, ch: u8)
    ensures
        font.height <= font.data_view().len() ==> font.drawn_rows(ch).len() == font.height,
        font.height > font.data_view().len() ==> font.drawn_rows(ch).len() == 0,
{
    match glyph_span(ch, font.height) {
        Some((s, e)) => {
            assert(s >= 0) by (nonlinear_arith)
                requires
                    s == (ch - 0x20) * font.height,
                    ch >= 0x20,
            ;
        },
        None => {},
    }
    assert(glyph_span(0x20, font.height) == Some((0int, font.height as int)));
}

/// Every printable character from `' '` (0x20) to `'~'` (0x7E) has a glyph
/// of its own: rows `(ch - 0x20) * height` up to `(ch - 0x20 + 1) * height` of
/// the font data, whenever the data holds them, and these are the rows drawn
/// for it. Every other byte has none.
pub proof fn lemma_printable_glyph_rows(font: &Font, ch: u8)
    ensures
        (0x20 <= ch <= 0x7E && (ch - 0x20 + 1) * font.height <= font.data_view().len()) ==> {
            &&& font.rows_of(ch) == Some(
                font.data_view().subrange((ch - 0x20) * font.height, (ch - 0x20 + 1) * font.height),
            )
            &&& font.drawn_rows(ch) == font.data_view().subrange(
                (ch - 0x20) * font.height,
                (ch - 0x20 + 1) * font.height,
            )
        },
        (ch < 0x20 || ch > 0x7E) ==> font.rows_of(ch) is None,
{
    let h = font.height as int;
    let k = ch - 0x20;
    assert(k * h + h == (k + 1) * h) by (nonlinear_arith);
}

/// Glyph rows are read most significant bit first: pixel `k` of a glyph (row
/// `k / width`, column `k % width`) is `fg` exactly when bit `15 - column` of
/// its row is set, for glyphs at most 16 pixels wide.
pub proof fn lemma_glyph_msb_first(font: &Font, ch: u8, fg: u16, bg: u16, buf: Seq<u16>, k: int)
    requires
        font.width <= 16,
        0 <= k < font.drawn_rows(ch).len() * font.width,
        k < font.pixels_spec(),
    ensures
        ({
            let row = font.drawn_rows(ch)[k / font.width as int];
            let col = (k % font.width as int) as u16;
            font.glyph_image(ch, fg, bg, buf)[k] == if (row >> (15 - col) as u16) & 1 == 1 {
                fg
            } else {
                bg
            }
        }),
{
    let w = font.width as int;
    assert(w > 0) by (nonlinear_arith)
        requires
            0 <= k < font.drawn_rows(ch).len() * w,
    ;
    let row = font.drawn_rows(ch)[k / w];
    let col = (k % w) as u16;
    assert(col < 16);
    assert(((row << col) & 0x8000u16 != 0) == ((row >> (15 - col) as u16) & 1 == 1)) by (bit_vector)
        requires
            col < 16,
    ;
}

/// The rows that `rasterize_glyph` draws for a character without a glyph of
/// its own are those of the space; when the space has none either, none are
/// drawn (nothing is written and 0 is returned).
pub proof fn lemma_missing_glyph_rows(font: &Font, ch: u8)
    requires
        font.rows_of(ch) is None,
    ensures
        font.drawn_rows(ch) == font.drawn_rows(0x20),
        font.rows_of(0x20) is None ==> font.drawn_rows(ch).len() == 0,
{
}

/// A character without a glyph of its own is drawn exactly as the space.
pub proof fn lemma_missing_glyph_is_space(font: &Font, ch: u8, fg: u16, bg: u16, buf: Seq<u16>)
    requires
        font.rows_of(ch) is None,
    ensures
        font.glyph_image(ch, fg, bg, buf) == font.glyph_image(0x20, fg, bg, buf),
{
    assert(font.drawn_rows(ch) == font.drawn_rows(0x20));
    assert(font.glyph_image(ch, fg, bg, buf) =~= font.glyph_image(0x20, fg, bg, buf));
}

/// When the font data holds the space glyph, every glyph is fully rasterized:
/// all `width * height` pixels come from the glyph rows, none from the buffer.
pub proof fn lemma_glyph_fully_drawn(font: &Font, ch: u8, fg: u16, bg: u16, buf: Seq<u16>, buf2: Seq<u16>)
    requires
        font.height <= font.data_view().len(),
    ensures
        font.drawn_rows(ch).len() * font.width == font.pixels_spec(),
        font.glyph_image(ch, fg, bg, buf) == font.glyph_image(ch, fg, bg, buf2),
{
    lemma_drawn_rows_len(font, ch);
    assert(font.height as nat * font.width as nat == font.pixels_spec()) by (nonlinear_arith)
        requires
            font.pixels_spec() == font.width as nat * font.height as nat,
    ;
    assert(font.glyph_image(ch, fg, bg, buf) =~= font.glyph_image(ch, fg, bg, buf2));
}


/// Rasterize the glyph of `ch` (or of the space) into `out`, one pixel per
/// entry; returns the number of pixels written.
pub fn rasterize_glyph(font: &Font, ch: u8, fg: u16, bg: u16, out: &mut [u16]) -> (n: usize)
    requires
        font.drawn_rows(ch).len() == 0 || font.width <= 16,
        old(out)@.len() >= font.drawn_rows(ch).len() * font.width,
    ensures
        n == font.drawn_rows(ch).len() * font.width,
        final(out)@.len() == old(out)@.len(),
        forall|k: int|
            0 <= k < n ==> final(out)@[k] == glyph_pixel(font.drawn_rows(ch), font.width, fg, bg, k),
        forall|k: int| n <= k < final(out)@.len() ==> final(out)@[k] == old(out)@[k],
{
    let rows: &[u16] = match font.glyph_rows(ch) {
        Some(r) => r,
        None => match font.glyph_rows(0x20u8) {
            Some(r) => r,
            None => &[],
        },
    };
    assert(rows@ == font.drawn_rows(ch));
    let w = font.width as usize;
    let ghost total = rows@.len() * w;
    let mut i: usize = 0;
    let mut r: usize = 0;
    while r < rows.len()
        invariant
            rows@ == font.drawn_rows(ch),
            w == font.width,
            rows@.len() == 0 || w <= 16,
            total == rows@.len() * w,
            old(out)@.len() >= total,
            r <= rows@.len(),
            i == r * w,
            out@.len() == old(out)@.len(),
            forall|k: int| 0 <= k < i ==> out@[k] == glyph_pixel(rows@, font.width, fg, bg, k),
            forall|k: int| i <= k < out@.len() ==> out@[k] == old(out)@[k],
        decreases rows@.len() - r,
    {
        let row = rows[r];
        assert((r + 1) * w <= total) by (nonlinear_arith)
            requires
                r + 1 <= rows@.len(),
                total == rows@.len() * w,
        ;
        let mut col: usize = 0;
        while col < w
            invariant
                rows@ == font.drawn_rows(ch),
                w == font.width,
                w <= 16,
                r < rows@.len(),
                row == rows@[r as int],
                (r + 1) * w <= total,
                old(out)@.len() >= total,
                col <= w,
                i == r * w + col,
                out@.len() == old(out)@.len(),
                forall|k: int| 0 <= k < i ==> out@[k] == glyph_pixel(rows@, font.width, fg, bg, k),
                forall|k: int| i <= k < out@.len() ==> out@[k] == old(out)@[k],
            decreases w - col,
        {
            assert(i < total) by (nonlinear_arith)
                requires
                    i == r * w + col,
                    col < w,
                    (r + 1) * w <= total,
            ;
            let on = (row << col) & 0x8000u16 != 0;
            out[i] = if on { fg } else { bg };
            proof {
                lemma_fundamental_div_mod_converse(i as int, w as int, r as int, col as int);
            }
            i += 1;
            col += 1;
        }
        r += 1;
        assert(i == r * w) by (nonlinear_arith)
            requires
                i == (r - 1) * w + w,
        ;
    }
    i
}

/// What `text_width` returns for a text of `n` bytes: `width` times `n`
/// taken modulo 2^16.
pub open spec fn text_width_spec(font: &Font, n: nat) -> int {
    font.width * (n % 0x1_0000)
}

/// Byte length of `s`, as `str::len` reports it.
pub open spec fn str_len(s: &str) -> usize {
    s.spec_bytes().len() as usize
}

/// Width in pixels of `s` at `font` (no trailing space trim): `width` times the
/// byte length of `s`, the length taken modulo 2^16.
pub fn text_width(font: &Font, s: &str) -> (w: u16)
    requires
        font.width * (str_len(s) % 0x1_0000) <= u16::MAX,
    ensures
        w == text_width_spec(font, str_len(s) as nat),
{
    let len64: u64 = s.len() as u64;
    let len16: u16 = (len64 % 0x1_0000u64) as u16;
    assert(len16 == str_len(s) % 0x1_0000);
    font.width as u16 * len16
}

/// What `draw_char` needs: for a glyph that fits the buffer, rows of at most
/// 16 pixels and a window `(x, y)..=(x + width - 1, y + height - 1)` inside
/// the `u16` range.
pub open spec fn draw_char_accepts(font: &Font, ch: u8, x: u16, y: u16) -> bool {
    font.pixels_spec() <= GLYPH_DMA_CAP ==> {
        &&& font.drawn_rows(ch).len() == 0 || font.width <= 16
        &&& 1 <= x + font.width <= u16::MAX
        &&& 1 <= y + font.height <= u16::MAX
    }
}

/// The program of one character at `(x, y)` whose pixels start at pool index
/// `start`: nothing when the glyph does not fit the buffer.
pub open spec fn char_ops(font: &Font, x: u16, y: u16, start: nat) -> Seq<crate::hw::RegOp> {
    if font.pixels_spec() > GLYPH_DMA_CAP {
        Seq::empty()
    } else {
        push_pixels_ops(
            x,
            y,
            (x + font.width - 1) as u16,
            (y + font.height - 1) as u16,
            font.pixels_spec(),
            start as usize,
        )
    }
}

/// Append to `prog` the character `ch` at `(x, y)`, rasterized in `glyph_buf`.
pub fn emit_char(
    lcd: &Ili9341,
    prog: &mut Program,
    font: &Font,
    ch: u8,
    x: u16,
    y: u16,
    fg: u16,
    bg: u16,
    glyph_buf: &mut [u16; GLYPH_DMA_CAP],
)
    requires
        draw_char_accepts(font, ch, x, y),
    ensures
        final(prog).ops@ == old(prog).ops@ + char_ops(font, x, y, old(prog).pixels@.len()),
        font.pixels_spec() > GLYPH_DMA_CAP ==> {
            &&& final(prog).pixels@ == old(prog).pixels@
            &&& final(glyph_buf)@ == old(glyph_buf)@
        },
        font.pixels_spec() <= GLYPH_DMA_CAP ==> {
            &&& final(prog).pixels@ == old(prog).pixels@ + font.glyph_image(ch, fg, bg, old(glyph_buf)@)
            &&& final(glyph_buf)@ == font.glyph_image(ch, fg, bg, old(glyph_buf)@) + old(glyph_buf)@.subrange(
                font.pixels_spec() as int,
                GLYPH_DMA_CAP as int,
            )
        },
{
    let pixels = font.glyph_pixels();
    if pixels > GLYPH_DMA_CAP {
        assert(char_ops(font, x, y, old(prog).pixels@.len()) =~= Seq::empty());
        assert(prog.ops@ =~= old(prog).ops@ + char_ops(font, x, y, old(prog).pixels@.len()));
        return;
    }
    proof {
        lemma_drawn_rows_len(font, ch);
        assert(font.drawn_rows(ch).len() * font.width <= font.pixels_spec()) by (nonlinear_arith)
            requires
                font.drawn_rows(ch).len() <= font.height,
                font.pixels_spec() == font.width as nat * font.height as nat,
        ;
    }
    let n = rasterize_glyph(font, ch, fg, bg, glyph_buf);
    let image = slice_subrange(glyph_buf.as_slice(), 0, pixels);
    assert(image@ =~= font.glyph_image(ch, fg, bg, old(glyph_buf)@));
    assert(glyph_buf@ =~= font.glyph_image(ch, fg, bg, old(glyph_buf)@) + old(glyph_buf)@.subrange(
        pixels as int,
        GLYPH_DMA_CAP as int,
    ));
    assert((font.width as int) * (font.height as int) <= u32::MAX) by (nonlinear_arith)
        requires
            font.width <= 255,
            font.height <= 255,
    ;
    lcd.emit_pixels(prog, x, y, x + font.width as u16 - 1, y + font.height as u16 - 1, image);
}

/// Draw the character `ch` at `(x, y)`, rasterized in `glyph_buf`.
pub fn draw_char(
    lcd: &Ili9341,
    font: &Font,
    ch: u8,
    x: u16,
    y: u16,
    fg: u16,
    bg: u16,
    glyph_buf: &mut [u16; GLYPH_DMA_CAP],
) -> (prog: Program)
    requires
        draw_char_accepts(font, ch, x, y),
    ensures
        prog.ops@ == char_ops(font, x, y, 0),
        font.pixels_spec() > GLYPH_DMA_CAP ==> {
            &&& prog.pixels@ == Seq::<u16>::empty()
            &&& final(glyph_buf)@ == old(glyph_buf)@
        },
        font.pixels_spec() <= GLYPH_DMA_CAP ==> {
            &&& prog.pixels@ == font.glyph_image(ch, fg, bg, old(glyph_buf)@)
            &&& final(glyph_buf)@ == font.glyph_image(ch, fg, bg, old(glyph_buf)@) + old(glyph_buf)@.subrange(
                font.pixels_spec() as int,
                GLYPH_DMA_CAP as int,
            )
        },
{
    let mut prog = Program::new();
    emit_char(lcd, &mut prog, font, ch, x, y, fg, bg, glyph_buf);
    assert(prog.ops@ =~= char_ops(font, x, y, 0));
    assert(font.pixels_spec() <= GLYPH_DMA_CAP ==> prog.pixels@ =~= font.glyph_image(ch, fg, bg, old(glyph_buf)@));
    prog
}

/// The program of a text of `n` characters starting at `(x, y)`: character
/// `i` at `x + i * width`, its pixels at pool index
/// `base + i * width * height`.
pub open spec fn text_ops(font: &Font, n: nat, x: u16, y: u16, base: nat) -> Seq<crate::hw::RegOp>
    decreases n,
{
    if n == 0 {
        Seq::empty()
    } else {
        text_ops(font, (n - 1) as nat, x, y, base) + char_ops(
            font,
            (x + font.width * (n - 1)) as u16,
            y,
            base + ((n - 1) * font.pixels_spec()) as nat,
        )
    }
}

/// The pixel pool of a text: the glyph image of each byte, in order (nothing
/// when a glyph does not fit the buffer).
pub open spec fn text_pixels(font: &Font, bytes: Seq<u8>, fg: u16, bg: u16, buf: Seq<u16>) -> Seq<u16>
    decreases bytes.len(),
{
    if bytes.len() == 0 {
        Seq::empty()
    } else {
        text_pixels(font, bytes.drop_last(), fg, bg, buf) + (if font.pixels_spec() > GLYPH_DMA_CAP {
            Seq::empty()
        } else {
            font.glyph_image(bytes.last(), fg, bg, buf)
        })
    }
}

/// The glyph buffer after drawing `bytes`: the image of the last glyph
/// followed by the untouched rest, or the buffer as it was.
pub open spec fn text_glyph_buf(font: &Font, bytes: Seq<u8>, fg: u16, bg: u16, buf: Seq<u16>) -> Seq<u16> {
    if bytes.len() == 0 || font.pixels_spec() > GLYPH_DMA_CAP {
        buf
    } else {
        font.glyph_image(bytes.last(), fg, bg, buf) + buf.subrange(font.pixels_spec() as int, GLYPH_DMA_CAP as int)
    }
}

/// What `draw_text` needs: the pen stays inside the `u16` range, and every
/// glyph it draws is drawable.
pub open spec fn draw_text_accepts(font: &Font, n: nat, x: u16, y: u16) -> bool {
    &&& x + font.width * n <= u16::MAX
    &&& (n > 0 && font.pixels_spec() <= GLYPH_DMA_CAP) ==> {
        &&& font.width <= 16 || font.height == 0 || font.height > font.data_view().len()
        &&& 1 <= x + font.width
        &&& 1 <= y + font.height <= u16::MAX
    }
}

/// The glyph image does not depend on what an earlier glyph left in the
/// buffer.
proof fn lemma_glyph_image_after_glyph(font: &Font, c: u8, c0: u8, fg: u16, bg: u16, fg0: u16, bg0: u16, buf: Seq<u16>)
    requires
        buf.len() == GLYPH_DMA_CAP,
        font.pixels_spec() <= GLYPH_DMA_CAP,
    ensures
        font.glyph_image(c, fg, bg, font.glyph_image(c0, fg0, bg0, buf) + buf.subrange(
            font.pixels_spec() as int,
            GLYPH_DMA_CAP as int,
        )) == font.glyph_image(c, fg, bg, buf),
{
    lemma_drawn_rows_len(font, c);
    lemma_drawn_rows_len(font, c0);
    assert(font.height as nat * font.width as nat == font.pixels_spec()) by (nonlinear_arith)
        requires
            font.pixels_spec() == font.width as nat * font.height as nat,
    ;
    let b2 = font.glyph_image(c0, fg0, bg0, buf) + buf.subrange(font.pixels_spec() as int, GLYPH_DMA_CAP as int);
    assert(font.glyph_image(c, fg, bg, b2) =~= font.glyph_image(c, fg, bg, buf));
}

proof fn lemma_text_pixels_len(font: &Font, bytes: Seq<u8>, fg: u16, bg: u16, buf: Seq<u16>)
    ensures
        font.pixels_spec() <= GLYPH_DMA_CAP ==> text_pixels(font, bytes, fg, bg, buf).len() == bytes.len() * font.pixels_spec(),
        font.pixels_spec() > GLYPH_DMA_CAP ==> text_pixels(font, bytes, fg, bg, buf).len() == 0,
    decreases bytes.len(),
{
    if bytes.len() > 0 {
        lemma_text_pixels_len(font, bytes.drop_last(), fg, bg, buf);
        assert((bytes.len() - 1) * font.pixels_spec() + font.pixels_spec() == bytes.len() * font.pixels_spec())
            by (nonlinear_arith);
    }
}

/// Drawing `a` then `b` from where the pen stopped, `x + text_width(a)`, is
/// drawing `a + b`: the same glyph windows in the same order, the pool of
/// `b`'s glyphs following that of `a`'s, the same pool contents, and the
/// same glyph buffer afterwards.
pub proof fn lemma_draw_text_concat(
    font: &Font,
    a: Seq<u8>,
    b: Seq<u8>,
    x: u16,
    y: u16,
    fg: u16,
    bg: u16,
    buf: Seq<u16>,
    base: nat,
)
    requires
        x + font.width * (a.len() + b.len()) <= u16::MAX,
        buf.len() == GLYPH_DMA_CAP,
    ensures
        text_width_spec(font, a.len()) == font.width * a.len(),
        text_ops(font, a.len() + b.len(), x, y, base) == text_ops(font, a.len(), x, y, base) + text_ops(
            font,
            b.len(),
            (x + text_width_spec(font, a.len())) as u16,
            y,
            base + a.len() * font.pixels_spec(),
        ),
        text_pixels(font, a + b, fg, bg, buf) == text_pixels(font, a, fg, bg, buf) + text_pixels(
            font,
            b,
            fg,
            bg,
            buf,
        ),
        text_glyph_buf(font, a + b, fg, bg, buf) == if b.len() == 0 {
            text_glyph_buf(font, a, fg, bg, buf)
        } else {
            text_glyph_buf(font, b, fg, bg, buf)
        },
{
    let w = font.width as nat;
    let na = a.len();
    assert(w * na <= w * (na + b.len())) by (nonlinear_arith);
    if w > 0 {
        assert(na <= w * na) by (nonlinear_arith)
            requires
                w >= 1,
        ;
        assert(na % 0x1_0000 == na);
    } else {
        assert(w * (na % 0x1_0000) == 0 && w * na == 0) by (nonlinear_arith)
            requires
                w == 0,
        ;
    }
    assert(text_width_spec(font, na) == w * na);
    lemma_text_ops_concat(font, na, b.len(), x, y, base);
    lemma_text_pixels_concat(font, a, b, fg, bg, buf);
    if b.len() > 0 {
        assert((a + b).last() == b.last());
    } else {
        assert(a + b =~= a);
    }
}

proof fn lemma_text_ops_concat(font: &Font, na: nat, nb: nat, x: u16, y: u16, base: nat)
    requires
        x + font.width * (na + nb) <= u16::MAX,
    ensures
        text_ops(font, na + nb, x, y, base) == text_ops(font, na, x, y, base) + text_ops(
            font,
            nb,
            (x + font.width * na) as u16,
            y,
            base + na * font.pixels_spec(),
        ),
    decreases nb,
{
    let w = font.width as nat;
    let p = font.pixels_spec();
    if nb == 0 {
        assert(text_ops(font, na, x, y, base) + Seq::<crate::hw::RegOp>::empty() =~= text_ops(font, na, x, y, base));
    } else {
        assert(w * (na + nb - 1) <= w * (na + nb)) by (nonlinear_arith);
        lemma_text_ops_concat(font, na, (nb - 1) as nat, x, y, base);
        let x2 = (x + w * na) as u16;
        assert(w * na <= w * (na + nb)) by (nonlinear_arith);
        assert(x2 == x + w * na);
        assert(w * na + w * (nb - 1) == w * (na + nb - 1)) by (nonlinear_arith)
            requires
                nb >= 1,
        ;
        assert(na * p + (nb - 1) * p == (na + nb - 1) * p) by (nonlinear_arith)
            requires
                nb >= 1,
        ;
        assert(text_ops(font, na + nb, x, y, base) =~= text_ops(font, na, x, y, base) + text_ops(
            font,
            nb,
            x2,
            y,
            base + na * p,
        ));
    }
}

proof fn lemma_text_pixels_concat(font: &Font, a: Seq<u8>, b: Seq<u8>, fg: u16, bg: u16, buf: Seq<u16>)
    ensures
        text_pixels(font, a + b, fg, bg, buf) == text_pixels(font, a, fg, bg, buf) + text_pixels(font, b, fg, bg, buf),
    decreases b.len(),
{
    if b.len() == 0 {
        assert(a + b =~= a);
        assert(text_pixels(font, a, fg, bg, buf) + Seq::<u16>::empty() =~= text_pixels(font, a, fg, bg, buf));
    } else {
        lemma_text_pixels_concat(font, a, b.drop_last(), fg, bg, buf);
        assert((a + b).drop_last() =~= a + b.drop_last());
        assert((a + b).last() == b.last());
        assert(text_pixels(font, a + b, fg, bg, buf) =~= text_pixels(font, a, fg, bg, buf) + text_pixels(
            font,
            b,
            fg,
            bg,
            buf,
        ));
    }
}

/// Append to `prog` the text `s` from `(x, y)`, one glyph after the other.
pub fn emit_text(
    lcd: &Ili9341,
    prog: &mut Program,
    font: &Font,
    s: &str,
    x: u16,
    y: u16,
    fg: u16,
    bg: u16,
    glyph_buf: &mut [u16; GLYPH_DMA_CAP],
)
    requires
        draw_text_accepts(font, s.spec_bytes().len(), x, y),
    ensures
        final(prog).ops@ == old(prog).ops@ + text_ops(font, s.spec_bytes().len(), x, y, old(prog).pixels@.len()),
        final(prog).pixels@ == old(prog).pixels@ + text_pixels(font, s.spec_bytes(), fg, bg, old(glyph_buf)@),
        final(glyph_buf)@ == text_glyph_buf(font, s.spec_bytes(), fg, bg, old(glyph_buf)@),
{
    let bytes = s.as_bytes();
    let ghost buf0 = glyph_buf@;
    let ghost ops0 = prog.ops@;
    let ghost pix0 = prog.pixels@;
    let ghost p = font.pixels_spec();
    let w = font.width as u16;
    let mut cx = x;
    let mut i: usize = 0;
    while i < bytes.len()
        invariant
            bytes@ == s.spec_bytes(),
            draw_text_accepts(font, bytes@.len(), x, y),
            buf0.len() == GLYPH_DMA_CAP,
            p == font.pixels_spec(),
            w == font.width,
            i <= bytes@.len(),
            cx == x + font.width * i,
            prog.ops@ == ops0 + text_ops(font, i as nat, x, y, pix0.len()),
            prog.pixels@ == pix0 + text_pixels(font, bytes@.take(i as int), fg, bg, buf0),
            glyph_buf@ == text_glyph_buf(font, bytes@.take(i as int), fg, bg, buf0),
        decreases bytes@.len() - i,
    {
        let c = bytes[i];
        proof {
            lemma_drawn_rows_len(font, c);
            lemma_text_pixels_len(font, bytes@.take(i as int), fg, bg, buf0);
            assert(font.width * i + font.width <= font.width * bytes@.len()) by (nonlinear_arith)
                requires
                    i < bytes@.len(),
            ;
            if i > 0 && p <= GLYPH_DMA_CAP {
                lemma_glyph_image_after_glyph(font, c, bytes@[i - 1], fg, bg, fg, bg, buf0);
                assert(bytes@.take(i as int).last() == bytes@[i - 1]);
            }
        }
        let ghost before = glyph_buf@;
        emit_char(lcd, prog, font, c, cx, y, fg, bg, glyph_buf);
        proof {
            let t = bytes@.take(i as int + 1);
            assert(t.drop_last() =~= bytes@.take(i as int));
            assert(t.last() == c);
            if p <= GLYPH_DMA_CAP {
                assert(font.glyph_image(c, fg, bg, before) == font.glyph_image(c, fg, bg, buf0));
                assert((i as nat) * p == i * p);
            }
            assert(prog.ops@ =~= ops0 + text_ops(font, i as nat + 1, x, y, pix0.len()));
            assert(prog.pixels@ =~= pix0 + text_pixels(font, t, fg, bg, buf0));
            assert(font.width * (i + 1) == font.width * i + font.width) by (nonlinear_arith);
        }
        cx = cx + w;
        i += 1;
    }
    assert(bytes@.take(bytes@.len() as int) =~= bytes@);
}

/// Draw `s` from `(x, y)`, one glyph of `font` after the other, each
/// rasterized in `glyph_buf`.
pub fn draw_text(
    lcd: &Ili9341,
    font: &Font,
    s: &str,
    x: u16,
    y: u16,
    fg: u16,
    bg: u16,
    glyph_buf: &mut [u16; GLYPH_DMA_CAP],
) -> (prog: Program)
    requires
        draw_text_accepts(font, s.spec_bytes().len(), x, y),
    ensures
        prog.ops@ == text_ops(font, s.spec_bytes().len(), x, y, 0),
        prog.pixels@ == text_pixels(font, s.spec_bytes(), fg, bg, old(glyph_buf)@),
        final(glyph_buf)@ == text_glyph_buf(font, s.spec_bytes(), fg, bg, old(glyph_buf)@),
{
    let mut prog = Program::new();
    emit_text(lcd, &mut prog, font, s, x, y, fg, bg, glyph_buf);
    assert(prog.ops@ =~= text_ops(font, s.spec_bytes().len(), x, y, 0));
    assert(prog.pixels@ =~= text_pixels(font, s.spec_bytes(), fg, bg, old(glyph_buf)@));
    prog
}

} // verus!
