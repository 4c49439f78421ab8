use ch32v003_ili9341::font::fixed;
use ch32v003_ili9341::font::{draw_char, draw_text, rasterize_glyph, text_width, Font, GLYPH_DMA_CAP};
use ch32v003_ili9341::hw::RegOp;
use ch32v003_ili9341::ili9341::Ili9341;

const SPI_DATAR: u32 = 0x4001_300C;
const DMA_CNTR: u32 = 0x4002_0034;

fn spi_words(ops: &[RegOp]) -> Vec<u32> {
    ops.iter()
        .filter_map(|op| match *op {
            RegOp::Write { addr, value, .. } if addr == SPI_DATAR => Some(value),
            _ => None,
        })
        .collect()
}

fn bursts(ops: &[RegOp]) -> Vec<u32> {
    ops.iter()
        .filter_map(|op| match *op {
            RegOp::Write { addr, value, .. } if addr == DMA_CNTR => Some(value),
            _ => None,
        })
        .collect()
}

/// A 4×3 font: glyph of character `c` has rows `[c << 8, 0xF000, 0x9000]`.
fn small_font_data() -> &'static [u16] {
    let mut data = Vec::new();
    for i in 0..95u16 {
        let c = i + 0x20;
        data.push(c << 8);
        data.push(0xF000);
        data.push(0x9000);
    }
    Vec::leak(data)
}

fn expand(rows: &[u16], w: usize, fg: u16, bg: u16) -> Vec<u16> {
    let mut out = Vec::new();
    for &row in rows {
        for col in 0..w {
            out.push(if (row << col) & 0x8000 != 0 { fg } else { bg });
        }
    }
    out
}

#[test]
fn font_geometry() {
    let font = Font::new(7, 10, small_font_data());
    assert_eq!(font.width, 7);
    assert_eq!(font.height, 10);
    assert_eq!(font.glyph_pixels(), 70);
    assert_eq!(text_width(&font, "HELLO"), 35);
    assert_eq!(text_width(&font, ""), 0);
    let big = Font::new(16, 26, small_font_data());
    assert_eq!(big.glyph_pixels(), 416);
}

#[test]
fn char_is_rasterized_row_by_row() {
    let lcd = Ili9341::new();
    let font = Font::new(4, 3, small_font_data());
    let mut buf = [0x5555u16; GLYPH_DMA_CAP];
    let prog = draw_char(&lcd, &font, b'A', 10, 20, 0xFFFF, 0x0000, &mut buf);
    let expected = expand(&[(b'A' as u16) << 8, 0xF000, 0x9000], 4, 0xFFFF, 0);
    assert_eq!(prog.pixels, expected);
    assert_eq!(&buf[..12], &expected[..]);
    assert!(buf[12..].iter().all(|&p| p == 0x5555));
    assert_eq!(spi_words(&prog.ops), vec![0x2A, 10, 13, 0x2B, 20, 22, 0x2C, 0x3C]);
    assert_eq!(bursts(&prog.ops), vec![12]);
}

#[test]
fn unprintable_char_draws_as_space() {
    let lcd = Ili9341::new();
    let font = Font::new(4, 3, small_font_data());
    let mut buf = [0u16; GLYPH_DMA_CAP];
    let space = draw_char(&lcd, &font, b' ', 0, 0, 1, 2, &mut buf);
    let newline = draw_char(&lcd, &font, b'\n', 0, 0, 1, 2, &mut buf);
    let del = draw_char(&lcd, &font, 0x7F, 0, 0, 1, 2, &mut buf);
    assert_eq!(newline.pixels, space.pixels);
    assert_eq!(del.pixels, space.pixels);
    assert_eq!(space.pixels, expand(&[0x2000, 0xF000, 0x9000], 4, 1, 2));
}

#[test]
fn glyph_too_big_for_buffer_is_skipped() {
    let lcd = Ili9341::new();
    let font = Font::new(16, 40, small_font_data());
    let mut buf = [7u16; GLYPH_DMA_CAP];
    let prog = draw_char(&lcd, &font, b'A', 0, 0, 1, 2, &mut buf);
    assert!(prog.ops.is_empty());
    assert!(prog.pixels.is_empty());
    assert!(buf.iter().all(|&p| p == 7));
}

#[test]
fn font_without_space_glyph_sends_the_buffer() {
    let lcd = Ili9341::new();
    let font = Font::new(2, 2, &[0xFFFF]);
    let mut buf = [9u16; GLYPH_DMA_CAP];
    buf[0] = 1;
    let prog = draw_char(&lcd, &font, b'A', 0, 0, 3, 4, &mut buf);
    assert_eq!(prog.pixels, vec![1, 9, 9, 9]);
    assert_eq!(bursts(&prog.ops), vec![4]);
}

#[test]
fn text_advances_by_glyph_width() {
    let lcd = Ili9341::new();
    let font = Font::new(4, 3, small_font_data());
    let mut buf = [0u16; GLYPH_DMA_CAP];
    let prog = draw_text(&lcd, &font, "AB", 5, 6, 0xFFFF, 0, &mut buf);
    let words = spi_words(&prog.ops);
    assert_eq!(words, vec![0x2A, 5, 8, 0x2B, 6, 8, 0x2C, 0x3C, 0x2A, 9, 12, 0x2B, 6, 8, 0x2C, 0x3C]);
    let mut expected = expand(&[(b'A' as u16) << 8, 0xF000, 0x9000], 4, 0xFFFF, 0);
    let b_image = expand(&[(b'B' as u16) << 8, 0xF000, 0x9000], 4, 0xFFFF, 0);
    expected.extend(b_image.iter());
    assert_eq!(prog.pixels, expected);
    assert_eq!(&buf[..12], &b_image[..]);
    let ops_start: Vec<usize> = prog
        .ops
        .iter()
        .filter_map(|op| match *op {
            RegOp::WritePixelAddress { start, .. } => Some(start),
            _ => None,
        })
        .collect();
    assert_eq!(ops_start, vec![0, 12]);
    assert_eq!(5 + text_width(&font, "AB"), 13);
}

#[test]
fn fixed_glyph_is_the_box() {
    let lcd = Ili9341::new();
    let mut buf = [0u16; fixed::GLYPH_DMA_CAP];
    let prog = fixed::draw_char(&lcd, b'X', 10, 10, 1, 0, &mut buf);
    let bytes = [0xFFu8, 0x81, 0xBD, 0xA5, 0x81, 0xFF];
    let mut expected = Vec::new();
    for b in bytes {
        for bit in 0..8 {
            expected.push(if (b >> (7 - bit)) & 1 == 1 { 1 } else { 0 });
        }
    }
    assert_eq!(prog.pixels, expected);
    assert_eq!(prog.pixels[..8], [1; 8]);
    assert_eq!(prog.pixels[8..16], [1, 0, 0, 0, 0, 0, 0, 1]);
    assert_eq!(spi_words(&prog.ops), vec![0x2A, 10, 15, 0x2B, 10, 17, 0x2C, 0x3C]);
    assert_eq!(bursts(&prog.ops), vec![48]);
    assert_eq!(&buf[..48], &expected[..]);
}

#[test]
fn fixed_text_places_glyphs_six_apart() {
    let lcd = Ili9341::new();
    let mut buf = [0u16; fixed::GLYPH_DMA_CAP];
    let prog = fixed::draw_text(&lcd, "HELLO", 10, 10, 0xFFFF, 0x0000, &mut buf);
    let columns: Vec<u32> = spi_words(&prog.ops).chunks(8).map(|c| c[1]).collect();
    assert_eq!(columns, vec![10, 16, 22, 28, 34]);
    assert_eq!(prog.pixels.len(), 5 * 48);
    assert_eq!(bursts(&prog.ops), vec![48; 5]);
    let empty = fixed::draw_text(&lcd, "", 0, 0, 1, 2, &mut buf);
    assert!(empty.ops.is_empty());
}

#[test]
fn rasterize_falls_back_to_space() {
    let font = Font::new(4, 3, small_font_data());
    let mut a = [0u16; 16];
    let mut b = [0u16; 16];
    assert_eq!(rasterize_glyph(&font, 0x01, 1, 2, &mut a), 12);
    assert_eq!(rasterize_glyph(&font, b' ', 1, 2, &mut b), 12);
    assert_eq!(a, b);
    let bare = Font::new(4, 3, &[0x8000]);
    let mut c = [7u16; 16];
    assert_eq!(rasterize_glyph(&bare, b'A', 1, 2, &mut c), 0);
    assert!(c.iter().all(|&p| p == 7));
}

#[test]
fn wide_font_of_height_zero_draws_empty_glyphs() {
    let lcd = Ili9341::new();
    let font = Font::new(20, 0, &[]);
    let mut buf = [0u16; GLYPH_DMA_CAP];
    let prog = draw_text(&lcd, &font, "AB", 0, 10, 1, 2, &mut buf);
    assert!(prog.pixels.is_empty());
    assert_eq!(spi_words(&prog.ops), vec![0x2A, 0, 19, 0x2B, 10, 9, 0x2C, 0x3C, 0x2A, 20, 39, 0x2B, 10, 9, 0x2C, 0x3C]);
}

#[test]
fn text_drawn_in_two_parts_matches_the_whole() {
    let lcd = Ili9341::new();
    let font = Font::new(4, 3, small_font_data());
    let mut buf = [0u16; GLYPH_DMA_CAP];
    let whole = draw_text(&lcd, &font, "ABC", 2, 3, 1, 0, &mut buf);
    let first = draw_text(&lcd, &font, "A", 2, 3, 1, 0, &mut buf);
    let second = draw_text(&lcd, &font, "BC", 2 + text_width(&font, "A"), 3, 1, 0, &mut buf);
    let mut words = spi_words(&first.ops);
    words.extend(spi_words(&second.ops));
    assert_eq!(spi_words(&whole.ops), words);
    let mut pixels = first.pixels.clone();
    pixels.extend(second.pixels.iter());
    assert_eq!(whole.pixels, pixels);
}
