use ch32v003_ili9341::hw::{
    backlight_on, cs_high, cs_low, dc_cmd, dc_data, platform_init, spi_write, spi_write16, RegOp,
    Width,
};
use ch32v003_ili9341::ili9341::{Ili9341, Tiles, TILE_COUNT};

const DMA_CNTR: u32 = 0x4002_0034;
const SPI_DATAR: u32 = 0x4001_300C;

/// Counter values handed to DMA, in order.
fn bursts(ops: &[RegOp]) -> Vec<u32> {
    ops.iter()
        .filter_map(|op| match *op {
            RegOp::Write { addr, value, .. } if addr == DMA_CNTR => Some(value),
            _ => None,
        })
        .collect()
}

/// Bytes and halfwords written to the SPI data register, in order.
fn spi_words(ops: &[RegOp]) -> Vec<u32> {
    ops.iter()
        .filter_map(|op| match *op {
            RegOp::Write { addr, value, .. } if addr == SPI_DATAR => Some(value),
            _ => None,
        })
        .collect()
}

fn cmd(c: u8) -> Vec<RegOp> {
    let mut v = vec![dc_cmd(), cs_low()];
    v.extend(spi_write(c));
    v.push(cs_high());
    v
}

fn data16(w: u16) -> Vec<RegOp> {
    let mut v = vec![dc_data(), cs_low()];
    v.extend(spi_write16(w));
    v.push(cs_high());
    v
}

#[test]
fn set_window_sends_column_then_page_range() {
    let lcd = Ili9341::new();
    let ops = lcd.set_window(1, 2, 3, 4);
    let mut expected = cmd(0x2A);
    expected.extend(data16(1));
    expected.extend(data16(3));
    expected.extend(cmd(0x2B));
    expected.extend(data16(2));
    expected.extend(data16(4));
    assert_eq!(ops, expected);
    assert_eq!(spi_words(&ops), vec![0x2A, 1, 3, 0x2B, 2, 4]);
}

#[test]
fn fill_whole_screen_in_two_bursts() {
    let lcd = Ili9341::new();
    let prog = lcd.fill_rectangle(0, 0, 239, 319, 0xF800);
    assert_eq!(prog.pixels, vec![0xF800]);
    assert_eq!(bursts(&prog.ops), vec![65535, 240 * 320 - 65535]);
    assert_eq!(spi_words(&prog.ops), vec![0x2A, 0, 239, 0x2B, 0, 319, 0x2C, 0x3C]);
    assert_eq!(*prog.ops.last().unwrap(), cs_high());
    assert!(prog.ops.iter().all(|op| match *op {
        RegOp::WritePixelAddress { start, .. } => start == 0,
        _ => true,
    }));
}

#[test]
fn fill_with_reversed_corners_is_one_pixel_wide() {
    let lcd = Ili9341::new();
    let prog = lcd.fill_rectangle(10, 10, 5, 5, 0x1234);
    assert_eq!(bursts(&prog.ops), vec![1]);
    let prog = lcd.fill_rectangle(10, 0, 5, 9, 0x1234);
    assert_eq!(bursts(&prog.ops), vec![10]);
}

#[test]
fn solid_tile_covers_its_square() {
    let lcd = Ili9341::new();
    let prog = lcd.push_solid_tile(1, 2, 0x07E0);
    assert_eq!(spi_words(&prog.ops)[..6], [0x2A, 40, 79, 0x2B, 80, 119]);
    assert_eq!(bursts(&prog.ops), vec![1600]);
    assert_eq!(prog.pixels, vec![0x07E0]);
}

#[test]
fn push_pixels_checks_the_buffer_size() {
    let lcd = Ili9341::new();
    let buf: Vec<u16> = (0..6).collect();
    let wrong = lcd.push_pixels(0, 0, 2, 2, &buf);
    assert!(wrong.ops.is_empty());
    assert!(wrong.pixels.is_empty());
    let right = lcd.push_pixels(0, 0, 2, 1, &buf);
    assert_eq!(right.pixels, buf);
    assert_eq!(bursts(&right.ops), vec![6]);
    assert!(right.ops.contains(&RegOp::Modify { width: Width::Bits32, addr: 0x4002_0030, clear: 0, set: 0x80 }));
    let empty = lcd.push_pixels(5, 5, 4, 4, &[]);
    assert!(bursts(&empty.ops).is_empty());
    assert_eq!(spi_words(&empty.ops), vec![0x2A, 5, 4, 0x2B, 5, 4, 0x2C, 0x3C]);
}

#[test]
fn push_pixels_sends_a_large_buffer_whole() {
    let lcd = Ili9341::new();
    let buf = vec![0x001F_u16; 240 * 320];
    let prog = lcd.push_pixels(0, 0, 239, 319, &buf);
    assert_eq!(prog.pixels.len(), 76800);
    assert_eq!(bursts(&prog.ops), vec![65535, 76800 - 65535]);
    let starts: Vec<usize> = prog
        .ops
        .iter()
        .filter_map(|op| match *op {
            RegOp::WritePixelAddress { start, .. } => Some(start),
            _ => None,
        })
        .collect();
    assert_eq!(starts, vec![0, 65535]);
    let exact = vec![0u16; 256 * 256];
    let prog = lcd.push_pixels(0, 0, 255, 255, &exact);
    assert_eq!(bursts(&prog.ops), vec![65535, 1]);
}

#[test]
fn init_sequence() {
    let lcd = Ili9341::new();
    let mut ready = false;
    let ops = lcd.init(&mut ready);
    assert!(ready);
    let platform = platform_init();
    assert_eq!(ops[..platform.len()], platform[..]);
    let words = spi_words(&ops);
    assert_eq!(words[0], 0x01);
    assert_eq!(words[1..7], [0xCB, 0x39, 0x2C, 0x00, 0x34, 0x02]);
    assert_eq!(words[words.len() - 5..], [0x11, 0x29, 0x2C, 0x35, 0x00]);
    let params: usize = [5, 3, 3, 2, 4, 1, 1, 1, 2, 1, 1, 1, 2, 3, 1, 4, 4, 1, 15, 15].iter().sum();
    assert_eq!(words.len(), 1 + 20 + params + 5);
    assert!(ops.contains(&RegOp::Spin { loops: 9600, repeat: 100 }));
    let mut ready_again = true;
    assert_eq!(*ops.last().unwrap(), backlight_on(&mut ready_again)[0]);
    let again = lcd.init(&mut ready);
    assert_eq!(again.len(), ops.len() - 10);
}

#[test]
fn tiles_sweep_in_row_major_order() {
    let mut tiles = Tiles::new();
    assert!(tiles.dirty.iter().all(|&d| d));
    for k in 0..TILE_COUNT as u16 {
        let (x, y) = tiles.next().unwrap();
        assert_eq!((x, y), (k % 6, k / 6));
        tiles.clear(x, y);
    }
    assert_eq!(tiles.next(), None);
    tiles.mark_all();
    assert_eq!(tiles.next(), Some((0, 0)));
}

#[test]
fn tiles_next_skips_clean_tiles() {
    let mut tiles = Tiles::new();
    tiles.clear(0, 0);
    tiles.clear(2, 0);
    assert_eq!(tiles.next(), Some((1, 0)));
    tiles.clear(1, 0);
    assert_eq!(tiles.next(), Some((3, 0)));
    tiles.clear(5, 7);
    assert!(!tiles.dirty[47]);
}
