use ch32v003_ili9341::demo::{exti7_0_irqhandler, frame_step, tile_color, tx_demo_condition, TeState};
use ch32v003_ili9341::font::fixed::GLYPH_DMA_CAP;
use ch32v003_ili9341::hw::RegOp;
use ch32v003_ili9341::ili9341::{Ili9341, Tiles};

const SPI_DATAR: u32 = 0x4001_300C;

fn spi_words(ops: &[RegOp]) -> Vec<u32> {
    ops.iter()
        .filter_map(|op| match *op {
            RegOp::Write { addr, value, .. } if addr == SPI_DATAR => Some(value),
            _ => None,
        })
        .collect()
}

#[test]
fn tile_colors_form_a_gradient() {
    assert_eq!(tile_color(0, 0), 0);
    assert_eq!(tile_color(1, 1), (5 << 11) | (7 << 5));
    assert_eq!(tile_color(5, 7), (25 << 11) | (55 << 5));
    for tx in 0..6u16 {
        for ty in 0..8u16 {
            let c = tile_color(tx, ty);
            assert_eq!(c >> 11, tx * 31 / 6);
            assert_eq!((c >> 5) & 0x3F, ty * 63 / 8);
            assert_eq!(c & 0x1F, 0);
        }
    }
}

#[test]
fn te_interrupt_counts_and_wraps() {
    let mut te = TeState::new();
    assert!(!te.flag);
    exti7_0_irqhandler(&mut te);
    assert!(te.flag);
    assert_eq!(te.irq_count, 1);
    te.irq_count = u32::MAX;
    exti7_0_irqhandler(&mut te);
    assert_eq!(te.irq_count, 0);
    assert!(tx_demo_condition());
}

#[test]
fn no_edge_no_work() {
    let lcd = Ili9341::new();
    let mut tiles = Tiles::new();
    let mut te = TeState::new();
    let mut buf = [3u16; GLYPH_DMA_CAP];
    assert!(frame_step(&lcd, &mut tiles, &mut te, &mut buf).is_none());
    assert_eq!(tiles.next(), Some((0, 0)));
    assert!(buf.iter().all(|&p| p == 3));
}

#[test]
fn each_edge_paints_one_tile_then_the_banner() {
    let lcd = Ili9341::new();
    let mut tiles = Tiles::new();
    let mut te = TeState::new();
    let mut buf = [0u16; GLYPH_DMA_CAP];
    for k in 0..48u16 {
        exti7_0_irqhandler(&mut te);
        let work = frame_step(&lcd, &mut tiles, &mut te, &mut buf).unwrap();
        assert!(!te.flag);
        assert_eq!(work.irq_count, k as u32 + 1);
        let (tx, ty) = (k % 6, k / 6);
        assert_eq!(work.program.pixels[0], tile_color(tx, ty));
        assert_eq!(work.program.pixels.len(), 1 + 5 * 48);
        let words = spi_words(&work.program.ops);
        assert_eq!(words[..6], [0x2A, (tx * 40) as u32, (tx * 40 + 39) as u32, 0x2B, (ty * 40) as u32, (ty * 40 + 39) as u32]);
        assert_eq!(words[8..14], [0x2A, 10, 15, 0x2B, 10, 17]);
    }
    assert_eq!(tiles.next(), None);
    exti7_0_irqhandler(&mut te);
    let work = frame_step(&lcd, &mut tiles, &mut te, &mut buf).unwrap();
    assert_eq!(work.program.pixels.len(), 5 * 48);
    assert_eq!(spi_words(&work.program.ops)[..6], [0x2A, 10, 15, 0x2B, 10, 17]);
    assert_eq!(tiles.next(), Some((0, 0)));
}
