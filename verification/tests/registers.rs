use ch32v003_ili9341::hw::{
    backlight_on, backlight_set_duty, cs_high, cs_low, dc_cmd, dc_data, delay_busy_loops, delay_ms,
    delay_us, gpio_cfgr_value, gpio_pin_cfgr, modify_value, next_op_index, platform_init, rst_high,
    rst_low, spi_dma_pixels, spi_write, spi_write16, RegOp, Width, BACKLIGHT_PWM_MAX,
    BUSY_LOOPS_PER_MS,
};
use ch32v003_ili9341::pins::{gpio_bshr_reset, gpio_bshr_set, PC1_LCD_CS, PD4_LCD_RST};
use ch32v003_ili9341::rcc::system_init_48mhz_hse;
use ch32v003_ili9341::regs::{reg_idx, GPIOC_BASE, GPIOD_BASE, RCC_APB2PCENR, SPI1_BASE, TIM1_BASE};

fn w32(addr: u32, value: u32) -> RegOp {
    RegOp::Write { width: Width::Bits32, addr, value }
}

#[test]
fn register_bases_match_the_memory_map() {
    assert_eq!(GPIOC_BASE, 0x4001_1000);
    assert_eq!(GPIOD_BASE, 0x4001_1400);
    assert_eq!(SPI1_BASE, 0x4001_3000);
    assert_eq!(TIM1_BASE, 0x4001_2C00);
    assert_eq!(GPIOC_BASE, ch32v003_ili9341::pins::GPIOC_BASE);
    assert_eq!(SPI1_BASE, ch32v003_ili9341::pins::SPI1_BASE);
}

#[test]
fn reg_idx_is_word_index() {
    assert_eq!(reg_idx(RCC_APB2PCENR), 6);
    assert_eq!(reg_idx(0x04), 1);
    assert_eq!(reg_idx(0x03), 0);
    assert_eq!(reg_idx(0), 0);
}

#[test]
fn bshr_set_and_reset_halves() {
    assert_eq!(gpio_bshr_set(PC1_LCD_CS), 0x0000_0002);
    assert_eq!(gpio_bshr_reset(PC1_LCD_CS), 0x0002_0000);
    assert_eq!(gpio_bshr_set(PD4_LCD_RST), 0x10);
    assert_eq!(gpio_bshr_reset(PD4_LCD_RST), 0x0010_0000);
    assert_eq!(gpio_bshr_set(31), 0x8000_0000);
    assert_eq!(gpio_bshr_reset(15), 0x8000_0000);
    for pin in 0..16u8 {
        assert_eq!(gpio_bshr_reset(pin), gpio_bshr_set(pin) << 16);
        assert_eq!(gpio_bshr_reset(pin) & gpio_bshr_set(pin), 0);
    }
}

#[test]
fn control_pins_write_bshr() {
    assert_eq!(cs_low(), w32(0x4001_1010, 1 << 17));
    assert_eq!(cs_high(), w32(0x4001_1010, 1 << 1));
    assert_eq!(dc_cmd(), w32(0x4001_1410, 1 << 19));
    assert_eq!(dc_data(), w32(0x4001_1410, 1 << 3));
    assert_eq!(rst_low(), w32(0x4001_1410, 1 << 20));
    assert_eq!(rst_high(), w32(0x4001_1410, 1 << 4));
}

#[test]
fn delays_count_busy_loops() {
    assert_eq!(BUSY_LOOPS_PER_MS, 9600);
    assert_eq!(delay_us(10), RegOp::Spin { loops: 90, repeat: 1 });
    assert_eq!(delay_us(0), RegOp::Spin { loops: 0, repeat: 1 });
    assert_eq!(delay_us(u32::MAX), RegOp::Spin { loops: u32::MAX, repeat: 1 });
    assert_eq!(delay_ms(100), RegOp::Spin { loops: 9600, repeat: 100 });
    assert_eq!(delay_busy_loops(1000), 1000);
    assert_eq!(delay_busy_loops(0), 0);
}

#[test]
fn pin_configuration_touches_one_nibble() {
    assert_eq!(
        gpio_pin_cfgr(GPIOD_BASE, 2, 0b11, 0b10),
        RegOp::Modify { width: Width::Bits32, addr: 0x4001_1400, clear: 0xF00, set: 0xB00 }
    );
    assert_eq!(gpio_cfgr_value(0xFFFF_FFFF, 2, 0b11, 0), 0xFFFF_F3FF);
    assert_eq!(gpio_cfgr_value(0, 5, 0b11, 0b10), 0x00B0_0000);
    assert_eq!(gpio_cfgr_value(0x4444_4444, 7, 0b11, 0b10), 0xB444_4444);
    assert_eq!(modify_value(0x4444_4444, 0xF000_0000, 0xB000_0000), 0xB444_4444);
}

#[test]
fn backlight_clamps_and_sets_up_once() {
    let mut ready = false;
    let first = backlight_set_duty(&mut ready, 2000);
    assert!(ready);
    assert_eq!(first.len(), 11);
    assert_eq!(*first.last().unwrap(), w32(0x4001_2C34, 1023));
    assert_eq!(
        first[3],
        RegOp::Write { width: Width::Bits16, addr: 0x4001_2C2C, value: BACKLIGHT_PWM_MAX as u32 }
    );
    assert_eq!(first[5], RegOp::Modify { width: Width::Bits16, addr: 0x4001_2C18, clear: 0x70, set: 0 });
    assert_eq!(first[6], RegOp::Modify { width: Width::Bits16, addr: 0x4001_2C18, clear: 0, set: 0x68 });
    let second = backlight_set_duty(&mut ready, 512);
    assert_eq!(second, vec![w32(0x4001_2C34, 512)]);
    let third = backlight_set_duty(&mut ready, 0);
    assert_eq!(third, vec![w32(0x4001_2C34, 0)]);
    let on = backlight_on(&mut ready);
    assert_eq!(on, vec![w32(0x4001_2C34, 1023)]);
}

#[test]
fn spi_frames() {
    let ops = spi_write(0xAB);
    assert_eq!(ops.len(), 4);
    assert_eq!(ops[0], RegOp::Modify { width: Width::Bits16, addr: 0x4001_3000, clear: 0x0800, set: 0 });
    assert_eq!(ops[1], RegOp::WaitMasked { width: Width::Bits16, addr: 0x4001_3008, mask: 2, value: 2 });
    assert_eq!(ops[2], RegOp::Write { width: Width::Bits16, addr: 0x4001_300C, value: 0xAB });
    assert_eq!(ops[3], RegOp::WaitMasked { width: Width::Bits16, addr: 0x4001_3008, mask: 0x80, value: 0 });
    let ops16 = spi_write16(0xBEEF);
    assert_eq!(ops16[0], RegOp::Modify { width: Width::Bits16, addr: 0x4001_3000, clear: 0, set: 0x0800 });
    assert_eq!(ops16[2], RegOp::Write { width: Width::Bits16, addr: 0x4001_300C, value: 0xBEEF });
}

#[test]
fn dma_burst() {
    assert!(spi_dma_pixels(0, 0, true).is_empty());
    let ops = spi_dma_pixels(3, 10, false);
    assert_eq!(ops.len(), 8);
    assert_eq!(ops[1], RegOp::Modify { width: Width::Bits32, addr: 0x4002_0030, clear: 0x80, set: 0 });
    assert_eq!(ops[3], RegOp::WritePixelAddress { addr: 0x4002_003C, start: 3 });
    assert_eq!(ops[4], w32(0x4002_0034, 10));
    assert_eq!(ops[6], RegOp::WaitMasked { width: Width::Bits32, addr: 0x4002_0000, mask: 0x200, value: 0x200 });
    assert_eq!(ops[7], w32(0x4002_0004, 0x100));
    let inc = spi_dma_pixels(0, 1, true);
    assert_eq!(inc[1], RegOp::Modify { width: Width::Bits32, addr: 0x4002_0030, clear: 0, set: 0x80 });
}

#[test]
fn clock_program_skips_pll_when_hse_fails() {
    let ops = system_init_48mhz_hse();
    assert_eq!(ops.len(), 11);
    assert_eq!(ops[3], RegOp::PollOrSkip { addr: 0x4002_1000, mask: 1 << 17, tries: 0x500, skip: 7 });
    assert_eq!(next_op_index(&ops, 3, true), 4);
    assert_eq!(next_op_index(&ops, 3, false), 11);
    assert_eq!(next_op_index(&ops, 0, false), 1);
    assert_eq!(ops[5], RegOp::Modify { width: Width::Bits32, addr: 0x4002_1004, clear: 0xF0, set: 0 });
    assert_eq!(ops[10], RegOp::WaitMasked { width: Width::Bits32, addr: 0x4002_1004, mask: 0x0C, value: 0x08 });
}

#[test]
fn platform_program_layout() {
    let ops = platform_init();
    assert_eq!(ops.len(), 11 + 9 + 8);
    assert_eq!(ops[..11], system_init_48mhz_hse()[..]);
    assert_eq!(ops[17], cs_high());
    assert_eq!(ops[18], dc_data());
    assert_eq!(ops[19], rst_high());
    assert_eq!(ops[24], w32(0x4002_0030, 0x3510));
    assert_eq!(ops[25], w32(0x4002_0038, 0x4001_300C));
}
