//! Register programs for the LCD pins, SPI1, DMA1 channel 3, TIM1 backlight
//! PWM and busy-wait delays.
//!
//! Nothing here touches memory-mapped registers. Each function returns the
//! exact sequence of register accesses ([`RegOp`]) that performs the
//! operation; an executor performs them, in order, with volatile accesses.

use vstd::prelude::*;

use crate::pins::{
    PC1_LCD_CS, PC5_SPI1_SCK, PC6_SPI1_MOSI, PD2_TIM1_CH1_BL, PD3_LCD_DC, PD4_LCD_RST,
    gpio_bshr_reset, gpio_bshr_set,
};
use crate::regs::{
    GPIOC_BASE, GPIOD_BASE, SPI1_BASE, TIM1_BASE, DMA1_BASE, DMA1_CH3_BASE, RCC_BASE, GPIO_CFGR_OFFSET, GPIO_BSHR_OFFSET, RCC_AHBPCENR, RCC_APB2PCENR, RCC_AHB_DMA1EN, RCC_APB2_IOPCEN, RCC_APB2_IOPDEN, RCC_APB2_SPI1EN, RCC_APB2_TIM1EN, SPI_CTLR1, SPI_CTLR2, SPI_STATR, SPI_DATAR, SPI_CTLR1_MSTR, SPI_CTLR1_SPE, SPI_CTLR1_SSI, SPI_CTLR1_SSM, SPI_CTLR1_DFF, SPI_CTLR2_TXDMAEN, SPI_STATR_TXE, SPI_STATR_BSY, DMA_CFGR, DMA_CNTR, DMA_PADDR, DMA_MADDR, DMA1_INTFR, DMA1_INTFCR, DMA_CFGR_EN, DMA_CFGR_DIR, DMA_CFGR_MINC, DMA_CFGR_PSIZE_0, DMA_CFGR_MSIZE_0, DMA_CFGR_PL_0, DMA_CFGR_PL_1, DMA_TCIF3, DMA_CGIF3, TIM_CTLR1, TIM_SWEVGR, TIM_CHCTLR1, TIM_CCER, TIM_PSC, TIM_ATRLR, TIM_CH1CVR, TIM_BDTR, TIM_CEN, TIM_ARPE, TIM_UG, TIM_OC1M_0, TIM_OC1M_1, TIM_OC1M_2, TIM_OC1PE, TIM_CC1E, TIM_CC1P, TIM_MOE, GPIO_MODE_OUT_50MHZ, GPIO_CNF_AF_PP,
};
use crate::rcc::{system_init_48mhz_hse, system_init_ops};

verus! {

/// Width of a register access.
#[derive(Clone, Copy, Debug, PartialEq, Eq, Structural)]
pub enum Width {
    Bits8,
    Bits16,
    Bits32,
}

/// One register access of a program.
///
/// Values are carried as `u32`; an access of `Bits8`/`Bits16` width uses the
/// low bits only.
#[derive(Clone, Copy, Debug, PartialEq, Eq, Structural)]
pub enum RegOp {
    /// Store `value` at `addr`.
    Write { width: Width, addr: u32, value: u32 },
    /// Read `addr`, clear the bits of `clear`, then set the bits of `set`, and
    /// store the result back: `(old & !clear) | set`.
    Modify { width: Width, addr: u32, clear: u32, set: u32 },
    /// Read `addr` again and again until `read & mask == value`.
    WaitMasked { width: Width, addr: u32, mask: u32, value: u32 },
    /// Read the 32-bit register `addr` at most `tries` times, stopping at the
    /// first read with a bit of `mask` set. If no read had one, the next
    /// `skip` operations of the program are not performed.
    PollOrSkip { addr: u32, mask: u32, tries: u32, skip: u32 },
    /// Store at `addr` the bus address of pixel `start` of the program's
    /// pixel pool.
    WritePixelAddress { addr: u32, start: usize },
    /// Busy-wait `loops` iterations, `repeat` times over.
    Spin { loops: u32, repeat: u32 },
}

/// Address of the register at byte `offset` from `base`.
pub open spec fn at(base: u32, offset: u32) -> u32 {
    (base + offset) as u32
}

pub open spec fn write_op(width: Width, addr: u32, value: u32) -> RegOp {
    RegOp::Write { width, addr, value }
}

pub open spec fn modify_op(width: Width, addr: u32, clear: u32, set: u32) -> RegOp {
    RegOp::Modify { width, addr, clear, set }
}

pub open spec fn wait_op(width: Width, addr: u32, mask: u32, value: u32) -> RegOp {
    RegOp::WaitMasked { width, addr, mask, value }
}

/// What a `Modify` access stores when the register held `old`.
pub open spec fn modified(old: u32, clear: u32, set: u32) -> u32 {
    (old & !clear) | set
}

// --- Delays ----------------------------------------------------------------

/// CPU core clock after [`platform_init`] (Hz).
pub const DELAY_ASSUMED_CPU_HZ: u32 = 48_000_000;

/// Approximate CPU cycles per busy-wait iteration.
pub const APPROX_CYCLES_PER_BUSY_ITER: u32 = 5;

/// Busy-wait iterations per millisecond: 48 MHz / 1000 / 5.
pub const BUSY_LOOPS_PER_MS: u32 = DELAY_ASSUMED_CPU_HZ / 1000 / APPROX_CYCLES_PER_BUSY_ITER;

/// Busy-wait iterations per microsecond (at least one).
pub open spec fn loops_per_us() -> u32 {
    if BUSY_LOOPS_PER_MS / 1000 >= 1 { (BUSY_LOOPS_PER_MS / 1000) as u32 } else { 1 }
}

/// Iterations that a delay of `us` microseconds spins: `loops_per_us() * us`,
/// saturated at `u32::MAX`.
pub open spec fn us_loops(us: u32) -> u32 {
    if loops_per_us() * us <= u32::MAX { (loops_per_us() * us) as u32 } else { u32::MAX }
}

/// The busy-wait operation of a delay of `us` microseconds.
pub open spec fn delay_us_op(us: u32) -> RegOp {
    RegOp::Spin { loops: us_loops(us), repeat: 1 }
}

/// The busy-wait operation of a delay of `ms` milliseconds.
pub open spec fn delay_ms_op(ms: u32) -> RegOp {
    RegOp::Spin { loops: BUSY_LOOPS_PER_MS, repeat: ms }
}

/// Hint to the CPU that it is inside a busy-wait loop: calls
/// `core::hint::spin_loop`. Nothing is claimed of it; it returns no value and
/// changes nothing that the library reads.
#[verifier::external_body]
fn spin_hint() {
    core::hint::spin_loop();
}

/// Spin `n` iterations; returns the number of iterations spun.
pub fn delay_busy_loops(n: u32) -> (spun: u32)
    ensures
        spun == n,
{
    let mut left = n;
    while left > 0
        invariant
            left <= n,
        decreases left,
    {
        spin_hint();
        left -= 1;
    }
    n
}

/// The busy-wait for `us` microseconds.
pub fn delay_us(us: u32) -> (op: RegOp)
    ensures
        op == delay_us_op(us),
{
    let per_us: u32 = if BUSY_LOOPS_PER_MS / 1000 >= 1 { BUSY_LOOPS_PER_MS / 1000 } else { 1 };
    let loops: u32 = match per_us.checked_mul(us) {
        Some(p) => p,
        None => u32::MAX,
    };
    RegOp::Spin { loops, repeat: 1 }
}

/// The busy-wait for `ms` milliseconds: `ms` runs of one millisecond each.
pub fn delay_ms(ms: u32) -> (op: RegOp)
    ensures
        op == delay_ms_op(ms),
{
    RegOp::Spin { loops: BUSY_LOOPS_PER_MS, repeat: ms }
}

// --- LCD control pins (GPIO BSHR) -------------------------------------------

pub open spec fn gpioc_bshr_op(v: u32) -> RegOp {
    write_op(Width::Bits32, at(GPIOC_BASE, GPIO_BSHR_OFFSET), v)
}

pub open spec fn gpiod_bshr_op(v: u32) -> RegOp {
    write_op(Width::Bits32, at(GPIOD_BASE, GPIO_BSHR_OFFSET), v)
}

pub open spec fn cs_low_op() -> RegOp {
    gpioc_bshr_op(1u32 << (PC1_LCD_CS + 16))
}

pub open spec fn cs_high_op() -> RegOp {
    gpioc_bshr_op(1u32 << PC1_LCD_CS)
}

pub open spec fn dc_cmd_op() -> RegOp {
    gpiod_bshr_op(1u32 << (PD3_LCD_DC + 16))
}

pub open spec fn dc_data_op() -> RegOp {
    gpiod_bshr_op(1u32 << PD3_LCD_DC)
}

pub open spec fn rst_low_op() -> RegOp {
    gpiod_bshr_op(1u32 << (PD4_LCD_RST + 16))
}

pub open spec fn rst_high_op() -> RegOp {
    gpiod_bshr_op(1u32 << PD4_LCD_RST)
}

fn gpioc_bshr(v: u32) -> (op: RegOp)
    ensures
        op == gpioc_bshr_op(v),
{
    RegOp::Write { width: Width::Bits32, addr: GPIOC_BASE + GPIO_BSHR_OFFSET, value: v }
}

fn gpiod_bshr(v: u32) -> (op: RegOp)
    ensures
        op == gpiod_bshr_op(v),
{
    RegOp::Write { width: Width::Bits32, addr: GPIOD_BASE + GPIO_BSHR_OFFSET, value: v }
}

/// Chip select low (panel selected).
pub fn cs_low() -> (op: RegOp)
    ensures
        op == cs_low_op(),
{
    gpioc_bshr(gpio_bshr_reset(PC1_LCD_CS))
}

/// Chip select high (panel released).
pub fn cs_high() -> (op: RegOp)
    ensures
        op == cs_high_op(),
{
    gpioc_bshr(gpio_bshr_set(PC1_LCD_CS))
}

/// D/C low: the next bytes are a command.
pub fn dc_cmd() -> (op: RegOp)
    ensures
        op == dc_cmd_op(),
{
    gpiod_bshr(gpio_bshr_reset(PD3_LCD_DC))
}

/// D/C high: the next bytes are data.
pub fn dc_data() -> (op: RegOp)
    ensures
        op == dc_data_op(),
{
    gpiod_bshr(gpio_bshr_set(PD3_LCD_DC))
}

/// Panel reset asserted (active low).
pub fn rst_low() -> (op: RegOp)
    ensures
        op == rst_low_op(),
{
    gpiod_bshr(gpio_bshr_reset(PD4_LCD_RST))
}

/// Panel reset released.
pub fn rst_high() -> (op: RegOp)
    ensures
        op == rst_high_op(),
{
    gpiod_bshr(gpio_bshr_set(PD4_LCD_RST))
}

// --- GPIO configuration -------------------------------------------------------

/// The `CFGLR` access that gives `pin` the 4-bit configuration `mode | cnf << 2`.
pub open spec fn gpio_pin_cfgr_op(base: u32, pin: u8, mode: u32, cnf: u32) -> RegOp {
    modify_op(
        Width::Bits32,
        at(base, GPIO_CFGR_OFFSET),
        0xFu32 << (pin as u32 * 4),
        (mode | (cnf << 2u32)) << (pin as u32 * 4),
    )
}

/// Configure `pin` of the GPIO port at `base`: its 4-bit field of `CFGLR`
/// becomes `mode | cnf << 2`.
pub fn gpio_pin_cfgr(base: u32, pin: u8, mode: u32, cnf: u32) -> (op: RegOp)
    requires
        pin < 8,
        base + GPIO_CFGR_OFFSET <= u32::MAX,
    ensures
        op == gpio_pin_cfgr_op(base, pin, mode, cnf),
{
    let shift = (pin as u32) * 4;
    let mask = 0xFu32 << shift;
    let val = (mode | (cnf << 2u32)) << shift;
    RegOp::Modify { width: Width::Bits32, addr: base + GPIO_CFGR_OFFSET, clear: mask, set: val }
}

/// The `CFGLR` value after configuring `pin`, from the value `old` before.
pub fn gpio_cfgr_value(old: u32, pin: u8, mode: u32, cnf: u32) -> (new: u32)
    requires
        pin < 8,
    ensures
        new == modified(old, 0xFu32 << (pin as u32 * 4), (mode | (cnf << 2u32)) << (pin as u32 * 4)),
        mode < 4 && cnf < 4 ==> (new >> (pin as u32 * 4)) & 0xF == mode | (cnf << 2u32),
        mode < 4 && cnf < 4 ==> new & !(0xFu32 << (pin as u32 * 4)) == old & !(0xFu32 << (pin as u32 * 4)),
{
    let shift = (pin as u32) * 4;
    let mask = 0xFu32 << shift;
    let val = (mode | (cnf << 2u32)) << shift;
    let new = (old & !mask) | val;
    assert(mode < 4 && cnf < 4 ==> (new >> shift) & 0xF == mode | (cnf << 2u32)) by (bit_vector)
        requires
            shift < 32,
            shift % 4 == 0,
            mask == 0xFu32 << shift,
            val == (mode | (cnf << 2u32)) << shift,
            new == (old & !mask) | val,
    ;
    assert(mode < 4 && cnf < 4 ==> new & !mask == old & !mask) by (bit_vector)
        requires
            shift < 32,
            shift % 4 == 0,
            mask == 0xFu32 << shift,
            val == (mode | (cnf << 2u32)) << shift,
            new == (old & !mask) | val,
    ;
    new
}

// --- Backlight PWM (TIM1 CH1 on PD2) -----------------------------------------

/// Backlight PWM period (ATRLR). Duty range: `0..=BACKLIGHT_PWM_MAX`.
pub const BACKLIGHT_PWM_MAX: u16 = 1023;

/// Enable clocks, route PD2 to TIM1_CH1 and start TIM1 in PWM mode 1 (the
/// whole OC1M field cleared, then set to 0b110), output active high (CC1P
/// cleared, CC1E set), with a period of `BACKLIGHT_PWM_MAX + 1`.
pub open spec fn tim1_backlight_init_ops() -> Seq<RegOp> {
    seq![
        modify_op(Width::Bits32, at(RCC_BASE, RCC_APB2PCENR), 0, RCC_APB2_IOPDEN | RCC_APB2_TIM1EN),
        gpio_pin_cfgr_op(GPIOD_BASE, PD2_TIM1_CH1_BL, GPIO_MODE_OUT_50MHZ, GPIO_CNF_AF_PP),
        write_op(Width::Bits16, at(TIM1_BASE, TIM_PSC), 0),
        write_op(Width::Bits16, at(TIM1_BASE, TIM_ATRLR), BACKLIGHT_PWM_MAX as u32),
        write_op(Width::Bits8, at(TIM1_BASE, TIM_SWEVGR), TIM_UG as u32),
        modify_op(Width::Bits16, at(TIM1_BASE, TIM_CHCTLR1), (TIM_OC1M_0 | TIM_OC1M_1 | TIM_OC1M_2) as u32, 0),
        modify_op(Width::Bits16, at(TIM1_BASE, TIM_CHCTLR1), 0, (TIM_OC1M_1 | TIM_OC1M_2 | TIM_OC1PE) as u32),
        modify_op(Width::Bits16, at(TIM1_BASE, TIM_CCER), TIM_CC1P as u32, TIM_CC1E as u32),
        modify_op(Width::Bits16, at(TIM1_BASE, TIM_BDTR), 0, TIM_MOE as u32),
        modify_op(Width::Bits16, at(TIM1_BASE, TIM_CTLR1), 0, (TIM_CEN | TIM_ARPE) as u32),
    ]
}

/// The compare value that a requested duty gives: `duty`, clamped at
/// `BACKLIGHT_PWM_MAX`.
pub open spec fn clamped_duty(duty: u16) -> u16 {
    if duty <= BACKLIGHT_PWM_MAX { duty } else { BACKLIGHT_PWM_MAX }
}

/// The backlight program: TIM1 set-up when the PWM is not running yet, then the
/// compare value.
pub open spec fn backlight_set_duty_ops(pwm_ready: bool, duty: u16) -> Seq<RegOp> {
    (if pwm_ready { Seq::empty() } else { tim1_backlight_init_ops() })
        + seq![write_op(Width::Bits32, at(TIM1_BASE, TIM_CH1CVR), clamped_duty(duty) as u32)]
}

fn tim1_backlight_init() -> (ops: Vec<RegOp>)
    ensures
        ops@ == tim1_backlight_init_ops(),
{
    let mut ops: Vec<RegOp> = Vec::new();
    ops.push(RegOp::Modify {
        width: Width::Bits32,
        addr: RCC_BASE + RCC_APB2PCENR,
        clear: 0,
        set: RCC_APB2_IOPDEN | RCC_APB2_TIM1EN,
    });
    ops.push(gpio_pin_cfgr(GPIOD_BASE, PD2_TIM1_CH1_BL, GPIO_MODE_OUT_50MHZ, GPIO_CNF_AF_PP));
    ops.push(RegOp::Write { width: Width::Bits16, addr: TIM1_BASE + TIM_PSC, value: 0 });
    ops.push(
        RegOp::Write {
            width: Width::Bits16,
            addr: TIM1_BASE + TIM_ATRLR,
            value: BACKLIGHT_PWM_MAX as u32,
        },
    );
    ops.push(RegOp::Write { width: Width::Bits8, addr: TIM1_BASE + TIM_SWEVGR, value: TIM_UG as u32 });
    ops.push(
        RegOp::Modify {
            width: Width::Bits16,
            addr: TIM1_BASE + TIM_CHCTLR1,
            clear: (TIM_OC1M_0 | TIM_OC1M_1 | TIM_OC1M_2) as u32,
            set: 0,
        },
    );
    ops.push(
        RegOp::Modify {
            width: Width::Bits16,
            addr: TIM1_BASE + TIM_CHCTLR1,
            clear: 0,
            set: (TIM_OC1M_1 | TIM_OC1M_2 | TIM_OC1PE) as u32,
        },
    );
    ops.push(
        RegOp::Modify { width: Width::Bits16, addr: TIM1_BASE + TIM_CCER, clear: TIM_CC1P as u32, set: TIM_CC1E as u32 },
    );
    ops.push(
        RegOp::Modify { width: Width::Bits16, addr: TIM1_BASE + TIM_BDTR, clear: 0, set: TIM_MOE as u32 },
    );
    ops.push(
        RegOp::Modify {
            width: Width::Bits16,
            addr: TIM1_BASE + TIM_CTLR1,
            clear: 0,
            set: (TIM_CEN | TIM_ARPE) as u32,
        },
    );
    assert(ops@ =~= tim1_backlight_init_ops());
    ops
}

/// Set backlight brightness. `duty`: `0` = off, `BACKLIGHT_PWM_MAX` = full on;
/// larger values are clamped. The first call (`*pwm_ready` false) also sets up
/// TIM1; afterwards `*pwm_ready` is true.
pub fn backlight_set_duty(pwm_ready: &mut bool, duty: u16) -> (ops: Vec<RegOp>)
    ensures
        ops@ == backlight_set_duty_ops(*old(pwm_ready), duty),
        *final(pwm_ready),
{
    let mut ops: Vec<RegOp> = Vec::new();
    if !*pwm_ready {
        ops = tim1_backlight_init();
        *pwm_ready = true;
    }
    let compare: u16 = if duty <= BACKLIGHT_PWM_MAX { duty } else { BACKLIGHT_PWM_MAX };
    ops.push(RegOp::Write { width: Width::Bits32, addr: TIM1_BASE + TIM_CH1CVR, value: compare as u32 });
    assert(ops@ =~= backlight_set_duty_ops(*old(pwm_ready), duty));
    ops
}

/// Backlight full on.
pub fn backlight_on(pwm_ready: &mut bool) -> (ops: Vec<RegOp>)
    ensures
        ops@ == backlight_set_duty_ops(*old(pwm_ready), BACKLIGHT_PWM_MAX),
        *final(pwm_ready),
{
    backlight_set_duty(pwm_ready, BACKLIGHT_PWM_MAX)
}

// --- LCD GPIO and SPI1 set-up ------------------------------------------------

/// Clock ports C and D, make CS, D/C and RST push-pull outputs and SCK, MOSI
/// alternate-function outputs, then park CS high, D/C on data and RST high.
pub open spec fn lcd_gpio_init_ops() -> Seq<RegOp> {
    seq![
        modify_op(Width::Bits32, at(RCC_BASE, RCC_APB2PCENR), 0, RCC_APB2_IOPCEN | RCC_APB2_IOPDEN),
        gpio_pin_cfgr_op(GPIOC_BASE, PC1_LCD_CS, GPIO_MODE_OUT_50MHZ, 0),
        gpio_pin_cfgr_op(GPIOC_BASE, PC5_SPI1_SCK, GPIO_MODE_OUT_50MHZ, GPIO_CNF_AF_PP),
        gpio_pin_cfgr_op(GPIOC_BASE, PC6_SPI1_MOSI, GPIO_MODE_OUT_50MHZ, GPIO_CNF_AF_PP),
        gpio_pin_cfgr_op(GPIOD_BASE, PD3_LCD_DC, GPIO_MODE_OUT_50MHZ, 0),
        gpio_pin_cfgr_op(GPIOD_BASE, PD4_LCD_RST, GPIO_MODE_OUT_50MHZ, 0),
        cs_high_op(),
        dc_data_op(),
        rst_high_op(),
    ]
}

fn lcd_gpio_init() -> (ops: Vec<RegOp>)
    ensures
        ops@ == lcd_gpio_init_ops(),
{
    let mut ops: Vec<RegOp> = Vec::new();
    ops.push(
        RegOp::Modify {
            width: Width::Bits32,
            addr: RCC_BASE + RCC_APB2PCENR,
            clear: 0,
            set: RCC_APB2_IOPCEN | RCC_APB2_IOPDEN,
        },
    );
    let out = GPIO_MODE_OUT_50MHZ;
    ops.push(gpio_pin_cfgr(GPIOC_BASE, PC1_LCD_CS, out, 0));
    ops.push(gpio_pin_cfgr(GPIOC_BASE, PC5_SPI1_SCK, out, GPIO_CNF_AF_PP));
    ops.push(gpio_pin_cfgr(GPIOC_BASE, PC6_SPI1_MOSI, out, GPIO_CNF_AF_PP));
    ops.push(gpio_pin_cfgr(GPIOD_BASE, PD3_LCD_DC, out, 0));
    ops.push(gpio_pin_cfgr(GPIOD_BASE, PD4_LCD_RST, out, 0));
    ops.push(cs_high());
    ops.push(dc_data());
    ops.push(rst_high());
    assert(ops@ =~= lcd_gpio_init_ops());
    ops
}

pub open spec fn spi_data_8b_op() -> RegOp {
    modify_op(Width::Bits16, at(SPI1_BASE, SPI_CTLR1), SPI_CTLR1_DFF as u32, 0)
}

pub open spec fn spi_data_16b_op() -> RegOp {
    modify_op(Width::Bits16, at(SPI1_BASE, SPI_CTLR1), 0, SPI_CTLR1_DFF as u32)
}

/// SPI1 frames of 8 bits.
fn spi_data_8b() -> (op: RegOp)
    ensures
        op == spi_data_8b_op(),
{
    RegOp::Modify { width: Width::Bits16, addr: SPI1_BASE + SPI_CTLR1, clear: SPI_CTLR1_DFF as u32, set: 0 }
}

/// SPI1 frames of 16 bits.
fn spi_data_16b() -> (op: RegOp)
    ensures
        op == spi_data_16b_op(),
{
    RegOp::Modify { width: Width::Bits16, addr: SPI1_BASE + SPI_CTLR1, clear: 0, set: SPI_CTLR1_DFF as u32 }
}

/// The `CFGR` value of DMA1 channel 3: very high priority, 16-bit peripheral
/// and memory size, memory to peripheral.
pub const DMA_CH3_CFGR_INIT: u32 = 0x3510;

/// Clock SPI1 and DMA1, make SPI1 a master with software NSS and TX DMA,
/// point DMA1 channel 3 at the SPI data register, enable SPI1 in 8-bit frames.
pub open spec fn spi_init_ops() -> Seq<RegOp> {
    seq![
        modify_op(Width::Bits32, at(RCC_BASE, RCC_APB2PCENR), 0, RCC_APB2_IOPCEN | RCC_APB2_SPI1EN),
        modify_op(Width::Bits32, at(RCC_BASE, RCC_AHBPCENR), 0, RCC_AHB_DMA1EN),
        write_op(Width::Bits16, at(SPI1_BASE, SPI_CTLR1), (SPI_CTLR1_SSI | SPI_CTLR1_SSM | SPI_CTLR1_MSTR) as u32),
        modify_op(Width::Bits16, at(SPI1_BASE, SPI_CTLR2), 0, SPI_CTLR2_TXDMAEN as u32),
        write_op(Width::Bits32, at(DMA1_CH3_BASE, DMA_CFGR), DMA_CH3_CFGR_INIT),
        write_op(Width::Bits32, at(DMA1_CH3_BASE, DMA_PADDR), at(SPI1_BASE, SPI_DATAR)),
        modify_op(Width::Bits16, at(SPI1_BASE, SPI_CTLR1), 0, SPI_CTLR1_SPE as u32),
        spi_data_8b_op(),
    ]
}

fn spi_init() -> (ops: Vec<RegOp>)
    ensures
        ops@ == spi_init_ops(),
{
    let mut ops: Vec<RegOp> = Vec::new();
    ops.push(
        RegOp::Modify {
            width: Width::Bits32,
            addr: RCC_BASE + RCC_APB2PCENR,
            clear: 0,
            set: RCC_APB2_IOPCEN | RCC_APB2_SPI1EN,
        },
    );
    ops.push(
        RegOp::Modify { width: Width::Bits32, addr: RCC_BASE + RCC_AHBPCENR, clear: 0, set: RCC_AHB_DMA1EN },
    );
    ops.push(
        RegOp::Write {
            width: Width::Bits16,
            addr: SPI1_BASE + SPI_CTLR1,
            value: (SPI_CTLR1_SSI | SPI_CTLR1_SSM | SPI_CTLR1_MSTR) as u32,
        },
    );
    ops.push(
        RegOp::Modify {
            width: Width::Bits16,
            addr: SPI1_BASE + SPI_CTLR2,
            clear: 0,
            set: SPI_CTLR2_TXDMAEN as u32,
        },
    );
    let cfg: u16 = DMA_CFGR_PL_0 | DMA_CFGR_PL_1 | DMA_CFGR_PSIZE_0 | DMA_CFGR_MSIZE_0 | DMA_CFGR_DIR;
    assert(cfg == 0x3510) by (bit_vector)
        requires
            cfg == 0x1000u16 | 0x2000u16 | 0x0100u16 | 0x0400u16 | 0x0010u16,
    ;
    ops.push(RegOp::Write { width: Width::Bits32, addr: DMA1_CH3_BASE + DMA_CFGR, value: cfg as u32 });
    ops.push(
        RegOp::Write {
            width: Width::Bits32,
            addr: DMA1_CH3_BASE + DMA_PADDR,
            value: SPI1_BASE + SPI_DATAR,
        },
    );
    ops.push(
        RegOp::Modify { width: Width::Bits16, addr: SPI1_BASE + SPI_CTLR1, clear: 0, set: SPI_CTLR1_SPE as u32 },
    );
    ops.push(spi_data_8b());
    assert(ops@ =~= spi_init_ops());
    ops
}

/// Clock (48 MHz HSE+PLL), LCD GPIO, SPI1, DMA1 channel 3 → SPI TX.
pub open spec fn platform_init_ops() -> Seq<RegOp> {
    system_init_ops() + lcd_gpio_init_ops() + spi_init_ops()
}

/// The board bring-up program: clock tree, LCD GPIO, SPI1 and its DMA channel.
pub fn platform_init() -> (ops: Vec<RegOp>)
    ensures
        ops@ == platform_init_ops(),
{
    let mut ops = system_init_48mhz_hse();
    let mut gpio = lcd_gpio_init();
    let mut spi = spi_init();
    ops.append(&mut gpio);
    ops.append(&mut spi);
    ops
}

// --- SPI transfers ------------------------------------------------------------

/// One 8-bit SPI frame: wait for TXE, write the data register, wait until not
/// busy.
pub open spec fn spi_write_ops(b: u8) -> Seq<RegOp> {
    seq![
        spi_data_8b_op(),
        wait_op(Width::Bits16, at(SPI1_BASE, SPI_STATR), SPI_STATR_TXE as u32, SPI_STATR_TXE as u32),
        write_op(Width::Bits16, at(SPI1_BASE, SPI_DATAR), b as u32),
        wait_op(Width::Bits16, at(SPI1_BASE, SPI_STATR), SPI_STATR_BSY as u32, 0),
    ]
}

/// One 16-bit SPI frame.
pub open spec fn spi_write16_ops(v: u16) -> Seq<RegOp> {
    seq![
        spi_data_16b_op(),
        wait_op(Width::Bits16, at(SPI1_BASE, SPI_STATR), SPI_STATR_TXE as u32, SPI_STATR_TXE as u32),
        write_op(Width::Bits16, at(SPI1_BASE, SPI_DATAR), v as u32),
        wait_op(Width::Bits16, at(SPI1_BASE, SPI_STATR), SPI_STATR_BSY as u32, 0),
    ]
}

/// Send the byte `b` on SPI1.
pub fn spi_write(b: u8) -> (ops: Vec<RegOp>)
    ensures
        ops@ == spi_write_ops(b),
{
    let mut ops: Vec<RegOp> = Vec::new();
    ops.push(spi_data_8b());
    ops.push(
        RegOp::WaitMasked {
            width: Width::Bits16,
            addr: SPI1_BASE + SPI_STATR,
            mask: SPI_STATR_TXE as u32,
            value: SPI_STATR_TXE as u32,
        },
    );
    ops.push(RegOp::Write { width: Width::Bits16, addr: SPI1_BASE + SPI_DATAR, value: b as u32 });
    ops.push(
        RegOp::WaitMasked {
            width: Width::Bits16,
            addr: SPI1_BASE + SPI_STATR,
            mask: SPI_STATR_BSY as u32,
            value: 0,
        },
    );
    assert(ops@ =~= spi_write_ops(b));
    ops
}

/// Send the halfword `v` on SPI1 as one 16-bit frame.
pub fn spi_write16(v: u16) -> (ops: Vec<RegOp>)
    ensures
        ops@ == spi_write16_ops(v),
{
    let mut ops: Vec<RegOp> = Vec::new();
    ops.push(spi_data_16b());
    ops.push(
        RegOp::WaitMasked {
            width: Width::Bits16,
            addr: SPI1_BASE + SPI_STATR,
            mask: SPI_STATR_TXE as u32,
            value: SPI_STATR_TXE as u32,
        },
    );
    ops.push(RegOp::Write { width: Width::Bits16, addr: SPI1_BASE + SPI_DATAR, value: v as u32 });
    ops.push(
        RegOp::WaitMasked {
            width: Width::Bits16,
            addr: SPI1_BASE + SPI_STATR,
            mask: SPI_STATR_BSY as u32,
            value: 0,
        },
    );
    assert(ops@ =~= spi_write16_ops(v));
    ops
}

// --- DMA1 channel 3 → SPI1 -----------------------------------------------------

pub open spec fn dma_mem_inc_op(on: bool) -> RegOp {
    if on {
        modify_op(Width::Bits32, at(DMA1_CH3_BASE, DMA_CFGR), 0, DMA_CFGR_MINC as u32)
    } else {
        modify_op(Width::Bits32, at(DMA1_CH3_BASE, DMA_CFGR), DMA_CFGR_MINC as u32, 0)
    }
}

fn dma_mem_inc(on: bool) -> (op: RegOp)
    ensures
        op == dma_mem_inc_op(on),
{
    if on {
        RegOp::Modify { width: Width::Bits32, addr: DMA1_CH3_BASE + DMA_CFGR, clear: 0, set: DMA_CFGR_MINC as u32 }
    } else {
        RegOp::Modify { width: Width::Bits32, addr: DMA1_CH3_BASE + DMA_CFGR, clear: DMA_CFGR_MINC as u32, set: 0 }
    }
}

/// Wait for the transfer-complete flag of channel 3, then clear the channel's
/// flags.
pub open spec fn dma_wait_ch3_ops() -> Seq<RegOp> {
    seq![
        wait_op(Width::Bits32, at(DMA1_BASE, DMA1_INTFR), DMA_TCIF3, DMA_TCIF3),
        write_op(Width::Bits32, at(DMA1_BASE, DMA1_INTFCR), DMA_CGIF3),
    ]
}

fn dma_wait_ch3() -> (ops: Vec<RegOp>)
    ensures
        ops@ == dma_wait_ch3_ops(),
{
    let mut ops: Vec<RegOp> = Vec::new();
    ops.push(
        RegOp::WaitMasked { width: Width::Bits32, addr: DMA1_BASE + DMA1_INTFR, mask: DMA_TCIF3, value: DMA_TCIF3 },
    );
    ops.push(RegOp::Write { width: Width::Bits32, addr: DMA1_BASE + DMA1_INTFCR, value: DMA_CGIF3 });
    assert(ops@ =~= dma_wait_ch3_ops());
    ops
}

/// A DMA burst of `count` 16-bit frames from pixel `start` of the pixel pool;
/// with `mem_inc` false the one halfword at `start` is sent `count` times.
/// Nothing is sent for `count == 0`.
pub open spec fn spi_dma_pixels_ops(start: usize, count: u16, mem_inc: bool) -> Seq<RegOp> {
    if count == 0 {
        Seq::empty()
    } else {
        seq![
            spi_data_16b_op(),
            dma_mem_inc_op(mem_inc),
            modify_op(Width::Bits32, at(DMA1_CH3_BASE, DMA_CFGR), DMA_CFGR_EN as u32, 0),
            RegOp::WritePixelAddress { addr: at(DMA1_CH3_BASE, DMA_MADDR), start },
            write_op(Width::Bits32, at(DMA1_CH3_BASE, DMA_CNTR), count as u32),
            modify_op(Width::Bits32, at(DMA1_CH3_BASE, DMA_CFGR), 0, DMA_CFGR_EN as u32),
            wait_op(Width::Bits32, at(DMA1_BASE, DMA1_INTFR), DMA_TCIF3, DMA_TCIF3),
            write_op(Width::Bits32, at(DMA1_BASE, DMA1_INTFCR), DMA_CGIF3),
        ]
    }
}

/// DMA 16-bit SPI burst of `count` frames from pixel `start` of the pixel
/// pool; `mem_inc` false repeats one halfword (solid fill).
pub fn spi_dma_pixels(start: usize, count: u16, mem_inc: bool) -> (ops: Vec<RegOp>)
    ensures
        ops@ == spi_dma_pixels_ops(start, count, mem_inc),
{
    let mut ops: Vec<RegOp> = Vec::new();
    if count == 0 {
        assert(ops@ =~= spi_dma_pixels_ops(start, count, mem_inc));
        return ops;
    }
    ops.push(spi_data_16b());
    ops.push(dma_mem_inc(mem_inc));
    ops.push(
        RegOp::Modify { width: Width::Bits32, addr: DMA1_CH3_BASE + DMA_CFGR, clear: DMA_CFGR_EN as u32, set: 0 },
    );
    ops.push(RegOp::WritePixelAddress { addr: DMA1_CH3_BASE + DMA_MADDR, start });
    ops.push(RegOp::Write { width: Width::Bits32, addr: DMA1_CH3_BASE + DMA_CNTR, value: count as u32 });
    ops.push(
        RegOp::Modify { width: Width::Bits32, addr: DMA1_CH3_BASE + DMA_CFGR, clear: 0, set: DMA_CFGR_EN as u32 },
    );
    let mut wait = dma_wait_ch3();
    ops.append(&mut wait);
    assert(ops@ =~= spi_dma_pixels_ops(start, count, mem_inc));
    ops
}

} // verus!

verus! {

/// A register program together with the pixel data its DMA bursts read.
pub struct Program {
    pub ops: Vec<RegOp>,
    /// Pixel pool: a `WritePixelAddress { start, .. }` names `pixels[start]`.
    pub pixels: Vec<u16>,
}

impl Program {
    /// The empty program.
    pub fn new() -> (p: Program)
        ensures
            p.ops@ == Seq::<RegOp>::empty(),
            p.pixels@ == Seq::<u16>::empty(),
    {
        Program { ops: Vec::new(), pixels: Vec::new() }
    }
}

} // verus!

verus! {

/// Frames that `op` hands to DMA1 channel 3: the value it writes to the
/// transfer counter, if it writes it.
pub open spec fn dma_count_of(op: RegOp) -> nat {
    match op {
        RegOp::Write { width, addr, value } => if addr == at(DMA1_CH3_BASE, DMA_CNTR) {
            value as nat
        } else {
            0
        },
        _ => 0,
    }
}

/// Frames that a program hands to DMA, over all its bursts.
pub open spec fn frames_sent(ops: Seq<RegOp>) -> nat
    decreases ops.len(),
{
    if ops.len() == 0 {
        0
    } else {
        frames_sent(ops.drop_last()) + dma_count_of(ops.last())
    }
}

/// Frames sent by two programs run one after the other add up.
pub proof fn lemma_frames_sent_concat(a: Seq<RegOp>, b: Seq<RegOp>)
    ensures
        frames_sent(a + b) == frames_sent(a) + frames_sent(b),
    decreases b.len(),
{
    if b.len() > 0 {
        lemma_frames_sent_concat(a, b.drop_last());
        assert((a + b).drop_last() =~= a + b.drop_last());
    } else {
        assert(a + b =~= a);
    }
}

/// A program that never writes the DMA counter sends no frame.
pub proof fn lemma_frames_sent_none(ops: Seq<RegOp>)
    requires
        forall|i: int| 0 <= i < ops.len() ==> dma_count_of(#[trigger] ops[i]) == 0,
    ensures
        frames_sent(ops) == 0,
    decreases ops.len(),
{
    if ops.len() > 0 {
        assert forall|i: int| 0 <= i < ops.drop_last().len() implies dma_count_of(#[trigger] ops.drop_last()[i]) == 0 by {
            assert(ops.drop_last()[i] == ops[i]);
        }
        lemma_frames_sent_none(ops.drop_last());
    }
}

/// A DMA burst of `count` frames sends `count` frames.
pub proof fn lemma_dma_burst_frames(start: usize, count: u16, mem_inc: bool)
    ensures
        frames_sent(spi_dma_pixels_ops(start, count, mem_inc)) == count,
{
    let ops = spi_dma_pixels_ops(start, count, mem_inc);
    if count > 0 {
        let a = ops.subrange(0, 4);
        let b = ops.subrange(4, 5);
        let c = ops.subrange(5, 8);
        assert(ops =~= a + b + c);
        lemma_frames_sent_none(a);
        lemma_frames_sent_none(c);
        lemma_frames_sent_concat(a, b);
        lemma_frames_sent_concat(a + b, c);
        assert(b.drop_last() =~= Seq::<RegOp>::empty());
        assert(frames_sent(Seq::<RegOp>::empty()) == 0);
        assert(b.last() == write_op(Width::Bits32, at(DMA1_CH3_BASE, DMA_CNTR), count as u32));
        assert(dma_count_of(b.last()) == count);
        assert(frames_sent(b) == count);
    }
}

/// The backlight compare value never exceeds the PWM period, whatever duty is
/// asked for, and the TIM1 set-up is part of the program exactly when the PWM
/// was not running yet; once running it is never set up again.
pub proof fn lemma_backlight_duty(pwm_ready: bool, duty: u16)
    ensures
        clamped_duty(duty) <= BACKLIGHT_PWM_MAX,
        duty <= BACKLIGHT_PWM_MAX ==> clamped_duty(duty) == duty,
        backlight_set_duty_ops(pwm_ready, duty).last() == write_op(
            Width::Bits32,
            at(TIM1_BASE, TIM_CH1CVR),
            clamped_duty(duty) as u32,
        ),
        pwm_ready ==> backlight_set_duty_ops(pwm_ready, duty).len() == 1,
        !pwm_ready ==> backlight_set_duty_ops(pwm_ready, duty) == tim1_backlight_init_ops() + seq![
            write_op(Width::Bits32, at(TIM1_BASE, TIM_CH1CVR), clamped_duty(duty) as u32),
        ],
{
}

/// `BSHR` drives a pin high through its bit in the low half and low through
/// the same bit shifted into the high half; the two never overlap.
pub proof fn lemma_bshr_halves(pin: u8)
    requires
        pin < 16,
    ensures
        (1u32 << pin) < 0x1_0000,
        (1u32 << (pin + 16)) == (1u32 << pin) << 16u32,
        (1u32 << pin) & (1u32 << (pin + 16)) == 0,
{
    let p = pin as u32;
    assert((1u32 << p) < 0x1_0000 && (1u32 << (p + 16)) == (1u32 << p) << 16u32 && (1u32 << p) & (1u32 << (p + 16)) == 0)
        by (bit_vector)
        requires
            p < 16,
    ;
}

} // verus!

verus! {

/// What a `Modify` access stores when the register held `old`.
pub fn modify_value(old: u32, clear: u32, set: u32) -> (new: u32)
    ensures
        new == modified(old, clear, set),
{
    (old & !clear) | set
}

/// Index of the operation that runs after operation `pc`: the next one,
/// except after a `PollOrSkip` whose bit never came (`ready` false), which
/// skips its `skip` followers (never past the end of the program).
pub open spec fn next_index(ops: Seq<RegOp>, pc: int, ready: bool) -> int {
    match ops[pc] {
        RegOp::PollOrSkip { skip, .. } => if ready {
            pc + 1
        } else if pc + 1 + skip <= ops.len() {
            pc + 1 + skip
        } else {
            ops.len() as int
        },
        _ => pc + 1,
    }
}

/// The operation index after operation `pc` of `ops` (see [`next_index`]).
pub fn next_op_index(ops: &Vec<RegOp>, pc: usize, ready: bool) -> (next: usize)
    requires
        pc < ops@.len(),
    ensures
        next == next_index(ops@, pc as int, ready),
        pc < next <= ops@.len(),
{
    let len = ops.len();
    match ops[pc] {
        RegOp::PollOrSkip { skip, .. } => {
            if ready {
                pc + 1
            } else {
                let left = len - (pc + 1);
                if (skip as usize) <= left {
                    pc + 1 + skip as usize
                } else {
                    len
                }
            }
        },
        _ => pc + 1,
    }
}

} // verus!

verus! {

// --- Register end states --------------------------------------------------------

/// The bits a register access of `width` covers.
pub open spec fn width_mask(width: Width) -> u32 {
    match width {
        Width::Bits8 => 0xFF,
        Width::Bits16 => 0xFFFF,
        Width::Bits32 => 0xFFFF_FFFF,
    }
}

/// The value of the register at `addr` after `op`, when it held `v` before and
/// nothing but the program changes it.
pub open spec fn reg_after_op(op: RegOp, addr: u32, v: u32) -> u32 {
    match op {
        RegOp::Write { width, addr: a, value } => if a == addr {
            value & width_mask(width)
        } else {
            v
        },
        RegOp::Modify { width, addr: a, clear, set } => if a == addr {
            modified(v, clear, set) & width_mask(width)
        } else {
            v
        },
        _ => v,
    }
}

/// The value of the register at `addr` after the whole of `ops` (none
/// skipped), when it held `v` before and nothing but the program changes it.
pub open spec fn reg_after(ops: Seq<RegOp>, addr: u32, v: u32) -> u32
    decreases ops.len(),
{
    if ops.len() == 0 {
        v
    } else {
        reg_after(ops.drop_first(), addr, reg_after_op(ops[0], addr, v))
    }
}

/// Running two programs one after the other leaves what the second leaves
/// from what the first left.
pub proof fn lemma_reg_after_concat(a: Seq<RegOp>, b: Seq<RegOp>, addr: u32, v: u32)
    ensures
        reg_after(a + b, addr, v) == reg_after(b, addr, reg_after(a, addr, v)),
    decreases a.len(),
{
    if a.len() == 0 {
        assert(a + b =~= b);
    } else {
        assert((a + b).drop_first() =~= a.drop_first() + b);
        assert((a + b)[0] == a[0]);
        lemma_reg_after_concat(a.drop_first(), b, addr, reg_after_op(a[0], addr, v));
    }
}

/// The value of a 4-bit GPIO configuration field.
pub open spec fn pin_field(cfgr: u32, pin: u32) -> u32 {
    (cfgr >> (pin * 4)) & 0xF
}

/// After the backlight set-up, TIM1 runs in PWM mode 1 (OC1M = 0b110, preload
/// on, output enabled and active high, main output on, counter and auto-reload preload on)
/// with prescaler 0 and period `BACKLIGHT_PWM_MAX + 1` timer clocks: 48 MHz /
/// 1024 ≈ 46.9 kHz, 10-bit duty. Port D and TIM1 are clocked and PD2 is an
/// alternate-function push-pull output. This holds whatever the registers
/// held before.
pub proof fn lemma_tim1_backlight_end_state(
    apb2: u32,
    gpiod_cfgr: u32,
    psc: u32,
    atrlr: u32,
    chctlr1: u32,
    ccer: u32,
    bdtr: u32,
    ctlr1: u32,
)
    ensures
        ({
            let ops = tim1_backlight_init_ops();
            &&& reg_after(ops, at(RCC_BASE, RCC_APB2PCENR), apb2) & 0x0820 == 0x0820
            &&& pin_field(reg_after(ops, at(GPIOD_BASE, GPIO_CFGR_OFFSET), gpiod_cfgr), 2) == 0xB
            &&& reg_after(ops, at(TIM1_BASE, TIM_PSC), psc) == 0
            &&& reg_after(ops, at(TIM1_BASE, TIM_ATRLR), atrlr) == BACKLIGHT_PWM_MAX as u32
            &&& reg_after(ops, at(TIM1_BASE, TIM_CHCTLR1), chctlr1) & 0x0078 == 0x0068
            &&& reg_after(ops, at(TIM1_BASE, TIM_CCER), ccer) & 0x0003 == 0x0001
            &&& reg_after(ops, at(TIM1_BASE, TIM_BDTR), bdtr) & 0x8000 == 0x8000
            &&& reg_after(ops, at(TIM1_BASE, TIM_CTLR1), ctlr1) & 0x0081 == 0x0081
        }),
{
    reveal_with_fuel(reg_after, 11);
    assert(RCC_APB2_IOPDEN | RCC_APB2_TIM1EN == 0x820) by (bit_vector);
    assert(TIM_OC1M_0 | TIM_OC1M_1 | TIM_OC1M_2 == 0x70u16) by (bit_vector);
    assert(TIM_OC1M_1 | TIM_OC1M_2 | TIM_OC1PE == 0x68u16) by (bit_vector);
    assert(TIM_CEN | TIM_ARPE == 0x81u16) by (bit_vector);
    let ops = tim1_backlight_init_ops();
    let c = chctlr1;
    assert((((((((c & !0x70u32) | 0u32) & 0xFFFFu32) & !0u32) | 0x68u32) & 0xFFFFu32) & 0x78u32) == 0x68u32)
        by (bit_vector);
    let g = gpiod_cfgr;
    assert(((((g & !(0xFu32 << 8u32)) | ((3u32 | (2u32 << 2u32)) << 8u32)) & 0xFFFF_FFFFu32) >> 8u32) & 0xF == 0xB) by (bit_vector);
    assert((((apb2 & !0u32) | 0x820u32) & 0xFFFF_FFFFu32) & 0x820 == 0x820) by (bit_vector);
    assert((((ccer & !2u32) | 1u32) & 0xFFFF) & 3 == 1) by (bit_vector);
    assert((((bdtr & !0u32) | 0x8000u32) & 0xFFFF) & 0x8000 == 0x8000) by (bit_vector);
    assert((((ctlr1 & !0u32) | 0x81u32) & 0xFFFF) & 0x81 == 0x81) by (bit_vector);
    assert(0u32 & 0xFFFF == 0 && 1023u32 & 0xFFFF == 1023) by (bit_vector);
}

/// After the backlight program, the compare register holds the clamped duty.
pub proof fn lemma_backlight_compare_end_state(pwm_ready: bool, duty: u16, ch1cvr: u32)
    ensures
        reg_after(backlight_set_duty_ops(pwm_ready, duty), at(TIM1_BASE, TIM_CH1CVR), ch1cvr)
            == clamped_duty(duty) as u32,
{
    let last = seq![write_op(Width::Bits32, at(TIM1_BASE, TIM_CH1CVR), clamped_duty(duty) as u32)];
    let head = if pwm_ready { Seq::<RegOp>::empty() } else { tim1_backlight_init_ops() };
    assert(backlight_set_duty_ops(pwm_ready, duty) == head + last);
    lemma_reg_after_concat(head, last, at(TIM1_BASE, TIM_CH1CVR), ch1cvr);
    let v = reg_after(head, at(TIM1_BASE, TIM_CH1CVR), ch1cvr);
    reveal_with_fuel(reg_after, 2);
    assert(last.drop_first() =~= Seq::<RegOp>::empty());
    let d = clamped_duty(duty) as u32;
    assert(d & 0xFFFF_FFFF == d) by (bit_vector);
}

/// After the SPI set-up, SPI1 is an enabled master with software NSS in 8-bit
/// frames (`CTLR1` = 0x0344) and TX DMA on; DMA1 channel 3 has configuration
/// 0x3510 and the SPI data register as peripheral address; port C, SPI1 and
/// DMA1 are clocked.
pub proof fn lemma_spi_end_state(apb2: u32, ahb: u32, ctlr1: u32, ctlr2: u32, cfgr: u32, paddr: u32)
    ensures
        ({
            let ops = spi_init_ops();
            &&& reg_after(ops, at(RCC_BASE, RCC_APB2PCENR), apb2) & 0x1010 == 0x1010
            &&& reg_after(ops, at(RCC_BASE, RCC_AHBPCENR), ahb) & 0x0001 == 0x0001
            &&& reg_after(ops, at(SPI1_BASE, SPI_CTLR1), ctlr1) == 0x0344
            &&& reg_after(ops, at(SPI1_BASE, SPI_CTLR2), ctlr2) & 0x0002 == 0x0002
            &&& reg_after(ops, at(DMA1_CH3_BASE, DMA_CFGR), cfgr) == DMA_CH3_CFGR_INIT
            &&& reg_after(ops, at(DMA1_CH3_BASE, DMA_PADDR), paddr) == at(SPI1_BASE, SPI_DATAR)
        }),
{
    reveal_with_fuel(reg_after, 9);
    assert(RCC_APB2_IOPCEN | RCC_APB2_SPI1EN == 0x1010) by (bit_vector);
    assert(SPI_CTLR1_SSI | SPI_CTLR1_SSM | SPI_CTLR1_MSTR == 0x304u16) by (bit_vector);
    assert((((apb2 & !0u32) | 0x1010u32) & 0xFFFF_FFFFu32) & 0x1010 == 0x1010) by (bit_vector);
    assert((((ahb & !0u32) | 1u32) & 0xFFFF_FFFFu32) & 1 == 1) by (bit_vector);
    assert((((((((0x304u32 & 0xFFFF) & !0u32) | 0x40u32) & 0xFFFF) & !0x800u32) | 0u32) & 0xFFFF) == 0x344)
        by (bit_vector);
    assert((((ctlr2 & !0u32) | 2u32) & 0xFFFF) & 2 == 2) by (bit_vector);
    assert(0x3510u32 & 0xFFFF_FFFF == 0x3510 && 0x4001_300Cu32 & 0xFFFF_FFFF == 0x4001_300C) by (bit_vector);
}

/// After the LCD GPIO set-up, ports C and D are clocked, CS (PC1), D/C (PD3) and RST (PD4) are push-pull
/// outputs (field 0x3) and SCK (PC5), MOSI (PC6) alternate-function push-pull
/// outputs (field 0xB), whatever the configuration registers held before.
pub proof fn lemma_lcd_gpio_end_state(apb2: u32, gpioc_cfgr: u32, gpiod_cfgr: u32)
    ensures
        reg_after(lcd_gpio_init_ops(), at(RCC_BASE, RCC_APB2PCENR), apb2) & 0x0030 == 0x0030,
        ({
            let ops = lcd_gpio_init_ops();
            let c = reg_after(ops, at(GPIOC_BASE, GPIO_CFGR_OFFSET), gpioc_cfgr);
            let d = reg_after(ops, at(GPIOD_BASE, GPIO_CFGR_OFFSET), gpiod_cfgr);
            &&& pin_field(c, 1) == 0x3
            &&& pin_field(c, 5) == 0xB
            &&& pin_field(c, 6) == 0xB
            &&& pin_field(d, 3) == 0x3
            &&& pin_field(d, 4) == 0x3
        }),
{
    reveal_with_fuel(reg_after, 10);
    assert(RCC_APB2_IOPCEN | RCC_APB2_IOPDEN == 0x30) by (bit_vector);
    assert((((apb2 & !0u32) | 0x30u32) & 0xFFFF_FFFFu32) & 0x30u32 == 0x30u32) by (bit_vector);
    let g = gpioc_cfgr;
    let c1 = ((g & !(0xFu32 << 4u32)) | ((3u32 | (0u32 << 2u32)) << 4u32)) & 0xFFFF_FFFF;
    let c5 = ((c1 & !(0xFu32 << 20u32)) | ((3u32 | (2u32 << 2u32)) << 20u32)) & 0xFFFF_FFFF;
    let c6 = ((c5 & !(0xFu32 << 24u32)) | ((3u32 | (2u32 << 2u32)) << 24u32)) & 0xFFFF_FFFF;
    assert((c6 >> 4u32) & 0xF == 3 && (c6 >> 20u32) & 0xF == 0xB && (c6 >> 24u32) & 0xF == 0xB) by (bit_vector)
        requires
            c1 == ((g & !(0xFu32 << 4u32)) | ((3u32 | (0u32 << 2u32)) << 4u32)) & 0xFFFF_FFFF,
            c5 == ((c1 & !(0xFu32 << 20u32)) | ((3u32 | (2u32 << 2u32)) << 20u32)) & 0xFFFF_FFFF,
            c6 == ((c5 & !(0xFu32 << 24u32)) | ((3u32 | (2u32 << 2u32)) << 24u32)) & 0xFFFF_FFFF,
    ;
    let h = gpiod_cfgr;
    let d3 = ((h & !(0xFu32 << 12u32)) | ((3u32 | (0u32 << 2u32)) << 12u32)) & 0xFFFF_FFFF;
    let d4 = ((d3 & !(0xFu32 << 16u32)) | ((3u32 | (0u32 << 2u32)) << 16u32)) & 0xFFFF_FFFF;
    assert((d4 >> 12u32) & 0xF == 3 && (d4 >> 16u32) & 0xF == 3) by (bit_vector)
        requires
            d3 == ((h & !(0xFu32 << 12u32)) | ((3u32 | (0u32 << 2u32)) << 12u32)) & 0xFFFF_FFFF,
            d4 == ((d3 & !(0xFu32 << 16u32)) | ((3u32 | (0u32 << 2u32)) << 16u32)) & 0xFFFF_FFFF,
    ;
}

} // verus!

verus! {

/// The first backlight call (the PWM not yet running) leaves TIM1 driving an
/// active-high output (CC1E set, CC1P clear) whose compare value is the duty
/// clamped at 1023: duty 0 is off and 1023 full on.
pub proof fn lemma_backlight_first_call(duty: u16, ccer: u32, ch1cvr: u32)
    ensures
        reg_after(backlight_set_duty_ops(false, duty), at(TIM1_BASE, TIM_CCER), ccer) & 0x0003 == 0x0001,
        reg_after(backlight_set_duty_ops(false, duty), at(TIM1_BASE, TIM_CH1CVR), ch1cvr) == if duty <= 1023 {
            duty as u32
        } else {
            1023u32
        },
{
    let init = tim1_backlight_init_ops();
    let last = seq![write_op(Width::Bits32, at(TIM1_BASE, TIM_CH1CVR), clamped_duty(duty) as u32)];
    assert(backlight_set_duty_ops(false, duty) =~= init + last);
    lemma_reg_after_concat(init, last, at(TIM1_BASE, TIM_CCER), ccer);
    lemma_tim1_backlight_end_state(0, 0, 0, 0, 0, ccer, 0, 0);
    let v = reg_after(init, at(TIM1_BASE, TIM_CCER), ccer);
    reveal_with_fuel(reg_after, 2);
    assert(last.drop_first() =~= Seq::<RegOp>::empty());
    assert(reg_after(last, at(TIM1_BASE, TIM_CCER), v) == v);
    lemma_backlight_compare_end_state(false, duty, ch1cvr);
}

proof fn lemma_sys_apb2(v: u32)
    ensures
        reg_after(system_init_ops(), at(RCC_BASE, RCC_APB2PCENR), v) == ((v & !0u32) | 1u32) & 0xFFFF_FFFFu32,
{
    reveal_with_fuel(reg_after, 12);
}

proof fn lemma_gpio_apb2(v: u32)
    ensures
        reg_after(lcd_gpio_init_ops(), at(RCC_BASE, RCC_APB2PCENR), v) == ((v & !0u32) | 0x30u32) & 0xFFFF_FFFFu32,
{
    reveal_with_fuel(reg_after, 10);
    assert(RCC_APB2_IOPCEN | RCC_APB2_IOPDEN == 0x30) by (bit_vector);
}

proof fn lemma_spi_apb2(v: u32)
    ensures
        reg_after(spi_init_ops(), at(RCC_BASE, RCC_APB2PCENR), v) == ((v & !0u32) | 0x1010u32) & 0xFFFF_FFFFu32,
{
    reveal_with_fuel(reg_after, 9);
    assert(RCC_APB2_IOPCEN | RCC_APB2_SPI1EN == 0x1010) by (bit_vector);
}

/// After the board bring-up (the crystal having come up), the AFIO, ports C
/// and D and SPI1 are clocked, whatever `APB2PCENR` held before.
pub proof fn lemma_platform_clocks(apb2: u32)
    ensures
        reg_after(platform_init_ops(), at(RCC_BASE, RCC_APB2PCENR), apb2) & 0x1031 == 0x1031,
{
    let a = at(RCC_BASE, RCC_APB2PCENR);
    let sys = system_init_ops();
    let gpio = lcd_gpio_init_ops();
    let spi = spi_init_ops();
    lemma_reg_after_concat(sys + gpio, spi, a, apb2);
    lemma_reg_after_concat(sys, gpio, a, apb2);
    let v1 = reg_after(sys, a, apb2);
    lemma_sys_apb2(apb2);
    let v2 = reg_after(gpio, a, v1);
    lemma_gpio_apb2(v1);
    let v3 = reg_after(spi, a, v2);
    lemma_spi_apb2(v2);
    assert(v3 & 0x1031u32 == 0x1031u32) by (bit_vector)
        requires
            v1 == ((apb2 & !0u32) | 1u32) & 0xFFFF_FFFFu32,
            v2 == ((v1 & !0u32) | 0x30u32) & 0xFFFF_FFFFu32,
            v3 == ((v2 & !0u32) | 0x1010u32) & 0xFFFF_FFFFu32,
    ;
}

} // verus!
