//! RCC: 48 MHz system clock from the 24 MHz HSE crystal through PLL ×2.

use vstd::prelude::*;

use crate::hw::{at, modify_op, reg_after, wait_op, write_op, RegOp, Width};
use crate::regs::{
    AFIO_BASE, RCC_BASE, FLASH_R_BASE, RCC_CTLR, RCC_CFGR0, RCC_APB2PCENR, RCC_HSEON, RCC_HSERDY, RCC_PLLON, RCC_PLLRDY, RCC_PLLSRC_HSE_MUL2, RCC_SW, RCC_SW_PLL, RCC_SWS, RCC_SWS_PLL_VAL, RCC_HPRE, RCC_HPRE_DIV1, RCC_APB2_AFIOEN, AFIO_PCFR1, AFIO_PCFR1_HSE_PA1_PA2, FLASH_ACTLR, FLASH_ACTLR_LATENCY_1,
};

verus! {

/// How many times the HSE ready flag is read before the clock set-up gives up.
pub const HSE_STARTUP_RETRIES: u32 = 0x0500;

/// Operations after the HSE wait that switch the system clock to the PLL;
/// they are skipped when the crystal never reports ready.
pub open spec fn pll_switch_ops() -> Seq<RegOp> {
    seq![
        write_op(Width::Bits32, at(FLASH_R_BASE, FLASH_ACTLR), FLASH_ACTLR_LATENCY_1),
        modify_op(Width::Bits32, at(RCC_BASE, RCC_CFGR0), RCC_HPRE, RCC_HPRE_DIV1),
        modify_op(Width::Bits32, at(RCC_BASE, RCC_CFGR0), RCC_PLLSRC_HSE_MUL2, RCC_PLLSRC_HSE_MUL2),
        modify_op(Width::Bits32, at(RCC_BASE, RCC_CTLR), 0, RCC_PLLON),
        wait_op(Width::Bits32, at(RCC_BASE, RCC_CTLR), RCC_PLLRDY, RCC_PLLRDY),
        modify_op(Width::Bits32, at(RCC_BASE, RCC_CFGR0), RCC_SW, RCC_SW_PLL),
        wait_op(Width::Bits32, at(RCC_BASE, RCC_CFGR0), RCC_SWS, RCC_SWS_PLL_VAL),
    ]
}

/// Clock the AFIO, put the crystal on PA1/PA2, start the HSE, wait for it at
/// most `HSE_STARTUP_RETRIES` reads, and (only if it came up) one flash wait
/// state, AHB undivided (the HPRE field cleared), PLL from HSE ×2, PLL on, system clock from the PLL.
pub open spec fn system_init_ops() -> Seq<RegOp> {
    seq![
        modify_op(Width::Bits32, at(RCC_BASE, RCC_APB2PCENR), 0, RCC_APB2_AFIOEN),
        modify_op(Width::Bits32, at(AFIO_BASE, AFIO_PCFR1), 0, AFIO_PCFR1_HSE_PA1_PA2),
        modify_op(Width::Bits32, at(RCC_BASE, RCC_CTLR), 0, RCC_HSEON),
        RegOp::PollOrSkip {
            addr: at(RCC_BASE, RCC_CTLR),
            mask: RCC_HSERDY,
            tries: HSE_STARTUP_RETRIES,
            skip: pll_switch_ops().len() as u32,
        },
    ] + pll_switch_ops()
}

/// When the crystal comes up (so that nothing is skipped), the clock program
/// leaves: the AFIO clocked and PA1/PA2 given to the crystal; HSE and PLL on;
/// one flash wait state; the PLL fed from the HSE (×2), the system clock
/// switched to the PLL and the AHB prescaler field 0 — SYSCLK = HCLK =
/// 2 × 24 MHz = 48 MHz, whatever the registers held before.
pub proof fn lemma_clock_end_state(apb2: u32, pcfr1: u32, ctlr: u32, actlr: u32, cfgr0: u32)
    ensures
        ({
            let ops = system_init_ops();
            &&& reg_after(ops, at(RCC_BASE, RCC_APB2PCENR), apb2) & RCC_APB2_AFIOEN == RCC_APB2_AFIOEN
            &&& reg_after(ops, at(AFIO_BASE, AFIO_PCFR1), pcfr1) & AFIO_PCFR1_HSE_PA1_PA2 == AFIO_PCFR1_HSE_PA1_PA2
            &&& reg_after(ops, at(RCC_BASE, RCC_CTLR), ctlr) & (RCC_HSEON | RCC_PLLON) == RCC_HSEON | RCC_PLLON
            &&& reg_after(ops, at(FLASH_R_BASE, FLASH_ACTLR), actlr) == FLASH_ACTLR_LATENCY_1
            &&& reg_after(ops, at(RCC_BASE, RCC_CFGR0), cfgr0) & RCC_HPRE == 0
            &&& reg_after(ops, at(RCC_BASE, RCC_CFGR0), cfgr0) & RCC_PLLSRC_HSE_MUL2 == RCC_PLLSRC_HSE_MUL2
            &&& reg_after(ops, at(RCC_BASE, RCC_CFGR0), cfgr0) & RCC_SW == RCC_SW_PLL
        }),
{
    reveal_with_fuel(reg_after, 12);
    assert((((apb2 & !0u32) | 1u32) & 0xFFFF_FFFFu32) & 1u32 == 1u32) by (bit_vector);
    assert((((pcfr1 & !0u32) | 0x8000u32) & 0xFFFF_FFFFu32) & 0x8000u32 == 0x8000u32) by (bit_vector);
    assert(0x0001_0000u32 | 0x0100_0000u32 == 0x0101_0000u32) by (bit_vector);
    let t1 = ((ctlr & !0u32) | 0x0001_0000u32) & 0xFFFF_FFFFu32;
    assert((((t1 & !0u32) | 0x0100_0000u32) & 0xFFFF_FFFFu32) & 0x0101_0000u32 == 0x0101_0000u32) by (bit_vector)
        requires
            t1 == ((ctlr & !0u32) | 0x0001_0000u32) & 0xFFFF_FFFFu32,
    ;
    assert(1u32 & 0xFFFF_FFFFu32 == 1u32) by (bit_vector);
    let c1 = ((cfgr0 & !0xF0u32) | 0u32) & 0xFFFF_FFFFu32;
    let c2 = ((c1 & !0x0001_0000u32) | 0x0001_0000u32) & 0xFFFF_FFFFu32;
    let c3 = ((c2 & !3u32) | 2u32) & 0xFFFF_FFFFu32;
    assert(c3 & 0xF0u32 == 0 && c3 & 0x0001_0000u32 == 0x0001_0000u32 && c3 & 3u32 == 2u32) by (bit_vector)
        requires
            c1 == ((cfgr0 & !0xF0u32) | 0u32) & 0xFFFF_FFFFu32,
            c2 == ((c1 & !0x0001_0000u32) | 0x0001_0000u32) & 0xFFFF_FFFFu32,
            c3 == ((c2 & !3u32) | 2u32) & 0xFFFF_FFFFu32,
    ;
}

/// The clock set-up program (48 MHz from HSE).
pub fn system_init_48mhz_hse() -> (ops: Vec<RegOp>)
    ensures
        ops@ == system_init_ops(),
{
    let mut ops: Vec<RegOp> = Vec::new();
    ops.push(RegOp::Modify { width: Width::Bits32, addr: RCC_BASE + RCC_APB2PCENR, clear: 0, set: RCC_APB2_AFIOEN });
    ops.push(
        RegOp::Modify { width: Width::Bits32, addr: AFIO_BASE + AFIO_PCFR1, clear: 0, set: AFIO_PCFR1_HSE_PA1_PA2 },
    );
    ops.push(RegOp::Modify { width: Width::Bits32, addr: RCC_BASE + RCC_CTLR, clear: 0, set: RCC_HSEON });
    ops.push(
        RegOp::PollOrSkip { addr: RCC_BASE + RCC_CTLR, mask: RCC_HSERDY, tries: HSE_STARTUP_RETRIES, skip: 7 },
    );
    ops.push(RegOp::Write { width: Width::Bits32, addr: FLASH_R_BASE + FLASH_ACTLR, value: FLASH_ACTLR_LATENCY_1 });
    ops.push(RegOp::Modify { width: Width::Bits32, addr: RCC_BASE + RCC_CFGR0, clear: RCC_HPRE, set: RCC_HPRE_DIV1 });
    ops.push(
        RegOp::Modify {
            width: Width::Bits32,
            addr: RCC_BASE + RCC_CFGR0,
            clear: RCC_PLLSRC_HSE_MUL2,
            set: RCC_PLLSRC_HSE_MUL2,
        },
    );
    ops.push(RegOp::Modify { width: Width::Bits32, addr: RCC_BASE + RCC_CTLR, clear: 0, set: RCC_PLLON });
    ops.push(RegOp::WaitMasked { width: Width::Bits32, addr: RCC_BASE + RCC_CTLR, mask: RCC_PLLRDY, value: RCC_PLLRDY });
    ops.push(RegOp::Modify { width: Width::Bits32, addr: RCC_BASE + RCC_CFGR0, clear: RCC_SW, set: RCC_SW_PLL });
    ops.push(
        RegOp::WaitMasked { width: Width::Bits32, addr: RCC_BASE + RCC_CFGR0, mask: RCC_SWS, value: RCC_SWS_PLL_VAL },
    );
    assert(ops@ =~= system_init_ops());
    ops
}

} // verus!
