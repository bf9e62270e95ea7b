//! Clock tree and firmware-size report.
//!
//! HSE = 8 MHz MCO from the ST-LINK (UM1974 §7.8.1, p.26), PLL'd up to
//! 168 MHz, the maximum SYSCLK of the STM32F429 (RCC_PLLCFGR, RM0090 §7.3.2):
//!   VCO_in  = HSE / M      = 8 MHz / 8   = 1 MHz
//!   VCO_out = VCO_in * N   = 1 MHz * 336 = 336 MHz
//!   SYSCLK  = VCO_out / P  = 336 / 2     = 168 MHz
//!   PLL48   = VCO_out / Q  = 336 / 7     = 48 MHz (USB/RNG/SDIO)
//! Bus prescalers (RCC_CFGR, RM0090 §7.3.3): AHB = 168 MHz, APB1 = 42 MHz
//! (DIV4, max 45 MHz), APB2 = 84 MHz (DIV2, max 90 MHz).
//!
//! Firmware size: used Flash and static RAM from the linker's section
//! boundary addresses (`__etext`, `__sdata`, `__edata`, `__sbss`, `__ebss`).
use vstd::prelude::*;

verus! {

/// The clock configuration: HSE frequency, PLL dividers and multiplier, APB
/// prescalers.
#[derive(Clone, Copy, Debug, PartialEq, Eq, Structural)]
pub struct ClockPlan {
    pub hse_hz: u32,
    pub pll_m: u32,
    pub pll_n: u32,
    pub pll_p: u32,
    pub pll_q: u32,
    pub apb1_div: u32,
    pub apb2_div: u32,
}

/// The 168 MHz clock plan of this board.
pub fn clock_plan() -> (p: ClockPlan)
    ensures
        p.hse_hz == 8_000_000,
        p.pll_m == 8,
        p.pll_n == 336,
        p.pll_p == 2,
        p.pll_q == 7,
        p.apb1_div == 4,
        p.apb2_div == 2,
        p.hse_hz / p.pll_m == 1_000_000,
        p.hse_hz / p.pll_m * p.pll_n / (p.pll_p as int) == 168_000_000,
        p.hse_hz / p.pll_m * p.pll_n / (p.pll_q as int) == 48_000_000,
        168_000_000u32 / p.apb1_div <= 45_000_000,
        168_000_000u32 / p.apb2_div <= 90_000_000,
{
    ClockPlan {
        hse_hz: 8_000_000,
        pll_m: 8,
        pll_n: 336,
        pll_p: 2,
        pll_q: 7,
        apb1_div: 4,
        apb2_div: 2,
    }
}

/// Flash origin (RM0090 Table 6, p.77: sector 0 base).
pub const FLASH_ORIGIN: usize = 0x0800_0000;

/// Bytes of Flash used: end of code (`__etext`) minus the Flash origin.
pub fn flash_size(etext: usize) -> (res: usize)
    requires
        etext >= FLASH_ORIGIN,
    ensures
        res == etext - FLASH_ORIGIN,
{
    etext - FLASH_ORIGIN
}

/// Bytes of static RAM used: `.data` plus `.bss` (stack and heap excluded).
pub fn static_ram_size(sdata: usize, edata: usize, sbss: usize, ebss: usize) -> (res: usize)
    requires
        sdata <= edata,
        sbss <= ebss,
        (edata - sdata) + (ebss - sbss) <= usize::MAX,
    ensures
        res == (edata - sdata) + (ebss - sbss),
{
    (edata - sdata) + (ebss - sbss)
}

} // verus!
