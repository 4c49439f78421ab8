//! ILI9341 command bytes (ILITEK datasheet).

use vstd::prelude::*;

verus! {

pub const SWRESET: u8 = 0x01;
pub const SLEEP_OUT: u8 = 0x11;
pub const GAMMA_SET: u8 = 0x26;
pub const DISPLAY_ON: u8 = 0x29;
pub const COLUMN_ADDR: u8 = 0x2A;
pub const PAGE_ADDR: u8 = 0x2B;
pub const GRAM: u8 = 0x2C;
pub const WRITE_CONTINUE: u8 = 0x3C;
pub const TE_ON: u8 = 0x35;
pub const MAC: u8 = 0x36;
pub const PIXEL_FORMAT: u8 = 0x3A;
pub const POWERA: u8 = 0xCB;
pub const POWERB: u8 = 0xCF;
pub const DTCA: u8 = 0xE8;
pub const DTCB: u8 = 0xEA;
pub const POWER_SEQ: u8 = 0xED;
pub const PRC: u8 = 0xF7;
pub const POWER1: u8 = 0xC0;
pub const POWER2: u8 = 0xC1;
pub const VCOM1: u8 = 0xC5;
pub const VCOM2: u8 = 0xC7;
pub const FRC: u8 = 0xB1;
pub const DFC: u8 = 0xB6;
pub const ENABLE_3G: u8 = 0xF2;
pub const PGAMMA: u8 = 0xE0;
pub const NGAMMA: u8 = 0xE1;

} // verus!
