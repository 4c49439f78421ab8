//! CH32V003 + ILI9341 display driver logic.
//!
//! Every hardware access of the driver is described as a [`hw::RegOp`]: a
//! register write, a read-modify-write, or a bounded wait. The functions of
//! this library compute those programs (and the pixel data they stream) and
//! prove what they contain; a small executor outside the library performs
//! them with volatile accesses.

pub mod regs;
pub mod pins;
pub mod hw;
pub mod rcc;
pub mod ili9341;
pub mod font;
pub mod demo;
