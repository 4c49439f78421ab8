# ch32v003_ili9341

Driver logic for a CH32V003 microcontroller driving an ILI9341 TFT panel
over SPI1 with DMA, verified with Verus.

The library never touches a register. Each operation — pin toggles, SPI
frames, DMA bursts, the clock and timer set-up, the panel bring-up, solid
fills, glyph rendering, the tile-by-tile demo frame — returns a *register
program*: a list of `hw::RegOp` (write, read-modify-write, wait on a mask,
bounded poll, DMA source address, busy-wait) plus the pixel pool its DMA
bursts read. The contracts state each program exactly, and proof functions
state what holds across them (pixels streamed per fill, tile sweep order,
glyph fallback, backlight clamping).

Layout:

- `src/regs.rs`, `src/pins.rs` — register map and board pins.
- `src/hw.rs` — the `RegOp` model and the programs of the peripherals.
- `src/rcc.rs` — 48 MHz clock from the HSE crystal.
- `src/ili9341/` — panel commands, bring-up, windows, fills, pixel writes,
  dirty-tile map.
- `src/font/` — bitmap fonts (`mod.rs`) and the fixed 6×8 box font (`fixed.rs`).
- `src/demo.rs` — the tearing-effect interrupt state and one pass of the main loop.
- `app/` — the executor that performs register programs with volatile
  accesses, a host build that prints the programs, and a `riscv32` entry
  point.

Limits: the library is built on `std`, and its programs are heap-allocated
vectors (the bring-up alone is several hundred operations). Neither fits the
CH32V003's 16 KB flash and 2 KB SRAM without an allocator, so the `riscv32`
entry point in `app/` shows how the programs are run but does not build for
the chip as it stands.
