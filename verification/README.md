# gbemu

A Game Boy (DMG) emulator library whose logic is specified and proved with Verus.

Layout of `src/`:

- `gb/` — the emulator proper: the Sharp LR35902 CPU (`cpu.rs`, `instructions.rs`,
  `registers.rs`), the memory bus with timer, OAM DMA, PPU and cartridge controllers
  (`bus.rs`, `mbc.rs`, `ram.rs`), the bus split into memory, I/O and sound sides
  (`bus_mem.rs`, `bus_io.rs`, `bus_apu.rs`), and an opcode trace (`debug.rs`).
- `emu_core/` — a second, modular core: CPU registers, flags and instruction groups
  (`cpu/`), the memory map (`mmu/`), the PPU (`ppu/`), a simple APU (`apu.rs`) and errors.
- `hardware/apu.rs` — the four-channel sound unit: registers, length counters, sweep,
  envelopes, noise LFSR and the mixer.
- `gameboy.rs` — interrupt priorities and per-game interrupt configuration, PPU and timer
  timing checks.
- `joypad.rs`, `input.rs`, `interface/` — key state with debouncing, and the video interface.

Public functions state their effect in `requires`/`ensures`; functions named `law_*` are
proved properties that relate several operations. Some effects are stated only in part: of the
frame buffer, `Bus::step` and `BusIO::step` state that every row they change is a correctly
drawn line, not which rows they draw; STAT requests on PPU mode changes are stated only as
absent when no STAT source is enabled; and `Bus::render_scanline` states its pixels only for a
line without recorded mid-line register changes. The gb CPU's instruction contracts speak of the accesses
recorded in its trace; `law_bus_log_run` ties every recorded access to the bus it was made on.

`app/` is a headless runner: it loads a ROM, runs frames at the Game Boy frame rate and prints
what the game sends over the serial port. Frame pacing, floating-point audio mixing and the
process-wide debug snapshots live there.
