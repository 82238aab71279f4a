//! A Game Boy (DMG) emulator core: CPU, bus, memory bank controllers, PPU and APU state.
mod bits;
pub mod emu_core;
pub mod gameboy;
pub mod gb;
pub mod hardware;
pub mod input;
pub mod interface;
pub mod joypad;
