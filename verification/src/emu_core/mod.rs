pub mod apu;
pub mod cpu;
pub mod error;
pub mod mmu;
pub mod ppu;
