pub mod apu;
