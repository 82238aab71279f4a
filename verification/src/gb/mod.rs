pub mod bus;
pub mod bus_apu;
pub mod bus_io;
pub mod bus_mem;
pub mod cpu;
pub mod debug;
pub mod instructions;
pub mod mbc;
pub mod ram;
pub mod registers;
pub mod types;
