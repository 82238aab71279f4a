use vstd::prelude::*;

verus! {

/// The LCD control register's address.
pub const LCDC: u16 = 0xFF40;

/// The LCD status register's address.
pub const STAT: u16 = 0xFF41;

/// The background scroll Y register's address.
pub const SCY: u16 = 0xFF42;

/// The background scroll X register's address.
pub const SCX: u16 = 0xFF43;

/// The current scanline register's address.
pub const LY: u16 = 0xFF44;

/// The scanline compare register's address.
pub const LYC: u16 = 0xFF45;

/// The OAM DMA register's address.
pub const DMA: u16 = 0xFF46;

/// The background palette register's address.
pub const BGP: u16 = 0xFF47;

/// The first object palette register's address.
pub const OBP0: u16 = 0xFF48;

/// The second object palette register's address.
pub const OBP1: u16 = 0xFF49;

/// The window Y register's address.
pub const WY: u16 = 0xFF4A;

/// The window X register's address.
pub const WX: u16 = 0xFF4B;

/// LCDC bit: display on.
pub const LCDC_DISPLAY_ENABLE: u8 = 0x80;

/// LCDC bit: window tile map at 0x9C00.
pub const LCDC_WINDOW_TILE_MAP: u8 = 0x40;

/// LCDC bit: window on.
pub const LCDC_WINDOW_ENABLE: u8 = 0x20;

/// LCDC bit: background tile data at 0x8000 (unsigned indices).
pub const LCDC_BG_TILE_DATA: u8 = 0x10;

/// LCDC bit: background tile map at 0x9C00.
pub const LCDC_BG_TILE_MAP: u8 = 0x08;

/// LCDC bit: 8x16 objects.
pub const LCDC_OBJ_SIZE: u8 = 0x04;

/// LCDC bit: objects on.
pub const LCDC_OBJ_ENABLE: u8 = 0x02;

/// LCDC bit: background on.
pub const LCDC_BG_ENABLE: u8 = 0x01;

/// STAT bit: LY=LYC interrupt.
pub const STAT_LYC_INTERRUPT: u8 = 0x40;

/// STAT bit: OAM-scan interrupt.
pub const STAT_OAM_INTERRUPT: u8 = 0x20;

/// STAT bit: V-Blank interrupt.
pub const STAT_VBLANK_INTERRUPT: u8 = 0x10;

/// STAT bit: H-Blank interrupt.
pub const STAT_HBLANK_INTERRUPT: u8 = 0x08;

/// STAT bit: LY equals LYC.
pub const STAT_LYC_EQUAL: u8 = 0x04;

/// STAT bits of the PPU mode.
pub const STAT_MODE_BITS: u8 = 0x03;

/// LCDC after the boot ROM.
pub const DEFAULT_LCDC: u8 = 0x91;

/// STAT after the boot ROM.
pub const DEFAULT_STAT: u8 = 0x00;

/// SCY after the boot ROM.
pub const DEFAULT_SCY: u8 = 0x00;

/// SCX after the boot ROM.
pub const DEFAULT_SCX: u8 = 0x00;

/// LY after the boot ROM.
pub const DEFAULT_LY: u8 = 0x00;

/// The LCD registers.
#[derive(Clone, Copy)]
pub struct LCDRegisters {
    pub lcdc: u8,
    pub stat: u8,
    pub scy: u8,
    pub scx: u8,
    pub ly: u8,
    pub lyc: u8,
    pub bgp: u8,
    pub obp0: u8,
    pub obp1: u8,
    pub wy: u8,
    pub wx: u8,
}

impl LCDRegisters {
    /// All registers zero.
    pub fn new() -> (r: LCDRegisters)
        ensures
            r == (LCDRegisters {
                lcdc: 0,
                stat: 0,
                scy: 0,
                scx: 0,
                ly: 0,
                lyc: 0,
                bgp: 0,
                obp0: 0,
                obp1: 0,
                wy: 0,
                wx: 0,
            }),
    {
        LCDRegisters {
            lcdc: 0,
            stat: 0,
            scy: 0,
            scx: 0,
            ly: 0,
            lyc: 0,
            bgp: 0,
            obp0: 0,
            obp1: 0,
            wy: 0,
            wx: 0,
        }
    }
}

} // verus!
