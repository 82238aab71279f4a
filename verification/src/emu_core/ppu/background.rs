use vstd::prelude::*;
use crate::emu_core::mmu::mmu::MMU;
use crate::emu_core::ppu::ppu::PPU;

verus! {

/// Background tile data (0x1800 bytes) and tile map (0x800 bytes) of a scanline renderer.
#[derive(Debug)]
pub struct BackgroundRenderer {
    tile_data: Vec<u8>,
    tile_map: Vec<u8>,
}

impl BackgroundRenderer {
    /// Whether the tile data and map have their sizes.
    pub closed spec fn wf(&self) -> bool {
        self.tile_data@.len() == 0x1800 && self.tile_map@.len() == 0x800
    }

    /// A renderer with zeroed tile data and map.
    pub fn new() -> (r: BackgroundRenderer)
        ensures
            r.wf(),
    {
        BackgroundRenderer { tile_data: vec![0u8; 0x1800], tile_map: vec![0u8; 0x800] }
    }

    /// The background colour indices of scanline `line`: this renderer leaves all 160 at
    /// colour 0.
    pub fn render_line(&self, line: u8, mmu: &MMU) -> (r: Vec<u8>)
        ensures
            r@ == Seq::new(160, |i: int| 0u8),
    {
        let result = vec![0u8; 160];
        proof {
            assert(result@ =~= Seq::new(160, |i: int| 0u8));
        }
        result
    }
}

/// Background rendering into the PPU's frame: the frame is drawn whole by `PPU::tick`, so
/// this leaves the PPU unchanged.
pub fn render_background(ppu: &mut PPU)
    ensures
        *final(ppu) == *old(ppu),
{
}

} // verus!
