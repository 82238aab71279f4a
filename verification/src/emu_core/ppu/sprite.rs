use vstd::prelude::*;
use crate::emu_core::ppu::ppu::PPU;

verus! {

/// The attribute byte of a sprite: priority, Y flip, X flip and palette in bits 7..4.
#[derive(Clone, Copy, Debug)]
pub struct SpriteFlags(u8);

impl SpriteFlags {
    /// The attribute byte.
    pub closed spec fn bits(&self) -> u8 {
        self.0
    }

    /// Flags from an OAM attribute byte.
    pub fn new(value: u8) -> (r: SpriteFlags)
        ensures
            r.bits() == value,
    {
        SpriteFlags(value)
    }

    /// Bit 7: the sprite is drawn behind nonzero background colours.
    pub fn priority(&self) -> (r: bool)
        ensures
            r == (self.bits() & 0x80 != 0),
    {
        (self.0 & 0x80) != 0
    }

    /// Bit 6: the sprite is flipped vertically.
    pub fn y_flip(&self) -> (r: bool)
        ensures
            r == (self.bits() & 0x40 != 0),
    {
        (self.0 & 0x40) != 0
    }

    /// Bit 5: the sprite is flipped horizontally.
    pub fn x_flip(&self) -> (r: bool)
        ensures
            r == (self.bits() & 0x20 != 0),
    {
        (self.0 & 0x20) != 0
    }

    /// Bit 4: the sprite uses OBP1 rather than OBP0.
    pub fn palette(&self) -> (r: bool)
        ensures
            r == (self.bits() & 0x10 != 0),
    {
        (self.0 & 0x10) != 0
    }
}

/// An OAM entry: position, tile number and attribute flags.
#[derive(Clone, Debug)]
pub struct Sprite {
    pub y: u8,
    pub x: u8,
    pub tile: u8,
    pub flags: SpriteFlags,
}

impl Sprite {
    /// A sprite from the four bytes of its OAM entry.
    pub fn new(y: u8, x: u8, tile: u8, flags: u8) -> (r: Sprite)
        ensures
            r.y == y && r.x == x && r.tile == tile && r.flags.bits() == flags,
    {
        Sprite { y, x, tile, flags: SpriteFlags::new(flags) }
    }
}

/// Sprite rendering into the PPU's frame: sprites are drawn by `PPU::tick`, so this leaves
/// the PPU unchanged.
pub fn render_sprites(ppu: &mut PPU)
    ensures
        *final(ppu) == *old(ppu),
{
}

} // verus!
