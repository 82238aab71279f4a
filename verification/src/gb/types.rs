use vstd::prelude::*;

verus! {

/// A PPU register whose mid-scanline change is replayed by the renderer.
#[derive(Clone, Copy, PartialEq, Eq, Debug)]
pub enum RegKind {
    Scx,
    Wx,
    Bgp,
}

/// A mid-scanline register write: from pixel column `x` on, `kind` holds `val`.
#[derive(Clone, Copy, Debug)]
pub struct RegEvent {
    pub x: u16,
    pub kind: RegKind,
    pub val: u8,
}

/// The cartridge memory bank controller family.
#[derive(Clone, Copy, PartialEq, Eq, Debug)]
pub enum MbcType {
    RomOnly,
    Mbc1,
    Mbc3,
    Mbc5,
}

} // verus!
