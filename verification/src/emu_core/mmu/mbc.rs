use vstd::prelude::*;
use crate::emu_core::mmu::mbc1::MBC1;
use crate::emu_core::mmu::mbc5::MBC5;

verus! {

/// The ROM byte at `offset`, or 0xFF past the end of the image.
pub open spec fn rom_at(rom: Seq<u8>, offset: int) -> u8 {
    if 0 <= offset < rom.len() {
        rom[offset]
    } else {
        0xFF
    }
}

/// A cartridge memory bank controller.
pub trait MBCController {
    /// The controller's invariant.
    spec fn inv(&self) -> bool;

    /// The byte the CPU reads at `addr` (0x0000..=0x7FFF) from the ROM image.
    fn read(&self, addr: u16, rom: &[u8]) -> u8
        requires
            self.inv(),
    ;

    /// A write to the controller's registers.
    fn write(&mut self, addr: u16, value: u8)
        requires
            old(self).inv(),
        ensures
            final(self).inv(),
    ;

    /// The ROM offset that `addr` maps to.
    fn translate_rom_address(&self, addr: u16) -> u32
        requires
            self.inv(),
    ;

    /// The external RAM offset that `addr` maps to (at or above 0xA000).
    fn translate_ram_address(&self, addr: u16) -> u16
        requires
            self.inv(),
            addr >= 0xA000,
    ;

    /// The selected ROM bank (low byte).
    fn current_rom_bank(&self) -> u8
        requires
            self.inv(),
    ;
}

/// The controller of the inserted cartridge.
pub enum MbcController {
    Mbc1(MBC1),
    Mbc5(MBC5),
}

/// The controller that cartridge header byte 0x147 names, if the core has one.
pub open spec fn mbc_kind(cart_type: u8) -> Option<u8> {
    if 0x01 <= cart_type <= 0x03 {
        Some(1u8)
    } else if 0x19 <= cart_type <= 0x1E {
        Some(5u8)
    } else {
        None
    }
}

/// The controller for a cartridge type: MBC1 for 0x01..=0x03, MBC5 for 0x19..=0x1E, none
/// for ROM-only and the types the core does not emulate.
pub fn create_mbc(cart_type: u8) -> (r: Option<MbcController>)
    ensures
        mbc_kind(cart_type) == Some(1u8) <==> (r matches Some(MbcController::Mbc1(m)) && m.is_reset()),
        mbc_kind(cart_type) == Some(5u8) <==> (r matches Some(MbcController::Mbc5(m)) && m.is_reset()),
        mbc_kind(cart_type).is_none() <==> r.is_none(),
        r matches Some(c) ==> c.wf(),
{
    if 0x01 <= cart_type && cart_type <= 0x03 {
        Some(MbcController::Mbc1(MBC1::new()))
    } else if 0x19 <= cart_type && cart_type <= 0x1E {
        Some(MbcController::Mbc5(MBC5::new()))
    } else {
        None
    }
}

impl MbcController {
    /// The controller invariant.
    pub open spec fn wf(&self) -> bool {
        match self {
            MbcController::Mbc1(m) => m.wf(),
            MbcController::Mbc5(m) => m.wf(),
        }
    }

    /// The byte the CPU reads at `addr` through the controller.
    pub open spec fn read_spec(&self, addr: u16, rom: Seq<u8>) -> u8 {
        match self {
            MbcController::Mbc1(m) => m.read_spec(addr, rom),
            MbcController::Mbc5(m) => m.read_spec(addr, rom),
        }
    }

    /// The controller after a write to its registers.
    pub open spec fn after_write(&self, addr: u16, value: u8) -> MbcController {
        match self {
            MbcController::Mbc1(m) => MbcController::Mbc1(m.after_write(addr, value)),
            MbcController::Mbc5(m) => MbcController::Mbc5(m.after_write(addr, value)),
        }
    }

    /// The byte the CPU reads at `addr` through the controller.
    pub fn read(&self, addr: u16, rom: &[u8]) -> (r: u8)
        requires
            self.wf(),
        ensures
            r == self.read_spec(addr, rom@),
    {
        match self {
            MbcController::Mbc1(m) => MBCController::read(m, addr, rom),
            MbcController::Mbc5(m) => MBCController::read(m, addr, rom),
        }
    }

    /// A write to the controller's registers.
    pub fn write(&mut self, addr: u16, value: u8)
        requires
            old(self).wf(),
        ensures
            final(self).wf(),
            *final(self) == old(self).after_write(addr, value),
    {
        match self {
            MbcController::Mbc1(m) => {
                MBCController::write(m, addr, value);
            },
            MbcController::Mbc5(m) => {
                MBCController::write(m, addr, value);
            },
        }
    }
}

} // verus!
