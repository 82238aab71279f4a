use vstd::prelude::*;
use crate::emu_core::mmu::mbc::{MBCController, rom_at};

verus! {

/// The MBC1 controller: 5-bit ROM bank, 2-bit RAM bank, banking mode.
pub struct MBC1 {
    ram_enabled: bool,
    rom_bank: usize,
    ram_bank: usize,
    mode: bool,
}

impl MBC1 {
    /// The controller invariant: the ROM bank is 1..=31 and the RAM bank 0..=3.
    pub closed spec fn wf(&self) -> bool {
        1 <= self.rom_bank <= 31 && self.ram_bank <= 3
    }

    /// Whether the controller is in its power-on state.
    pub closed spec fn is_reset(&self) -> bool {
        !self.ram_enabled && self.rom_bank == 1 && self.ram_bank == 0 && !self.mode
    }

    /// The selected ROM bank.
    pub closed spec fn rom_bank_spec(&self) -> nat {
        self.rom_bank as nat
    }

    /// The selected RAM bank.
    pub closed spec fn ram_bank_spec(&self) -> nat {
        self.ram_bank as nat
    }

    /// Whether cartridge RAM is enabled.
    pub closed spec fn ram_enabled_spec(&self) -> bool {
        self.ram_enabled
    }

    /// Whether RAM banking mode is selected.
    pub closed spec fn mode_spec(&self) -> bool {
        self.mode
    }

    /// The byte the CPU reads at `addr`: bank 0 below 0x4000, the selected bank up to
    /// 0x7FFF, 0xFF elsewhere and past the image.
    pub closed spec fn read_spec(&self, addr: u16, rom: Seq<u8>) -> u8 {
        if addr < 0x4000 {
            rom_at(rom, addr as int)
        } else if addr < 0x8000 {
            rom_at(rom, self.rom_bank * 0x4000 + (addr - 0x4000))
        } else {
            0xFF
        }
    }

    /// The controller after a register write.
    pub closed spec fn after_write(&self, addr: u16, value: u8) -> MBC1 {
        if addr <= 0x1FFF {
            MBC1 { ram_enabled: value & 0x0F == 0x0A, ..*self }
        } else if addr <= 0x3FFF {
            MBC1 {
                rom_bank: if value & 0x1F == 0 {
                    1
                } else {
                    (value & 0x1F) as usize
                },
                ..*self
            }
        } else if addr <= 0x5FFF {
            MBC1 { ram_bank: (value & 0x03) as usize, ..*self }
        } else if addr <= 0x7FFF {
            MBC1 { mode: value & 0x01 != 0, ..*self }
        } else {
            *self
        }
    }

    /// A controller in its power-on state: ROM bank 1, RAM disabled, ROM banking mode.
    pub fn new() -> (r: MBC1)
        ensures
            r.wf(),
            r.is_reset(),
    {
        MBC1 { ram_enabled: false, rom_bank: 1, ram_bank: 0, mode: false }
    }
}

impl MBCController for MBC1 {
    open spec fn inv(&self) -> bool {
        self.wf()
    }

    fn read(&self, addr: u16, rom: &[u8]) -> (r: u8)
        ensures
            r == self.read_spec(addr, rom@),
    {
        if addr < 0x4000 {
            if addr as usize >= rom.len() {
                0xFF
            } else {
                rom[addr as usize]
            }
        } else if addr < 0x8000 {
            let offset = self.rom_bank * 0x4000 + (addr as usize - 0x4000);
            if offset >= rom.len() {
                0xFF
            } else {
                rom[offset]
            }
        } else {
            0xFF
        }
    }

    fn write(&mut self, addr: u16, value: u8)
        ensures
            *final(self) == old(self).after_write(addr, value),
    {
        if addr <= 0x1FFF {
            self.ram_enabled = value & 0x0F == 0x0A;
        } else if addr <= 0x3FFF {
            let bank = value & 0x1F;
            let new_bank: usize = if bank == 0 {
                1
            } else {
                bank as usize
            };
            proof {
                crate::bits::lemma_u8_bits(value);
            }
            self.rom_bank = new_bank;
        } else if addr <= 0x5FFF {
            proof {
                crate::bits::lemma_u8_bits(value);
            }
            self.ram_bank = (value & 0x03) as usize;
        } else if addr <= 0x7FFF {
            self.mode = value & 0x01 != 0;
        }
    }

    fn translate_rom_address(&self, addr: u16) -> (r: u32)
        ensures
            r == (if 0x4000 <= addr <= 0x7FFF {
                self.rom_bank_spec() * 0x4000 + (addr - 0x4000)
            } else {
                addr as int
            }),
    {
        if 0x4000 <= addr && addr <= 0x7FFF {
            ((self.rom_bank * 0x4000) + (addr as usize - 0x4000)) as u32
        } else {
            addr as u32
        }
    }

    fn translate_ram_address(&self, addr: u16) -> (r: u16)
        ensures
            r == (if self.ram_enabled_spec() && self.mode_spec() {
                ((self.ram_bank_spec() * 0x2000 + addr) % 0x10000) as u16
            } else {
                addr
            }),
    {
        if !self.ram_enabled {
            return addr;
        }
        if self.mode {
            let x: usize = (self.ram_bank * 0x2000) + (addr as usize);
            assert(x as u16 == x % 0x10000) by (bit_vector);
            x as u16
        } else {
            addr
        }
    }

    fn current_rom_bank(&self) -> (r: u8)
        ensures
            r == self.rom_bank_spec(),
    {
        self.rom_bank as u8
    }
}

} // verus!
