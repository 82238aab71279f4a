use vstd::prelude::*;
use crate::emu_core::mmu::mbc::{MBCController, rom_at};

verus! {

/// Updating the ROM bank keeps it 9 bits wide; the RAM bank is 4 bits wide.
proof fn lemma_bank_bits(b: u16, value: u8)
    by (bit_vector)
    requires
        b < 0x200,
    ensures
        (b & 0x100) | (value as u16) < 0x200,
        (b & 0xFF) | (((value as u16) & 0x01) << 8u16) < 0x200,
        value & 0x0F < 16,
{
}

/// The MBC5 controller: 9-bit ROM bank, 4-bit RAM bank and 32 KiB of cartridge RAM.
#[derive(Clone)]
pub struct MBC5 {
    rom_bank: u16,
    ram_bank: u8,
    ram_enabled: bool,
    ram: Vec<u8>,
}

impl MBC5 {
    /// The controller invariant: 9-bit ROM bank, 4-bit RAM bank, 32 KiB of RAM.
    pub closed spec fn wf(&self) -> bool {
        self.rom_bank < 0x200 && self.ram_bank < 16 && self.ram@.len() == 0x8000
    }

    /// Whether the controller is in its power-on state (its RAM zeroed).
    pub closed spec fn is_reset(&self) -> bool {
        &&& self.rom_bank == 1 && self.ram_bank == 0 && !self.ram_enabled
        &&& self.ram@ == Seq::new(0x8000, |i: int| 0u8)
    }

    /// The selected ROM bank.
    pub closed spec fn rom_bank_spec(&self) -> u16 {
        self.rom_bank
    }

    /// The selected RAM bank.
    pub closed spec fn ram_bank_spec(&self) -> u8 {
        self.ram_bank
    }

    /// Whether cartridge RAM is enabled.
    pub closed spec fn ram_enabled_spec(&self) -> bool {
        self.ram_enabled
    }

    /// The cartridge RAM.
    pub closed spec fn ram_spec(&self) -> Seq<u8> {
        self.ram@
    }

    /// The byte the CPU reads at `addr`: bank 0 below 0x4000, the selected bank up to
    /// 0x7FFF, 0xFF elsewhere and past the image.
    pub closed spec fn read_spec(&self, addr: u16, rom: Seq<u8>) -> u8 {
        if addr < 0x4000 {
            rom_at(rom, addr as int)
        } else if addr < 0x8000 {
            rom_at(rom, self.rom_bank * 0x4000 + (addr - 0x4000))
        } else {
            0xFF
        }
    }

    /// The controller after a register write through the bus (bank 0 reads as bank 1).
    pub closed spec fn after_write(&self, addr: u16, value: u8) -> MBC5 {
        if addr <= 0x1FFF {
            MBC5 { ram_enabled: value & 0x0F == 0x0A, ..*self }
        } else if addr <= 0x2FFF {
            let b = (self.rom_bank & 0x100) | value as u16;
            MBC5 {
                rom_bank: if b == 0 {
                    1
                } else {
                    b
                },
                ..*self
            }
        } else if addr <= 0x3FFF {
            let b = (self.rom_bank & 0xFF) | (((value as u16) & 0x01) << 8u16);
            MBC5 {
                rom_bank: if b == 0 {
                    1
                } else {
                    b
                },
                ..*self
            }
        } else if addr <= 0x5FFF {
            MBC5 { ram_bank: value & 0x0F, ..*self }
        } else {
            *self
        }
    }

    /// A controller in its power-on state: ROM bank 1, RAM bank 0, RAM disabled and zeroed.
    pub fn new() -> (r: MBC5)
        ensures
            r.wf(),
            r.is_reset(),
    {
        let ram = vec![0u8; 0x8000];
        assert(ram@ =~= Seq::new(0x8000, |i: int| 0u8));
        MBC5 { rom_bank: 1, ram_bank: 0, ram_enabled: false, ram }
    }

    /// Writes cartridge RAM at `address` (0xA000..) in the selected bank, if RAM is enabled.
    pub fn write_ram(&mut self, address: u16, value: u8)
        requires
            old(self).wf(),
            address >= 0xA000,
        ensures
            final(self).wf(),
            final(self).rom_bank_spec() == old(self).rom_bank_spec(),
            final(self).ram_bank_spec() == old(self).ram_bank_spec(),
            final(self).ram_enabled_spec() == old(self).ram_enabled_spec(),
            ({
                let a = old(self).ram_bank_spec() * 0x2000 + (address - 0xA000);
                final(self).ram_spec() == (if old(self).ram_enabled_spec() && a < 0x8000 {
                    old(self).ram_spec().update(a, value)
                } else {
                    old(self).ram_spec()
                })
            }),
    {
        if !self.ram_enabled {
            return;
        }
        let ram_addr = (self.ram_bank as usize) * 0x2000 + (address as usize - 0xA000);
        if ram_addr < self.ram.len() {
            self.ram.set(ram_addr, value);
        }
    }

    /// A write to the control registers: RAM enable, ROM bank low 8 bits, ROM bank bit 8,
    /// RAM bank (here bank 0 stays bank 0).
    pub fn write(&mut self, address: u16, value: u8)
        requires
            old(self).wf(),
        ensures
            final(self).wf(),
            final(self).ram_spec() == old(self).ram_spec(),
            final(self).ram_enabled_spec() == (if address <= 0x1FFF {
                value & 0x0F == 0x0A
            } else {
                old(self).ram_enabled_spec()
            }),
            final(self).rom_bank_spec() == (if 0x2000 <= address <= 0x2FFF {
                (old(self).rom_bank_spec() & 0x100) | value as u16
            } else if 0x3000 <= address <= 0x3FFF {
                (old(self).rom_bank_spec() & 0xFF) | (((value as u16) & 0x01) << 8u16)
            } else {
                old(self).rom_bank_spec()
            }),
            final(self).ram_bank_spec() == (if 0x4000 <= address <= 0x5FFF {
                value & 0x0F
            } else {
                old(self).ram_bank_spec()
            }),
    {
        let b = self.rom_bank;
        proof {
            lemma_bank_bits(b, value);
            crate::bits::lemma_u8_bits(value);
        }
        if address <= 0x1FFF {
            self.ram_enabled = (value & 0x0F) == 0x0A;
        } else if address <= 0x2FFF {
            self.rom_bank = (self.rom_bank & 0x100) | value as u16;
        } else if address <= 0x3FFF {
            self.rom_bank = (self.rom_bank & 0xFF) | (((value as u16) & 0x01) << 8);
        } else if address <= 0x5FFF {
            self.ram_bank = value & 0x0F;
        }
    }

    /// The selected ROM bank.
    pub fn get_rom_bank(&self) -> (r: u16)
        ensures
            r == self.rom_bank_spec(),
    {
        self.rom_bank
    }

    /// The selected RAM bank.
    pub fn get_ram_bank(&self) -> (r: u8)
        ensures
            r == self.ram_bank_spec(),
    {
        self.ram_bank
    }

    /// Whether cartridge RAM is enabled.
    pub fn is_ram_enabled(&self) -> (r: bool)
        ensures
            r == self.ram_enabled_spec(),
    {
        self.ram_enabled
    }
}

impl MBCController for MBC5 {
    open spec fn inv(&self) -> bool {
        self.wf()
    }

    fn read(&self, addr: u16, rom: &[u8]) -> (r: u8)
        ensures
            r == self.read_spec(addr, rom@),
    {
        if addr < 0x4000 {
            if addr as usize >= rom.len() {
                0xFF
            } else {
                rom[addr as usize]
            }
        } else if addr < 0x8000 {
            let bank = self.rom_bank;
            let offset = (bank as usize) * 0x4000 + (addr as usize - 0x4000);
            if offset >= rom.len() {
                0xFF
            } else {
                rom[offset]
            }
        } else {
            0xFF
        }
    }

    fn write(&mut self, addr: u16, value: u8)
        ensures
            *final(self) == old(self).after_write(addr, value),
    {
        let b = self.rom_bank;
        proof {
            lemma_bank_bits(b, value);
            crate::bits::lemma_u8_bits(value);
        }
        if addr <= 0x1FFF {
            self.ram_enabled = (value & 0x0F) == 0x0A;
        } else if addr <= 0x2FFF {
            self.rom_bank = (self.rom_bank & 0x100) | value as u16;
            if self.rom_bank == 0 {
                self.rom_bank = 1;
            }
        } else if addr <= 0x3FFF {
            self.rom_bank = (self.rom_bank & 0xFF) | (((value as u16) & 0x01) << 8);
            if self.rom_bank == 0 {
                self.rom_bank = 1;
            }
        } else if addr <= 0x5FFF {
            self.ram_bank = value & 0x0F;
        }
    }

    fn translate_rom_address(&self, addr: u16) -> (r: u32)
        ensures
            r == (if 0x4000 <= addr < 0x8000 {
                self.rom_bank_spec() * 0x4000 + (addr - 0x4000)
            } else {
                addr as int
            }),
    {
        if addr < 0x4000 {
            addr as u32
        } else if addr < 0x8000 {
            let bank = self.rom_bank;
            ((bank as usize) * 0x4000 + (addr as usize - 0x4000)) as u32
        } else {
            addr as u32
        }
    }

    fn translate_ram_address(&self, addr: u16) -> (r: u16)
        ensures
            r == ((self.ram_bank_spec() * 0x2000 + (addr - 0xA000)) % 0x10000) as u16,
    {
        let x: u32 = (self.ram_bank as u32) * 0x2000 + (addr as u32 - 0xA000);
        assert(x as u16 == x % 0x10000) by (bit_vector);
        x as u16
    }

    fn current_rom_bank(&self) -> (r: u8)
        ensures
            r == self.rom_bank_spec() % 256,
    {
        let b = self.rom_bank;
        proof { crate::bits::lemma_u16_bits(b); }
        b as u8
    }
}

} // verus!
