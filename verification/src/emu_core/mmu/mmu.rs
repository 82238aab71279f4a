use vstd::prelude::*;
use crate::emu_core::error::Error;
use crate::emu_core::mmu::mbc::{MbcController, create_mbc, mbc_kind, rom_at};
use crate::emu_core::ppu::vram::VRAM;

verus! {

/// The LCD registers as the memory map holds them.
#[derive(Clone, Copy)]
pub struct LcdRegisters {
    pub lcdc: u8,
    pub stat: u8,
    pub scy: u8,
    pub scx: u8,
    pub ly: u8,
    pub lyc: u8,
    pub dma: u8,
    pub bgp: u8,
    pub obp0: u8,
    pub obp1: u8,
    pub wy: u8,
    pub wx: u8,
}

impl LcdRegisters {
    /// All registers zero.
    pub fn new() -> (r: LcdRegisters)
        ensures
            r == (LcdRegisters {
                lcdc: 0,
                stat: 0,
                scy: 0,
                scx: 0,
                ly: 0,
                lyc: 0,
                dma: 0,
                bgp: 0,
                obp0: 0,
                obp1: 0,
                wy: 0,
                wx: 0,
            }),
    {
        LcdRegisters {
            lcdc: 0,
            stat: 0,
            scy: 0,
            scx: 0,
            ly: 0,
            lyc: 0,
            dma: 0,
            bgp: 0,
            obp0: 0,
            obp1: 0,
            wy: 0,
            wx: 0,
        }
    }
}

/// The LCD register at `addr` (0xFF40..=0xFF4B).
pub open spec fn lcd_read(l: LcdRegisters, addr: u16) -> u8 {
    if addr == 0xFF40 {
        l.lcdc
    } else if addr == 0xFF41 {
        l.stat
    } else if addr == 0xFF42 {
        l.scy
    } else if addr == 0xFF43 {
        l.scx
    } else if addr == 0xFF44 {
        l.ly
    } else if addr == 0xFF45 {
        l.lyc
    } else if addr == 0xFF46 {
        l.dma
    } else if addr == 0xFF47 {
        l.bgp
    } else if addr == 0xFF48 {
        l.obp0
    } else if addr == 0xFF49 {
        l.obp1
    } else if addr == 0xFF4A {
        l.wy
    } else {
        l.wx
    }
}

/// The LCD registers after a write of `v` to `addr` (writing LY resets it).
pub open spec fn lcd_write(l: LcdRegisters, addr: u16, v: u8) -> LcdRegisters {
    if addr == 0xFF40 {
        LcdRegisters { lcdc: v, ..l }
    } else if addr == 0xFF41 {
        LcdRegisters { stat: v, ..l }
    } else if addr == 0xFF42 {
        LcdRegisters { scy: v, ..l }
    } else if addr == 0xFF43 {
        LcdRegisters { scx: v, ..l }
    } else if addr == 0xFF44 {
        LcdRegisters { ly: 0, ..l }
    } else if addr == 0xFF45 {
        LcdRegisters { lyc: v, ..l }
    } else if addr == 0xFF46 {
        LcdRegisters { dma: v, ..l }
    } else if addr == 0xFF47 {
        LcdRegisters { bgp: v, ..l }
    } else if addr == 0xFF48 {
        LcdRegisters { obp0: v, ..l }
    } else if addr == 0xFF49 {
        LcdRegisters { obp1: v, ..l }
    } else if addr == 0xFF4A {
        LcdRegisters { wy: v, ..l }
    } else if addr == 0xFF4B {
        LcdRegisters { wx: v, ..l }
    } else {
        l
    }
}

/// The byte an I/O register (0xFF00..=0xFF7F) holds after a write of `v`.
pub open spec fn io_value(addr: u16, v: u8) -> u8 {
    if addr == 0xFF00 {
        v & 0x30
    } else if addr == 0xFF04 || addr == 0xFF44 {
        0
    } else if addr == 0xFF07 || addr == 0xFF70 {
        v & 0x07
    } else if addr == 0xFF0F {
        v & 0x1F
    } else if addr == 0xFF4D || addr == 0xFF4F {
        v & 0x01
    } else {
        v
    }
}

/// The timer period in cycles that TAC's clock select (bits 1..0) picks.
pub open spec fn tac_period(tac: u8) -> u32 {
    let k = tac & 0x03;
    if k == 0 {
        1024
    } else if k == 1 {
        16
    } else if k == 2 {
        64
    } else {
        256
    }
}

/// The I/O registers after the timer ticks: DIV counts once for every 256 cycles the cycle
/// counter holds; with the timer on (TAC bit 2), TIMA counts when the remaining count is a
/// multiple of the period, and on overflow reloads TMA and requests the timer interrupt.
pub open spec fn timer_io(io: Seq<u8>, t0: int) -> Seq<u8> {
    let io1 = io.update(0x04, ((io[0x04] + t0 / 256) % 256) as u8);
    let t1 = t0 % 256;
    let tac = io1[0x07];
    if tac & 0x04 != 0 && t1 % (tac_period(tac) as int) == 0 {
        if io1[0x05] == 0xFF {
            io1.update(0x05, io1[0x06]).update(0x0F, io1[0x0F] | 0x04)
        } else {
            io1.update(0x05, (io1[0x05] + 1) as u8)
        }
    } else {
        io1
    }
}

/// The memory management unit of the emulator core: the Game Boy memory map.
pub struct MMU {
    pub eram: Vec<u8>,
    pub memory: Vec<u8>,
    pub vram: VRAM,
    pub oam: Vec<u8>,
    pub mbc: Option<MbcController>,
    pub rom: Vec<u8>,
    pub io: Vec<u8>,
    pub hram: Vec<u8>,
    pub ie: u8,
    pub lcd_registers: LcdRegisters,
    pub timer_cycles: u32,
}

/// Whether the controller (if any) handles `addr`: the ROM area and cartridge RAM.
pub open spec fn mbc_takes(m: MMU, addr: u16) -> bool {
    m.mbc.is_some() && (addr <= 0x7FFF || 0xA000 <= addr <= 0xBFFF)
}

/// Whether a write to `addr` lands in the flat memory array.
pub open spec fn hits_memory(m: MMU, addr: u16) -> bool {
    &&& !mbc_takes(m, addr)
    &&& !(0xA000 <= addr <= 0xBFFF)
    &&& !(0x8000 <= addr <= 0x9FFF)
    &&& !(0xFE00 <= addr <= 0xFE9F)
    &&& addr < 0xFF00
}

/// The effect of writing `v` to `addr`: `n` is `o` after the write.
pub open spec fn write_rel(o: MMU, n: MMU, addr: u16, v: u8) -> bool {
    let takes = mbc_takes(o, addr);
    &&& n.wf()
    &&& n.rom == o.rom && n.timer_cycles == o.timer_cycles
    &&& n.mbc == (if takes {
        Some(o.mbc.unwrap().after_write(addr, v))
    } else {
        o.mbc
    })
    &&& n.eram@ == (if !takes && 0xA000 <= addr <= 0xBFFF {
        o.eram@.update(addr - 0xA000, v)
    } else {
        o.eram@
    })
    &&& n.oam@ == (if addr == 0xFF46 {
        Seq::new(0xA0, |i: int| o.read_spec((v as int * 256 + i) as u16))
    } else if 0xFE00 <= addr <= 0xFE9F {
        o.oam@.update(addr - 0xFE00, v)
    } else {
        o.oam@
    })
    &&& n.vram.data@ == (if 0x8000 <= addr <= 0x9FFF {
        o.vram.data@.update(addr - 0x8000, v)
    } else {
        o.vram.data@
    })
    &&& n.io@ == (if 0xFF00 <= addr <= 0xFF7F {
        o.io@.update(addr - 0xFF00, io_value(addr, v))
    } else {
        o.io@
    })
    &&& n.lcd_registers == lcd_write(o.lcd_registers, addr, v)
    &&& n.hram@ == (if 0xFF80 <= addr <= 0xFFFE {
        o.hram@.update(addr - 0xFF80, v)
    } else {
        o.hram@
    })
    &&& n.ie == (if addr == 0xFFFF {
        v
    } else {
        o.ie
    })
    &&& n.memory@ == (if hits_memory(o, addr) {
        o.memory@.update(addr as int, v)
    } else {
        o.memory@
    })
}

/// What the CPU writes to VRAM (0x8000..=0x9FFF), work RAM (0xC000..=0xFDFF) or high RAM
/// (0xFF80..=0xFFFE) through the memory map it reads back, and every other such byte keeps its
/// value.
pub proof fn law_mmu_read_after_write(o: MMU, n: MMU, addr: u16, other: u16, v: u8)
    requires
        o.wf(),
        write_rel(o, n, addr, v),
        (0x8000 <= addr <= 0x9FFF) || (0xC000 <= addr <= 0xFDFF) || (0xFF80 <= addr <= 0xFFFE),
        (0x8000 <= other <= 0x9FFF) || (0xC000 <= other <= 0xFDFF) || (0xFF80 <= other <= 0xFFFE),
    ensures
        n.read_spec(addr) == v,
        other != addr ==> n.read_spec(other) == o.read_spec(other),
{
}

impl MMU {
    /// The sizes of the memory regions, and a well-formed controller.
    pub open spec fn wf(&self) -> bool {
        &&& self.eram@.len() == 0x2000
        &&& self.memory@.len() == 0x10000
        &&& self.vram.wf()
        &&& self.oam@.len() == 0xA0
        &&& self.io@.len() == 0x80
        &&& self.hram@.len() == 0x7F
        &&& (self.mbc matches Some(c) ==> c.wf())
    }

    /// The byte the CPU reads at `addr`.
    pub open spec fn read_spec(&self, addr: u16) -> u8 {
        if addr <= 0x7FFF {
            match self.mbc {
                Some(c) => c.read_spec(addr, self.rom@),
                None => rom_at(self.rom@, addr as int),
            }
        } else if 0xA000 <= addr <= 0xBFFF {
            match self.mbc {
                Some(c) => c.read_spec(addr, self.rom@),
                None => self.eram@[addr - 0xA000],
            }
        } else if addr <= 0x9FFF {
            self.vram.data@[addr - 0x8000]
        } else if 0xFE00 <= addr <= 0xFE9F {
            self.oam@[addr - 0xFE00]
        } else if 0xFF40 <= addr <= 0xFF4B {
            lcd_read(self.lcd_registers, addr)
        } else if 0xFF00 <= addr <= 0xFF7F {
            self.io@[addr - 0xFF00]
        } else if 0xFF80 <= addr <= 0xFFFE {
            self.hram@[addr - 0xFF80]
        } else if addr == 0xFFFF {
            self.ie
        } else {
            self.memory@[addr as int]
        }
    }

    /// An empty memory map: all zero, no cartridge.
    pub fn new() -> (r: MMU)
        ensures
            r.wf(),
            r.mbc.is_none(),
            r.rom@.len() == 0,
            r.ie == 0,
            r.timer_cycles == 0,
            r.lcd_registers == (LcdRegisters {
                lcdc: 0,
                stat: 0,
                scy: 0,
                scx: 0,
                ly: 0,
                lyc: 0,
                dma: 0,
                bgp: 0,
                obp0: 0,
                obp1: 0,
                wy: 0,
                wx: 0,
            }),
            forall|i: int| 0 <= i < 0x10000 ==> r.memory@[i] == 0,
            forall|i: int| 0 <= i < 0x2000 ==> r.eram@[i] == 0 && r.vram.data@[i] == 0,
            forall|i: int| 0 <= i < 0xA0 ==> r.oam@[i] == 0,
            forall|i: int| 0 <= i < 0x80 ==> r.io@[i] == 0,
            forall|i: int| 0 <= i < 0x7F ==> r.hram@[i] == 0,
    {
        MMU {
            eram: vec![0u8; 0x2000],
            memory: vec![0u8; 0x10000],
            vram: VRAM::new_with_buffer(None),
            oam: vec![0u8; 0xA0],
            mbc: None,
            rom: Vec::new(),
            io: vec![0u8; 0x80],
            hram: vec![0u8; 0x7F],
            ie: 0,
            lcd_registers: LcdRegisters::new(),
            timer_cycles: 0,
        }
    }

    /// Reads the byte the CPU sees at `addr`; always succeeds.
    pub fn read_byte(&self, addr: u16) -> (r: Result<u8, Error>)
        requires
            self.wf(),
        ensures
            r == Ok::<u8, Error>(self.read_spec(addr)),
    {
        if addr <= 0x7FFF {
            match &self.mbc {
                Some(mbc) => {
                    return Ok(mbc.read(addr, self.rom.as_slice()));
                },
                None => {
                    if (addr as usize) < self.rom.len() {
                        return Ok(self.rom[addr as usize]);
                    } else {
                        return Ok(0xFF);
                    }
                },
            }
        } else if 0xA000 <= addr && addr <= 0xBFFF {
            match &self.mbc {
                Some(mbc) => {
                    return Ok(mbc.read(addr, self.rom.as_slice()));
                },
                None => {
                    return Ok(self.eram[(addr - 0xA000) as usize]);
                },
            }
        }
        if addr <= 0x9FFF {
            Ok(self.vram.read_byte((addr - 0x8000) as usize))
        } else if 0xFE00 <= addr && addr <= 0xFE9F {
            Ok(self.oam[(addr - 0xFE00) as usize])
        } else if 0xFF40 <= addr && addr <= 0xFF4B {
            let l = &self.lcd_registers;
            let val = if addr == 0xFF40 {
                l.lcdc
            } else if addr == 0xFF41 {
                l.stat
            } else if addr == 0xFF42 {
                l.scy
            } else if addr == 0xFF43 {
                l.scx
            } else if addr == 0xFF44 {
                l.ly
            } else if addr == 0xFF45 {
                l.lyc
            } else if addr == 0xFF46 {
                l.dma
            } else if addr == 0xFF47 {
                l.bgp
            } else if addr == 0xFF48 {
                l.obp0
            } else if addr == 0xFF49 {
                l.obp1
            } else if addr == 0xFF4A {
                l.wy
            } else {
                l.wx
            };
            Ok(val)
        } else if 0xFF00 <= addr && addr <= 0xFF7F {
            Ok(self.io[(addr - 0xFF00) as usize])
        } else if 0xFF80 <= addr && addr <= 0xFFFE {
            Ok(self.hram[(addr - 0xFF80) as usize])
        } else if addr == 0xFFFF {
            Ok(self.ie)
        } else {
            Ok(self.memory[addr as usize])
        }
    }

    /// Copies the 160 bytes at `value * 0x100` into OAM (OAM DMA) and records the DMA
    /// register.
    fn oam_dma(&mut self, value: u8)
        requires
            old(self).wf(),
        ensures
            write_rel(*old(self), *final(self), 0xFF46, value),
    {
        let ghost o = *old(self);
        let src_base: u16 = (value as u16) << 8;
        proof {
            crate::bits::lemma_u16_join(value, 0);
        }
        let mut i: usize = 0;
        while i < 0xA0
            invariant
                o == *old(self),
                src_base == value as int * 256,
                0 <= i <= 0xA0,
                self.wf(),
                self.eram == o.eram && self.memory == o.memory && self.vram == o.vram,
                self.mbc == o.mbc && self.rom == o.rom && self.io == o.io && self.hram == o.hram,
                self.ie == o.ie && self.lcd_registers == o.lcd_registers,
                self.timer_cycles == o.timer_cycles,
                forall|j: int|
                    0 <= j < i ==> self.oam@[j] == o.read_spec((value as int * 256 + j) as u16),
                forall|j: int| i <= j < 0xA0 ==> self.oam@[j] == o.oam@[j],
            decreases 0xA0 - i,
        {
            let a: u16 = src_base + i as u16;
            proof {
                if 0xFE00 <= a <= 0xFE9F {
                    assert(a - 0xFE00 == i);
                }
            }
            let v = match self.read_byte(a) {
                Ok(b) => b,
                Err(_) => 0xFF,
            };
            self.oam.set(i, v);
            i = i + 1;
        }
        self.lcd_registers.dma = value;
        self.io.set(0x46, value);
        proof {
            assert(self.oam@ =~= Seq::new(
                0xA0,
                |j: int| o.read_spec((value as int * 256 + j) as u16),
            ));
            assert(self.io@ =~= o.io@.update(0x46, io_value(0xFF46, value)));
        }
    }

    /// Writes `value` at `addr` through the memory map; always succeeds. The controller takes
    /// the ROM area and cartridge RAM; 0xFF46 starts OAM DMA; I/O registers keep the bits they
    /// implement; the rest lands in VRAM, OAM, HRAM, IE or the flat memory.
    pub fn write_byte(&mut self, addr: u16, value: u8) -> (r: Result<(), Error>)
        requires
            old(self).wf(),
        ensures
            r is Ok,
            write_rel(*old(self), *final(self), addr, value),
    {
        let ghost o = *old(self);
        if addr <= 0x7FFF {
            if let Some(mbc) = &mut self.mbc {
                mbc.write(addr, value);
                return Ok(());
            }
        }
        if 0xA000 <= addr && addr <= 0xBFFF {
            if let Some(mbc) = &mut self.mbc {
                mbc.write(addr, value);
                return Ok(());
            } else {
                self.eram.set((addr - 0xA000) as usize, value);
                proof {
                    assert(self.memory@ == o.memory@);
                }
                return Ok(());
            }
        }
        if addr == 0xFF46 {
            self.oam_dma(value);
            return Ok(());
        }
        if 0x8000 <= addr && addr <= 0x9FFF {
            self.vram.write_byte((addr - 0x8000) as usize, value);
        } else if 0xFE00 <= addr && addr <= 0xFE9F {
            self.oam.set((addr - 0xFE00) as usize, value);
        } else if 0xFF00 <= addr && addr <= 0xFF7F {
            let idx = (addr - 0xFF00) as usize;
            let v = if addr == 0xFF00 {
                value & 0x30
            } else if addr == 0xFF04 || addr == 0xFF44 {
                0
            } else if addr == 0xFF07 || addr == 0xFF70 {
                value & 0x07
            } else if addr == 0xFF0F {
                value & 0x1F
            } else if addr == 0xFF4D || addr == 0xFF4F {
                value & 0x01
            } else {
                value
            };
            self.io.set(idx, v);
            if addr == 0xFF40 {
                self.lcd_registers.lcdc = value;
            } else if addr == 0xFF41 {
                self.lcd_registers.stat = value;
            } else if addr == 0xFF42 {
                self.lcd_registers.scy = value;
            } else if addr == 0xFF43 {
                self.lcd_registers.scx = value;
            } else if addr == 0xFF44 {
                self.lcd_registers.ly = 0;
            } else if addr == 0xFF45 {
                self.lcd_registers.lyc = value;
            } else if addr == 0xFF47 {
                self.lcd_registers.bgp = value;
            } else if addr == 0xFF48 {
                self.lcd_registers.obp0 = value;
            } else if addr == 0xFF49 {
                self.lcd_registers.obp1 = value;
            } else if addr == 0xFF4A {
                self.lcd_registers.wy = value;
            } else if addr == 0xFF4B {
                self.lcd_registers.wx = value;
            }
        } else if 0xFF80 <= addr && addr <= 0xFFFE {
            self.hram.set((addr - 0xFF80) as usize, value);
        } else if addr == 0xFFFF {
            self.ie = value;
        } else {
            self.memory.set(addr as usize, value);
        }
        Ok(())
    }

    /// Writes a 16-bit word, low byte at `addr` and high byte at `addr + 1`.
    pub fn write_word(&mut self, addr: u16, value: u16)
        requires
            old(self).wf(),
        ensures
            exists|mid: MMU|
                #[trigger] write_rel(*old(self), mid, addr, (value % 256) as u8) && write_rel(
                    mid,
                    *final(self),
                    ((addr + 1) % 0x10000) as u16,
                    (value / 256) as u8,
                ),
    {
        let lo = (value & 0xFF) as u8;
        let hi = (value >> 8) as u8;
        proof {
            assert((value & 0xFF) as u8 == value % 256 && (value >> 8) as u8 == value / 256)
                by (bit_vector);
        }
        let _ = self.write_byte(addr, lo);
        let ghost mid = *self;
        let _ = self.write_byte(addr.wrapping_add(1), hi);
        proof {
            assert(write_rel(*old(self), mid, addr, (value % 256) as u8));
        }
    }

    /// Reads a 16-bit word, low byte at `addr` and high byte at `addr + 1`.
    pub fn read_word(&self, addr: u16) -> (r: u16)
        requires
            self.wf(),
        ensures
            r == self.read_spec(((addr + 1) % 0x10000) as u16) as int * 256 + self.read_spec(addr)
                as int,
    {
        let lo = match self.read_byte(addr) {
            Ok(b) => b,
            Err(_) => 0,
        } as u16;
        let hi = match self.read_byte(addr.wrapping_add(1)) {
            Ok(b) => b,
            Err(_) => 0,
        } as u16;
        proof {
            crate::bits::lemma_u16_hilo(hi, lo);
        }
        (hi << 8) | lo
    }

    /// Advances the timer by `cycles`: DIV rises once per 256 cycles.
    pub fn timer_tick(&mut self, cycles: u32)
        requires
            old(self).wf(),
            old(self).timer_cycles + cycles <= u32::MAX,
        ensures
            final(self).wf(),
            ({
                let t0 = old(self).timer_cycles + cycles;
                &&& final(self).timer_cycles == t0 % 256
                &&& final(self).io@ == timer_io(old(self).io@, t0)
            }),
            final(self).memory == old(self).memory && final(self).eram == old(self).eram,
            final(self).vram == old(self).vram && final(self).oam == old(self).oam,
            final(self).mbc == old(self).mbc && final(self).rom == old(self).rom,
            final(self).hram == old(self).hram && final(self).ie == old(self).ie,
            final(self).lcd_registers == old(self).lcd_registers,
    {
        let t = self.timer_cycles + cycles;
        let d = ((self.io[0x04] as u32 + t / 256) % 256) as u8;
        self.io.set(0x04, d);
        self.timer_cycles = t % 256;
        let tac = self.io[0x07];
        if tac & 0x04 != 0 {
            let k = tac & 0x03;
            let freq: u32 = if k == 0 {
                1024
            } else if k == 1 {
                16
            } else if k == 2 {
                64
            } else {
                256
            };
            if self.timer_cycles % freq == 0 {
                let old_tima = self.io[0x05];
                self.io.set(0x05, old_tima.wrapping_add(1));
                if old_tima == 0xFF {
                    let tma = self.io[0x06];
                    self.io.set(0x05, tma);
                    let f = self.io[0x0F] | 0x04;
                    self.io.set(0x0F, f);
                }
            }
        }
        proof {
            let t0 = old(self).timer_cycles + cycles;
            assert(self.io@ =~= timer_io(old(self).io@, t0));
        }
    }

    /// The memory map of a cartridge image: the first 32 KiB in memory, work RAM and its echo
    /// filled with 0xFF, VRAM from the image's 0x8000..0xA000 when it is that long, and the
    /// controller that header byte 0x147 names.
    pub fn from_buffer(buffer: &[u8]) -> (r: MMU)
        ensures
            r.wf(),
            r.rom@ == buffer@,
            mbc_kind(if buffer@.len() > 0x147 {
                buffer@[0x147]
            } else {
                0u8
            }) == Some(1u8) <==> (r.mbc matches Some(MbcController::Mbc1(m)) && m.is_reset()),
            mbc_kind(if buffer@.len() > 0x147 {
                buffer@[0x147]
            } else {
                0u8
            }) == Some(5u8) <==> (r.mbc matches Some(MbcController::Mbc5(m)) && m.is_reset()),
            mbc_kind(if buffer@.len() > 0x147 {
                buffer@[0x147]
            } else {
                0u8
            }).is_none() <==> r.mbc.is_none(),
            forall|i: int|
                0 <= i < 0x10000 ==> r.memory@[i] == (if i < 0x8000 && i < buffer@.len() {
                    buffer@[i]
                } else if 0xC000 <= i <= 0xFDFF {
                    0xFFu8
                } else {
                    0u8
                }),
            forall|i: int|
                0 <= i < 0x2000 ==> r.vram.data@[i] == (if buffer@.len() >= 0xA000 {
                    buffer@[0x8000 + i]
                } else {
                    0u8
                }),
            forall|i: int| 0 <= i < 0x2000 ==> r.eram@[i] == 0,
            forall|i: int| 0 <= i < 0xA0 ==> r.oam@[i] == 0,
            forall|i: int| 0 <= i < 0x80 ==> r.io@[i] == 0,
            forall|i: int| 0 <= i < 0x7F ==> r.hram@[i] == 0,
            r.ie == 0 && r.timer_cycles == 0,
    {
        let mut vram = VRAM::new_with_buffer(None);
        if buffer.len() >= 0xA000 {
            let mut i: usize = 0;
            while i < 0x2000
                invariant
                    buffer@.len() >= 0xA000,
                    vram.wf(),
                    i <= 0x2000,
                    forall|j: int| 0 <= j < i ==> vram.data@[j] == buffer@[0x8000 + j],
                decreases 0x2000 - i,
            {
                vram.write_byte(i, buffer[0x8000 + i]);
                i = i + 1;
            }
        }
        let mbc_type = if buffer.len() > 0x147 {
            buffer[0x147]
        } else {
            0x00
        };
        let mbc = create_mbc(mbc_type);
        let mut rom: Vec<u8> = Vec::new();
        let mut k: usize = 0;
        while k < buffer.len()
            invariant
                k <= buffer@.len(),
                rom@ == buffer@.subrange(0, k as int),
            decreases buffer@.len() - k,
        {
            rom.push(buffer[k]);
            k = k + 1;
        }
        proof {
            assert(rom@ =~= buffer@);
        }
        let mut memory: Vec<u8> = vec![0u8; 0x10000];
        let len = if buffer.len() < 0x8000 {
            buffer.len()
        } else {
            0x8000
        };
        let mut i: usize = 0;
        while i < 0x10000
            invariant
                memory@.len() == 0x10000,
                len == (if buffer@.len() < 0x8000 {
                    buffer@.len()
                } else {
                    0x8000
                }),
                i <= 0x10000,
                forall|j: int|
                    0 <= j < i ==> memory@[j] == (if j < 0x8000 && j < buffer@.len() {
                        buffer@[j]
                    } else if 0xC000 <= j <= 0xFDFF {
                        0xFFu8
                    } else {
                        0u8
                    }),
                forall|j: int| i <= j < 0x10000 ==> memory@[j] == 0,
            decreases 0x10000 - i,
        {
            if i < len {
                memory.set(i, buffer[i]);
            } else if 0xC000 <= i && i <= 0xDFFF {
                memory.set(i, 0xFF);
            } else if 0xE000 <= i && i <= 0xFDFF {
                let v = memory[i - 0x2000];
                memory.set(i, v);
            }
            i = i + 1;
        }
        MMU {
            eram: vec![0u8; 0x2000],
            memory,
            vram,
            oam: vec![0u8; 0xA0],
            mbc,
            rom,
            io: vec![0u8; 0x80],
            hram: vec![0u8; 0x7F],
            ie: 0,
            lcd_registers: LcdRegisters::new(),
            timer_cycles: 0,
        }
    }

    /// The ROM area 0x0000..0x8000 of the flat memory.
    pub fn get_rom_buffer(&self) -> (r: Vec<u8>)
        requires
            self.wf(),
        ensures
            r@ == self.memory@.subrange(0, 0x8000),
    {
        let mut r: Vec<u8> = Vec::new();
        let mut i: usize = 0;
        while i < 0x8000
            invariant
                self.wf(),
                i <= 0x8000,
                r@ == self.memory@.subrange(0, i as int),
            decreases 0x8000 - i,
        {
            r.push(self.memory[i]);
            i = i + 1;
        }
        r
    }
}

} // verus!
