use vstd::prelude::*;
use crate::gb::bus::{banks_of, mbc_kind_of, ram_banks_of};
use crate::gb::bus_apu::BusAPU;
use crate::gb::bus_io::BusIO;
use crate::gb::mbc::{MBCImpl, MBC};
use crate::gb::ram::RAM;
use crate::gb::types::MbcType;
use crate::hardware::apu::{ApuState, register_read, register_written};

verus! {

/// The memory side of the split bus: flat RAM, the cartridge ROM and its controller, and
/// external cartridge RAM.
pub struct BusMem {
    pub ram: RAM,
    pub rom: Vec<u8>,
    pub rom_banks: usize,
    pub mbc: MBCImpl,
    pub ext_ram: Vec<u8>,
}

/// Whether `m` is the power-on controller of family `kind`.
pub open spec fn mbc_fresh(kind: MbcType, m: MBCImpl) -> bool {
    match kind {
        MbcType::RomOnly => m is RomOnly,
        MbcType::Mbc1 => m matches MBCImpl::MBC1(c) && c.is_reset(),
        MbcType::Mbc3 => m matches MBCImpl::MBC3(c) && c.is_reset(),
        MbcType::Mbc5 => m matches MBCImpl::MBC5(c) && c.is_reset(),
    }
}

/// Whether `addr` is a sound register that the sound unit serves (0xFF10..=0xFF3F except
/// NR52 at 0xFF26).
pub open spec fn apu_served(addr: u16) -> bool {
    0xFF10 <= addr <= 0xFF3F && addr != 0xFF26
}

/// The joypad register as read: the selection bits over the selected row (direction keys
/// first), or all keys released when no row is selected.
pub open spec fn joyp_read(io: BusIO) -> u8 {
    let sel = io.p1_sel & 0x30;
    let v = 0xC0u8 | sel;
    if sel & 0x10 == 0 {
        (v & 0xF0) | (io.joyp_dpad & 0x0F)
    } else if sel & 0x20 == 0 {
        (v & 0xF0) | (io.joyp_btns & 0x0F)
    } else {
        v | 0x0F
    }
}

/// STAT as read: the writable bits 3-6, the coincidence bit 2, the mode, and bit 7 set.
pub open spec fn stat_read(io: BusIO) -> u8 {
    let w = io.stat_w & 0x78;
    let c = if io.ly == io.lyc {
        w | 0x04
    } else {
        w
    };
    (c | (io.ppu_mode & 0x03)) | 0x80
}

/// Cartridge RAM as read at `addr` (0xA000..=0xBFFF): 0xFF when there is none or it is
/// disabled, else the byte of the selected bank, 0xFF past the end.
pub open spec fn ext_read(m: BusMem, addr: u16) -> u8 {
    if m.ext_ram@.len() == 0 || !m.mbc.ram_enabled_view() {
        0xFF
    } else {
        let i = m.mbc.ram_bank_view() as int * 0x2000 + ((((addr - 0xA000) as u16) & 0x1FFF) as int);
        if i < m.ext_ram@.len() {
            m.ext_ram@[i]
        } else {
            0xFF
        }
    }
}

/// The byte the CPU reads at `addr` from the split bus.
pub open spec fn mem_read(m: BusMem, io: BusIO, apu: ApuState, addr: u16) -> u8 {
    if addr <= 0x7FFF {
        if m.rom_banks > 0 {
            m.mbc.rom_view(addr, m.rom@, m.rom_banks as nat)
        } else {
            m.ram@[addr as int]
        }
    } else if addr == 0xFF00 {
        joyp_read(io)
    } else if addr == 0xFF04 {
        io.div
    } else if addr == 0xFF01 {
        io.sb
    } else if addr == 0xFF02 {
        io.sc | 0x7C
    } else if addr == 0xFF05 {
        io.tima
    } else if addr == 0xFF06 {
        io.tma
    } else if addr == 0xFF07 {
        io.tac & 0x07
    } else if addr == 0xFF0F {
        io.ifl | 0xE0
    } else if addr == 0xFF40 {
        io.lcdc
    } else if addr == 0xFF41 {
        stat_read(io)
    } else if addr == 0xFF42 {
        io.scy
    } else if addr == 0xFF43 {
        io.scx
    } else if addr == 0xFF44 {
        io.ly
    } else if addr == 0xFF45 {
        io.lyc
    } else if addr == 0xFF47 {
        io.bgp
    } else if addr == 0xFF48 {
        io.obp0
    } else if addr == 0xFF49 {
        io.obp1
    } else if addr == 0xFF4A {
        io.wy
    } else if addr == 0xFF4B {
        io.wx
    } else if addr == 0xFFFF {
        io.ie
    } else if apu_served(addr) {
        register_read(apu, addr)
    } else if addr == 0xFF26 {
        0xF0 | (m.ram@[0xFF26] & 0x80)
    } else if 0xA000 <= addr <= 0xBFFF {
        ext_read(m, addr)
    } else {
        m.ram@[addr as int]
    }
}

/// The DIV bit whose falling edge clocks TIMA, for the TAC frequency bits.
pub open spec fn div_edge_bit(tac: u8) -> u32 {
    let f = tac & 0x03;
    if f == 0 {
        10
    } else if f == 1 {
        4
    } else if f == 2 {
        6
    } else {
        8
    }
}

/// The I/O registers after a DIV write: the divider resets, and if the timer is enabled and
/// the selected divider bit was set (a falling edge) TIMA counts once, overflowing to 0 with
/// a reload pending, unless a reload is already pending.
pub open spec fn div_written(io: BusIO) -> BusIO {
    let prev_bit = (io.div_total >> div_edge_bit(io.tac)) & 1 != 0;
    let reset = BusIO { div: 0, div_total: 0, div_counter: 0, div_sub: 0, ..io };
    if io.tac & 0x04 != 0 && prev_bit && io.tima_reload_delay == 0 {
        if io.tima == 0xFF {
            BusIO { tima: 0, tima_reload_delay: 4, ..reset }
        } else {
            BusIO { tima: (io.tima + 1) as u8, ..reset }
        }
    } else {
        reset
    }
}

/// The I/O registers after the CPU writes `val` to `addr`.
pub open spec fn io_written(io: BusIO, addr: u16, val: u8) -> BusIO {
    if addr == 0xFF00 {
        BusIO { p1_sel: val & 0x30, ..io }
    } else if addr == 0xFF04 {
        div_written(io)
    } else if addr == 0xFF05 {
        BusIO { tima: val, tima_reload_delay: 0, ..io }
    } else if addr == 0xFF06 {
        BusIO { tma: val, ..io }
    } else if addr == 0xFF07 {
        BusIO {
            tac: val & 0x07,
            timer_accum: if (io.tac & 0x04 == 0) != ((val & 0x07) & 0x04 == 0) {
                0
            } else {
                io.timer_accum
            },
            ..io
        }
    } else if addr == 0xFF40 {
        BusIO { lcdc: val, ..io }
    } else if addr == 0xFF41 {
        BusIO { stat_w: val & 0x78, ..io }
    } else if addr == 0xFF42 {
        BusIO { scy: val, ..io }
    } else if addr == 0xFF43 {
        BusIO { scx: val, ..io }
    } else if addr == 0xFF44 {
        BusIO { ly: 0, ppu_line_cycle: 0, win_line: 0, ..io }
    } else if addr == 0xFF45 {
        BusIO { lyc: val, ..io }
    } else if addr == 0xFF46 {
        BusIO {
            dma_active: true,
            dma_pos: 0,
            dma_start_delay: 0,
            dma_accum: 0,
            dma_src_base: (val as int * 256) as u16,
            ..io
        }
    } else if addr == 0xFF47 {
        BusIO { bgp: val, ..io }
    } else if addr == 0xFF48 {
        BusIO { obp0: val, ..io }
    } else if addr == 0xFF49 {
        BusIO { obp1: val, ..io }
    } else if addr == 0xFF4A {
        BusIO { wy: val, ..io }
    } else if addr == 0xFF4B {
        BusIO { wx: val, ..io }
    } else if addr == 0xFF01 {
        BusIO { sb: val, ..io }
    } else if addr == 0xFF02 {
        if (val & 0x81) & 0x80 != 0 {
            BusIO { sc: (val & 0x81) & !0x80u8, ifl: io.ifl | 0x08, ..io }
        } else {
            BusIO { sc: val & 0x81, ..io }
        }
    } else if addr == 0xFF0F {
        BusIO { ifl: val, ..io }
    } else if addr == 0xFFFF {
        BusIO { ie: val, ..io }
    } else {
        io
    }
}

/// The flat RAM after NR52 is written: NR52 keeps only the power bit (bits 4-7 read as set),
/// and powering off zeroes the other sound registers.
pub open spec fn power_mirror(r: Seq<u8>, val: u8) -> Seq<u8> {
    let r1 = r.update(0xFF26, 0xF0 | (val & 0x80));
    if val & 0x80 == 0 {
        Seq::new(
            r1.len(),
            |i: int|
                if 0xFF10 <= i <= 0xFF3F && i != 0xFF26 {
                    0u8
                } else {
                    r1[i]
                },
        )
    } else {
        r1
    }
}

/// Whether a CPU write to `addr` lands in the I/O registers only.
pub open spec fn io_only(addr: u16) -> bool {
    addr == 0xFF00 || (0xFF04 <= addr <= 0xFF07) || (0xFF40 <= addr <= 0xFF45) || (0xFF47 <= addr
        <= 0xFF4B) || addr == 0xFF01 || addr == 0xFF02 || addr == 0xFFFF
}

/// The flat RAM after the CPU writes `val` to `addr`.
pub open spec fn ram_written(m: BusMem, addr: u16, val: u8) -> Seq<u8> {
    if addr <= 0x7FFF {
        if m.rom_banks > 0 {
            m.ram@
        } else {
            m.ram@.update(addr as int, val)
        }
    } else if io_only(addr) || (0xA000 <= addr <= 0xBFFF) {
        m.ram@
    } else if addr == 0xFF26 {
        power_mirror(m.ram@, val)
    } else {
        m.ram@.update(addr as int, val)
    }
}

/// External cartridge RAM after the CPU writes `val` to `addr`.
pub open spec fn ext_written(m: BusMem, addr: u16, val: u8) -> Seq<u8> {
    if 0xA000 <= addr <= 0xBFFF && m.ext_ram@.len() != 0 && m.mbc.ram_enabled_view() {
        let i = m.mbc.ram_bank_view() as int * 0x2000 + ((((addr - 0xA000) as u16) & 0x1FFF) as int);
        if i < m.ext_ram@.len() {
            m.ext_ram@.update(i, val)
        } else {
            m.ext_ram@
        }
    } else {
        m.ext_ram@
    }
}

impl BusMem {
    /// Flat RAM covering the address space, and a bank count that keeps ROM offsets in range.
    pub open spec fn wf(&self) -> bool {
        &&& self.ram.wf()
        &&& self.rom_banks * 0x4000 + 0x10000 <= usize::MAX
    }

    /// An empty memory side: zeroed RAM, no cartridge.
    pub fn new() -> (r: BusMem)
        ensures
            r.wf(),
            forall|i: int| 0 <= i < 0x10000 ==> r.ram@[i] == 0,
            r.rom@.len() == 0,
            r.rom_banks == 0,
            r.mbc is RomOnly,
            r.ext_ram@.len() == 0,
    {
        BusMem {
            ram: RAM::new(),
            rom: Vec::new(),
            rom_banks: 0,
            mbc: MBCImpl::new(MbcType::RomOnly),
            ext_ram: Vec::new(),
        }
    }

    /// Inserts a cartridge image: the bank count from its size, the controller from header
    /// byte 0x147 and zeroed external RAM sized by header byte 0x149.
    pub fn load_rom(&mut self, data: Vec<u8>)
        requires
            old(self).wf(),
            data@.len() + 0x14000 <= usize::MAX,
        ensures
            final(self).wf(),
            final(self).rom@ == data@,
            final(self).rom_banks == banks_of(data@.len()),
            mbc_fresh(
                mbc_kind_of(
                    if data@.len() > 0x147 {
                        data@[0x147]
                    } else {
                        0u8
                    },
                ),
                final(self).mbc,
            ),
            final(self).ext_ram@ == Seq::new(
                ram_banks_of(
                    if data@.len() > 0x149 {
                        data@[0x149]
                    } else {
                        0u8
                    },
                ) * 0x2000,
                |i: int| 0u8,
            ),
            final(self).ram@ == old(self).ram@,
    {
        self.rom = data;
        self.rom_banks = (self.rom.len() + 0x3FFF) / 0x4000;
        let cart_type = if self.rom.len() > 0x0147 {
            self.rom[0x0147]
        } else {
            0x00
        };
        let mbc_type = if 0x01 <= cart_type && cart_type <= 0x03 {
            MbcType::Mbc1
        } else if 0x0F <= cart_type && cart_type <= 0x13 {
            MbcType::Mbc3
        } else if 0x19 <= cart_type && cart_type <= 0x1E {
            MbcType::Mbc5
        } else {
            MbcType::RomOnly
        };
        self.mbc = MBCImpl::new(mbc_type);
        let ram_size_code = if self.rom.len() > 0x0149 {
            self.rom[0x0149]
        } else {
            0
        };
        let ram_banks: usize = if ram_size_code == 0x02 {
            1
        } else if ram_size_code == 0x03 {
            4
        } else if ram_size_code == 0x04 {
            16
        } else if ram_size_code == 0x05 {
            8
        } else {
            0
        };
        self.ext_ram = vec![0u8; ram_banks * 0x2000];
        proof {
            assert(self.ext_ram@ =~= Seq::new(ram_banks as nat * 0x2000, |i: int| 0u8));
        }
    }

    fn read_rom(&self, addr: u16) -> (r: u8)
        requires
            self.wf(),
            self.rom_banks > 0,
        ensures
            r == self.mbc.rom_view(addr, self.rom@, self.rom_banks as nat),
    {
        proof {
            crate::gb::mbc::lemma_read_ok_with_banks(self.mbc, addr, self.rom_banks as nat);
        }
        self.mbc.read_rom(addr, self.rom.as_slice(), self.rom_banks)
    }

    fn write_mbc(&mut self, addr: u16, val: u8)
        ensures
            final(self).mbc == old(self).mbc.after_write(addr, val),
            final(self).ram == old(self).ram,
            final(self).rom == old(self).rom,
            final(self).rom_banks == old(self).rom_banks,
            final(self).ext_ram == old(self).ext_ram,
    {
        self.mbc.write(addr, val);
    }

    fn ext_index(&self, addr: u16) -> (r: Option<usize>)
        requires
            0xA000 <= addr <= 0xBFFF,
        ensures
            r == (if self.ext_ram@.len() != 0 && self.mbc.ram_enabled_view() && self.mbc.ram_bank_view()
                as int * 0x2000 + ((((addr - 0xA000) as u16) & 0x1FFF) as int) < self.ext_ram@.len() {
                Some(
                    (self.mbc.ram_bank_view() as int * 0x2000 + ((((addr - 0xA000) as u16)
                        & 0x1FFF) as int)) as usize,
                )
            } else {
                None
            }),
    {
        if self.ext_ram.len() == 0 || !self.mbc.ram_enabled() {
            None
        } else {
            let bank = self.mbc.ram_bank() as usize;
            let base = bank * 0x2000;
            let rel = addr - 0xA000;
            proof {
                crate::bits::lemma_u16_bits(rel);
            }
            let off = (rel & 0x1FFF) as usize;
            if base + off < self.ext_ram.len() {
                Some(base + off)
            } else {
                None
            }
        }
    }

    /// The byte the CPU reads at `addr`, as `mem_read` describes.
    pub fn read(&self, addr: u16, io: &BusIO, apu: &BusAPU) -> (r: u8)
        requires
            self.wf(),
            apu.wf(),
        ensures
            r == mem_read(*self, *io, apu.apu@, addr),
    {
        if addr <= 0x7FFF {
            if self.rom_banks > 0 {
                self.read_rom(addr)
            } else {
                self.ram.read(addr)
            }
        } else if addr == 0xFF00 {
            let sel = io.p1_sel & 0x30;
            let v = 0xC0 | sel;
            if (sel & 0x10) == 0 {
                (v & 0xF0) | (io.joyp_dpad & 0x0F)
            } else if (sel & 0x20) == 0 {
                (v & 0xF0) | (io.joyp_btns & 0x0F)
            } else {
                v | 0x0F
            }
        } else if addr == 0xFF04 {
            io.div
        } else if addr == 0xFF01 {
            io.sb
        } else if addr == 0xFF02 {
            io.sc | 0x7C
        } else if addr == 0xFF05 {
            io.tima
        } else if addr == 0xFF06 {
            io.tma
        } else if addr == 0xFF07 {
            io.tac & 0x07
        } else if addr == 0xFF0F {
            io.get_if_raw()
        } else if addr == 0xFF40 {
            io.lcdc
        } else if addr == 0xFF41 {
            let mut stat = io.stat_w & 0x78;
            if io.ly == io.lyc {
                stat = stat | 0x04;
            }
            stat = stat | (io.ppu_mode & 0x03);
            stat | 0x80
        } else if addr == 0xFF42 {
            io.scy
        } else if addr == 0xFF43 {
            io.scx
        } else if addr == 0xFF44 {
            io.ly
        } else if addr == 0xFF45 {
            io.lyc
        } else if addr == 0xFF47 {
            io.bgp
        } else if addr == 0xFF48 {
            io.obp0
        } else if addr == 0xFF49 {
            io.obp1
        } else if addr == 0xFF4A {
            io.wy
        } else if addr == 0xFF4B {
            io.wx
        } else if addr == 0xFFFF {
            io.ie
        } else if 0xFF10 <= addr && addr <= 0xFF3F && addr != 0xFF26 {
            apu.read_apu_reg(addr)
        } else if addr == 0xFF26 {
            let stored = self.ram.read(0xFF26);
            0xF0 | (stored & 0x80)
        } else if 0xA000 <= addr && addr <= 0xBFFF {
            match self.ext_index(addr) {
                Some(i) => self.ext_ram[i],
                None => 0xFF,
            }
        } else {
            self.ram.read(addr)
        }
    }

    fn power_write(&mut self, val: u8)
        requires
            old(self).wf(),
        ensures
            final(self).wf(),
            final(self).ram@ == power_mirror(old(self).ram@, val),
            final(self).rom == old(self).rom,
            final(self).rom_banks == old(self).rom_banks,
            final(self).mbc == old(self).mbc,
            final(self).ext_ram == old(self).ext_ram,
    {
        self.ram.write(0xFF26, 0xF0 | (val & 0x80));
        let ghost r1 = self.ram@;
        if (val & 0x80) == 0 {
            let mut a: u16 = 0xFF10;
            while a <= 0xFF3F
                invariant
                    0xFF10 <= a <= 0xFF40,
                    self.wf(),
                    r1.len() == 0x10000,
                    self.ram@ == Seq::new(
                        0x10000,
                        |i: int|
                            if 0xFF10 <= i < a && i != 0xFF26 {
                                0u8
                            } else {
                                r1[i]
                            },
                    ),
                    self.rom == old(self).rom,
                    self.rom_banks == old(self).rom_banks,
                    self.mbc == old(self).mbc,
                    self.ext_ram == old(self).ext_ram,
                decreases 0xFF40 - a,
            {
                if a != 0xFF26 {
                    self.ram.write(a, 0);
                }
                a = a + 1;
                proof {
                    assert(self.ram@ =~= Seq::new(
                        0x10000,
                        |i: int|
                            if 0xFF10 <= i < a && i != 0xFF26 {
                                0u8
                            } else {
                                r1[i]
                            },
                    ));
                }
            }
            proof {
                assert(self.ram@ =~= power_mirror(old(self).ram@, val));
            }
        }
    }

    /// The CPU writes `val` to `addr` of the split bus: the ROM area goes to the controller
    /// (or to RAM without a cartridge), I/O registers to the I/O side, sound registers to the
    /// sound unit and the RAM mirror, cartridge RAM to the selected external bank, the rest to
    /// flat RAM, as `ram_written`, `io_written` and `ext_written` describe. A write to SC with
    /// bit 7 completes the serial transfer at once and requests the serial interrupt.
    pub fn write(&mut self, addr: u16, val: u8, io: &mut BusIO, apu: &mut BusAPU)
        requires
            old(self).wf(),
            old(apu).wf(),
        ensures
            final(self).wf(),
            final(apu).wf(),
            final(self).ram@ == ram_written(*old(self), addr, val),
            final(self).mbc == (if addr <= 0x7FFF && old(self).rom_banks > 0 {
                old(self).mbc.after_write(addr, val)
            } else {
                old(self).mbc
            }),
            final(self).ext_ram@ == ext_written(*old(self), addr, val),
            final(self).rom == old(self).rom,
            final(self).rom_banks == old(self).rom_banks,
            *final(io) == io_written(*old(io), addr, val),
            final(apu).apu@ == (if apu_served(addr) {
                register_written(old(apu).apu@, addr, val)
            } else {
                old(apu).apu@
            }),
            final(apu).apu_regs == old(apu).apu_regs,
            final(apu).dbg_timer == old(apu).dbg_timer,
            final(apu).apu_dbg_printed == old(apu).apu_dbg_printed,
    {
        if addr <= 0x7FFF {
            if self.rom_banks > 0 {
                self.write_mbc(addr, val);
            } else {
                self.ram.write(addr, val);
            }
        } else if 0x8000 <= addr && addr <= 0x9FFF {
            self.ram.write(addr, val);
        } else if addr == 0xFF00 {
            io.p1_sel = val & 0x30;
        } else if addr == 0xFF04 {
            let prev_div_total = io.div_total;
            let bitpos: u32 = match io.tac & 0x03 {
                0 => 10,
                1 => 4,
                2 => 6,
                _ => 8,
            };
            let prev_bit = ((prev_div_total >> bitpos) & 0x01) != 0;
            io.div = 0;
            io.div_total = 0;
            io.div_counter = 0;
            io.div_sub = 0;
            if (io.tac & 0x04) != 0 && prev_bit {
                if io.tima_reload_delay == 0 {
                    if io.tima == 0xFF {
                        io.tima = 0;
                        io.tima_reload_delay = 4;
                    } else {
                        io.tima = io.tima.wrapping_add(1);
                    }
                }
            }
        } else if addr == 0xFF05 {
            io.tima = val;
            if io.tima_reload_delay > 0 {
                io.tima_reload_delay = 0;
            }
        } else if addr == 0xFF06 {
            io.tma = val;
        } else if addr == 0xFF07 {
            let prev = io.tac;
            io.tac = val & 0x07;
            if (prev & 0x04) == 0 && (io.tac & 0x04) != 0 {
                io.timer_accum = 0;
            } else if (prev & 0x04) != 0 && (io.tac & 0x04) == 0 {
                io.timer_accum = 0;
            }
        } else if addr == 0xFF40 {
            io.lcdc = val;
        } else if addr == 0xFF41 {
            io.stat_w = val & 0x78;
        } else if addr == 0xFF42 {
            io.scy = val;
        } else if addr == 0xFF43 {
            io.scx = val;
        } else if addr == 0xFF44 {
            io.ly = 0;
            io.ppu_line_cycle = 0;
            io.win_line = 0;
        } else if addr == 0xFF45 {
            io.lyc = val;
        } else if addr == 0xFF46 {
            io.dma_active = true;
            io.dma_pos = 0;
            io.dma_start_delay = 0;
            io.dma_accum = 0;
            proof {
                crate::bits::lemma_u16_join(val, 0);
            }
            io.dma_src_base = (val as u16) << 8;
            self.ram.write(0xFF46, val);
        } else if addr == 0xFF47 {
            io.bgp = val;
        } else if addr == 0xFF48 {
            io.obp0 = val;
        } else if addr == 0xFF49 {
            io.obp1 = val;
        } else if addr == 0xFF4A {
            io.wy = val;
        } else if addr == 0xFF4B {
            io.wx = val;
        } else if addr == 0xFF01 {
            io.sb = val;
        } else if addr == 0xFF02 {
            io.sc = val & 0x81;
            if (io.sc & 0x80) != 0 {
                io.ifl = io.ifl | 0x08;
                io.sc = io.sc & !0x80u8;
            }
        } else if addr == 0xFF0F {
            self.ram.write(addr, val);
            io.ifl = val;
        } else if 0xFF10 <= addr && addr <= 0xFF3F && addr != 0xFF26 {
            apu.write_apu_reg(addr, val);
            self.ram.write(addr, val);
        } else if addr == 0xFF26 {
            self.power_write(val);
        } else if addr == 0xFFFF {
            io.ie = val;
        } else if 0xA000 <= addr && addr <= 0xBFFF {
            match self.ext_index(addr) {
                Some(i) => {
                    self.ext_ram.set(i, val);
                },
                None => {},
            }
        } else {
            self.ram.write(addr, val);
        }
    }
}

/// On the split bus, what the CPU writes to video RAM (0x8000..=0x9FFF), work RAM, OAM
/// (0xC000..=0xFEFF) or high RAM (0xFF80..=0xFFFE) it reads back, and every other such byte
/// reads as before.
pub proof fn law_bus_mem_read_after_write(
    m: BusMem,
    n: BusMem,
    io: BusIO,
    apu: ApuState,
    addr: u16,
    other: u16,
    v: u8,
)
    requires
        m.wf(),
        n.ram@ == ram_written(m, addr, v),
        n.ext_ram@ == m.ext_ram@,
        n.rom_banks == m.rom_banks,
        (0x8000 <= addr <= 0x9FFF) || (0xC000 <= addr <= 0xFEFF) || (0xFF80 <= addr <= 0xFFFE),
        (0x8000 <= other <= 0x9FFF) || (0xC000 <= other <= 0xFEFF) || (0xFF80 <= other <= 0xFFFE),
    ensures
        mem_read(n, io, apu, addr) == v,
        other != addr ==> mem_read(n, io, apu, other) == mem_read(m, io, apu, other),
{
}

} // verus!
