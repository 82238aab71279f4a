use vstd::prelude::*;
use crate::gb::bus::{Bus, color_index, row_same, shade_of, tile_row_addr, vblank_at, vblank_crossed};
use crate::gb::bus_apu::BusAPU;
use crate::gb::bus_mem::BusMem;
use crate::gb::types::RegEvent;

verus! {

/// The I/O side of the split bus: interrupt, joypad, timer, serial, DMA and PPU registers and
/// the frame of shades.
pub struct BusIO {
    pub ie: u8,
    pub ifl: u8,
    pub p1: u8,
    pub p1_sel: u8,
    pub joyp_dpad: u8,
    pub joyp_btns: u8,
    pub joyp_dpad_prev: u8,
    pub joyp_btns_prev: u8,
    pub div: u8,
    pub tima: u8,
    pub tma: u8,
    pub tac: u8,
    pub div_total: u32,
    pub lcdc: u8,
    pub stat_w: u8,
    pub scy: u8,
    pub scx: u8,
    pub ly: u8,
    pub lyc: u8,
    pub bgp: u8,
    pub obp0: u8,
    pub obp1: u8,
    pub wy: u8,
    pub wx: u8,
    pub ppu_line_cycle: u32,
    pub ppu_mode: u8,
    pub lcd_on_delay: u32,
    pub framebuffer: Vec<u8>,
    pub sb: u8,
    pub sc: u8,
    pub div_counter: u16,
    pub timer_accum: u32,
    pub div_sub: u8,
    pub tima_reload_delay: u32,
    pub win_line: u8,
    pub dbg_window_log_count: u32,
    pub dbg_pixel_log_count: u32,
    pub line_base_scx: u8,
    pub line_base_scy: u8,
    pub line_base_wx: u8,
    pub line_base_bgp: u8,
    pub win_tilemap_base: u16,
    pub win_signed: bool,
    pub scan_events: Vec<RegEvent>,
    pub dbg_lcdc_first_write_done: bool,
    pub dbg_vram_first_write_done: bool,
    pub dma_active: bool,
    pub dma_pos: u16,
    pub dma_start_delay: u32,
    pub dma_cycle_accum: u32,
    pub dma_accum: u32,
    pub dma_src_base: u16,
    pub debug_enabled: bool,
}

impl BusIO {
    /// The power-on I/O state: interrupts clear, no key pressed, no row selected, timer
    /// stopped, LCD off in mode 2, BGP 0xFC, object palettes 0xFF, a blank frame, PPU tracing
    /// off.
    pub fn new() -> (r: BusIO)
        ensures
            r.wf(),
            r.ie == 0 && r.ifl == 0 && r.p1 == 0xFF && r.p1_sel == 0x30,
            r.joyp_dpad == 0x0F && r.joyp_btns == 0x0F,
            r.joyp_dpad_prev == 0x0F && r.joyp_btns_prev == 0x0F,
            r.div == 0 && r.tima == 0 && r.tma == 0 && r.tac == 0 && r.div_total == 0,
            r.lcdc == 0 && r.stat_w == 0 && r.scy == 0 && r.scx == 0 && r.ly == 0 && r.lyc == 0,
            r.bgp == 0xFC && r.obp0 == 0xFF && r.obp1 == 0xFF && r.wy == 0 && r.wx == 0,
            r.ppu_line_cycle == 0 && r.ppu_mode == 2 && r.lcd_on_delay == 0,
            r.framebuffer@ == Seq::new(23040, |i: int| 0u8),
            r.sb == 0 && r.sc == 0 && r.div_counter == 0 && r.timer_accum == 0 && r.div_sub == 0,
            r.tima_reload_delay == 0 && r.win_line == 0,
            r.line_base_bgp == 0xFC && r.win_tilemap_base == 0x9800 && r.win_signed,
            r.scan_events@.len() == 0,
            !r.dma_active && r.dma_pos == 0 && r.dma_start_delay == 0 && r.dma_accum == 0,
            r.dma_src_base == 0,
            !r.debug_enabled,
    {
        let r = BusIO {
            ie: 0x00,
            ifl: 0x00,
            p1: 0xFF,
            p1_sel: 0x30,
            joyp_dpad: 0x0F,
            joyp_btns: 0x0F,
            joyp_dpad_prev: 0x0F,
            joyp_btns_prev: 0x0F,
            div: 0x00,
            tima: 0x00,
            tma: 0x00,
            tac: 0x00,
            div_total: 0,
            lcdc: 0x00,
            stat_w: 0x00,
            scy: 0x00,
            scx: 0x00,
            ly: 0x00,
            lyc: 0x00,
            bgp: 0xFC,
            obp0: 0xFF,
            obp1: 0xFF,
            wy: 0x00,
            wx: 0x00,
            ppu_line_cycle: 0,
            ppu_mode: 2,
            lcd_on_delay: 0,
            framebuffer: vec![0u8; 23040],
            sb: 0,
            sc: 0,
            div_counter: 0,
            timer_accum: 0,
            div_sub: 0,
            tima_reload_delay: 0,
            win_line: 0,
            dbg_window_log_count: 0,
            dbg_pixel_log_count: 0,
            line_base_scx: 0,
            line_base_scy: 0,
            line_base_wx: 0,
            line_base_bgp: 0xFC,
            win_tilemap_base: 0x9800,
            win_signed: true,
            scan_events: Vec::with_capacity(64),
            dbg_lcdc_first_write_done: false,
            dbg_vram_first_write_done: false,
            dma_active: false,
            dma_pos: 0,
            dma_start_delay: 0,
            dma_cycle_accum: 0,
            dma_accum: 0,
            dma_src_base: 0,
            debug_enabled: false,
        };
        proof {
            assert(r.framebuffer@ =~= Seq::new(23040, |i: int| 0u8));
        }
        r
    }

    /// Takes new joypad rows (active low, low nibbles): a key that went from released in the
    /// current rows to pressed in the new ones requests the joypad interrupt (IF bit 4); the
    /// current rows become the previous ones.
    pub fn update_joypad(&mut self, dpad: u8, btns: u8)
        ensures
            final(self).ifl == (if ((old(self).joyp_dpad & !dpad) & 0x0F) != 0 || ((old(
                self,
            ).joyp_btns & !btns) & 0x0F) != 0 {
                old(self).ifl | 0x10
            } else {
                old(self).ifl
            }),
            final(self).joyp_dpad_prev == old(self).joyp_dpad,
            final(self).joyp_btns_prev == old(self).joyp_btns,
            final(self).joyp_dpad == dpad,
            final(self).joyp_btns == btns,
            *final(self) == (BusIO {
                ifl: final(self).ifl,
                joyp_dpad_prev: final(self).joyp_dpad_prev,
                joyp_btns_prev: final(self).joyp_btns_prev,
                joyp_dpad: dpad,
                joyp_btns: btns,
                ..*old(self)
            }),
    {
        let dpad_pressed = (self.joyp_dpad & !dpad) & 0x0F;
        let btns_pressed = (self.joyp_btns & !btns) & 0x0F;
        if dpad_pressed != 0 || btns_pressed != 0 {
            self.ifl = self.ifl | 0x10;
        }
        self.joyp_dpad_prev = self.joyp_dpad;
        self.joyp_btns_prev = self.joyp_btns;
        self.joyp_dpad = dpad;
        self.joyp_btns = btns;
    }

    /// Whether an OAM DMA transfer is copying (started, unfinished, past its start delay).
    pub fn is_dma_active(&self) -> (r: bool)
        ensures
            r == (self.dma_active && self.dma_pos < 160 && self.dma_start_delay == 0),
    {
        self.dma_active && self.dma_pos < 160 && self.dma_start_delay == 0
    }

    /// IE as stored.
    pub fn get_ie_raw(&self) -> (r: u8)
        ensures
            r == self.ie,
    {
        self.ie
    }

    /// IF as read: the unused bits 5-7 read 1.
    pub fn get_if_raw(&self) -> (r: u8)
        ensures
            r == self.ifl | 0xE0,
    {
        self.ifl | 0xE0
    }

    /// Sets IF to the five interrupt bits of `v`.
    pub fn set_if_raw(&mut self, v: u8)
        ensures
            *final(self) == (BusIO { ifl: v & 0x1F, ..*old(self) }),
    {
        self.ifl = v & 0x1F;
    }

    /// Takes new joypad rows, keeping their low nibbles.
    pub fn set_joypad_rows(&mut self, dpad: u8, btns: u8)
        ensures
            final(self).joyp_dpad == dpad & 0x0F,
            final(self).joyp_btns == btns & 0x0F,
            final(self).joyp_dpad_prev == old(self).joyp_dpad,
            final(self).joyp_btns_prev == old(self).joyp_btns,
            final(self).ifl == (if ((old(self).joyp_dpad & !(dpad & 0x0F)) & 0x0F) != 0 || ((
            old(self).joyp_btns & !(btns & 0x0F)) & 0x0F) != 0 {
                old(self).ifl | 0x10
            } else {
                old(self).ifl
            }),
    {
        self.update_joypad(dpad & 0x0F, btns & 0x0F);
    }

    /// The frame of shades, row-major.
    pub fn framebuffer(&self) -> (r: &[u8])
        ensures
            r@ == self.framebuffer@,
    {
        self.framebuffer.as_slice()
    }
}

/// The t-cycles between TIMA increments for the TAC frequency bits: 1024, 16, 64, 256.
pub open spec fn tima_period(tac: u8) -> u32 {
    let f = tac & 0x03;
    if f == 0 {
        1024
    } else if f == 1 {
        16
    } else if f == 2 {
        64
    } else {
        256
    }
}

/// TIMA and its reload delay after `n` timer ticks: ticks are ignored while a reload is
/// pending; TIMA counts up, and on overflow becomes 0 with a 4-cycle reload pending.
pub open spec fn tima_ticked(tima: u8, delay: u32, n: int) -> (u8, u32) {
    if delay > 0 || n <= 0 {
        (tima, delay)
    } else if tima + n <= 255 {
        ((tima + n) as u8, 0)
    } else {
        (0, 4)
    }
}

/// The I/O registers after the divider advanced by `c` t-cycles: the cycle counter wraps at
/// 2^32, and every 256 of them count DIV up once.
pub open spec fn div_after(io: BusIO, c: u32) -> BusIO {
    let x = (io.div_total + c) % 0x1_0000_0000;
    BusIO { div_total: (x % 256) as u32, div: ((io.div + x / 256) % 256) as u8, ..io }
}

/// The I/O registers after the timer ran `c` t-cycles: with TAC bit 2 set, the accumulated
/// cycles (wrapping at 2^32) give one tick per period, and a pending reload that runs out in
/// these cycles loads TMA into TIMA and requests the timer interrupt.
pub open spec fn timer_after(io: BusIO, c: u32) -> BusIO {
    if io.tac & 0x04 == 0 {
        io
    } else {
        let x = (io.timer_accum + c) % 0x1_0000_0000;
        let p = tima_period(io.tac);
        let t = tima_ticked(io.tima, io.tima_reload_delay, x / p as int);
        let fires = t.1 > 0 && c >= t.1;
        BusIO {
            timer_accum: (x % p as int) as u32,
            tima: if fires {
                io.tma
            } else {
                t.0
            },
            tima_reload_delay: if fires {
                0
            } else if t.1 > 0 {
                (t.1 - c) as u32
            } else {
                0
            },
            ifl: if fires {
                io.ifl | 0x04
            } else {
                io.ifl
            },
            ..io
        }
    }
}

impl BusIO {
    fn div_advance(&mut self, c: u32)
        ensures
            *final(self) == div_after(*old(self), c),
    {
        self.div_total = self.div_total.wrapping_add(c);
        let ghost x = self.div_total as int;
        let ghost mut k: int = 0;
        while self.div_total >= 256
            invariant
                self.div_total as int + 256 * k == x,
                0 <= k,
                x == (old(self).div_total + c) % 0x1_0000_0000,
                *self == (BusIO {
                    div_total: self.div_total,
                    div: ((old(self).div + k) % 256) as u8,
                    ..*old(self)
                }),
            decreases self.div_total,
        {
            self.div_total = self.div_total - 256;
            self.div = self.div.wrapping_add(1);
            proof {
                k = k + 1;
            }
        }
        proof {
            vstd::arithmetic::div_mod::lemma_fundamental_div_mod_converse(x, 256, k, self.div_total as int);
        }
    }

    fn timer_tick(&mut self, c: u32)
        ensures
            *final(self) == timer_after(*old(self), c),
    {
        if (self.tac & 0x04) == 0 {
            return;
        }
        let period: u32 = match self.tac & 0x03 {
            0 => 1024,
            1 => 16,
            2 => 64,
            _ => 256,
        };
        proof {
            crate::bits::lemma_u8_bits(self.tac);
        }
        self.timer_accum = self.timer_accum.wrapping_add(c);
        let ghost x = self.timer_accum as int;
        let ghost mut k: int = 0;
        while self.timer_accum >= period
            invariant
                period == tima_period(old(self).tac),
                period > 0,
                0 <= k,
                self.timer_accum as int + k * period == x,
                x == (old(self).timer_accum + c) % 0x1_0000_0000,
                (self.tima, self.tima_reload_delay) == tima_ticked(old(self).tima, old(self).tima_reload_delay, k),
                *self == (BusIO {
                    timer_accum: self.timer_accum,
                    tima: self.tima,
                    tima_reload_delay: self.tima_reload_delay,
                    ..*old(self)
                }),
            decreases self.timer_accum,
        {
            self.timer_accum = self.timer_accum - period;
            proof {
                k = k + 1;
            }
            if self.tima_reload_delay > 0 {
                continue;
            }
            if self.tima == 0xFF {
                self.tima = 0;
                self.tima_reload_delay = 4;
            } else {
                self.tima = self.tima + 1;
            }
        }
        proof {
            vstd::arithmetic::div_mod::lemma_fundamental_div_mod_converse(x, period as int, k, self.timer_accum as int);
        }
        if self.tima_reload_delay > 0 {
            if c >= self.tima_reload_delay {
                self.tima_reload_delay = 0;
                self.tima = self.tma;
                self.ifl = self.ifl | 0x04;
            } else {
                self.tima_reload_delay = self.tima_reload_delay - c;
            }
        }
    }
}

/// The memory after `k` bytes of OAM DMA from page base `src`, starting at OAM position `pos`:
/// each copies the byte at `src + position` (wrapping) to `0xFE00 + position`, in order.
pub open spec fn oam_copied(ram: Seq<u8>, src: u16, pos: int, k: nat) -> Seq<u8>
    decreases k,
{
    if k == 0 {
        ram
    } else {
        let prev = oam_copied(ram, src, pos, (k - 1) as nat);
        let p = pos + k - 1;
        prev.update(0xFE00 + p, prev[(src + p) % 0x10000])
    }
}

/// How many bytes OAM DMA copies with `acc` cycles accumulated at position `pos`: one per 4
/// cycles, up to the end of OAM (160 bytes).
pub open spec fn dma_copies(acc: int, pos: int) -> nat {
    if pos >= 160 {
        0
    } else if acc / 4 < 160 - pos {
        (acc / 4) as nat
    } else {
        (160 - pos) as nat
    }
}

/// The DMA registers after OAM DMA ran `c` t-cycles: the start delay runs down first; after
/// it, cycles accumulate and each 4 of them copy one byte; the transfer ends at position 160.
pub open spec fn dma_after(io: BusIO, c: u32) -> BusIO {
    if !io.dma_active {
        io
    } else if io.dma_start_delay > 0 {
        BusIO {
            dma_start_delay: if c >= io.dma_start_delay {
                0
            } else {
                (io.dma_start_delay - c) as u32
            },
            ..io
        }
    } else {
        let acc = io.dma_accum + c;
        let k = dma_copies(acc, io.dma_pos as int);
        let pos = io.dma_pos + k;
        BusIO { dma_accum: (acc - 4 * k) as u32, dma_pos: pos as u16, dma_active: pos < 160, ..io }
    }
}

/// The memory after OAM DMA ran `c` t-cycles from the registers `io`.
pub open spec fn dma_ram_after(io: BusIO, ram: Seq<u8>, c: u32) -> Seq<u8> {
    if io.dma_active && io.dma_start_delay == 0 {
        oam_copied(ram, io.dma_src_base, io.dma_pos as int, dma_copies(io.dma_accum + c, io.dma_pos as int))
    } else {
        ram
    }
}

impl BusIO {
    fn dma_tick(&mut self, c: u32, mem: &mut BusMem)
        requires
            old(mem).wf(),
            old(self).dma_active && old(self).dma_start_delay == 0 ==> old(self).dma_accum + c <= u32::MAX,
        ensures
            *final(self) == dma_after(*old(self), c),
            final(mem).wf(),
            final(mem).ram@ == dma_ram_after(*old(self), old(mem).ram@, c),
            final(mem).rom == old(mem).rom && final(mem).rom_banks == old(mem).rom_banks,
            final(mem).mbc == old(mem).mbc && final(mem).ext_ram == old(mem).ext_ram,
    {
        if !self.dma_active {
            return;
        }
        if self.dma_start_delay > 0 {
            if c >= self.dma_start_delay {
                self.dma_start_delay = 0;
            } else {
                self.dma_start_delay = self.dma_start_delay - c;
            }
            return;
        }
        self.dma_accum = self.dma_accum + c;
        let ghost acc = self.dma_accum as int;
        let ghost ram0 = mem.ram@;
        let ghost mut i: nat = 0;
        while self.dma_accum >= 4 && self.dma_pos < 160
            invariant
                mem.wf(),
                mem.rom == old(mem).rom && mem.rom_banks == old(mem).rom_banks,
                mem.mbc == old(mem).mbc && mem.ext_ram == old(mem).ext_ram,
                ram0 == old(mem).ram@,
                acc == old(self).dma_accum + c,
                self.dma_accum as int == acc - 4 * i,
                self.dma_pos as int == old(self).dma_pos + i,
                old(self).dma_pos < 160 ==> i <= dma_copies(acc, old(self).dma_pos as int),
                old(self).dma_pos >= 160 ==> i == 0,
                mem.ram@ == oam_copied(ram0, old(self).dma_src_base, old(self).dma_pos as int, i),
                *self == (BusIO { dma_accum: self.dma_accum, dma_pos: self.dma_pos, ..*old(self) }),
            decreases self.dma_accum,
        {
            self.dma_accum = self.dma_accum - 4;
            let src = self.dma_src_base.wrapping_add(self.dma_pos);
            let val = mem.ram.read(src);
            mem.ram.write(0xFE00u16 + self.dma_pos, val);
            self.dma_pos = self.dma_pos + 1;
            proof {
                i = i + 1;
            }
        }
        proof {
            assert(i == dma_copies(acc, old(self).dma_pos as int));
        }
        if self.dma_pos >= 160 {
            self.dma_active = false;
        }
    }
}

/// The background color index at column `x` of line LY, from the current scroll registers,
/// tile map and tile data selection.
pub open spec fn io_bg_color(io: BusIO, ram: Seq<u8>, x: u16) -> u8 {
    let v = ((io.ly as u16 + io.scy as u16) as u16) & 0xFF;
    let tilemap: u16 = if io.lcdc & 0x08 != 0 {
        0x9C00
    } else {
        0x9800
    };
    let h = ((x + io.scx as u16) as u16) & 0xFF;
    let map_index = (((v >> 3) & 31) * 32 + ((h >> 3) & 31)) as u16;
    let tile_id = ram[(tilemap + map_index) as int];
    let addr = tile_row_addr(tile_id, io.lcdc & 0x10 == 0, v & 7);
    let lo = ram[addr as int];
    let hi = ram[(addr + 1) as int];
    color_index(lo, hi, (7 - (h & 7)) as u8)
}

/// The background shade at column `x` of line LY: its color index through BGP.
pub open spec fn io_bg_shade(io: BusIO, ram: Seq<u8>, x: u16) -> u8 {
    shade_of(io.bgp, io_bg_color(io, ram, x))
}

/// The window color index at column `x` of line LY: the window starts at WX - 7 and shows the
/// row given by the window line counter, from the LCDC-selected window tile map.
pub open spec fn io_win_color(io: BusIO, ram: Seq<u8>, x: int) -> u8 {
    let window_x = (x - (io.wx as int - 7)) as u16;
    let tilemap: u16 = if io.lcdc & 0x40 != 0 {
        0x9C00
    } else {
        0x9800
    };
    let wl = io.win_line as u16;
    let map_index = (((wl >> 3) & 31) * 32 + ((window_x >> 3) & 31)) as u16;
    let tile_id = ram[(tilemap + map_index) as int];
    let addr = tile_row_addr(tile_id, io.lcdc & 0x10 == 0, wl & 7);
    color_index(ram[addr as int], ram[(addr + 1) as int], (7 - (window_x & 7)) as u8)
}

/// The window shade at column `x` of line LY: its color index through BGP.
pub open spec fn io_win_shade(io: BusIO, ram: Seq<u8>, x: int) -> u8 {
    shade_of(io.bgp, io_win_color(io, ram, x))
}

/// Whether the window covers column `x` of line LY: window and background enabled, WY at or
/// above LY, and `x` at or right of WX - 7 (which is left of column 160).
pub open spec fn window_covers(io: BusIO, x: int) -> bool {
    &&& io.lcdc & 0x20 != 0
    &&& io.lcdc & 0x01 != 0
    &&& io.wy <= io.ly
    &&& io.wx as int - 7 < 160
    &&& x >= io.wx as int - 7
}

/// The shade of column `x` of line LY before sprites: the window where it covers the column,
/// else the background when enabled, else 0.
pub open spec fn io_line_shade(io: BusIO, ram: Seq<u8>, x: int) -> u8 {
    if window_covers(io, x) {
        io_win_shade(io, ram, x)
    } else if io.lcdc & 0x01 != 0 {
        io_bg_shade(io, ram, x as u16)
    } else {
        0
    }
}

/// The color index of column `x` of line LY before sprites, as sprite priority sees it.
pub open spec fn io_line_color(io: BusIO, ram: Seq<u8>, x: int) -> u8 {
    if window_covers(io, x) {
        io_win_color(io, ram, x)
    } else if io.lcdc & 0x01 != 0 {
        io_bg_color(io, ram, x as u16)
    } else {
        0
    }
}

/// Sprite height in lines: 16 with LCDC bit 2, else 8.
pub open spec fn sprite_rows(lcdc: u8) -> int {
    if lcdc & 0x04 != 0 {
        16
    } else {
        8
    }
}

/// The screen Y of the sprite whose OAM entry starts at offset `a`.
pub open spec fn oam_y(ram: Seq<u8>, a: u16) -> int {
    ram[0xFE00 + a as int] - 16
}

/// The screen X of the sprite whose OAM entry starts at offset `a`.
pub open spec fn oam_x(ram: Seq<u8>, a: u16) -> int {
    ram[0xFE00 + a as int + 1] - 8
}

/// Whether the sprite at OAM offset `a` covers line `ly`.
pub open spec fn sprite_on_line(ram: Seq<u8>, ly: u8, rows: int, a: u16) -> bool {
    oam_y(ram, a) <= ly < oam_y(ram, a) + rows
}

/// The OAM offsets of the sprites drawn on line `ly`, from the first `n` OAM entries: those
/// covering the line, in OAM order, at most ten.
pub open spec fn line_sprites(ram: Seq<u8>, ly: u8, rows: int, n: nat) -> Seq<u16>
    decreases n,
{
    if n == 0 {
        Seq::empty()
    } else {
        let p = line_sprites(ram, ly, rows, (n - 1) as nat);
        let a = (4 * (n - 1)) as u16;
        if p.len() < 10 && sprite_on_line(ram, ly, rows, a) {
            p.push(a)
        } else {
            p
        }
    }
}

/// The sprites picked from the first `n` entries are at most ten distinct entry offsets,
/// in increasing order, each covering the line.
pub(crate) proof fn lemma_line_sprites(ram: Seq<u8>, ly: u8, rows: int, n: nat)
    requires
        n <= 40,
    ensures
        line_sprites(ram, ly, rows, n).len() <= 10,
        forall|i: int|
            0 <= i < line_sprites(ram, ly, rows, n).len() ==> {
                let a = #[trigger] line_sprites(ram, ly, rows, n)[i];
                &&& a % 4 == 0
                &&& a < 4 * n
                &&& sprite_on_line(ram, ly, rows, a)
            },
        forall|i: int, j: int|
            0 <= i < j < line_sprites(ram, ly, rows, n).len() ==> line_sprites(ram, ly, rows, n)[i]
                < line_sprites(ram, ly, rows, n)[j],
    decreases n,
{
    if n > 0 {
        lemma_line_sprites(ram, ly, rows, (n - 1) as nat);
    }
}

/// Once ten sprites are picked, later entries add none.
pub(crate) proof fn lemma_line_sprites_full(ram: Seq<u8>, ly: u8, rows: int, n: nat, m: nat)
    requires
        n <= m,
        line_sprites(ram, ly, rows, n).len() >= 10,
    ensures
        line_sprites(ram, ly, rows, m) == line_sprites(ram, ly, rows, n),
    decreases m,
{
    if m > n {
        lemma_line_sprites_full(ram, ly, rows, n, (m - 1) as nat);
    }
}

/// The sprites picked from the first `n` entries begin the sprites picked from the first `m`.
pub(crate) proof fn lemma_line_sprites_prefix(ram: Seq<u8>, ly: u8, rows: int, n: nat, m: nat)
    requires
        n <= m,
    ensures
        line_sprites(ram, ly, rows, n).len() <= line_sprites(ram, ly, rows, m).len(),
        forall|k: int|
            0 <= k < line_sprites(ram, ly, rows, n).len() ==> line_sprites(ram, ly, rows, m)[k]
                == #[trigger] line_sprites(ram, ly, rows, n)[k],
    decreases m,
{
    if m > n {
        lemma_line_sprites_prefix(ram, ly, rows, n, (m - 1) as nat);
    }
}

/// Drawing order between two sprites: smaller X first, then smaller OAM offset.
pub open spec fn sprite_before(ram: Seq<u8>, a: u16, b: u16) -> bool {
    oam_x(ram, a) < oam_x(ram, b) || (oam_x(ram, a) == oam_x(ram, b) && a < b)
}

/// The address of the tile row the sprite at OAM offset `a` shows on line LY, after vertical
/// flip and 8x16 tile pairing.
pub open spec fn sprite_row_addr(lcdc: u8, ly: u8, ram: Seq<u8>, a: u16) -> int {
    let rows = sprite_rows(lcdc);
    let tile = ram[0xFE00 + a as int + 2];
    let flags = ram[0xFE00 + a as int + 3];
    let r0 = ly - oam_y(ram, a);
    let r1 = if flags & 0x40 != 0 {
        rows - 1 - r0
    } else {
        r0
    };
    let t = if rows == 16 {
        if r1 >= 8 {
            (tile & 0xFE) | 0x01
        } else {
            tile & 0xFE
        }
    } else {
        tile
    };
    let row = if rows == 16 && r1 >= 8 {
        r1 - 8
    } else {
        r1
    };
    0x8000 + t as int * 16 + row * 2
}

/// The color index of the sprite at OAM offset `a` at screen column `x` of line LY (0 outside
/// its eight columns), mirrored by flag bit 5.
pub open spec fn sprite_color(lcdc: u8, ly: u8, ram: Seq<u8>, a: u16, x: int) -> u8 {
    let px = x - oam_x(ram, a);
    let addr = sprite_row_addr(lcdc, ly, ram, a);
    let bit = if ram[0xFE00 + a as int + 3] & 0x20 != 0 {
        px
    } else {
        7 - px
    };
    if 0 <= px < 8 {
        color_index(ram[addr], ram[addr + 1], bit as u8)
    } else {
        0
    }
}

/// Whether the sprite at OAM offset `a` shows a pixel at column `x` of line `ly` over
/// background color index `bgc` when no other sprite is in front: a non-zero color, not
/// hidden behind background colors 1-3 by its priority bit.
pub open spec fn sprite_visible(lcdc: u8, ly: u8, ram: Seq<u8>, a: u16, x: int, bgc: u8) -> bool {
    &&& sprite_color(lcdc, ly, ram, a, x) != 0
    &&& !(ram[0xFE00 + a as int + 3] & 0x80 != 0 && bgc != 0)
}

/// The shade of the sprite at OAM offset `a` at column `x` of line `ly`: its color through
/// `obp0` or, with flag bit 4, `obp1`.
pub open spec fn obj_shade(obp0: u8, obp1: u8, lcdc: u8, ly: u8, ram: Seq<u8>, a: u16, x: int) -> u8 {
    let pal = if ram[0xFE00 + a as int + 3] & 0x10 != 0 {
        obp1
    } else {
        obp0
    };
    shade_of(pal, sprite_color(lcdc, ly, ram, a, x))
}

/// Whether the sprite at OAM offset `a` shows a pixel at column `x` of line LY over the
/// background and window.
pub open spec fn sprite_shows(io: BusIO, ram: Seq<u8>, a: u16, x: int) -> bool {
    sprite_visible(io.lcdc, io.ly, ram, a, x, io_line_color(io, ram, x))
}

/// The shade of the sprite at OAM offset `a` at column `x` of line LY.
pub open spec fn sprite_shade(io: BusIO, ram: Seq<u8>, a: u16, x: int) -> u8 {
    obj_shade(io.obp0, io.obp1, io.lcdc, io.ly, ram, a, x)
}

/// The shade of column `x` of line LY with sprites on: among the sprites drawn on the line
/// that show a pixel there, the first in drawing order wins; with none, the background or
/// window shade.
pub open spec fn io_pixel_shade(io: BusIO, ram: Seq<u8>, x: int, shade: u8) -> bool {
    let sel = line_sprites(ram, io.ly, sprite_rows(io.lcdc), 40);
    if exists|i: int| 0 <= i < sel.len() && sprite_shows(io, ram, #[trigger] sel[i], x) {
        exists|i: int|
            #![trigger sel[i]]
            0 <= i < sel.len() && sprite_shows(io, ram, sel[i], x) && shade == sprite_shade(
                io,
                ram,
                sel[i],
                x,
            ) && forall|j: int|
                0 <= j < sel.len() && j != i && sprite_shows(io, ram, #[trigger] sel[j], x)
                    ==> sprite_before(ram, sel[i], sel[j])
    } else {
        shade == io_line_shade(io, ram, x)
    }
}

/// Only the frame and the latched window tile map and addressing mode differ.
pub open spec fn frame_only(a: BusIO, b: BusIO) -> bool {
    b == (BusIO {
        framebuffer: b.framebuffer,
        win_tilemap_base: b.win_tilemap_base,
        win_signed: b.win_signed,
        ..a
    })
}

impl BusIO {
    fn calc_tile_addr(tile_id: u8, signed: bool, row_in_tile: u16) -> (r: u16)
        requires
            row_in_tile < 8,
        ensures
            r == tile_row_addr(tile_id, signed, row_in_tile),
            0x8000 <= r <= 0x97FE,
    {
        Bus::bg_tile_row_addr(tile_id, signed, row_in_tile)
    }

    fn get_pixel_color(lo: u8, hi: u8, bit: u8) -> (r: u8)
        requires
            bit < 8,
        ensures
            r == color_index(lo, hi, bit),
            r <= 3,
    {
        Bus::pixel_color(lo, hi, bit)
    }

    fn read_sprite_oam(mem: &BusMem, oam_idx: u16) -> (r: (i16, i16, u8, u8))
        requires
            mem.wf(),
            oam_idx < 160,
        ensures
            r.0 == mem.ram@[0xFE00 + oam_idx as int] - 16,
            r.1 == mem.ram@[0xFE00 + oam_idx as int + 1] - 8,
            r.2 == mem.ram@[0xFE00 + oam_idx as int + 2],
            r.3 == mem.ram@[0xFE00 + oam_idx as int + 3],
    {
        let base = 0xFE00u16 + oam_idx;
        let sprite_y = mem.ram.read(base) as i16 - 16;
        let sprite_x = mem.ram.read(base + 1) as i16 - 8;
        let tile_idx = mem.ram.read(base + 2);
        let flags = mem.ram.read(base + 3);
        (sprite_y, sprite_x, tile_idx, flags)
    }

    fn should_draw_sprite(origin: &[i16], bg_color_idx: &[u8], idx: usize, flags: u8) -> (r: bool)
        requires
            idx < origin@.len(),
            idx < bg_color_idx@.len(),
        ensures
            r == (origin@[idx as int] < 0 && !(flags & 0x80 != 0 && bg_color_idx@[idx as int] != 0)),
    {
        if origin[idx] >= 0 {
            return false;
        }
        let bg_priority = (flags & 0x80) != 0;
        let bg_color = bg_color_idx[idx];
        !(bg_priority && bg_color != 0)
    }

    fn sprite_x_of(mem: &BusMem, oam_idx: u16) -> (r: i16)
        requires
            mem.wf(),
            oam_idx < 160,
        ensures
            r == oam_x(mem.ram@, oam_idx),
    {
        mem.ram.read(0xFE00u16 + oam_idx + 1) as i16 - 8
    }

    /// Orders the selected sprites by X, then by OAM position.
    fn sort_sprites(mem: &BusMem, v: &mut Vec<u16>)
        requires
            mem.wf(),
            forall|i: int| 0 <= i < old(v)@.len() ==> old(v)@[i] < 160,
            forall|i: int, j: int| 0 <= i < j < old(v)@.len() ==> old(v)@[i] != old(v)@[j],
        ensures
            final(v)@.len() == old(v)@.len(),
            forall|i: int| 0 <= i < final(v)@.len() ==> final(v)@[i] < 160,
            forall|e: u16| final(v)@.contains(e) == old(v)@.contains(e),
            forall|i: int, j: int|
                0 <= i < j < final(v)@.len() ==> sprite_before(mem.ram@, final(v)@[i], final(v)@[j]),
    {
        let ghost ram = mem.ram@;
        let n = v.len();
        if n == 0 {
            return;
        }
        let mut i: usize = 1;
        while i < n
            invariant
                mem.wf(),
                mem.ram@ == ram,
                1 <= i <= n,
                v@.len() == n,
                forall|k: int| 0 <= k < n ==> v@[k] < 160,
                forall|e: u16| v@.contains(e) == old(v)@.contains(e),
                forall|p: int, q: int| 0 <= p < q < n ==> v@[p] != v@[q],
                forall|p: int, q: int| 0 <= p < q < i ==> !sprite_before(ram, v@[q], v@[p]),
            decreases n - i,
        {
            let mut j = i;
            while j > 0
                invariant_except_break
                    mem.wf(),
                    mem.ram@ == ram,
                    v@.len() == n,
                    j <= i < n,
                    forall|k: int| 0 <= k < n ==> v@[k] < 160,
                    forall|e: u16| v@.contains(e) == old(v)@.contains(e),
                    forall|p: int, q: int| 0 <= p < q < n ==> v@[p] != v@[q],
                    forall|p: int, q: int|
                        0 <= p < q <= i && p != j && q != j ==> !sprite_before(ram, v@[q], v@[p]),
                    forall|q: int| j < q <= i ==> !sprite_before(ram, v@[q], v@[j as int]),
                ensures
                    mem.wf(),
                    mem.ram@ == ram,
                    v@.len() == n,
                    forall|k: int| 0 <= k < n ==> v@[k] < 160,
                    forall|e: u16| v@.contains(e) == old(v)@.contains(e),
                    forall|p: int, q: int| 0 <= p < q < n ==> v@[p] != v@[q],
                    forall|p: int, q: int| 0 <= p < q <= i ==> !sprite_before(ram, v@[q], v@[p]),
                decreases j,
            {
                let a = v[j - 1];
                let b = v[j];
                let ax = Self::sprite_x_of(mem, a);
                let bx = Self::sprite_x_of(mem, b);
                if ax > bx || (ax == bx && a > b) {
                    let ghost before = v@;
                    v.set(j - 1, b);
                    v.set(j, a);
                    proof {
                        assert forall|e: u16| v@.contains(e) == before.contains(e) by {
                            if before.contains(e) {
                                let k = choose|k: int| 0 <= k < n && before[k] == e;
                                if k == j - 1 {
                                    assert(v@[j as int] == e);
                                } else if k == j {
                                    assert(v@[j - 1] == e);
                                } else {
                                    assert(v@[k] == e);
                                }
                            }
                            if v@.contains(e) {
                                let k = choose|k: int| 0 <= k < n && v@[k] == e;
                                if k == j - 1 {
                                    assert(before[j as int] == e);
                                } else if k == j {
                                    assert(before[j - 1] == e);
                                } else {
                                    assert(before[k] == e);
                                }
                            }
                        }
                    }
                    j = j - 1;
                } else {
                    proof {
                        assert forall|p: int, q: int| 0 <= p < q <= i implies !sprite_before(
                            ram,
                            v@[q],
                            v@[p],
                        ) by {
                            if q == j && p < j - 1 {
                                assert(!sprite_before(ram, v@[j - 1], v@[p]));
                            }
                        }
                    }
                    break;
                }
            }
            i = i + 1;
        }
        proof {
            assert forall|p: int, q: int| 0 <= p < q < n implies sprite_before(ram, v@[p], v@[q]) by {
                assert(!sprite_before(ram, v@[q], v@[p]));
                assert(v@[p] != v@[q]);
            }
        }
    }

    /// Draws line LY into the frame: the background from SCX/SCY, the window from WX/WY and
    /// the window line counter, and up to ten sprites (the first ten in OAM order on the line),
    /// drawn by X then OAM position, a sprite pixel giving way to an earlier sprite and, with
    /// its priority bit, to background colors 1-3. Lines from 144 on are not drawn.
    #[verifier::rlimit(60)]
    pub(crate) fn render_scanline(&mut self, mem: &BusMem)
        requires
            mem.wf(),
            old(self).framebuffer@.len() == 23040,
        ensures
            final(self).framebuffer@.len() == 23040,
            frame_only(*old(self), *final(self)),
            old(self).ly >= 144 ==> *final(self) == *old(self),
            forall|i: int|
                0 <= i < 23040 && !(old(self).ly as int * 160 <= i < old(self).ly as int * 160 + 160)
                    ==> final(self).framebuffer@[i] == old(self).framebuffer@[i],
            old(self).ly < 144 && old(self).lcdc & 0x02 == 0 ==> forall|x: int|
                0 <= x < 160 ==> #[trigger] final(self).framebuffer@[old(self).ly as int * 160 + x]
                    == io_line_shade(*old(self), mem.ram@, x),
            old(self).ly < 144 && old(self).lcdc & 0x02 != 0 ==> forall|x: int|
                0 <= x < 160 ==> io_pixel_shade(
                    *old(self),
                    mem.ram@,
                    x,
                    #[trigger] final(self).framebuffer@[old(self).ly as int * 160 + x],
                ),
    {
        let ly = self.ly;
        if ly >= 144 {
            return;
        }
        let y = ly as usize;
        let lcdc = self.lcdc;
        let ghost ram = mem.ram@;
        let mut shades: Vec<u8> = vec![0u8; 160];
        let mut origin: Vec<i16> = vec![-1i16; 160];
        let mut bg_color_idx: Vec<u8> = vec![0u8; 160];
        proof {
            assert forall|i: int| 0 <= i < 160 implies shades@[i] == 0 && bg_color_idx@[i] == 0
                && origin@[i] == -1 by {
                assert(cloned::<u8>(0u8, shades@[i]));
                assert(cloned::<u8>(0u8, bg_color_idx@[i]));
                assert(cloned::<i16>(-1i16, origin@[i]));
            }
        }
        let ghost init_shades = shades@;
        let ghost init_colors = bg_color_idx@;
        let ghost s0 = *self;
        if (lcdc & 0x01) != 0 {
            let scy = self.scy as u16;
            let scx = self.scx as u16;
            let v = ((ly as u16) + scy) & 0xFF;
            let tilemap: u16 = if (lcdc & 0x08) != 0 {
                0x9C00
            } else {
                0x9800
            };
            let signed = (lcdc & 0x10) == 0;
            let row_in_tile = v & 7;
            let tile_row = (v >> 3) & 31;
            proof {
                crate::bits::lemma_u16_bits(v);
            }
            let mut x: u16 = 0;
            while x < 160
                invariant
                    *self == s0,
                    mem.wf(),
                    mem.ram@ == ram,
                    x <= 160,
                    shades@.len() == 160,
                    bg_color_idx@.len() == 160,
                    origin@.len() == 160,
                    forall|i: int| 0 <= i < 160 ==> bg_color_idx@[i] <= 3,
                    forall|i: int| 0 <= i < 160 ==> origin@[i] < 0,
                    row_in_tile < 8,
                    tile_row < 32,
                    tilemap == (if lcdc & 0x08 != 0 { 0x9C00u16 } else { 0x9800u16 }),
                    signed == (lcdc & 0x10 == 0),
                    v == ((ly as u16 + scy) as u16) & 0xFF,
                    row_in_tile == v & 7,
                    tile_row == (v >> 3) & 31,
                    ly == self.ly,
                    lcdc == self.lcdc,
                    scx == self.scx as u16,
                    scy == self.scy as u16,
                    forall|i: int| 0 <= i < x ==> shades@[i] == io_bg_shade(*self, ram, i as u16),
                    forall|i: int| 0 <= i < x ==> bg_color_idx@[i] == io_bg_color(*self, ram, i as u16),
                decreases 160 - x,
            {
                let h = (x + scx) & 0xFF;
                let tile_col = (h >> 3) & 31;
                proof {
                    crate::bits::lemma_u16_bits(h);
                }
                let map_index = tile_row * 32 + tile_col;
                let tile_id = mem.ram.read(tilemap + map_index);
                let tile_addr = Self::calc_tile_addr(tile_id, signed, row_in_tile);
                let lo = mem.ram.read(tile_addr);
                let hi = mem.ram.read(tile_addr + 1);
                let bit = 7 - ((h & 7) as u8);
                let color = Self::get_pixel_color(lo, hi, bit);
                let shade = Bus::palette_shade(self.bgp, color);
                shades.set(x as usize, shade);
                bg_color_idx.set(x as usize, color);
                origin.set(x as usize, -1);
                x = x + 1;
            }
        }
        let ghost bg_shades = shades@;
        let ghost bg_colors = bg_color_idx@;
        if (lcdc & 0x20) != 0 && (lcdc & 0x01) != 0 {
            let wy = self.wy as i16;
            let wx = self.wx as i16 - 7;
            if wy <= ly as i16 && wx < 160 {
                let tilemap: u16 = if (lcdc & 0x40) != 0 {
                    0x9C00
                } else {
                    0x9800
                };
                let signed = (lcdc & 0x10) == 0;
                self.win_tilemap_base = tilemap;
                self.win_signed = signed;
                let win_line = self.win_line as u16;
                let row_in_tile = win_line & 7;
                let tile_row = (win_line >> 3) & 31;
                proof {
                    crate::bits::lemma_u16_bits(win_line);
                }
                let ghost s1 = *self;
                let mut x: i16 = 0;
                while x < 160
                    invariant
                        mem.wf(),
                        mem.ram@ == ram,
                        *self == s1,
                        frame_only(s0, s1),
                        0 <= x <= 160,
                        -7 <= wx < 160,
                        wx == s0.wx as int - 7,
                        s0.wy <= s0.ly,
                        lcdc == s0.lcdc,
                        lcdc & 0x20 != 0 && lcdc & 0x01 != 0,
                        shades@.len() == 160,
                        bg_color_idx@.len() == 160,
                        origin@.len() == 160,
                        forall|i: int| 0 <= i < 160 ==> bg_color_idx@[i] <= 3,
                        forall|i: int| 0 <= i < 160 ==> origin@[i] < 0,
                        row_in_tile < 8,
                        tile_row < 32,
                        tilemap == (if lcdc & 0x40 != 0 { 0x9C00u16 } else { 0x9800u16 }),
                        signed == (lcdc & 0x10 == 0),
                        win_line == s0.win_line as u16,
                        row_in_tile == win_line & 7,
                        tile_row == (win_line >> 3) & 31,
                        forall|i: int| 0 <= i < x && i >= wx ==> shades@[i] == io_win_shade(s0, ram, i),
                        forall|i: int| 0 <= i < x && i >= wx ==> bg_color_idx@[i] == io_win_color(s0, ram, i),
                        forall|i: int| 0 <= i < 160 && !(0 <= i < x && i >= wx) ==> shades@[i] == bg_shades[i],
                        forall|i: int| 0 <= i < 160 && !(0 <= i < x && i >= wx) ==> bg_color_idx@[i] == bg_colors[i],
                    decreases 160 - x,
                {
                    if x < wx {
                        x = x + 1;
                        continue;
                    }
                    let window_x = (x - wx) as u16;
                    let tile_col = (window_x >> 3) & 31;
                    proof {
                        crate::bits::lemma_u16_bits(window_x);
                    }
                    let map_index = tile_row * 32 + tile_col;
                    let tile_id = mem.ram.read(tilemap + map_index);
                    let tile_addr = Self::calc_tile_addr(tile_id, signed, row_in_tile);
                    let lo = mem.ram.read(tile_addr);
                    let hi = mem.ram.read(tile_addr + 1);
                    let bit = 7 - ((window_x & 7) as u8);
                    let color = Self::get_pixel_color(lo, hi, bit);
                    let shade = Bus::palette_shade(self.bgp, color);
                    let xi = x as usize;
                    shades.set(xi, shade);
                    bg_color_idx.set(xi, color);
                    origin.set(xi, -2);
                    x = x + 1;
                }
            }
        }
        let ghost after_window = *self;
        proof {
            assert forall|i: int| 0 <= i < 160 implies shades@[i] == io_line_shade(s0, ram, i)
                && bg_color_idx@[i] == io_line_color(s0, ram, i) by {
                if !window_covers(s0, i) {
                    if lcdc & 0x01 != 0 {
                        assert(bg_shades[i] == io_bg_shade(s0, ram, i as u16));
                        assert(bg_colors[i] == io_bg_color(s0, ram, i as u16));
                    } else {
                        assert(bg_shades[i] == init_shades[i]);
                        assert(bg_colors[i] == init_colors[i]);
                    }
                }
            }
        }
        let ghost line_shades = shades@;
        if (lcdc & 0x02) != 0 {
            self.draw_sprites(mem, &mut shades, &mut origin, &bg_color_idx);
        }
        let base = y * 160;
        let ghost final_shades = shades@;
        let ghost before_copy = *self;
        let mut x: usize = 0;
        while x < 160
            invariant
                x <= 160,
                y < 144,
                base == y * 160,
                shades@ == final_shades,
                shades@.len() == 160,
                self.framebuffer@.len() == 23040,
                frame_only(before_copy, *self),
                forall|k: int|
                    0 <= k < 23040 && !(base <= k < base + x) ==> self.framebuffer@[k]
                        == before_copy.framebuffer@[k],
                forall|k: int| 0 <= k < x ==> self.framebuffer@[base + k] == shades@[k],
            decreases 160 - x,
        {
            self.framebuffer.set(base + x, shades[x]);
            x = x + 1;
        }
        proof {
            assert forall|k: int| 0 <= k < 160 implies #[trigger] self.framebuffer@[ly as int * 160 + k]
                == shades@[k] by {
                assert(self.framebuffer@[base + k] == shades@[k]);
            }
        }
    }

    /// Draws the sprites of line LY over the line's shades, as `io_pixel_shade` describes.
    /// `origin` marks the columns a sprite has drawn (non-negative) and `colors` holds the
    /// background/window color index of each column.
    fn draw_sprites(&self, mem: &BusMem, shades: &mut Vec<u8>, origin: &mut Vec<i16>, colors: &Vec<u8>)
        requires
            mem.wf(),
            self.ly < 144,
            self.lcdc & 0x02 != 0,
            old(shades)@.len() == 160,
            old(origin)@.len() == 160,
            colors@.len() == 160,
            forall|i: int| 0 <= i < 160 ==> old(origin)@[i] < 0,
            forall|i: int| 0 <= i < 160 ==> colors@[i] == io_line_color(*self, mem.ram@, i),
            forall|i: int| 0 <= i < 160 ==> old(shades)@[i] == io_line_shade(*self, mem.ram@, i),
        ensures
            final(shades)@.len() == 160,
            forall|x: int| 0 <= x < 160 ==> io_pixel_shade(*self, mem.ram@, x, #[trigger] final(shades)@[x]),
    {
        let ghost ram = mem.ram@;
        let ghost io = *self;
        let ly = self.ly;
        let ghost rows = sprite_rows(self.lcdc);
        let sprite_height: i16 = if (self.lcdc & 0x04) != 0 {
            16
        } else {
            8
        };
        let mut sprites_on_line: Vec<u16> = Vec::new();
        let mut oam_idx: u16 = 0;
        while oam_idx < 160
            invariant_except_break
                mem.wf(),
                mem.ram@ == ram,
                oam_idx <= 160,
                oam_idx % 4 == 0,
                sprite_height as int == rows,
                sprite_height == 8 || sprite_height == 16,
                sprites_on_line@ == line_sprites(ram, ly, rows, (oam_idx / 4) as nat),
            ensures
                sprites_on_line@ == line_sprites(ram, ly, rows, 40),
            decreases 160 - oam_idx,
        {
            if sprites_on_line.len() >= 10 {
                proof {
                    lemma_line_sprites_full(ram, ly, rows, (oam_idx / 4) as nat, 40);
                }
                break;
            }
            let sprite_y = mem.ram.read(0xFE00u16 + oam_idx) as i16 - 16;
            if sprite_y <= ly as i16 && (ly as i16) < sprite_y + sprite_height {
                sprites_on_line.push(oam_idx);
            }
            proof {
                assert(((oam_idx + 4) / 4) as nat == (oam_idx / 4) as nat + 1);
                assert(4 * (oam_idx / 4) == oam_idx);
            }
            oam_idx = oam_idx + 4;
        }
        let ghost sel = sprites_on_line@;
        proof {
            lemma_line_sprites(ram, ly, rows, 40);
        }
        Self::sort_sprites(mem, &mut sprites_on_line);
        let ghost srt = sprites_on_line@;
        proof {
            assert forall|k: int| 0 <= k < srt.len() implies srt[k] < 160 && sprite_on_line(
                ram,
                ly,
                rows,
                #[trigger] srt[k],
            ) by {
                assert(srt.contains(srt[k]));
                let i = choose|i: int| 0 <= i < sel.len() && sel[i] == srt[k];
            }
        }
        let ghost sh_line = shades@;
        let mut s: usize = 0;
        while s < sprites_on_line.len()
            invariant
                mem.wf(),
                mem.ram@ == ram,
                io == *self,
                ly == io.ly,
                ly < 144,
                sprite_height as int == rows,
                rows == sprite_rows(io.lcdc),
                sprites_on_line@ == srt,
                s <= srt.len(),
                forall|k: int| 0 <= k < srt.len() ==> srt[k] < 160 && sprite_on_line(ram, ly, rows, #[trigger] srt[k]),
                shades@.len() == 160,
                origin@.len() == 160,
                colors@.len() == 160,
                forall|i: int| 0 <= i < 160 ==> colors@[i] == io_line_color(io, ram, i),
                sprites_drawn(io, ram, srt, s as int, shades@, origin@, sh_line),
            decreases srt.len() - s,
        {
            let oam = sprites_on_line[s];
            let (sprite_y, sprite_x, tile_idx, flags) = Self::read_sprite_oam(mem, oam);
            let diff = ly as i16 - sprite_y;
            let mut sprite_tile_row = diff as u16;
            if (flags & 0x40) != 0 {
                sprite_tile_row = (sprite_height - 1) as u16 - sprite_tile_row;
            }
            let mut actual_tile_idx = tile_idx;
            if sprite_height == 16 {
                actual_tile_idx = tile_idx & 0xFE;
                if sprite_tile_row >= 8 {
                    actual_tile_idx = actual_tile_idx | 0x01;
                    sprite_tile_row = sprite_tile_row - 8;
                }
            }
            let tile_addr = 0x8000u16 + (actual_tile_idx as u16) * 16 + sprite_tile_row * 2;
            assert(tile_addr as int == sprite_row_addr(io.lcdc, io.ly, ram, oam));
            let lo = mem.ram.read(tile_addr);
            let hi = mem.ram.read(tile_addr + 1);
            let palette = if (flags & 0x10) != 0 {
                self.obp1
            } else {
                self.obp0
            };
            let ghost sh0 = shades@;
            let ghost or0 = origin@;
            let mut px: u8 = 0;
            while px < 8
                invariant
                    mem.wf(),
                    mem.ram@ == ram,
                    px <= 8,
                    oam < 160,
                    oam == srt[s as int],
                    sprite_x == oam_x(ram, oam),
                    flags == ram[0xFE00 + oam as int + 3],
                    lo == ram[sprite_row_addr(io.lcdc, io.ly, ram, oam)],
                    hi == ram[sprite_row_addr(io.lcdc, io.ly, ram, oam) + 1],
                    palette == (if flags & 0x10 != 0 { io.obp1 } else { io.obp0 }),
                    shades@.len() == 160,
                    origin@.len() == 160,
                    colors@.len() == 160,
                    forall|i: int| 0 <= i < 160 ==> colors@[i] == io_line_color(io, ram, i),
                    forall|x: int|
                        0 <= x < 160 ==> #[trigger] shades@[x] == (if sprite_x <= x < sprite_x + px
                            && sprite_shows(io, ram, oam, x) && or0[x] < 0 {
                            sprite_shade(io, ram, oam, x)
                        } else {
                            sh0[x]
                        }),
                    forall|x: int|
                        0 <= x < 160 ==> (#[trigger] origin@[x] >= 0) == ((sprite_x <= x < sprite_x + px
                            && sprite_shows(io, ram, oam, x) && or0[x] < 0) || or0[x] >= 0),
                    forall|x: int|
                        0 <= x < 160 && !(sprite_x <= x < sprite_x + px) ==> origin@[x] == or0[x],
                decreases 8 - px,
            {
                let bit = if (flags & 0x20) != 0 {
                    px
                } else {
                    7 - px
                };
                let color = Self::get_pixel_color(lo, hi, bit);
                let screen_x = sprite_x + px as i16;
                assert(color == sprite_color(io.lcdc, io.ly, ram, oam, screen_x as int));
                if color != 0 && 0 <= screen_x && screen_x < 160 {
                    let idx = screen_x as usize;
                    if Self::should_draw_sprite(origin.as_slice(), colors.as_slice(), idx, flags) {
                        let shade = Bus::palette_shade(palette, color);
                        shades.set(idx, shade);
                        origin.set(idx, (oam / 4) as i16);
                    }
                }
                px = px + 1;
            }
            proof {
                assert forall|x: int| 0 <= x < 160 && !(sprite_x <= x < sprite_x + 8) implies !sprite_shows(
                    io,
                    ram,
                    oam,
                    x,
                ) by {}
                lemma_sprite_step(io, ram, srt, s as int, sprite_x as int, sh0, or0, shades@, origin@, sh_line);
            }
            s = s + 1;
        }
        proof {
            assert forall|x: int| 0 <= x < 160 implies io_pixel_shade(io, ram, x, #[trigger] shades@[x]) by {
                lemma_first_in_order(io, ram, sel, srt, x, shades@, origin@, sh_line);
            }
        }
    }
}

/// Whether one of the first `s` sprites of `srt` shows a pixel at column `x`.
pub open spec fn any_shows(io: BusIO, ram: Seq<u8>, srt: Seq<u16>, s: int, x: int) -> bool {
    exists|k: int| 0 <= k < s && sprite_shows(io, ram, #[trigger] srt[k], x)
}

/// Whether `shade` is the shade at column `x` of the first of the first `s` sprites of `srt`
/// that shows a pixel there.
pub open spec fn first_shows(
    io: BusIO,
    ram: Seq<u8>,
    srt: Seq<u16>,
    s: int,
    x: int,
    shade: u8,
) -> bool {
    exists|k: int|
        #![trigger srt[k]]
        0 <= k < s && sprite_shows(io, ram, srt[k], x) && (forall|k2: int|
            0 <= k2 < k ==> !sprite_shows(io, ram, #[trigger] srt[k2], x)) && shade == sprite_shade(
            io,
            ram,
            srt[k],
            x,
        )
}

/// After the first `s` sprites of `srt` are drawn over the line shades `line`: a column is
/// marked in `org` exactly when one of them shows there, and then holds the shade of the
/// first such sprite, else its line shade.
pub open spec fn sprites_drawn(
    io: BusIO,
    ram: Seq<u8>,
    srt: Seq<u16>,
    s: int,
    sh: Seq<u8>,
    org: Seq<i16>,
    line: Seq<u8>,
) -> bool {
    &&& forall|x: int| 0 <= x < 160 ==> any_shows(io, ram, srt, s, x) == (#[trigger] org[x] >= 0)
    &&& forall|x: int|
        0 <= x < 160 && !any_shows(io, ram, srt, s, x) ==> #[trigger] sh[x] == line[x]
    &&& forall|x: int|
        0 <= x < 160 && any_shows(io, ram, srt, s, x) ==> first_shows(io, ram, srt, s, x, #[trigger] sh[x])
}

/// Drawing sprite `s` (at X `sx`) over columns not yet taken extends `sprites_drawn` by one.
proof fn lemma_sprite_step(
    io: BusIO,
    ram: Seq<u8>,
    srt: Seq<u16>,
    s: int,
    sx: int,
    sh0: Seq<u8>,
    or0: Seq<i16>,
    sh1: Seq<u8>,
    or1: Seq<i16>,
    line: Seq<u8>,
)
    requires
        0 <= s < srt.len(),
        sprites_drawn(io, ram, srt, s, sh0, or0, line),
        forall|x: int| 0 <= x < 160 && !(sx <= x < sx + 8) ==> !sprite_shows(io, ram, srt[s], x),
        forall|x: int|
            0 <= x < 160 ==> #[trigger] sh1[x] == (if sx <= x < sx + 8 && sprite_shows(
                io,
                ram,
                srt[s],
                x,
            ) && or0[x] < 0 {
                sprite_shade(io, ram, srt[s], x)
            } else {
                sh0[x]
            }),
        forall|x: int|
            0 <= x < 160 ==> (#[trigger] or1[x] >= 0) == ((sx <= x < sx + 8 && sprite_shows(
                io,
                ram,
                srt[s],
                x,
            ) && or0[x] < 0) || or0[x] >= 0),
    ensures
        sprites_drawn(io, ram, srt, s + 1, sh1, or1, line),
{
    assert forall|x: int| 0 <= x < 160 implies (any_shows(io, ram, srt, s + 1, x) == (or1[x] >= 0))
        && (!any_shows(io, ram, srt, s + 1, x) ==> sh1[x] == line[x]) && (any_shows(
        io,
        ram,
        srt,
        s + 1,
        x,
    ) ==> first_shows(io, ram, srt, s + 1, x, sh1[x])) by {
        let now = sprite_shows(io, ram, srt[s], x);
        if any_shows(io, ram, srt, s, x) {
            assert(first_shows(io, ram, srt, s, x, sh0[x]));
            let k = choose|k: int|
                #![trigger srt[k]]
                0 <= k < s && sprite_shows(io, ram, srt[k], x) && (forall|k2: int|
                    0 <= k2 < k ==> !sprite_shows(io, ram, #[trigger] srt[k2], x)) && sh0[x]
                    == sprite_shade(io, ram, srt[k], x);
            assert(or0[x] >= 0);
            assert(sh1[x] == sh0[x]);
            assert(0 <= k < s + 1 && sprite_shows(io, ram, srt[k], x));
            assert(any_shows(io, ram, srt, s + 1, x));
            assert(first_shows(io, ram, srt, s + 1, x, sh1[x]));
        } else if now {
            assert(or0[x] < 0);
            assert(forall|k2: int| 0 <= k2 < s ==> !sprite_shows(io, ram, #[trigger] srt[k2], x));
            assert(sh1[x] == sprite_shade(io, ram, srt[s], x));
            assert(0 <= s < s + 1 && sprite_shows(io, ram, srt[s], x));
            assert(any_shows(io, ram, srt, s + 1, x));
            assert(first_shows(io, ram, srt, s + 1, x, sh1[x]));
        } else {
            assert(or0[x] < 0);
            assert(sh1[x] == sh0[x]);
            assert forall|k: int| 0 <= k < s + 1 implies !sprite_shows(io, ram, #[trigger] srt[k], x) by {
                if k < s {
                } else {
                    assert(k == s);
                }
            }
            assert(!any_shows(io, ram, srt, s + 1, x));
        }
    }
}

/// Drawing the selected sprites in drawing order leaves at each column the shade
/// `io_pixel_shade` describes.
proof fn lemma_first_in_order(
    io: BusIO,
    ram: Seq<u8>,
    sel: Seq<u16>,
    srt: Seq<u16>,
    x: int,
    sh: Seq<u8>,
    org: Seq<i16>,
    line: Seq<u8>,
)
    requires
        0 <= x < 160,
        sel == line_sprites(ram, io.ly, sprite_rows(io.lcdc), 40),
        srt.len() == sel.len(),
        forall|e: u16| srt.contains(e) == sel.contains(e),
        forall|i: int, j: int| 0 <= i < j < sel.len() ==> sel[i] < sel[j],
        forall|p: int, q: int| 0 <= p < q < srt.len() ==> sprite_before(ram, srt[p], srt[q]),
        sprites_drawn(io, ram, srt, srt.len() as int, sh, org, line),
        line[x] == io_line_shade(io, ram, x),
    ensures
        io_pixel_shade(io, ram, x, sh[x]),
{
    let n = srt.len() as int;
    let e_srt = any_shows(io, ram, srt, n, x);
    let e_sel = exists|i: int| 0 <= i < sel.len() && sprite_shows(io, ram, #[trigger] sel[i], x);
    if e_sel {
        let i = choose|i: int| 0 <= i < sel.len() && sprite_shows(io, ram, #[trigger] sel[i], x);
        assert(sel.contains(sel[i]));
        let k = choose|k: int| 0 <= k < srt.len() && srt[k] == sel[i];
        assert(sprite_shows(io, ram, srt[k], x));
    }
    if e_srt {
        assert(first_shows(io, ram, srt, n, x, sh[x]));
        let k = choose|k: int|
            #![trigger srt[k]]
            0 <= k < n && sprite_shows(io, ram, srt[k], x) && (forall|k2: int|
                0 <= k2 < k ==> !sprite_shows(io, ram, #[trigger] srt[k2], x)) && sh[x]
                == sprite_shade(io, ram, srt[k], x);
        assert(srt.contains(srt[k]));
        let i = choose|i: int| 0 <= i < sel.len() && sel[i] == srt[k];
        assert(sprite_shows(io, ram, sel[i], x));
        assert forall|j: int|
            0 <= j < sel.len() && j != i && sprite_shows(io, ram, #[trigger] sel[j], x) implies sprite_before(
            ram,
            sel[i],
            sel[j],
        ) by {
            assert(sel.contains(sel[j]));
            let m = choose|m: int| 0 <= m < srt.len() && srt[m] == sel[j];
            if j < i {
                assert(sel[j] < sel[i]);
            } else {
                assert(sel[i] < sel[j]);
            }
            assert(m != k);
            if m < k {
                assert(!sprite_shows(io, ram, srt[m], x));
            }
        }
    }
}

/// The dot position in the frame: 456 dots per line, 154 lines.
pub open spec fn frame_dot(io: BusIO) -> int {
    io.ly as int * 456 + io.ppu_line_cycle as int
}

/// Only the PPU's registers differ: LY, the line cycle, the mode, IF, the window line, the
/// frame and the latched window settings.
pub open spec fn ppu_only(a: BusIO, b: BusIO) -> bool {
    b == (BusIO {
        ly: b.ly,
        ppu_line_cycle: b.ppu_line_cycle,
        ppu_mode: b.ppu_mode,
        ifl: b.ifl,
        win_line: b.win_line,
        framebuffer: b.framebuffer,
        win_tilemap_base: b.win_tilemap_base,
        win_signed: b.win_signed,
        ..a
    })
}

/// A state of line `y` of the PPU run from `r`: LY = y, every register of `r` but the PPU's
/// own (line cycle, mode, IF, window line, frame and latched window settings).
pub open spec fn io_line_state(r: BusIO, io: BusIO, y: int) -> bool {
    &&& io.ly as int == y
    &&& io == (BusIO {
        ly: io.ly,
        ppu_line_cycle: io.ppu_line_cycle,
        ppu_mode: io.ppu_mode,
        ifl: io.ifl,
        win_line: io.win_line,
        framebuffer: io.framebuffer,
        win_tilemap_base: io.win_tilemap_base,
        win_signed: io.win_signed,
        ..r
    })
}

/// Whether row `y` of `fb` is the line drawn from `io` over `ram`: background and window
/// shades with sprites off, `io_pixel_shade` with sprites on.
pub open spec fn io_row_drawn(fb: Seq<u8>, io: BusIO, ram: Seq<u8>, y: int) -> bool {
    if io.lcdc & 0x02 == 0 {
        forall|x: int| 0 <= x < 160 ==> #[trigger] fb[y * 160 + x] == io_line_shade(io, ram, x)
    } else {
        forall|x: int| 0 <= x < 160 ==> io_pixel_shade(io, ram, x, #[trigger] fb[y * 160 + x])
    }
}

/// Every visible row that differs between `o` and `n` is drawn from a line state of `r`.
pub open spec fn io_rows_drawn(o: Seq<u8>, n: Seq<u8>, r: BusIO, ram: Seq<u8>) -> bool {
    forall|y: int|
        0 <= y < 144 && !#[trigger] row_same(o, n, y) ==> exists|io: BusIO|
            #[trigger] io_line_state(r, io, y) && io_row_drawn(n, io, ram, y)
}

/// Two frame positions `a` and `b` that agree modulo a frame once `r` more dots have run are
/// equal.
proof fn lemma_dot_cancel(a: int, b: int, r: int, d: int)
    requires
        0 <= a < 70224,
        (a + r) % 70224 == d % 70224,
        b == (d - r) % 70224,
    ensures
        a == b,
{
    crate::gb::bus::lemma_mod_shift(d - r, r, 70224);
    assert(a == b) by (nonlinear_arith)
        requires
            0 <= a < 70224,
            0 <= b < 70224,
            (a + r) % 70224 == (b + r) % 70224,
    {
        let q1 = (a + r) / 70224;
        let q2 = (b + r) / 70224;
        assert(a + r == 70224 * q1 + (a + r) % 70224);
        assert(b + r == 70224 * q2 + (b + r) % 70224);
        assert(a - b == 70224 * (q1 - q2));
    }
}

/// Drawing line `pre.ly` keeps `io_rows_drawn` from `o`.
proof fn lemma_io_rows_step(o: BusIO, pre: BusIO, post: BusIO, ram: Seq<u8>)
    requires
        ppu_only(o, pre),
        pre.ly < 144,
        pre.framebuffer@.len() == 23040,
        io_rows_drawn(o.framebuffer@, pre.framebuffer@, o, ram),
        forall|i: int|
            0 <= i < 23040 && !(pre.ly as int * 160 <= i < pre.ly as int * 160 + 160)
                ==> post.framebuffer@[i] == pre.framebuffer@[i],
        io_row_drawn(post.framebuffer@, pre, ram, pre.ly as int),
    ensures
        io_rows_drawn(o.framebuffer@, post.framebuffer@, o, ram),
{
    let a = o.framebuffer@;
    let b = pre.framebuffer@;
    let c = post.framebuffer@;
    assert forall|y: int| 0 <= y < 144 && !#[trigger] row_same(a, c, y) implies exists|io: BusIO|
        #[trigger] io_line_state(o, io, y) && io_row_drawn(c, io, ram, y) by {
        if y == pre.ly {
            assert(io_line_state(o, pre, y));
        } else {
            assert forall|x: int| 0 <= x < 160 implies b[y * 160 + x] == #[trigger] c[y * 160
                + x] by {
                assert(!(pre.ly as int * 160 <= y * 160 + x < pre.ly as int * 160 + 160));
            }
            if row_same(a, b, y) {
                assert forall|x: int| 0 <= x < 160 implies a[y * 160 + x] == #[trigger] c[y * 160
                    + x] by {
                    assert(a[y * 160 + x] == b[y * 160 + x]);
                    assert(b[y * 160 + x] == c[y * 160 + x]);
                }
                assert(false);
            }
            let io = choose|io: BusIO| io_line_state(o, io, y) && io_row_drawn(b, io, ram, y);
            if io.lcdc & 0x02 == 0 {
                assert forall|x: int| 0 <= x < 160 implies #[trigger] c[y * 160 + x] == io_line_shade(
                    io,
                    ram,
                    x,
                ) by {
                    assert(b[y * 160 + x] == c[y * 160 + x]);
                }
            } else {
                assert forall|x: int| 0 <= x < 160 implies io_pixel_shade(
                    io,
                    ram,
                    x,
                    #[trigger] c[y * 160 + x],
                ) by {
                    assert(b[y * 160 + x] == c[y * 160 + x]);
                }
            }
            assert(io_line_state(o, io, y) && io_row_drawn(c, io, ram, y));
        }
    }
}

impl BusIO {
    /// A frame buffer of 160x144 shades, LY within the frame and the line cycle within the
    /// line.
    pub open spec fn wf(&self) -> bool {
        &&& self.framebuffer@.len() == 23040
        &&& self.ly <= 153
        &&& self.ppu_line_cycle < 456
    }

    #[verifier::rlimit(100)]
    fn ppu_tick(&mut self, c: u32, mem: &BusMem)
        requires
            old(self).wf(),
            mem.wf(),
        ensures
            final(self).wf(),
            ppu_only(*old(self), *final(self)),
            final(self).ifl == old(self).ifl | (final(self).ifl & 0x03),
            old(self).lcdc & 0x80 == 0 ==> final(self).ly == 0 && final(self).ppu_line_cycle == 0
                && final(self).ppu_mode == 0 && final(self).win_line == 0
                && final(self).framebuffer == old(self).framebuffer && final(self).ifl == old(
                self).ifl,
            old(self).lcdc & 0x80 != 0 ==> frame_dot(*final(self)) == (frame_dot(*old(self)) + c)
                % 70224,
            old(self).lcdc & 0x80 != 0 ==> ((final(self).ifl & 1 != 0) == (old(self).ifl & 1 != 0
                || vblank_crossed(frame_dot(*old(self)), c as int))),
            old(self).stat_w & 0x78 == 0 ==> final(self).ifl & 2 == old(self).ifl & 2,
            io_rows_drawn(old(self).framebuffer@, final(self).framebuffer@, *old(self), mem.ram@),
    {
        proof {
            crate::gb::bus::lemma_gain_refl(self.ifl);
            crate::bits::lemma_or_low_bits(self.stat_w);
        }
        if (self.lcdc & 0x80) == 0 {
            self.ppu_mode = 0;
            self.ppu_line_cycle = 0;
            self.win_line = 0;
            self.ly = 0;
            return;
        }
        let mut remain = c;
        while remain > 0
            invariant
                self.wf(),
                mem.wf(),
                ppu_only(*old(self), *self),
                self.lcdc == old(self).lcdc,
                self.ifl == old(self).ifl | (self.ifl & 0x03),
                (frame_dot(*self) + remain) % 70224 == (frame_dot(*old(self)) + c) % 70224,
                remain <= c,
                0 <= frame_dot(*old(self)) < 70224,
                (self.ifl & 1 != 0) == (old(self).ifl & 1 != 0 || vblank_crossed(
                    frame_dot(*old(self)),
                    (c - remain) as int,
                )),
                old(self).stat_w & 0x78 == 0 ==> self.ifl & 2 == old(self).ifl & 2,
                io_rows_drawn(old(self).framebuffer@, self.framebuffer@, *old(self), mem.ram@),
            decreases remain,
        {
            let ghost before = *self;
            proof {
                lemma_dot_cancel(
                    frame_dot(before),
                    (frame_dot(*old(self)) + (c - remain)) % 70224,
                    remain as int,
                    frame_dot(*old(self)) + c,
                );
                crate::bits::lemma_or_low_bits(self.ifl);
                crate::bits::lemma_or_low_bits(self.stat_w);
            }
            let (mode, boundary): (u8, u32) = if self.ly >= 144 {
                (1, 456)
            } else if self.ppu_line_cycle < 80 {
                (2, 80)
            } else if self.ppu_line_cycle < 252 {
                (3, 252)
            } else {
                (0, 456)
            };
            if mode != self.ppu_mode {
                self.ppu_mode = mode;
                let ghost f = self.ifl;
                if mode == 2 {
                    if (self.stat_w & 0x20) != 0 {
                        self.ifl = self.ifl | 0x02;
                    }
                } else if mode == 1 {
                    if (self.stat_w & 0x10) != 0 {
                        self.ifl = self.ifl | 0x02;
                    }
                } else if mode == 0 {
                    if (self.stat_w & 0x08) != 0 {
                        self.ifl = self.ifl | 0x02;
                    }
                }
                proof {
                    crate::gb::bus::lemma_gain_irq(old(self).ifl, f, 2);
                    crate::gb::bus::lemma_gain_irq(old(self).ifl, f, 0);
                    crate::bits::lemma_or_low_bits(f);
                }
            }
            let room = boundary - self.ppu_line_cycle;
            let step = if room < remain {
                room
            } else {
                remain
            };
            self.ppu_line_cycle = self.ppu_line_cycle + step;
            remain = remain - step;
            if self.ppu_line_cycle >= 456 {
                if self.ly < 144 {
                    let ghost pre = *self;
                    self.render_scanline(mem);
                    proof {
                        lemma_io_rows_step(*old(self), pre, *self, mem.ram@);
                    }
                }
                if self.ly == 143 {
                    let ghost f = self.ifl;
                    self.ifl = self.ifl | 0x01;
                    proof {
                        crate::gb::bus::lemma_gain_irq(old(self).ifl, f, 1);
                        crate::bits::lemma_or_low_bits(f);
                    }
                }
                let window_was_rendered = (self.lcdc & 0x20) != 0 && (self.lcdc & 0x01) != 0
                    && self.ly < 144 && (self.wy as i16) <= (self.ly as i16) && (self.wx as i16 - 7)
                    < 160;
                self.ppu_line_cycle = 0;
                self.ly = self.ly + 1;
                if self.ly > 153 {
                    self.ly = 0;
                    self.win_line = 0;
                } else if window_was_rendered {
                    self.win_line = self.win_line.wrapping_add(1);
                }
                if self.ly == self.lyc && (self.stat_w & 0x40) != 0 {
                    let ghost f = self.ifl;
                    self.ifl = self.ifl | 0x02;
                    proof {
                        crate::gb::bus::lemma_gain_irq(old(self).ifl, f, 2);
                        crate::bits::lemma_or_low_bits(f);
                    }
                }
            }
            proof {
                let d0 = frame_dot(*old(self));
                let u = (c - (remain + step)) as int;
                lemma_dot_cancel(
                    frame_dot(*self),
                    (d0 + (c - remain)) % 70224,
                    remain as int,
                    d0 + c,
                );
                crate::gb::bus::lemma_vblank_extend(
                    d0,
                    u,
                    step as int,
                    before.ly as int,
                    before.ppu_line_cycle as int,
                );
                assert(vblank_at(d0, u + step) == (frame_dot(*self) == 65664));
            }
        }
    }

    /// Advances the timer, OAM DMA and the PPU by `cycles` t-cycles: DIV counts up every 256
    /// cycles; with TAC bit 2 set TIMA counts once per period, overflowing to 0 with a 4-cycle
    /// reload of TMA and the timer interrupt; OAM DMA copies a byte per 4 cycles after its
    /// start delay; the PPU runs through modes 2, 3, 0 on lines 0-143 and mode 1 on lines
    /// 144-153, drawing each visible line as it ends, requesting VBlank at the end of line 143
    /// and STAT on enabled mode changes and LY=LYC. With the LCD off, LY, the line cycle, the
    /// mode and the window line are held at 0.
    pub fn step(&mut self, cycles: u64, mem: &mut BusMem, apu: &mut BusAPU)
        requires
            old(self).wf(),
            old(mem).wf(),
            cycles <= u32::MAX,
            old(self).dma_active && old(self).dma_start_delay == 0 ==> old(self).dma_accum + cycles
                <= u32::MAX,
        ensures
            final(self).wf(),
            final(mem).wf(),
            final(self).div == div_after(*old(self), cycles as u32).div,
            final(self).div_total == div_after(*old(self), cycles as u32).div_total,
            final(self).tima == timer_after(*old(self), cycles as u32).tima,
            final(self).tima_reload_delay == timer_after(*old(self), cycles as u32).tima_reload_delay,
            final(self).timer_accum == timer_after(*old(self), cycles as u32).timer_accum,
            final(self).dma_active == dma_after(*old(self), cycles as u32).dma_active,
            final(self).dma_pos == dma_after(*old(self), cycles as u32).dma_pos,
            final(self).dma_accum == dma_after(*old(self), cycles as u32).dma_accum,
            final(self).dma_start_delay == dma_after(*old(self), cycles as u32).dma_start_delay,
            final(mem).ram@ == dma_ram_after(*old(self), old(mem).ram@, cycles as u32),
            final(mem).rom == old(mem).rom && final(mem).rom_banks == old(mem).rom_banks,
            final(mem).mbc == old(mem).mbc && final(mem).ext_ram == old(mem).ext_ram,
            *final(apu) == *old(apu),
            final(self).ifl == old(self).ifl | (final(self).ifl & 0x07),
            *final(self) == (BusIO {
                div: final(self).div,
                div_total: final(self).div_total,
                tima: final(self).tima,
                tima_reload_delay: final(self).tima_reload_delay,
                timer_accum: final(self).timer_accum,
                ifl: final(self).ifl,
                dma_active: final(self).dma_active,
                dma_pos: final(self).dma_pos,
                dma_accum: final(self).dma_accum,
                dma_start_delay: final(self).dma_start_delay,
                ly: final(self).ly,
                ppu_line_cycle: final(self).ppu_line_cycle,
                ppu_mode: final(self).ppu_mode,
                win_line: final(self).win_line,
                framebuffer: final(self).framebuffer,
                win_tilemap_base: final(self).win_tilemap_base,
                win_signed: final(self).win_signed,
                ..*old(self)
            }),
            old(self).lcdc & 0x80 == 0 ==> final(self).ly == 0 && final(self).ppu_line_cycle == 0
                && final(self).ppu_mode == 0 && final(self).win_line == 0,
            old(self).lcdc & 0x80 != 0 ==> frame_dot(*final(self)) == (frame_dot(*old(self))
                + cycles) % 70224,
            old(self).lcdc & 0x80 != 0 ==> ((final(self).ifl & 1 != 0) == (old(self).ifl & 1 != 0
                || vblank_crossed(frame_dot(*old(self)), cycles as int))),
            old(self).lcdc & 0x80 == 0 ==> final(self).ifl & 3 == old(self).ifl & 3,
            old(self).stat_w & 0x78 == 0 ==> final(self).ifl & 2 == old(self).ifl & 2,
            io_rows_drawn(
                old(self).framebuffer@,
                final(self).framebuffer@,
                *final(self),
                final(mem).ram@,
            ),
    {
        let c = cycles as u32;
        self.div_advance(c);
        let ghost f0 = self.ifl;
        self.timer_tick(c);
        let ghost f2 = self.ifl;
        self.dma_tick(c, mem);
        let ghost f3 = self.ifl;
        let ghost s3 = *self;
        self.ppu_tick(c, mem);
        proof {
            assert forall|y: int|
                0 <= y < 144 && !#[trigger] row_same(
                    old(self).framebuffer@,
                    self.framebuffer@,
                    y,
                ) implies exists|io: BusIO|
                #[trigger] io_line_state(*self, io, y) && io_row_drawn(
                    self.framebuffer@,
                    io,
                    mem.ram@,
                    y,
                ) by {
                assert(!row_same(s3.framebuffer@, self.framebuffer@, y));
                let io = choose|io: BusIO|
                    io_line_state(s3, io, y) && io_row_drawn(self.framebuffer@, io, mem.ram@, y);
                assert(io_line_state(*self, io, y));
            }
            crate::gb::bus::lemma_gain_timer_ppu(f0, f2, self.ifl);
            crate::bits::lemma_or_low_bits(f0);
            assert(f3 & 1 == f0 & 1 && f3 & 2 == f0 & 2);
        }
    }
}

} // verus!
