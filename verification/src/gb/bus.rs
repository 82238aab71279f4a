use vstd::prelude::*;
use crate::gb::ram::RAM;
use crate::gb::types::{MbcType, RegEvent, RegKind};
use crate::gb::bus_io::{
    line_sprites, sprite_rows, sprite_visible, obj_shade, oam_x, oam_y, sprite_color, sprite_row_addr,
    lemma_line_sprites, lemma_line_sprites_prefix,
};

verus! {

/// Number of pixels in one frame (160 x 144 shades).
pub const FRAME_PIXELS: usize = 23040;

/// Memory bank controller state of the inserted cartridge.
#[derive(Clone, Copy)]
pub struct MbcState {
    pub kind: MbcType,
    pub ram_enable: bool,
    /// Switchable ROM bank (MBC3/MBC5).
    pub rom_bank: u16,
    /// External RAM bank.
    pub ram_bank: u8,
    pub bank_low5: u8,
    pub bank_high2: u8,
    /// MBC1 mode: 0 = ROM banking, 1 = RAM banking.
    pub mode: u8,
    /// MBC3 clock register selection (0x08..=0x0C), if any.
    pub rtc_sel: Option<u8>,
}

/// The memory-mapped I/O, timer, DMA and PPU timing registers.
#[derive(Clone, Copy)]
pub struct IoRegs {
    pub ie: u8,
    pub ifl: u8,
    pub p1: u8,
    pub p1_sel: u8,
    pub joyp_dpad: u8,
    pub joyp_btns: u8,
    pub div: u8,
    pub tima: u8,
    pub tma: u8,
    pub tac: u8,
    pub dma: u8,
    pub dma_active: bool,
    pub dma_src_base: u16,
    pub dma_pos: u16,
    pub dma_cycle_accum: u32,
    pub dma_start_delay: u32,
    pub lcdc: u8,
    pub stat_w: u8,
    pub scy: u8,
    pub scx: u8,
    pub ly: u8,
    pub lyc: u8,
    pub bgp: u8,
    pub obp0: u8,
    pub obp1: u8,
    pub wy: u8,
    pub wx: u8,
    pub ppu_line_cycle: u32,
    pub ppu_mode: u8,
    pub lcd_on_delay: u32,
    pub div_counter: u32,
    pub div_sub: u8,
    pub tima_reload_delay: u32,
    pub win_line: u8,
    pub line_base_scx: u8,
    pub line_base_scy: u8,
    pub line_base_wx: u8,
    pub line_base_bgp: u8,
}

/// Whether the I/O registers are within their ranges.
pub open spec fn io_wf(io: IoRegs) -> bool {
    &&& io.dma_pos <= 160
    &&& io.dma_cycle_accum < 4
    &&& io.dma_start_delay <= 4
    &&& io.div_counter < 256
    &&& io.div_sub < 4
    &&& io.tima_reload_delay <= 4
    &&& io.ppu_line_cycle < 456
    &&& io.ly <= 153
    &&& io.ppu_mode <= 3
    &&& io.lcd_on_delay <= 4
    &&& io.ifl & 0xE0 == 0
    &&& (io.dma_active ==> io.dma_pos < 160)
    &&& io.dma_src_base % 256 == 0
}

/// Whether an address stays reachable by the CPU while OAM DMA runs (HRAM and IE).
pub open spec fn dma_allowed(addr: u16) -> bool {
    (0xFF80 <= addr <= 0xFFFE) || addr == 0xFFFF
}

/// The number of 16 KiB banks that `len` bytes of ROM fill.
pub open spec fn banks_of(len: nat) -> nat {
    (len + 0x3FFF) as nat / 0x4000
}

/// The controller family that a cartridge header byte 0x147 names.
pub open spec fn mbc_kind_of(cart_type: u8) -> MbcType {
    if 0x01 <= cart_type <= 0x03 {
        MbcType::Mbc1
    } else if 0x0F <= cart_type <= 0x13 {
        MbcType::Mbc3
    } else if 0x19 <= cart_type <= 0x1E {
        MbcType::Mbc5
    } else {
        MbcType::RomOnly
    }
}

/// The number of 8 KiB external RAM banks that header byte 0x149 names.
pub open spec fn ram_banks_of(code: u8) -> nat {
    if code == 0x02 {
        1
    } else if code == 0x03 {
        4
    } else if code == 0x04 {
        16
    } else if code == 0x05 {
        8
    } else {
        0
    }
}

/// The power-on controller state.
pub open spec fn mbc_reset(kind: MbcType) -> MbcState {
    MbcState {
        kind,
        ram_enable: false,
        rom_bank: 1,
        ram_bank: 0,
        bank_low5: 1,
        bank_high2: 0,
        mode: 0,
        rtc_sel: None,
    }
}

/// MBC1: bank mapped at 0x0000..=0x3FFF.
pub open spec fn mbc1_bank0(m: MbcState) -> u16 {
    if m.mode & 1 == 0 {
        0
    } else {
        (((m.bank_high2 & 0x03) as u16) * 32) as u16
    }
}

/// MBC1: bank mapped at 0x4000..=0x7FFF; a zero low part selects the next bank.
pub open spec fn mbc1_bankx(m: MbcState) -> u16 {
    let low5 = (m.bank_low5 & 0x1F) as u16;
    let bank = if m.mode & 1 == 0 {
        (low5 + ((m.bank_high2 & 0x03) as u16) * 32) as u16
    } else {
        low5
    };
    if low5 == 0 {
        (bank + 1) as u16
    } else {
        bank
    }
}

/// The external RAM bank that reads and writes at 0xA000..=0xBFFF use (non-MBC3 cartridges).
pub open spec fn ext_bank(m: MbcState) -> nat {
    match m.kind {
        MbcType::Mbc1 => if m.mode & 1 == 0 {
            0
        } else {
            (m.ram_bank & 0x03) as nat
        },
        MbcType::Mbc5 => (m.ram_bank & 0x0F) as nat,
        _ => 0,
    }
}

/// What the square-wave synthesizer takes from the sound registers: the power bit, the two
/// NR50 levels (left from bits 4-6, right from bits 0-2), and for channels 1 and 2 the duty,
/// the initial envelope volume and the 11-bit frequency register.
#[derive(Clone, Copy, Debug)]
pub struct SynthSettings {
    pub master_enable: bool,
    pub left_level: u8,
    pub right_level: u8,
    pub ch1_duty: u8,
    pub ch1_volume: u8,
    pub ch1_period: u16,
    pub ch1_enable: bool,
    pub ch2_duty: u8,
    pub ch2_volume: u8,
    pub ch2_period: u16,
    pub ch2_enable: bool,
    /// Whether the oscillators restart: the unit is on and channel 1 or 2 was triggered.
    pub restart: bool,
}

/// The synthesizer settings for the sound register mirror `regs` (0xFF10 at index 0). A
/// channel plays when the unit is on, the channel is routed to either side, its volume is
/// nonzero and the master level is nonzero; the oscillators restart on a trigger of channel 1
/// (bit 7 of NR14, or `just_triggered`) or channel 2 (bit 7 of NR24) while the unit is on.
pub open spec fn synth_settings_of(regs: Seq<u8>, just_triggered: bool) -> SynthSettings {
    let master = regs[0x16] & 0x80 != 0;
    let nr51 = regs[0x15];
    let left = (regs[0x14] >> 4u8) & 0x07;
    let right = regs[0x14] & 0x07;
    let audible = left > 0 || right > 0;
    let v1 = (regs[0x02] >> 4u8) & 0x0F;
    let v2 = (regs[0x07] >> 4u8) & 0x0F;
    SynthSettings {
        master_enable: master,
        left_level: left,
        right_level: right,
        ch1_duty: (regs[0x01] >> 6u8) & 0x03,
        ch1_volume: v1,
        ch1_period: (((regs[0x04] as u16) & 0x07) << 8u16) | (regs[0x03] as u16),
        ch1_enable: master && (nr51 & 0x01 != 0 || nr51 & 0x10 != 0) && v1 > 0 && audible,
        ch2_duty: (regs[0x06] >> 6u8) & 0x03,
        ch2_volume: v2,
        ch2_period: (((regs[0x09] as u16) & 0x07) << 8u16) | (regs[0x08] as u16),
        ch2_enable: master && (nr51 & 0x02 != 0 || nr51 & 0x20 != 0) && v2 > 0 && audible,
        restart: master && (regs[0x04] & 0x80 != 0 || just_triggered || regs[0x09] & 0x80 != 0),
    }
}

/// With the sound unit powered off (NR52 bit 7 clear) the synthesizer plays nothing and
/// does not restart, whatever the other registers hold.
pub proof fn law_synth_silent_when_off(regs: Seq<u8>, just_triggered: bool)
    requires
        regs[0x16] & 0x80 == 0,
    ensures
        !synth_settings_of(regs, just_triggered).master_enable,
        !synth_settings_of(regs, just_triggered).ch1_enable,
        !synth_settings_of(regs, just_triggered).ch2_enable,
        !synth_settings_of(regs, just_triggered).restart,
{
}

/// `n` is the bus `o` after the CPU writes `val` to `addr`: a write that DMA blocks changes
/// nothing; otherwise the I/O registers, the controller, the flat memory, the clock registers,
/// cartridge RAM, the sound registers and the recorded scanline events change as the address
/// selects, and the ROM and the frame buffer stay.
pub open spec fn bus_written(o: Bus, n: Bus, addr: u16, val: u8) -> bool {
    &&& (o.dma_blocking() && !dma_allowed(addr) ==> n == o)
    &&& (!(o.dma_blocking() && !dma_allowed(addr)) ==> {
        &&& n.io() == spec_write_io(o.io(), addr, val)
        &&& n.mbc() == (if addr <= 0x7FFF && o.rom_banks() > 0 {
            spec_write_mbc(o.mbc(), addr, val)
        } else {
            o.mbc()
        })
        &&& n.mem() == (if o.spec_writes_mem(addr) {
            o.mem().update(addr as int, val)
        } else {
            o.mem()
        })
        &&& n.rtc() == (match o.spec_rtc_write_index(addr) {
            Some(i) => o.rtc().update(i, val),
            None => o.rtc(),
        })
        &&& n.ext_ram() == (match o.spec_ext_write_index(addr) {
            Some(i) => o.ext_ram().update(i, val),
            None => o.ext_ram(),
        })
        &&& n.apu() == (if 0xFF10 <= addr <= 0xFF3F {
            o.apu().update(addr - 0xFF10, val)
        } else {
            o.apu()
        })
        &&& (if records_event(o.io(), addr, o.events().len()) {
            inserted_in_order(
                o.events(),
                n.events(),
                RegEvent {
                    x: line_cycle_to_x(o.io().ppu_line_cycle),
                    kind: event_kind(addr),
                    val,
                },
            )
        } else {
            n.events() == o.events()
        })
    })
    &&& (n.rom() == o.rom())
    &&& (n.rom_banks() == o.rom_banks())
    &&& (n.fb() == o.fb())
}

/// What the CPU writes to work RAM (0xC000..=0xFDFF, echo included) or high RAM
/// (0xFF80..=0xFFFE) it reads back, and the write leaves every other such byte as it was;
/// OAM DMA blocks both the write and the read outside high RAM.
pub proof fn law_bus_read_after_write(o: Bus, n: Bus, addr: u16, other: u16, v: u8)
    requires
        o.wf(),
        bus_written(o, n, addr, v),
        0xC000 <= addr <= 0xFDFF || 0xFF80 <= addr <= 0xFFFE,
        0xC000 <= other <= 0xFDFF || 0xFF80 <= other <= 0xFFFE,
        !(o.dma_blocking() && !dma_allowed(addr)),
        !(o.dma_blocking() && !dma_allowed(other)),
    ensures
        n.spec_read(addr) == v,
        other != addr ==> n.spec_read(other) == o.spec_read(other),
{
}

/// On an MBC3 cartridge a CPU write of `v` to 0x2000..=0x3FFF selects ROM bank `v mod 128`
/// (bank 1 for 0), and from then on 0x4000..=0x7FFF reads that bank of the image (taken
/// modulo the image's bank count).
pub proof fn law_bus_mbc3_rom_bank_switch(o: Bus, n: Bus, addr: u16, v: u8, k: u16)
    requires
        o.wf(),
        bus_written(o, n, addr, v),
        !o.dma_blocking(),
        o.mbc().kind == MbcType::Mbc3,
        o.rom_banks() > 0,
        0x2000 <= addr <= 0x3FFF,
        k < 0x4000,
    ensures
        n.mbc().rom_bank as int == (if v % 128 == 0 {
            1
        } else {
            (v % 128) as int
        }),
        ({
            let bank: int = if v % 128 == 0 {
                1
            } else {
                (v % 128) as int
            };
            let i = (bank % (n.rom_banks() as int)) * 0x4000 + k;
            n.spec_read((0x4000 + k) as u16) == if i < n.rom().len() {
                n.rom()[i]
            } else {
                0xFFu8
            }
        }),
{
    crate::bits::lemma_u8_bits(v);
    crate::bits::lemma_u16_low_bits(n.mbc().rom_bank);
}

/// `n` is the bus `o` after `c` t-cycles of `Bus::step`: the cartridge and sound registers
/// unchanged, OAM DMA, the system counter, TIMA and its interrupt, the PPU dot position, the
/// V-Blank request exactly when line 144 is entered, a STAT request when LY = LYC is enabled
/// and holds at the end, none when no STAT source is enabled, and the interrupt requests as
/// the clauses below give them.
#[verifier::opaque]
pub open spec fn bus_stepped(o: Bus, n: Bus, c: u32) -> bool {
    &&& (o.io().lcdc & 0x80 != 0 && o.io().lcd_on_delay == 0 ==> ((n.io().ifl & 1 != 0) == (
    o.io().ifl & 1 != 0 || vblank_crossed(dots(o.io()), c as int))))
    &&& (o.io().lcdc & 0x80 != 0 && 0 < o.io().lcd_on_delay <= c ==> ((n.io().ifl & 1 != 0) == (
    o.io().ifl & 1 != 0 || vblank_crossed(0, c as int))))
    &&& (o.io().lcdc & 0x80 != 0 && o.io().lcd_on_delay > c ==> n.io().ifl & 3 == o.io().ifl & 3)
    &&& (o.io().stat_w & 0x78 == 0 ==> n.io().ifl & 2 == o.io().ifl & 2)
    &&& (o.io().lcdc & 0x80 != 0 && o.io().lcd_on_delay <= c && o.io().stat_w & 0x40 != 0
        && n.io().ly == n.io().lyc ==> n.io().ifl & 2 != 0)
    &&& (o.io().lcdc & 0x80 == 0 || o.io().lcd_on_delay > c ==> n.fb() == o.fb())
    &&& (o.events().len() == 0 ==> rows_drawn(o.fb(), n.fb(), o.io(), n.mem()))
    &&& (o.io().lcdc & 0x80 == 0 ==> n.io().ifl & 0x03 == o.io().ifl & 0x03)
    &&& (o.io().tima_reload_delay == 0 && c <= 0xFFFF_FF00 ==> n.io().tima_reload_delay == 0)
    &&& (o.io().tima_reload_delay == 0 && c <= 0xFFFF_FF00 ==> n.io().tima == timer_result(
        o.io(),
        c as int,
    ).0 && (n.io().ifl & 0x04 != 0) == (o.io().ifl & 0x04 != 0 || timer_result(o.io(), c as int).1))
    &&& (n.rom() == o.rom())
    &&& (n.rom_banks() == o.rom_banks())
    &&& (n.ext_ram() == o.ext_ram())
    &&& (n.mbc() == o.mbc())
    &&& (n.rtc() == o.rtc())
    &&& (n.apu() == o.apu())
    &&& (step_frame(o.io(), n.io()))
    &&& (n.io().ifl == o.io().ifl | (n.io().ifl & 0x07))
    &&& (!o.io().dma_active ==> n.mem() == o.mem() && dma_regs_same(o.io(), n.io()))
    &&& (o.io().dma_active ==> dma_mem(o, n.mem(), c) && dma_regs_same(dma_io(o.io(), c), n.io()))
    &&& (c <= 0xFFFF_FF00 ==> div16(n.io()) == (div16(o.io()) + c) % 0x10000)
    &&& (n.io().div_sub == (o.io().div_sub + c) % 4)
    &&& (o.io().lcdc & 0x80 == 0 ==> n.io().ly == 0 && n.io().ppu_mode == 0 && n.io().ppu_line_cycle == 0 && n.io().win_line == 0)
    &&& (o.io().lcdc & 0x80 != 0 && o.io().lcd_on_delay == 0 ==> dots(n.io()) == (dots(o.io()) + c) % 70224)
    &&& (o.io().lcdc & 0x80 != 0 && 0 < o.io().lcd_on_delay <= c ==> dots(n.io()) == c % 70224)
    &&& (o.io().lcdc & 0x80 != 0 && o.io().lcd_on_delay > c ==> ( n.io().ly == o.io().ly && n.io().ppu_line_cycle == o.io().ppu_line_cycle && n.io().lcd_on_delay == o.io().lcd_on_delay - c))
}

/// The background color index at column `x` of the line, from the line's captured scroll
/// values.
pub open spec fn bus_bg_color(io: IoRegs, ram: Seq<u8>, x: u16) -> u8 {
    let v = ((io.ly as u16 + io.line_base_scy as u16) as u16) & 0xFF;
    let tilemap: u16 = if io.lcdc & 0x08 != 0 {
        0x9C00
    } else {
        0x9800
    };
    let h = ((x + io.line_base_scx as u16) as u16) & 0xFF;
    let map_index = (((v >> 3) & 31) * 32 + ((h >> 3) & 31)) as u16;
    let tile_id = ram[(tilemap + map_index) as int];
    let addr = tile_row_addr(tile_id, io.lcdc & 0x10 == 0, v & 7);
    color_index(ram[addr as int], ram[(addr + 1) as int], (7 - (h & 7)) as u8)
}

/// Whether the window covers column `x` of the line (with no mid-line WX change): window and
/// background on, LY at or below WY, WX at most 166, and `x` among the 160 columns from the
/// line's WX - 7.
pub open spec fn bus_window_covers(io: IoRegs, x: int) -> bool {
    &&& io.lcdc & 0x20 != 0
    &&& io.lcdc & 0x01 != 0
    &&& io.ly >= io.wy
    &&& io.wx <= 166
    &&& io.line_base_wx as int - 7 <= x
    &&& x - (io.line_base_wx as int - 7) < 160
}

/// The window color index at column `x`: window column `x - (WX - 7)` of the row given by the
/// window line counter, from the LCDC-selected window tile map.
pub open spec fn bus_win_color(io: IoRegs, ram: Seq<u8>, x: int) -> u8 {
    let window_x = (x - (io.line_base_wx as int - 7)) as u16;
    let tilemap: u16 = if io.lcdc & 0x40 != 0 {
        0x9C00
    } else {
        0x9800
    };
    let wl = io.win_line as u16;
    let map_index = (((wl >> 3) & 31) * 32 + ((window_x >> 3) & 31)) as u16;
    let tile_id = ram[(tilemap + map_index) as int];
    let addr = tile_row_addr(tile_id, io.lcdc & 0x10 == 0, wl & 7);
    color_index(ram[addr as int], ram[(addr + 1) as int], (7 - (window_x & 7)) as u8)
}

/// The background/window color index of column `x` before sprites.
pub open spec fn bus_line_color(io: IoRegs, ram: Seq<u8>, x: int) -> u8 {
    if bus_window_covers(io, x) {
        bus_win_color(io, ram, x)
    } else if io.lcdc & 0x01 != 0 {
        bus_bg_color(io, ram, x as u16)
    } else {
        0
    }
}

/// The shade of column `x` before sprites: the window through BGP, the background through
/// the line's captured BGP, or 0.
pub open spec fn bus_line_shade(io: IoRegs, ram: Seq<u8>, x: int) -> u8 {
    if bus_window_covers(io, x) {
        shade_of(io.bgp, bus_win_color(io, ram, x))
    } else if io.lcdc & 0x01 != 0 {
        shade_of(io.line_base_bgp, bus_bg_color(io, ram, x as u16))
    } else {
        0
    }
}

/// Whether sprite `a` shows a pixel at column `x` of the line over the background/window.
pub open spec fn bus_sprite_shows(io: IoRegs, ram: Seq<u8>, a: u16, x: int) -> bool {
    sprite_visible(io.lcdc, io.ly, ram, a, x, bus_line_color(io, ram, x))
}

/// The shade of column `x` of the line: with sprites on, the first sprite drawn on the line
/// (in OAM order) that shows a pixel there wins; otherwise the background/window shade.
pub open spec fn bus_pixel_shade(io: IoRegs, ram: Seq<u8>, x: int, shade: u8) -> bool {
    let sel = line_sprites(ram, io.ly, sprite_rows(io.lcdc), 40);
    if io.lcdc & 0x02 != 0 && exists|i: int|
        0 <= i < sel.len() && bus_sprite_shows(io, ram, #[trigger] sel[i], x) {
        exists|i: int|
            #![trigger sel[i]]
            0 <= i < sel.len() && bus_sprite_shows(io, ram, sel[i], x) && (forall|j: int|
                0 <= j < i ==> !bus_sprite_shows(io, ram, #[trigger] sel[j], x)) && shade
                == obj_shade(io.obp0, io.obp1, io.lcdc, io.ly, ram, sel[i], x)
    } else {
        shade == bus_line_shade(io, ram, x)
    }
}

/// Whether rows `y` of the frames `a` and `b` hold the same shades.
pub open spec fn row_same(a: Seq<u8>, b: Seq<u8>, y: int) -> bool {
    forall|x: int| 0 <= x < 160 ==> a[y * 160 + x] == #[trigger] b[y * 160 + x]
}

/// Whether row `y` of the frame `fb` is the line drawn from the line state `io` over `ram`.
pub open spec fn row_drawn(fb: Seq<u8>, io: IoRegs, ram: Seq<u8>, y: int) -> bool {
    forall|x: int| 0 <= x < 160 ==> bus_pixel_shade(io, ram, x, #[trigger] fb[y * 160 + x])
}

/// Whether the captured line registers of `io` are those of `o`, or `o`'s current scroll,
/// window X and palette.
pub open spec fn base_from(o: IoRegs, io: IoRegs) -> bool {
    ||| (io.line_base_scx == o.line_base_scx && io.line_base_scy == o.line_base_scy
        && io.line_base_wx == o.line_base_wx && io.line_base_bgp == o.line_base_bgp)
    ||| (io.line_base_scx == o.scx && io.line_base_scy == o.scy && io.line_base_wx == o.wx
        && io.line_base_bgp == o.bgp)
}

/// A state of line `y` during a step from `o`: LY = y, the LCD control, window position and
/// palettes of `o`, line registers from `base_from`, and any window line count.
pub open spec fn line_state(o: IoRegs, io: IoRegs, y: int) -> bool {
    &&& io.ly as int == y
    &&& io.lcdc == o.lcdc
    &&& io.wy == o.wy
    &&& io.wx == o.wx
    &&& io.bgp == o.bgp
    &&& io.obp0 == o.obp0
    &&& io.obp1 == o.obp1
    &&& base_from(o, io)
}

/// Every row of `n` that differs from `o` is a visible line drawn from some line state.
pub open spec fn rows_drawn(o: Seq<u8>, n: Seq<u8>, oio: IoRegs, ram: Seq<u8>) -> bool {
    forall|y: int|
        0 <= y < 144 && !#[trigger] row_same(o, n, y) ==> exists|io: IoRegs|
            #[trigger] line_state(oio, io, y) && row_drawn(n, io, ram, y)
}

/// After the first `c` sprites of `sel` are drawn over the line shades `line` with colors
/// `colors`: a column is marked in `done` exactly when one of them shows there, and then
/// holds the shade of the first such sprite, else its line shade.
pub open spec fn bus_sprites_drawn(
    io: IoRegs,
    ram: Seq<u8>,
    sel: Seq<u16>,
    c: int,
    sh: Seq<u8>,
    done: Seq<bool>,
    colors: Seq<u8>,
    line: Seq<u8>,
) -> bool {
    &&& forall|x: int|
        0 <= x < 160 ==> (exists|k: int|
            0 <= k < c && sprite_visible(io.lcdc, io.ly, ram, #[trigger] sel[k], x, colors[x]))
            == #[trigger] done[x]
    &&& forall|x: int|
        0 <= x < 160 && !done[x] ==> #[trigger] sh[x] == line[x]
    &&& forall|x: int|
        0 <= x < 160 && done[x] ==> exists|k: int|
            #![trigger sel[k]]
            0 <= k < c && sprite_visible(io.lcdc, io.ly, ram, sel[k], x, colors[x]) && (forall|
                j: int,
            |
                0 <= j < k ==> !sprite_visible(io.lcdc, io.ly, ram, #[trigger] sel[j], x, colors[x]))
                && #[trigger] sh[x] == obj_shade(io.obp0, io.obp1, io.lcdc, io.ly, ram, sel[k], x)
}

/// Drawing sprite `c` of `sel` (at X `sx`) over columns not yet taken extends
/// `bus_sprites_drawn` by one.
proof fn lemma_bus_sprite_step(
    io: IoRegs,
    ram: Seq<u8>,
    sel: Seq<u16>,
    c: int,
    sx: int,
    sh0: Seq<u8>,
    w0: Seq<bool>,
    sh1: Seq<u8>,
    w1: Seq<bool>,
    colors: Seq<u8>,
    line: Seq<u8>,
)
    requires
        0 <= c < sel.len(),
        bus_sprites_drawn(io, ram, sel, c, sh0, w0, colors, line),
        forall|x: int|
            0 <= x < 160 && !(sx <= x < sx + 8) ==> !sprite_visible(io.lcdc, io.ly, ram, sel[c], x, colors[x]),
        forall|x: int|
            0 <= x < 160 ==> #[trigger] sh1[x] == (if sx <= x < sx + 8 && sprite_visible(
                io.lcdc,
                io.ly,
                ram,
                sel[c],
                x,
                colors[x],
            ) && !w0[x] {
                obj_shade(io.obp0, io.obp1, io.lcdc, io.ly, ram, sel[c], x)
            } else {
                sh0[x]
            }),
        forall|x: int|
            0 <= x < 160 ==> #[trigger] w1[x] == (w0[x] || (sx <= x < sx + 8 && sprite_visible(
                io.lcdc,
                io.ly,
                ram,
                sel[c],
                x,
                colors[x],
            ))),
    ensures
        bus_sprites_drawn(io, ram, sel, c + 1, sh1, w1, colors, line),
{
    assert forall|x: int| 0 <= x < 160 implies ((exists|k: int|
        0 <= k < c + 1 && sprite_visible(io.lcdc, io.ly, ram, #[trigger] sel[k], x, colors[x]))
        == w1[x]) && (!w1[x] ==> sh1[x] == line[x]) && (w1[x] ==> exists|k: int|
        #![trigger sel[k]]
        0 <= k < c + 1 && sprite_visible(io.lcdc, io.ly, ram, sel[k], x, colors[x]) && (forall|
            j: int,
        |
            0 <= j < k ==> !sprite_visible(io.lcdc, io.ly, ram, #[trigger] sel[j], x, colors[x]))
            && sh1[x] == obj_shade(io.obp0, io.obp1, io.lcdc, io.ly, ram, sel[k], x)) by {
        let now = sprite_visible(io.lcdc, io.ly, ram, sel[c], x, colors[x]);
        if w0[x] {
            let k = choose|k: int|
                #![trigger sel[k]]
                0 <= k < c && sprite_visible(io.lcdc, io.ly, ram, sel[k], x, colors[x]) && (forall|
                    j: int,
                |
                    0 <= j < k ==> !sprite_visible(io.lcdc, io.ly, ram, #[trigger] sel[j], x, colors[x]))
                    && sh0[x] == obj_shade(io.obp0, io.obp1, io.lcdc, io.ly, ram, sel[k], x);
            assert(sh1[x] == sh0[x]);
            assert(0 <= k < c + 1 && sprite_visible(io.lcdc, io.ly, ram, sel[k], x, colors[x]));
        } else if now {
            assert(forall|j: int| 0 <= j < c ==> !sprite_visible(io.lcdc, io.ly, ram, #[trigger] sel[j], x, colors[x]));
            assert(0 <= c < c + 1 && sprite_visible(io.lcdc, io.ly, ram, sel[c], x, colors[x]));
        } else {
            assert forall|k: int| 0 <= k < c + 1 implies !sprite_visible(io.lcdc, io.ly, ram, #[trigger] sel[k], x, colors[x]) by {
                if k == c {
                }
            }
        }
    }
}

/// The shades the sprite pass leaves are those `bus_pixel_shade` describes, given the line's
/// colors and shades before it.
proof fn lemma_bus_first_sprite(
    io: IoRegs,
    io2: IoRegs,
    ram: Seq<u8>,
    x: int,
    sh: Seq<u8>,
    w: Seq<bool>,
    colors: Seq<u8>,
    line: Seq<u8>,
)
    requires
        0 <= x < 160,
        io2.lcdc == io.lcdc && io2.ly == io.ly && io2.obp0 == io.obp0 && io2.obp1 == io.obp1,
        io.lcdc & 0x02 != 0,
        colors.len() == 160,
        forall|i: int| 0 <= i < 160 ==> colors[i] == bus_line_color(io, ram, i),
        line[x] == bus_line_shade(io, ram, x),
        bus_sprites_drawn(
            io2,
            ram,
            line_sprites(ram, io.ly, sprite_rows(io.lcdc), 40),
            line_sprites(ram, io.ly, sprite_rows(io.lcdc), 40).len() as int,
            sh,
            w,
            colors,
            line,
        ),
    ensures
        bus_pixel_shade(io, ram, x, sh[x]),
{
    let sel = line_sprites(ram, io.ly, sprite_rows(io.lcdc), 40);
    let n = sel.len() as int;
    if w[x] {
        let k = choose|k: int|
            #![trigger sel[k]]
            0 <= k < n && sprite_visible(io2.lcdc, io2.ly, ram, sel[k], x, colors[x]) && (forall|
                j: int,
            |
                0 <= j < k ==> !sprite_visible(io2.lcdc, io2.ly, ram, #[trigger] sel[j], x, colors[x]))
                && sh[x] == obj_shade(io2.obp0, io2.obp1, io2.lcdc, io2.ly, ram, sel[k], x);
        assert(bus_sprite_shows(io, ram, sel[k], x));
        assert forall|j: int| 0 <= j < k implies !bus_sprite_shows(io, ram, #[trigger] sel[j], x) by {
            assert(!sprite_visible(io2.lcdc, io2.ly, ram, sel[j], x, colors[x]));
        }
    } else {
        assert forall|i: int| 0 <= i < n implies !bus_sprite_shows(io, ram, #[trigger] sel[i], x) by {
            assert(!sprite_visible(io2.lcdc, io2.ly, ram, sel[i], x, colors[x]));
        }
    }
}

/// The bus: work RAM, cartridge, I/O registers, timer, OAM DMA and the PPU.
pub struct Bus {
    ram: RAM,
    rom: Vec<u8>,
    rom_banks: usize,
    ext_ram: Vec<u8>,
    mbc: MbcState,
    rtc_regs: Vec<u8>,
    io: IoRegs,
    framebuffer: Vec<u8>,
    scan_events: Vec<RegEvent>,
    apu_regs: Vec<u8>,
}

impl Bus {
    /// The I/O register block.
    pub closed spec fn io(&self) -> IoRegs {
        self.io
    }

    /// The controller state.
    pub closed spec fn mbc(&self) -> MbcState {
        self.mbc
    }

    /// The cartridge ROM image.
    pub closed spec fn rom(&self) -> Seq<u8> {
        self.rom@
    }

    /// The number of ROM banks.
    pub closed spec fn rom_banks(&self) -> nat {
        self.rom_banks as nat
    }

    /// The external cartridge RAM.
    pub closed spec fn ext_ram(&self) -> Seq<u8> {
        self.ext_ram@
    }

    /// The MBC3 clock registers.
    pub closed spec fn rtc(&self) -> Seq<u8> {
        self.rtc_regs@
    }

    /// The flat memory behind the bus.
    pub closed spec fn mem(&self) -> Seq<u8> {
        self.ram@
    }

    /// The frame buffer of shades (row-major, 160 per row).
    pub closed spec fn fb(&self) -> Seq<u8> {
        self.framebuffer@
    }

    /// The sound register mirror 0xFF10..=0xFF3F.
    pub closed spec fn apu(&self) -> Seq<u8> {
        self.apu_regs@
    }

    /// The mid-scanline register changes recorded for the current line.
    pub closed spec fn events(&self) -> Seq<RegEvent> {
        self.scan_events@
    }

    /// The bus invariant.
    pub closed spec fn wf(&self) -> bool {
        &&& self.ram.wf()
        &&& self.rom@.len() + 0x3FFF <= usize::MAX
        &&& self.rom_banks as nat == banks_of(self.rom@.len())
        &&& self.rtc_regs@.len() == 5
        &&& self.framebuffer@.len() == FRAME_PIXELS
        &&& forall|i: int| 0 <= i < FRAME_PIXELS ==> self.framebuffer@[i] <= 3
        &&& self.apu_regs@.len() == 0x30
        &&& self.scan_events@.len() <= 128
        &&& forall|i: int, j: int|
            0 <= i < j < self.scan_events@.len() ==> self.scan_events@[i].x
                <= self.scan_events@[j].x
        &&& io_wf(self.io)
        &&& (self.mbc.rtc_sel matches Some(s) ==> 0x08 <= s <= 0x0C)
    }

    /// Whether the bus is in its power-on state with no cartridge.
    pub open spec fn is_fresh(&self) -> bool {
        &&& self.wf()
        &&& self.rom().len() == 0
        &&& self.rom_banks() == 0
        &&& self.ext_ram().len() == 0
        &&& self.mbc() == mbc_reset(MbcType::RomOnly)
        &&& forall|i: int| 0 <= i < 0x10000 ==> self.mem()[i] == 0
        &&& self.io() == fresh_io()
        &&& forall|i: int| 0 <= i < FRAME_PIXELS ==> self.fb()[i] == 0
        &&& forall|i: int| 0 <= i < 0x30 ==> self.apu()[i] == 0
        &&& self.events().len() == 0
    }

    /// A powered-on bus with no cartridge.
    pub fn new() -> (r: Bus)
        ensures
            r.is_fresh(),
    {
        let io = IoRegs {
            ie: 0x00,
            ifl: 0x00,
            p1: 0xFF,
            p1_sel: 0x30,
            joyp_dpad: 0x0F,
            joyp_btns: 0x0F,
            div: 0x00,
            tima: 0x00,
            tma: 0x00,
            tac: 0x00,
            dma: 0x00,
            dma_active: false,
            dma_src_base: 0,
            dma_pos: 0,
            dma_cycle_accum: 0,
            dma_start_delay: 0,
            lcdc: 0x00,
            stat_w: 0x00,
            scy: 0x00,
            scx: 0x00,
            ly: 0x00,
            lyc: 0x00,
            bgp: 0xFC,
            obp0: 0xFF,
            obp1: 0xFF,
            wy: 0x00,
            wx: 0x00,
            ppu_line_cycle: 0,
            ppu_mode: 2,
            lcd_on_delay: 0,
            div_counter: 0,
            div_sub: 0,
            tima_reload_delay: 0,
            win_line: 0,
            line_base_scx: 0,
            line_base_scy: 0,
            line_base_wx: 0,
            line_base_bgp: 0xFC,
        };
        proof {
            crate::bits::lemma_irq_bits();
        }
        Bus {
            ram: RAM::new(),
            rom: Vec::new(),
            rom_banks: 0,
            ext_ram: Vec::new(),
            mbc: MbcState {
                kind: MbcType::RomOnly,
                ram_enable: false,
                rom_bank: 1,
                ram_bank: 0,
                bank_low5: 1,
                bank_high2: 0,
                mode: 0,
                rtc_sel: None,
            },
            rtc_regs: vec![0u8; 5],
            io,
            framebuffer: vec![0u8; FRAME_PIXELS],
            scan_events: Vec::new(),
            apu_regs: vec![0u8; 0x30],
        }
    }

    /// The interrupt enable register, bypassing DMA gating.
    pub fn get_ie_raw(&self) -> (r: u8)
        ensures
            r == self.io().ie,
    {
        self.io.ie
    }

    /// The interrupt flag register as the CPU reads it (upper three bits set).
    pub fn get_if_raw(&self) -> (r: u8)
        ensures
            r == self.io().ifl | 0xE0,
    {
        self.io.ifl | 0xE0
    }

    /// Replaces the interrupt flags; only the five interrupt lines are kept.
    pub fn set_if_raw(&mut self, v: u8)
        requires
            old(self).wf(),
        ensures
            final(self).wf(),
            final(self).io() == (IoRegs { ifl: v & 0x1F, ..old(self).io() }),
            final(self).same_storage(*old(self)),
    {
        proof {
            crate::bits::lemma_u8_bits(v);
        }
        self.io.ifl = v & 0x1F;
    }

    /// Whether two buses hold the same memories, cartridge and frame.
    pub open spec fn same_storage(&self, other: Bus) -> bool {
        &&& self.mem() == other.mem()
        &&& self.rom() == other.rom()
        &&& self.rom_banks() == other.rom_banks()
        &&& self.ext_ram() == other.ext_ram()
        &&& self.mbc() == other.mbc()
        &&& self.rtc() == other.rtc()
        &&& self.fb() == other.fb()
        &&& self.apu() == other.apu()
        &&& self.events() == other.events()
    }

    /// Whether an OAM DMA transfer currently owns the bus.
    pub open spec fn dma_blocking(&self) -> bool {
        self.io().dma_active && self.io().dma_pos < 160 && self.io().dma_start_delay == 0
    }

    /// Whether an OAM DMA transfer currently owns the bus.
    pub fn is_dma_active(&self) -> (r: bool)
        ensures
            r == self.dma_blocking(),
    {
        self.io.dma_active && self.io.dma_pos < 160 && self.io.dma_start_delay == 0
    }

    /// T-cycles until the running DMA transfer completes (0 when none blocks the bus).
    pub fn dma_cycles_left(&self) -> (r: u32)
        requires
            self.wf(),
        ensures
            r == (if self.dma_blocking() {
                (((160 - self.io().dma_pos) * 4) - self.io().dma_cycle_accum) as u32
            } else {
                0
            }),
    {
        if self.is_dma_active() {
            let total_left = (160u32 - self.io.dma_pos as u32) * 4;
            total_left - self.io.dma_cycle_accum
        } else {
            0
        }
    }

    /// The ROM byte that `addr` (0x0000..=0x7FFF) maps to through the controller.
    pub open spec fn spec_read_rom(&self, addr: u16) -> u8 {
        let rom = self.rom();
        let banks = self.rom_banks();
        let m = self.mbc();
        let i: int = if banks == 0 {
            -1
        } else {
            match m.kind {
                MbcType::RomOnly => addr as int,
                MbcType::Mbc1 => if addr < 0x4000 {
                    (mbc1_bank0(m) as nat % banks) * 0x4000 + addr
                } else {
                    (mbc1_bankx(m) as nat % banks) * 0x4000 + (addr - 0x4000)
                },
                MbcType::Mbc3 => if addr < 0x4000 {
                    addr as int
                } else {
                    let b = (m.rom_bank & 0x7F) as nat;
                    let b1 = if b == 0 {
                        1
                    } else {
                        b
                    };
                    (b1 % banks) * 0x4000 + (addr - 0x4000)
                },
                MbcType::Mbc5 => if addr < 0x4000 {
                    addr as int
                } else {
                    (m.rom_bank as nat % banks) * 0x4000 + (addr - 0x4000)
                },
            }
        };
        if 0 <= i < rom.len() {
            rom[i]
        } else {
            0xFF
        }
    }

    fn mbc1_calc_bank0(&self) -> (r: u16)
        ensures
            r == mbc1_bank0(self.mbc()),
    {
        if self.mbc.mode & 1 == 0 {
            0
        } else {
            ((self.mbc.bank_high2 & 0x03) as u16) * 32
        }
    }

    fn mbc1_calc_bankx(&self) -> (r: u16)
        ensures
            r == mbc1_bankx(self.mbc()),
    {
        let low5 = (self.mbc.bank_low5 & 0x1F) as u16;
        let bank = if self.mbc.mode & 1 == 0 {
            low5 + ((self.mbc.bank_high2 & 0x03) as u16) * 32
        } else {
            low5
        };
        if low5 == 0 {
            bank + 1
        } else {
            bank
        }
    }

    /// The byte at `base_bank * 0x4000 + offset` of the ROM image, or 0xFF past its end.
    fn rom_byte(&self, bank: usize, offset: u16) -> (r: u8)
        requires
            self.wf(),
            self.rom_banks() > 0,
            offset < 0x4000,
        ensures
            r == ({
                let i = (bank as nat % self.rom_banks()) * 0x4000 + offset;
                if i < self.rom().len() {
                    self.rom()[i as int]
                } else {
                    0xFFu8
                }
            }),
    {
        let b = bank % self.rom_banks;
        proof {
            lemma_bank_base(self.rom@.len(), b as nat);
        }
        let i = b * 0x4000 + offset as usize;
        if i < self.rom.len() {
            self.rom[i]
        } else {
            0xFF
        }
    }

    /// The ROM byte that `addr` maps to through the controller.
    pub fn read_rom(&self, addr: u16) -> (r: u8)
        requires
            self.wf(),
            addr < 0x8000,
        ensures
            r == self.spec_read_rom(addr),
    {
        if self.rom_banks == 0 {
            return 0xFF;
        }
        match self.mbc.kind {
            MbcType::RomOnly => {
                let i = addr as usize;
                if i < self.rom.len() {
                    self.rom[i]
                } else {
                    0xFF
                }
            },
            MbcType::Mbc1 => {
                if addr < 0x4000 {
                    self.rom_byte(self.mbc1_calc_bank0() as usize, addr)
                } else {
                    self.rom_byte(self.mbc1_calc_bankx() as usize, addr - 0x4000)
                }
            },
            MbcType::Mbc3 => {
                if addr < 0x4000 {
                    let i = addr as usize;
                    if i < self.rom.len() {
                        self.rom[i]
                    } else {
                        0xFF
                    }
                } else {
                    let mut bank = (self.mbc.rom_bank as usize) & 0x7F;
                    if bank == 0 {
                        bank = 1;
                    }
                    proof {
                        let rb = self.mbc.rom_bank;
                        assert((rb as usize) & 0x7F == (rb & 0x7F) as usize) by (bit_vector);
                    }
                    self.rom_byte(bank, addr - 0x4000)
                }
            },
            MbcType::Mbc5 => {
                if addr < 0x4000 {
                    let i = addr as usize;
                    if i < self.rom.len() {
                        self.rom[i]
                    } else {
                        0xFF
                    }
                } else {
                    self.rom_byte(self.mbc.rom_bank as usize, addr - 0x4000)
                }
            },
        }
    }

    /// The external RAM byte at `addr` (0xA000..=0xBFFF) for the given bank, or 0xFF past its end.
    pub open spec fn spec_ext_byte(&self, bank: nat, addr: u16) -> u8 {
        let i = bank * 0x2000 + ((addr - 0xA000) as nat % 0x2000);
        if i < self.ext_ram().len() {
            self.ext_ram()[i as int]
        } else {
            0xFF
        }
    }

    fn ext_byte(&self, bank: usize, addr: u16) -> (r: u8)
        requires
            0xA000 <= addr <= 0xBFFF,
            bank < 16,
        ensures
            r == self.spec_ext_byte(bank as nat, addr),
    {
        let base = bank * 0x2000;
        let off = (addr as usize - 0xA000) & 0x1FFF;
        proof {
            let d = (addr as usize - 0xA000) as usize;
            assert(d & 0x1FFF == d % 0x2000) by (bit_vector);
        }
        if base + off < self.ext_ram.len() {
            self.ext_ram[base + off]
        } else {
            0xFF
        }
    }

    /// The cartridge RAM byte the CPU reads at `addr` (0xA000..=0xBFFF).
    pub open spec fn spec_read_cart_ram(&self, addr: u16) -> u8 {
        let m = self.mbc();
        if m.kind == MbcType::Mbc3 {
            if m.rtc_sel is Some {
                let idx = m.rtc_sel->0 - 0x08;
                if 0 <= idx < 5 {
                    self.rtc()[idx]
                } else {
                    0
                }
            } else if self.ext_ram().len() == 0 || !m.ram_enable {
                0xFF
            } else {
                self.spec_ext_byte((m.ram_bank & 0x03) as nat, addr)
            }
        } else if self.ext_ram().len() == 0 || !m.ram_enable {
            0xFF
        } else {
            self.spec_ext_byte(ext_bank(m), addr)
        }
    }

    fn read_cart_ram(&self, addr: u16) -> (r: u8)
        requires
            self.wf(),
            0xA000 <= addr <= 0xBFFF,
        ensures
            r == self.spec_read_cart_ram(addr),
    {
        match self.mbc.kind {
            MbcType::Mbc3 => {
                if let Some(sel) = self.mbc.rtc_sel {
                    let idx = (sel - 0x08) as usize;
                    if idx < 5 {
                        self.rtc_regs[idx]
                    } else {
                        0
                    }
                } else if self.ext_ram.len() == 0 || !self.mbc.ram_enable {
                    0xFF
                } else {
                    proof {
                        let rb = self.mbc.ram_bank;
                        crate::bits::lemma_u8_bits(rb);
                    }
                    self.ext_byte((self.mbc.ram_bank & 0x03) as usize, addr)
                }
            },
            _ => {
                if self.ext_ram.len() == 0 || !self.mbc.ram_enable {
                    0xFF
                } else {
                    let bank: usize = match self.mbc.kind {
                        MbcType::Mbc1 => {
                            if self.mbc.mode & 1 == 0 {
                                0
                            } else {
                                (self.mbc.ram_bank & 0x03) as usize
                            }
                        },
                        MbcType::Mbc5 => (self.mbc.ram_bank & 0x0F) as usize,
                        _ => 0,
                    };
                    proof {
                        let rb = self.mbc.ram_bank;
                        crate::bits::lemma_u8_bits(rb);
                    }
                    self.ext_byte(bank, addr)
                }
            },
        }
    }

    /// The byte the OAM DMA engine fetches from `addr` (no CPU gating, no PPU restriction).
    pub open spec fn spec_read_for_dma(&self, addr: u16) -> u8 {
        if addr <= 0x7FFF {
            if self.rom_banks() > 0 {
                self.spec_read_rom(addr)
            } else {
                self.mem()[addr as int]
            }
        } else if 0xA000 <= addr <= 0xBFFF {
            if self.ext_ram().len() == 0 || !self.mbc().ram_enable {
                0xFF
            } else {
                self.spec_ext_byte(ext_bank(self.mbc()), addr)
            }
        } else {
            self.mem()[addr as int]
        }
    }

    fn read_for_dma(&self, addr: u16) -> (r: u8)
        requires
            self.wf(),
        ensures
            r == self.spec_read_for_dma(addr),
    {
        if addr <= 0x7FFF {
            if self.rom_banks > 0 {
                self.read_rom(addr)
            } else {
                self.ram.read(addr)
            }
        } else if 0xA000 <= addr && addr <= 0xBFFF {
            if self.ext_ram.len() == 0 || !self.mbc.ram_enable {
                0xFF
            } else {
                let bank: usize = match self.mbc.kind {
                    MbcType::Mbc1 => {
                        if self.mbc.mode & 1 == 0 {
                            0
                        } else {
                            (self.mbc.ram_bank & 0x03) as usize
                        }
                    },
                    MbcType::Mbc5 => (self.mbc.ram_bank & 0x0F) as usize,
                    _ => 0,
                };
                proof {
                    let rb = self.mbc.ram_bank;
                    crate::bits::lemma_u8_bits(rb);
                }
                self.ext_byte(bank, addr)
            }
        } else {
            self.ram.read(addr)
        }
    }

    /// The STAT register as read: bit 7 set, enables, coincidence flag and mode.
    pub open spec fn spec_stat(&self) -> u8 {
        let io = self.io();
        (0x80u8 | (io.stat_w & 0x78) | (if io.ly == io.lyc {
            0x04u8
        } else {
            0u8
        }) | (io.ppu_mode & 0x03)) as u8
    }

    /// The joypad register as read: selection bits and the selected rows (active low).
    pub open spec fn spec_joyp(&self) -> u8 {
        let io = self.io();
        let low1: u8 = if io.p1_sel & 0x10 == 0 {
            0x0Fu8 & io.joyp_dpad
        } else {
            0x0Fu8
        };
        let low2: u8 = if io.p1_sel & 0x20 == 0 {
            low1 & io.joyp_btns
        } else {
            low1
        };
        (0xC0u8 | (io.p1_sel & 0x30) | (low2 & 0x0F)) as u8
    }

    /// The byte the CPU reads at `addr`.
    pub open spec fn spec_read(&self, addr: u16) -> u8 {
        let io = self.io();
        if self.dma_blocking() && !dma_allowed(addr) {
            0xFF
        } else if addr <= 0x7FFF {
            if self.rom_banks() > 0 {
                self.spec_read_rom(addr)
            } else {
                self.mem()[addr as int]
            }
        } else if addr == 0xFF40 {
            io.lcdc
        } else if addr == 0xFF41 {
            self.spec_stat()
        } else if addr == 0xFF42 {
            io.scy
        } else if addr == 0xFF43 {
            io.scx
        } else if addr == 0xFF44 {
            io.ly
        } else if addr == 0xFF45 {
            io.lyc
        } else if addr == 0xFFFF {
            io.ie
        } else if addr == 0xFF0F {
            io.ifl | 0xE0
        } else if addr == 0xFF00 {
            self.spec_joyp()
        } else if addr == 0xFF04 {
            io.div
        } else if addr == 0xFF05 {
            io.tima
        } else if addr == 0xFF06 {
            io.tma
        } else if addr == 0xFF07 {
            io.tac | 0xF8
        } else if addr == 0xFF47 {
            io.bgp
        } else if addr == 0xFF48 {
            io.obp0
        } else if addr == 0xFF49 {
            io.obp1
        } else if addr == 0xFF4A {
            io.wy
        } else if addr == 0xFF4B {
            io.wx
        } else if addr == 0xFF46 {
            io.dma
        } else if 0xFF10 <= addr <= 0xFF3F {
            self.apu()[addr - 0xFF10]
        } else if 0xA000 <= addr <= 0xBFFF {
            self.spec_read_cart_ram(addr)
        } else if 0x8000 <= addr <= 0x9FFF {
            if io.lcdc & 0x80 != 0 && io.ppu_mode == 3 {
                0xFF
            } else {
                self.mem()[addr as int]
            }
        } else if 0xFE00 <= addr <= 0xFE9F {
            if io.lcdc & 0x80 != 0 && (io.ppu_mode == 2 || io.ppu_mode == 3) {
                0xFF
            } else {
                self.mem()[addr as int]
            }
        } else {
            self.mem()[addr as int]
        }
    }

    /// Whether a CPU write to `addr` lands in the flat memory.
    pub open spec fn spec_writes_mem(&self, addr: u16) -> bool {
        let io = self.io();
        ||| addr <= 0x7FFF && self.rom_banks() == 0
        ||| (0x8000 <= addr <= 0x9FFF && !(io.lcdc & 0x80 != 0 && io.ppu_mode == 3))
        ||| (0xFE00 <= addr <= 0xFE9F && !(io.lcdc & 0x80 != 0 && (io.ppu_mode == 2
            || io.ppu_mode == 3)))
        ||| (addr >= 0xC000 && !(0xFE00 <= addr <= 0xFE9F) && !is_io_addr(addr) && !(0xFF10 <= addr
            <= 0xFF3F))
    }

    /// The MBC3 clock register that a write to cartridge RAM selects, if any.
    pub open spec fn spec_rtc_write_index(&self, addr: u16) -> Option<int> {
        let m = self.mbc();
        if 0xA000 <= addr <= 0xBFFF && m.kind == MbcType::Mbc3 && m.rtc_sel is Some {
            Some(m.rtc_sel->0 - 0x08)
        } else {
            None
        }
    }

    /// The external RAM cell that a CPU write to `addr` stores into, if any.
    pub open spec fn spec_ext_write_index(&self, addr: u16) -> Option<int> {
        let m = self.mbc();
        if !(0xA000 <= addr <= 0xBFFF) || (m.kind == MbcType::Mbc3 && m.rtc_sel is Some)
            || self.ext_ram().len() == 0 || !m.ram_enable {
            None
        } else {
            let bank = if m.kind == MbcType::Mbc3 {
                (m.ram_bank & 0x03) as nat
            } else {
                ext_bank(m)
            };
            let i = bank * 0x2000 + ((addr - 0xA000) as nat % 0x2000);
            if i < self.ext_ram().len() {
                Some(i as int)
            } else {
                None
            }
        }
    }

    fn write_cart_ram(&mut self, addr: u16, val: u8)
        requires
            old(self).wf(),
            0xA000 <= addr <= 0xBFFF,
        ensures
            final(self).wf(),
            final(self).rtc() == (match old(self).spec_rtc_write_index(addr) {
                Some(i) => old(self).rtc().update(i, val),
                None => old(self).rtc(),
            }),
            final(self).ext_ram() == (match old(self).spec_ext_write_index(addr) {
                Some(i) => old(self).ext_ram().update(i, val),
                None => old(self).ext_ram(),
            }),
            final(self).io() == old(self).io(),
            final(self).mbc() == old(self).mbc(),
            final(self).mem() == old(self).mem(),
            final(self).rom() == old(self).rom(),
            final(self).rom_banks() == old(self).rom_banks(),
            final(self).fb() == old(self).fb(),
            final(self).apu() == old(self).apu(),
            final(self).events() == old(self).events(),
    {
        let is_mbc3 = match self.mbc.kind {
            MbcType::Mbc3 => true,
            _ => false,
        };
        if is_mbc3 && self.mbc.rtc_sel.is_some() {
            let sel = self.mbc.rtc_sel.unwrap();
            let idx = (sel - 0x08) as usize;
            if idx < 5 {
                self.rtc_regs.set(idx, val);
            }
        } else if !(self.ext_ram.len() == 0 || !self.mbc.ram_enable) {
            let bank: usize = if is_mbc3 {
                (self.mbc.ram_bank & 0x03) as usize
            } else {
                match self.mbc.kind {
                    MbcType::Mbc1 => {
                        if self.mbc.mode & 1 == 0 {
                            0
                        } else {
                            (self.mbc.ram_bank & 0x03) as usize
                        }
                    },
                    MbcType::Mbc5 => (self.mbc.ram_bank & 0x0F) as usize,
                    _ => 0,
                }
            };
            proof {
                let rb = self.mbc.ram_bank;
                crate::bits::lemma_u8_bits(rb);
                let d = (addr as usize - 0xA000) as usize;
                assert(d & 0x1FFF == d % 0x2000) by (bit_vector);
            }
            let base = bank * 0x2000;
            let off = (addr as usize - 0xA000) & 0x1FFF;
            if base + off < self.ext_ram.len() {
                self.ext_ram.set(base + off, val);
            }
        }
    }

    fn record_scan_event(&mut self, kind: RegKind, val: u8)
        requires
            old(self).wf(),
        ensures
            final(self).wf(),
            ({
                let e = RegEvent { x: line_cycle_to_x(old(self).io().ppu_line_cycle), kind, val };
                let io = old(self).io();
                if io.lcdc & 0x80 != 0 && io.ppu_mode == 3 && io.ly < 144 && old(self).events().len()
                    < 128 {
                    inserted_in_order(old(self).events(), final(self).events(), e)
                } else {
                    final(self).events() == old(self).events()
                }
            }),
            final(self).io() == old(self).io(),
            final(self).same_storage_except_events(*old(self)),
    {
        if (self.io.lcdc & 0x80) == 0 {
            return;
        }
        if self.io.ppu_mode != 3 || self.io.ly >= 144 {
            return;
        }
        let cyc = self.io.ppu_line_cycle;
        let x: u16 = if cyc <= 80 {
            0
        } else {
            let px = cyc - 80;
            if px >= 160 {
                159
            } else {
                px as u16
            }
        };
        if self.scan_events.len() < 128 {
            let e = RegEvent { x, kind, val };
            let mut p: usize = 0;
            while p < self.scan_events.len() && self.scan_events[p].x <= x
                invariant
                    p <= self.scan_events@.len(),
                    forall|i: int| 0 <= i < p ==> self.scan_events@[i].x <= x,
                decreases self.scan_events@.len() - p,
            {
                p = p + 1;
            }
            let ghost olde = self.scan_events@;
            proof {
                assert forall|i: int| p <= i < olde.len() implies olde[i].x > x by {
                    assert(olde[p as int].x > x);
                    assert(olde[p as int].x <= olde[i].x);
                }
            }
            self.scan_events.insert(p, e);
            proof {
                let newe = self.scan_events@;
                assert(newe == olde.insert(p as int, e));
                assert forall|i: int, j: int| 0 <= i < j < newe.len() implies newe[i].x
                    <= newe[j].x by {
                    if j < p {
                    } else if j == p {
                    } else if i < p {
                    } else if i == p {
                    } else {
                    }
                }
            }
        }
    }

    /// Whether two buses agree on everything but the recorded mid-line changes.
    pub open spec fn same_storage_except_events(&self, other: Bus) -> bool {
        &&& self.mem() == other.mem()
        &&& self.rom() == other.rom()
        &&& self.rom_banks() == other.rom_banks()
        &&& self.ext_ram() == other.ext_ram()
        &&& self.mbc() == other.mbc()
        &&& self.rtc() == other.rtc()
        &&& self.fb() == other.fb()
        &&& self.apu() == other.apu()
    }

    /// A CPU write of `val` to `addr`: cartridge control, the I/O registers (timer, joypad,
    /// interrupts, PPU, DMA start), sound registers, cartridge RAM and the flat memory, gated
    /// by OAM DMA and the PPU mode; SCX, BGP and WX writes during mode 3 are recorded for
    /// the scanline renderer.
    pub fn write(&mut self, addr: u16, val: u8)
        requires
            old(self).wf(),
        ensures
            final(self).wf(),
            bus_written(*old(self), *final(self), addr, val),
    {
        if self.is_dma_active() && !((0xFF80 <= addr && addr <= 0xFFFE) || addr == 0xFFFF) {
            return;
        }
        if addr <= 0x7FFF {
            if self.rom_banks > 0 {
                self.mbc = write_mbc_state(self.mbc, addr, val);
            } else {
                self.ram.write(addr, val);
            }
        } else if addr == 0xFF00 || (0xFF04 <= addr && addr <= 0xFF07) || addr == 0xFF0F || (0xFF40
            <= addr && addr <= 0xFF4B) || addr == 0xFFFF {
            let ghost pre = *self;
            self.io = write_io(self.io, addr, val);
            if addr == 0xFF43 {
                self.record_scan_event(RegKind::Scx, val);
            } else if addr == 0xFF47 {
                self.record_scan_event(RegKind::Bgp, val);
            } else if addr == 0xFF4B {
                self.record_scan_event(RegKind::Wx, val);
            }
        } else if 0xFF10 <= addr && addr <= 0xFF3F {
            self.apu_regs.set((addr - 0xFF10) as usize, val);
        } else if 0xA000 <= addr && addr <= 0xBFFF {
            self.write_cart_ram(addr, val);
        } else if 0x8000 <= addr && addr <= 0x9FFF {
            if (self.io.lcdc & 0x80) != 0 && self.io.ppu_mode == 3 {
            } else {
                self.ram.write(addr, val);
            }
        } else if 0xFE00 <= addr && addr <= 0xFE9F {
            if (self.io.lcdc & 0x80) != 0 && (self.io.ppu_mode == 2 || self.io.ppu_mode == 3) {
            } else {
                self.ram.write(addr, val);
            }
        } else {
            self.ram.write(addr, val);
        }
    }

    /// Sets the pressed state of the direction and button rows (low nibbles, active low).
    pub fn set_joypad_rows(&mut self, dpad_low_nibble: u8, btn_low_nibble: u8)
        requires
            old(self).wf(),
        ensures
            final(self).wf(),
            final(self).io() == (IoRegs {
                joyp_dpad: dpad_low_nibble & 0x0F,
                joyp_btns: btn_low_nibble & 0x0F,
                ..old(self).io()
            }),
            final(self).same_storage(*old(self)),
    {
        self.io.joyp_dpad = dpad_low_nibble & 0x0F;
        self.io.joyp_btns = btn_low_nibble & 0x0F;
    }

    /// Raises the interrupt lines of `mask` (only the five interrupt bits count).
    pub fn request_interrupt(&mut self, mask: u8)
        requires
            old(self).wf(),
        ensures
            final(self).wf(),
            final(self).io() == (IoRegs { ifl: old(self).io().ifl | (mask & 0x1F), ..old(self).io() }),
            final(self).same_storage(*old(self)),
    {
        proof {
            crate::bits::lemma_u8_bits(mask);
            lemma_ifl_or(self.io.ifl, mask & 0x1F);
        }
        self.io.ifl = self.io.ifl | (mask & 0x1F);
    }

    /// The shade (0..=3) at column `x`, row `y`; 0 outside the screen.
    pub fn get_fb_pixel(&self, x: usize, y: usize) -> (r: u8)
        requires
            self.wf(),
        ensures
            r == (if x < 160 && y < 144 {
                self.fb()[y * 160 + x]
            } else {
                0
            }),
    {
        if x < 160 && y < 144 {
            self.framebuffer[y * 160 + x]
        } else {
            0
        }
    }

    /// The settings the square-wave synthesizer takes from the sound registers after a write
    /// to them (`just_triggered` when channel 1 was just triggered), as `synth_settings_of`
    /// describes.
    pub fn apu_synth_settings(&self, just_triggered: bool) -> (r: SynthSettings)
        requires
            self.wf(),
        ensures
            r == synth_settings_of(self.apu(), just_triggered),
    {
        let nr52 = self.apu_regs[0x16];
        let nr51 = self.apu_regs[0x15];
        let nr50 = self.apu_regs[0x14];
        let master = (nr52 & 0x80) != 0;
        let left = (nr50 >> 4) & 0x07;
        let right = nr50 & 0x07;
        let audible = left > 0 || right > 0;
        let nr14 = self.apu_regs[0x04];
        let nr24 = self.apu_regs[0x09];
        let v1 = (self.apu_regs[0x02] >> 4) & 0x0F;
        let v2 = (self.apu_regs[0x07] >> 4) & 0x0F;
        let routed1 = (nr51 & 0x01) != 0 || (nr51 & 0x10) != 0;
        let routed2 = (nr51 & 0x02) != 0 || (nr51 & 0x20) != 0;
        SynthSettings {
            master_enable: master,
            left_level: left,
            right_level: right,
            ch1_duty: (self.apu_regs[0x01] >> 6) & 0x03,
            ch1_volume: v1,
            ch1_period: (((nr14 as u16) & 0x07) << 8) | (self.apu_regs[0x03] as u16),
            ch1_enable: master && routed1 && v1 > 0 && audible,
            ch2_duty: (self.apu_regs[0x06] >> 6) & 0x03,
            ch2_volume: v2,
            ch2_period: (((nr24 as u16) & 0x07) << 8) | (self.apu_regs[0x08] as u16),
            ch2_enable: master && routed2 && v2 > 0 && audible,
            restart: master && ((nr14 & 0x80) != 0 || just_triggered || (nr24 & 0x80) != 0),
        }
    }

    /// The whole 160x144 frame of shades, row-major.
    pub fn framebuffer(&self) -> (r: &[u8])
        ensures
            r@ == self.fb(),
    {
        self.framebuffer.as_slice()
    }

    /// Inserts a cartridge image: detects the controller from header byte 0x147, sizes the
    /// external RAM from header byte 0x149 and resets the controller state.
    pub fn load_rom(&mut self, data: Vec<u8>)
        requires
            old(self).wf(),
            data@.len() + 0x3FFF <= usize::MAX,
        ensures
            final(self).wf(),
            final(self).rom() == data@,
            final(self).rom_banks() == banks_of(data@.len()),
            final(self).mbc() == mbc_reset(
                mbc_kind_of(
                    if data@.len() > 0x0147 {
                        data@[0x0147]
                    } else {
                        0
                    },
                ),
            ),
            final(self).ext_ram().len() == ram_banks_of(
                if data@.len() > 0x0149 {
                    data@[0x0149]
                } else {
                    0
                },
            ) * 0x2000,
            forall|i: int| 0 <= i < final(self).ext_ram().len() ==> final(self).ext_ram()[i] == 0,
            forall|i: int| 0 <= i < 5 ==> final(self).rtc()[i] == 0,
            final(self).io() == old(self).io(),
            final(self).mem() == old(self).mem(),
            final(self).fb() == old(self).fb(),
            final(self).apu() == old(self).apu(),
            final(self).events() == old(self).events(),
    {
        let n = data.len();
        let cart_type: u8 = if n > 0x0147 {
            data[0x0147]
        } else {
            0x00
        };
        let ram_size_code: u8 = if n > 0x0149 {
            data[0x0149]
        } else {
            0
        };
        self.rom = data;
        self.rom_banks = (n + 0x3FFF) / 0x4000;
        let kind = if 0x01 <= cart_type && cart_type <= 0x03 {
            MbcType::Mbc1
        } else if 0x0F <= cart_type && cart_type <= 0x13 {
            MbcType::Mbc3
        } else if 0x19 <= cart_type && cart_type <= 0x1E {
            MbcType::Mbc5
        } else {
            MbcType::RomOnly
        };
        let ram_banks: usize = if ram_size_code == 0x02 {
            1
        } else if ram_size_code == 0x03 {
            4
        } else if ram_size_code == 0x04 {
            16
        } else if ram_size_code == 0x05 {
            8
        } else {
            0
        };
        self.ext_ram = vec![0u8; ram_banks * 0x2000];
        self.mbc = MbcState {
            kind,
            ram_enable: false,
            rom_bank: 1,
            ram_bank: 0,
            bank_low5: 1,
            bank_high2: 0,
            mode: 0,
            rtc_sel: None,
        };
        self.rtc_regs = vec![0u8; 5];
    }

    /// The 2-bit color index of pixel `bit` (7 = leftmost) of a tile row.
    pub(crate) fn pixel_color(lo: u8, hi: u8, bit: u8) -> (r: u8)
        requires
            bit < 8,
        ensures
            r == color_index(lo, hi, bit),
            r <= 3,
    {
        let lo_b = (lo >> bit) & 1;
        let hi_b = (hi >> bit) & 1;
        proof {
            assert(((hi >> bit) & 1) * 2 + ((lo >> bit) & 1) <= 3) by (bit_vector);
            assert((((hi >> bit) & 1) << 1) | ((lo >> bit) & 1) == ((hi >> bit) & 1) * 2 + ((lo
                >> bit) & 1)) by (bit_vector);
        }
        (hi_b << 1) | lo_b
    }

    /// The shade that a palette maps a color index to.
    pub(crate) fn palette_shade(palette: u8, color: u8) -> (r: u8)
        requires
            color <= 3,
        ensures
            r == shade_of(palette, color),
            r <= 3,
    {
        proof {
            assert((palette >> (color * 2)) & 0x03 <= 3) by (bit_vector);
        }
        (palette >> (color * 2)) & 0x03
    }

    /// The address of row `row_in_tile` of tile `tile_id` in the BG/window tile data area.
    pub(crate) fn bg_tile_row_addr(tile_id: u8, signed: bool, row_in_tile: u16) -> (r: u16)
        requires
            row_in_tile < 8,
        ensures
            r == tile_row_addr(tile_id, signed, row_in_tile),
            0x8000 <= r <= 0x97FE,
    {
        if signed {
            let idx = tile_id as i8 as i32;
            let base = 0x9000i32 + idx * 16;
            (base as u16) + row_in_tile * 2
        } else {
            0x8000u16 + (tile_id as u16) * 16 + row_in_tile * 2
        }
    }

    fn start_mode3_line_capture(&mut self)
        requires
            old(self).wf(),
        ensures
            final(self).wf(),
            final(self).io() == (if old(self).io().ly < 144 {
                IoRegs {
                    line_base_scx: old(self).io().scx,
                    line_base_scy: old(self).io().scy,
                    line_base_wx: old(self).io().wx,
                    line_base_bgp: old(self).io().bgp,
                    ..old(self).io()
                }
            } else {
                old(self).io()
            }),
            old(self).io().ly < 144 ==> final(self).events().len() == 0,
            old(self).io().ly >= 144 ==> final(self).events() == old(self).events(),
            final(self).same_storage_except_events(*old(self)),
    {
        if self.io.ly < 144 {
            self.io.line_base_scx = self.io.scx;
            self.io.line_base_scy = self.io.scy;
            self.io.line_base_wx = self.io.wx;
            self.io.line_base_bgp = self.io.bgp;
            self.scan_events.clear();
        }
    }

    /// Draws scanline LY into the frame: background (with mid-line SCX/BGP changes), window
    /// (with mid-line WX changes, advancing the window line counter) and up to ten sprites.
    fn render_scanline(&mut self)
        requires
            old(self).wf(),
        ensures
            final(self).wf(),
            final(self).io() == (IoRegs { win_line: final(self).io().win_line, ..old(self).io() }),
            old(self).io().ly >= 144 ==> *final(self) == *old(self),
            forall|i: int|
                0 <= i < FRAME_PIXELS && !(old(self).io().ly as int * 160 <= i
                    < old(self).io().ly as int * 160 + 160) ==> final(self).fb()[i]
                    == old(self).fb()[i],
            old(self).io().ly < 144 ==> final(self).events().len() == 0,
            final(self).mem() == old(self).mem(),
            final(self).rom() == old(self).rom(),
            final(self).rom_banks() == old(self).rom_banks(),
            final(self).ext_ram() == old(self).ext_ram(),
            final(self).mbc() == old(self).mbc(),
            final(self).rtc() == old(self).rtc(),
            final(self).apu() == old(self).apu(),
            old(self).io().ly < 144 && old(self).io().lcdc & 0x01 != 0 && old(self).io().lcdc
                & 0x22 == 0 && old(self).events().len() == 0 ==> forall|x: int|
                0 <= x < 160 ==> #[trigger] final(self).fb()[old(self).io().ly as int * 160 + x]
                    == old(self).spec_bg_shade(x as u16),
            old(self).io().ly < 144 && old(self).io().lcdc & 0x03 == 0 ==> forall|x: int|
                0 <= x < 160 ==> #[trigger] final(self).fb()[old(self).io().ly as int * 160 + x] == 0,
            old(self).io().ly < 144 && old(self).events().len() == 0 ==> forall|x: int|
                0 <= x < 160 ==> bus_pixel_shade(
                    old(self).io(),
                    old(self).mem(),
                    x,
                    #[trigger] final(self).fb()[old(self).io().ly as int * 160 + x],
                ),
    {
        let ly = self.io.ly;
        if ly >= 144 {
            return;
        }
        let y = ly as usize;
        let lcdc = self.io.lcdc;
        let mut bg_color_idx: Vec<u8> = vec![0u8; 160];
        let mut shades: Vec<u8> = vec![0u8; 160];
        let ghost old_self = *self;
        proof {
            assert forall|i: int| 0 <= i < 160 implies shades@[i] == 0 && bg_color_idx@[i] == 0 by {
                assert(cloned::<u8>(0u8, shades@[i]));
                assert(cloned::<u8>(0u8, bg_color_idx@[i]));
            }
        }
        let ghost init_shades = shades@;
        let ghost init_colors = bg_color_idx@;
        if (lcdc & 0x01) != 0 {
            let scy = self.io.line_base_scy as u16;
            let mut scx = self.io.line_base_scx as u16;
            let v = ((ly as u16) + scy) & 0xFF;
            let tilemap: u16 = if (lcdc & 0x08) != 0 {
                0x9C00
            } else {
                0x9800
            };
            let signed = (lcdc & 0x10) == 0;
            let row_in_tile = v & 7;
            let tile_row = (v >> 3) & 31;
            proof {
                crate::bits::lemma_u16_bits(v);
            }
            let mut ev_idx: usize = 0;
            let mut curr_bgp = self.io.line_base_bgp;
            let mut x: u16 = 0;
            while x < 160
                invariant
                    self.wf(),
                    *self == old_self,
                    x <= 160,
                    ev_idx <= self.scan_events@.len(),
                    shades@.len() == 160,
                    bg_color_idx@.len() == 160,
                    forall|i: int| 0 <= i < 160 ==> shades@[i] <= 3,
                    forall|i: int| 0 <= i < 160 ==> bg_color_idx@[i] <= 3,
                    row_in_tile < 8,
                    tile_row < 32,
                    tilemap == 0x9800 || tilemap == 0x9C00,
                    scy == self.io().line_base_scy,
                    v == ((ly as u16 + scy) as u16) & 0xFF,
                    tilemap == (if lcdc & 0x08 != 0 { 0x9C00u16 } else { 0x9800u16 }),
                    signed == (lcdc & 0x10 == 0),
                    row_in_tile == v & 7,
                    tile_row == (v >> 3) & 31,
                    ly == self.io().ly,
                    lcdc == self.io().lcdc,
                    scx <= 255,
                    self.events().len() == 0 ==> scx == self.io().line_base_scx && curr_bgp
                        == self.io().line_base_bgp,
                    self.events().len() == 0 ==> forall|i: int|
                        0 <= i < x ==> shades@[i] == self.spec_bg_shade(i as u16),
                    self.events().len() == 0 ==> forall|i: int|
                        0 <= i < x ==> bg_color_idx@[i] == bus_bg_color(self.io(), self.mem(), i as u16),
                decreases 160 - x,
            {
                while ev_idx < self.scan_events.len()
                    invariant
                        ev_idx <= self.scan_events@.len(),
                        scx <= 255,
                        self.scan_events@.len() == 0 ==> scx == self.io().line_base_scx
                            && curr_bgp == self.io().line_base_bgp,
                    decreases self.scan_events@.len() - ev_idx,
                {
                    let e = self.scan_events[ev_idx];
                    if e.x < x {
                        ev_idx = ev_idx + 1;
                    } else if e.x == x {
                        match e.kind {
                            RegKind::Scx => scx = e.val as u16,
                            RegKind::Bgp => curr_bgp = e.val,
                            RegKind::Wx => {},
                        }
                        ev_idx = ev_idx + 1;
                    } else {
                        break;
                    }
                }
                let h = (x + scx) & 0xFF;
                let tile_col = (h >> 3) & 31;
                proof {
                    crate::bits::lemma_u16_bits(h);
                }
                let map_index = tile_row * 32 + tile_col;
                let tile_id = self.ram.read(tilemap + map_index);
                let tile_addr = Self::bg_tile_row_addr(tile_id, signed, row_in_tile);
                let lo = self.ram.read(tile_addr);
                let hi = self.ram.read(tile_addr + 1);
                let bit = 7 - ((h & 7) as u8);
                let color = Self::pixel_color(lo, hi, bit);
                let shade = Self::palette_shade(curr_bgp, color);
                bg_color_idx.set(x as usize, color);
                shades.set(x as usize, shade);
                x = x + 1;
            }
        }
        let ghost bg_shades = shades@;
        let ghost bg_colors = bg_color_idx@;
        if (lcdc & 0x20) != 0 && (lcdc & 0x01) != 0 {
            let wy = self.io.wy as u16;
            let window_may_draw = (ly as u16) >= wy && (self.io.wx as u16) <= 166;
            if window_may_draw {
                let tilemap: u16 = if (lcdc & 0x40) != 0 {
                    0x9C00
                } else {
                    0x9800
                };
                let signed = (lcdc & 0x10) == 0;
                let wy_line = self.io.win_line as u16;
                let row_in_tile = wy_line & 7;
                let tile_row = (wy_line >> 3) & 31;
                proof {
                    crate::bits::lemma_u16_bits(wy_line);
                }
                let mut wx_val = self.io.line_base_wx;
                let mut ev_wx_idx: usize = 0;
                let mut x: i16 = 0;
                while x < 160
                    invariant
                        self.wf(),
                        *self == old_self,
                        0 <= x <= 160,
                        ev_wx_idx <= self.scan_events@.len(),
                        shades@.len() == 160,
                        bg_color_idx@.len() == 160,
                        forall|i: int| 0 <= i < 160 ==> shades@[i] <= 3,
                        forall|i: int| 0 <= i < 160 ==> bg_color_idx@[i] <= 3,
                        row_in_tile < 8,
                        tile_row < 32,
                        tilemap == 0x9800 || tilemap == 0x9C00,
                        tilemap == (if lcdc & 0x40 != 0 { 0x9C00u16 } else { 0x9800u16 }),
                        signed == (lcdc & 0x10 == 0),
                        wy_line == self.io().win_line as u16,
                        row_in_tile == wy_line & 7,
                        tile_row == (wy_line >> 3) & 31,
                        ly == self.io().ly,
                        lcdc == self.io().lcdc,
                        self.events().len() == 0 ==> wx_val == self.io().line_base_wx,
                        lcdc & 0x20 != 0 && lcdc & 0x01 != 0,
                        self.io().ly >= self.io().wy && self.io().wx <= 166,
                        self.events().len() == 0 ==> forall|i: int|
                            0 <= i < 160 ==> shades@[i] == (if i < x && bus_window_covers(self.io(), i) {
                                shade_of(self.io().bgp, bus_win_color(self.io(), self.mem(), i))
                            } else {
                                bg_shades[i]
                            }),
                        self.events().len() == 0 ==> forall|i: int|
                            0 <= i < 160 ==> bg_color_idx@[i] == (if i < x && bus_window_covers(
                                self.io(),
                                i,
                            ) {
                                bus_win_color(self.io(), self.mem(), i)
                            } else {
                                bg_colors[i]
                            }),
                    ensures
                        self.events().len() == 0 ==> forall|i: int|
                            x <= i < 160 ==> !bus_window_covers(self.io(), i),
                    decreases 160 - x,
                {
                    while ev_wx_idx < self.scan_events.len()
                        invariant
                            ev_wx_idx <= self.scan_events@.len(),
                            self.scan_events@.len() == 0 ==> wx_val == self.io().line_base_wx,
                        decreases self.scan_events@.len() - ev_wx_idx,
                    {
                        let e = self.scan_events[ev_wx_idx];
                        if e.x < x as u16 {
                            ev_wx_idx = ev_wx_idx + 1;
                        } else if e.x == x as u16 {
                            match e.kind {
                                RegKind::Wx => wx_val = e.val,
                                _ => {},
                            }
                            ev_wx_idx = ev_wx_idx + 1;
                        } else {
                            break;
                        }
                    }
                    let wx = wx_val as i16 - 7;
                    if x < wx {
                        x = x + 1;
                        continue;
                    }
                    let wx_col = (x - wx) as u16;
                    if wx_col >= 160 {
                        break;
                    }
                    let tile_col = (wx_col >> 3) & 31;
                    proof {
                        crate::bits::lemma_u16_bits(wx_col);
                        crate::bits::lemma_u16_bits(wy_line);
                    }
                    let map_index = tile_row * 32 + tile_col;
                    let tile_id = self.ram.read(tilemap + map_index);
                    let tile_addr = Self::bg_tile_row_addr(tile_id, signed, row_in_tile);
                    let lo = self.ram.read(tile_addr);
                    let hi = self.ram.read(tile_addr + 1);
                    let bit = 7 - ((wx_col & 7) as u8);
                    let color = Self::pixel_color(lo, hi, bit);
                    let shade = Self::palette_shade(self.io.bgp, color);
                    let xi = x as usize;
                    bg_color_idx.set(xi, color);
                    shades.set(xi, shade);
                    x = x + 1;
                }
                self.io.win_line = self.io.win_line.wrapping_add(1);
            }
        }
        let ghost after_window = *self;
        proof {
            if old_self.events().len() == 0 {
                assert forall|i: int| 0 <= i < 160 implies shades@[i] == bus_line_shade(
                    old_self.io(),
                    old_self.mem(),
                    i,
                ) && bg_color_idx@[i] == bus_line_color(old_self.io(), old_self.mem(), i) by {
                    if !bus_window_covers(old_self.io(), i) {
                        if lcdc & 0x01 != 0 {
                            assert(bg_shades[i] == old_self.spec_bg_shade(i as u16));
                        } else {
                            assert(bg_shades[i] == init_shades[i]);
                            assert(bg_colors[i] == init_colors[i]);
                        }
                    }
                }
            }
        }
        let ghost line_shades = shades@;
        if (lcdc & 0x02) != 0 {
            let mut sprite_written: Vec<bool> = vec![false; 160];
            proof {
                assert forall|i: int| 0 <= i < 160 implies !sprite_written@[i] by {
                    assert(cloned::<bool>(false, sprite_written@[i]));
                }
            }
            self.draw_line_sprites(&mut shades, &mut sprite_written, &bg_color_idx);
            proof {
                if old_self.events().len() == 0 {
                    assert forall|x: int| 0 <= x < 160 implies bus_pixel_shade(
                        old_self.io(),
                        old_self.mem(),
                        x,
                        shades@[x],
                    ) by {
                        lemma_bus_first_sprite(
                            old_self.io(),
                            self.io(),
                            old_self.mem(),
                            x,
                            shades@,
                            sprite_written@,
                            bg_color_idx@,
                            line_shades,
                        );
                    }
                }
            }
        }
        let base = y * 160;
        let mut x: usize = 0;
        while x < 160
            invariant
                self.wf(),
                x <= 160,
                y < 144,
                base == y * 160,
                shades@.len() == 160,
                forall|k: int| 0 <= k < 160 ==> shades@[k] <= 3,
                self.io() == after_window.io(),
                self.same_storage_except_fb(after_window),
                forall|k: int|
                    0 <= k < FRAME_PIXELS && !(base <= k < base + x) ==> self.fb()[k]
                        == after_window.fb()[k],
                forall|k: int| 0 <= k < x ==> self.fb()[base + k] == shades@[k],
            decreases 160 - x,
        {
            self.framebuffer.set(base + x, shades[x]);
            x = x + 1;
        }
        let ghost row_done = *self;
        self.scan_events.clear();
        proof {
            assert(after_window.fb() == old_self.fb());
            assert(self.fb() == row_done.fb());
            assert forall|k: int| 0 <= k < 160 implies #[trigger] self.fb()[ly as int * 160 + k]
                == shades@[k] by {
                assert(row_done.fb()[base + k] == shades@[k]);
            }
            if lcdc & 0x03 == 0 {
                assert(lcdc & 0x01 == 0 && lcdc & 0x02 == 0) by (bit_vector)
                    requires lcdc & 0x03 == 0;
                assert(shades@ == init_shades);
            }
            if lcdc & 0x01 != 0 && lcdc & 0x22 == 0 && old_self.events().len() == 0 {
                assert(lcdc & 0x20 == 0 && lcdc & 0x02 == 0) by (bit_vector)
                    requires lcdc & 0x22 == 0;
                assert(shades@ == bg_shades);
            }
            if lcdc & 0x03 == 0 {
                assert(lcdc & 0x01 == 0 && lcdc & 0x02 == 0) by (bit_vector)
                    requires lcdc & 0x03 == 0;
            }
        }
    }

    /// Draws the sprites of line LY over `shades`, first in OAM order winning, as
    /// `bus_sprites_drawn` describes over the sprites `line_sprites` picks; `colors` holds the
    /// background/window color index of each column and `written` (all false on entry) marks
    /// the columns a sprite has drawn.
    fn draw_line_sprites(&self, shades: &mut Vec<u8>, written: &mut Vec<bool>, colors: &Vec<u8>)
        requires
            self.wf(),
            self.io().ly < 144,
            old(shades)@.len() == 160,
            old(written)@.len() == 160,
            colors@.len() == 160,
            forall|i: int| 0 <= i < 160 ==> !old(written)@[i],
            forall|i: int| 0 <= i < 160 ==> old(shades)@[i] <= 3,
        ensures
            final(shades)@.len() == 160,
            forall|i: int| 0 <= i < 160 ==> final(shades)@[i] <= 3,
            final(written)@.len() == 160,
            bus_sprites_drawn(
                self.io(),
                self.mem(),
                line_sprites(self.mem(), self.io().ly, sprite_rows(self.io().lcdc), 40),
                line_sprites(self.mem(), self.io().ly, sprite_rows(self.io().lcdc), 40).len() as int,
                final(shades)@,
                final(written)@,
                colors@,
                old(shades)@,
            ),
    {
        let ghost io = self.io();
        let ghost ram = self.mem();
        let ghost rows = sprite_rows(io.lcdc);
        let ghost sel = line_sprites(ram, io.ly, rows, 40);
        let ghost line = shades@;
        let ly = self.io.ly;
        let lcdc = self.io.lcdc;
        let obj_size_8x16 = (lcdc & 0x04) != 0;
        proof {
            lemma_line_sprites(ram, ly, rows, 40);
            crate::bits::lemma_irq_bits();
        }
        let mut drawn_on_line: u8 = 0;
        let mut i: u16 = 0;
        while i < 40
            invariant
                self.wf(),
                io == self.io(),
                ram == self.mem(),
                ly == io.ly,
                lcdc == io.lcdc,
                ly < 144,
                rows == sprite_rows(lcdc),
                obj_size_8x16 == (lcdc & 0x04 != 0),
                sel == line_sprites(ram, ly, rows, 40),
                sel.len() <= 10,
                i <= 40,
                drawn_on_line as int == line_sprites(ram, ly, rows, i as nat).len(),
                shades@.len() == 160,
                written@.len() == 160,
                colors@.len() == 160,
                bus_sprites_drawn(io, ram, sel, drawn_on_line as int, shades@, written@, colors@, line),
                forall|k: int| 0 <= k < 160 ==> shades@[k] <= 3,
            decreases 40 - i,
        {
            proof {
                lemma_line_sprites_prefix(ram, ly, rows, (i + 1) as nat, 40);
                lemma_line_sprites(ram, ly, rows, (i + 1) as nat);
            }
            let oam = 0xFE00 + i * 4;
            let ghost a = (i * 4) as u16;
            let sy = self.ram.read(oam) as i16 - 16;
            let sx = self.ram.read(oam + 1) as i16 - 8;
            let mut tile = self.ram.read(oam + 2);
            let attr = self.ram.read(oam + 3);
            let palette = if (attr & 0x10) != 0 {
                self.io.obp1
            } else {
                self.io.obp0
            };
            let xflip = (attr & 0x20) != 0;
            let yflip = (attr & 0x40) != 0;
            let behind_bg = (attr & 0x80) != 0;
            let height: i16 = if obj_size_8x16 {
                16
            } else {
                8
            };
            let yy = ly as i16;
            if yy < sy || yy >= sy + height {
                proof {
                    assert(line_sprites(ram, ly, rows, (i + 1) as nat) == line_sprites(ram, ly, rows, i as nat));
                }
                i = i + 1;
                continue;
            }
            if drawn_on_line >= 10 {
                proof {
                    assert(line_sprites(ram, ly, rows, (i + 1) as nat) == line_sprites(ram, ly, rows, i as nat));
                }
                i = i + 1;
                continue;
            }
            proof {
                assert(line_sprites(ram, ly, rows, (i + 1) as nat) == line_sprites(ram, ly, rows, i as nat).push(a));
                assert(line_sprites(ram, ly, rows, (i + 1) as nat)[drawn_on_line as int] == a);
                assert(sel[drawn_on_line as int] == a);
            }
            let ghost t0 = tile;
            let ghost r0 = ly - oam_y(ram, a);
            let mut row = (yy - sy) as u16;
            if yflip {
                row = (height - 1) as u16 - row;
            }
            proof {
                crate::bits::lemma_low_nibble(tile);
                assert(row as int == (if attr & 0x40 != 0 { rows - 1 - r0 } else { r0 }));
                assert(0 <= row < rows);
            }
            if obj_size_8x16 {
                tile = tile & 0xFE;
            }
            let tile_index = if obj_size_8x16 {
                tile.wrapping_add(((row / 8) as u8) & 1)
            } else {
                tile
            };
            let tile_row = row % 8;
            proof {
                crate::bits::lemma_irq_bits();
                if rows == 16 {
                    if row >= 8 {
                        assert((row / 8) as u8 == 1u8);
                        assert(((row / 8) as u8) & 1 == 1u8);
                        assert(tile_index == (t0 & 0xFE) | 1);
                        assert(tile_row == row - 8);
                    } else {
                        assert((row / 8) as u8 == 0u8);
                        assert(((row / 8) as u8) & 1 == 0u8);
                        assert(tile_index == t0 & 0xFE);
                    }
                } else {
                    assert(tile_row == row);
                }
            }
            let tile_addr = 0x8000u16 + (tile_index as u16) * 16 + tile_row * 2;
            assert(tile_addr as int == sprite_row_addr(lcdc, ly, ram, a));
            let lo = self.ram.read(tile_addr);
            let hi = self.ram.read(tile_addr + 1);
            let ghost sh0 = shades@;
            let ghost w0 = written@;
            let mut px: u16 = 0;
            while px < 8
                invariant
                    self.wf(),
                    io == self.io(),
                    ram == self.mem(),
                    ly == io.ly,
                    lcdc == io.lcdc,
                    px <= 8,
                    a < 160,
                    sx == oam_x(ram, a),
                    attr == ram[0xFE00 + a as int + 3],
                    xflip == (attr & 0x20 != 0),
                    behind_bg == (attr & 0x80 != 0),
                    lo == ram[sprite_row_addr(lcdc, ly, ram, a)],
                    hi == ram[sprite_row_addr(lcdc, ly, ram, a) + 1],
                    palette == (if attr & 0x10 != 0 { io.obp1 } else { io.obp0 }),
                    shades@.len() == 160,
                    written@.len() == 160,
                    colors@.len() == 160,
                    forall|k: int| 0 <= k < 160 ==> shades@[k] <= 3,
                    forall|x: int|
                        0 <= x < 160 ==> #[trigger] shades@[x] == (if sx <= x < sx + px
                            && sprite_visible(lcdc, ly, ram, a, x, colors@[x]) && !w0[x] {
                            obj_shade(io.obp0, io.obp1, lcdc, ly, ram, a, x)
                        } else {
                            sh0[x]
                        }),
                    forall|x: int|
                        0 <= x < 160 ==> #[trigger] written@[x] == (w0[x] || (sx <= x < sx + px
                            && sprite_visible(lcdc, ly, ram, a, x, colors@[x]))),
                decreases 8 - px,
            {
                let bit: u8 = if xflip {
                    px as u8
                } else {
                    7 - px as u8
                };
                let color = Self::pixel_color(lo, hi, bit);
                let x = sx + px as i16;
                assert(color == sprite_color(lcdc, ly, ram, a, x as int));
                if color != 0 {
                    if 0 <= x && x < 160 {
                        let xi = x as usize;
                        if !written[xi] && !(behind_bg && colors[xi] != 0) {
                            let shade = Self::palette_shade(palette, color);
                            shades.set(xi, shade);
                            written.set(xi, true);
                        }
                    }
                }
                px = px + 1;
            }
            proof {
                lemma_bus_sprite_step(io, ram, sel, drawn_on_line as int, sx as int, sh0, w0, shades@, written@, colors@, line);
            }
            drawn_on_line = drawn_on_line + 1;
            i = i + 1;
        }
        proof {
            assert(line_sprites(ram, ly, rows, 40) == line_sprites(ram, ly, rows, i as nat));
        }
    }

    /// Whether two buses agree on everything but the frame buffer.
    pub open spec fn same_storage_except_fb(&self, other: Bus) -> bool {
        &&& self.mem() == other.mem()
        &&& self.rom() == other.rom()
        &&& self.rom_banks() == other.rom_banks()
        &&& self.ext_ram() == other.ext_ram()
        &&& self.mbc() == other.mbc()
        &&& self.rtc() == other.rtc()
        &&& self.apu() == other.apu()
        &&& self.events() == other.events()
    }

    /// The background shade at column `x` of the current line, from the line's captured
    /// scroll and palette values.
    pub open spec fn spec_bg_shade(&self, x: u16) -> u8 {
        shade_of(self.io().line_base_bgp, bus_bg_color(self.io(), self.mem(), x))
    }

    /// Advances OAM DMA by `c` t-cycles: after the start delay, one byte per 4 cycles is
    /// copied from the source page into OAM (0xFE00..=0xFE9F).
    fn dma_progress(&mut self, c: u32)
        requires
            old(self).wf(),
        ensures
            final(self).wf(),
            !old(self).io().dma_active ==> *final(self) == *old(self),
            old(self).io().dma_active ==> final(self).io() == dma_io(old(self).io(), c),
            old(self).io().dma_active ==> dma_mem(*old(self), final(self).mem(), c),
            final(self).same_storage_except_mem(*old(self)),
    {
        if !self.io.dma_active {
            return;
        }
        let ghost old_self = *self;
        let mut remain = c;
        if self.io.dma_start_delay > 0 {
            let d = if self.io.dma_start_delay < remain {
                self.io.dma_start_delay
            } else {
                remain
            };
            self.io.dma_start_delay = self.io.dma_start_delay - d;
            remain = remain - d;
        }
        let ghost start_pos = self.io.dma_pos;
        let ghost remain0 = remain;
        let ghost accum0 = self.io.dma_cycle_accum;
        let ghost after_delay = self.io;
        let src = self.io.dma_src_base;
        while remain > 0 && self.io.dma_pos < 160
            invariant
                self.wf(),
                old_self.wf(),
                self.same_storage_except_mem(old_self),
                self.io().dma_active == (self.io().dma_pos < 160),
                start_pos <= self.io().dma_pos <= 160,
                after_delay.dma_pos == start_pos,
                start_pos == old_self.io().dma_pos,
                src == old_self.io().dma_src_base,
                src % 256 == 0,
                remain <= remain0,
                accum0 + remain0 == (self.io().dma_pos - start_pos) * 4 + self.io().dma_cycle_accum
                    + remain,
                self.io() == (IoRegs {
                    dma_pos: self.io().dma_pos,
                    dma_cycle_accum: self.io().dma_cycle_accum,
                    dma_active: self.io().dma_active,
                    ..after_delay
                }),
                self.io().dma_pos == 160 ==> self.io().dma_cycle_accum == 0,
                forall|i: int|
                    0 <= i < 0x10000 ==> #[trigger] self.mem()[i] == if 0xFE00 + start_pos <= i
                        < 0xFE00 + self.io().dma_pos {
                        old_self.spec_read_for_dma((src + (i - 0xFE00)) as u16)
                    } else {
                        old_self.mem()[i]
                    },
            ensures
                remain == 0 || self.io().dma_pos >= 160,
            decreases remain,
        {
            let ghost head = *self;
            let step = if 4 - self.io.dma_cycle_accum < remain {
                4 - self.io.dma_cycle_accum
            } else {
                remain
            };
            self.io.dma_cycle_accum = self.io.dma_cycle_accum + step;
            remain = remain - step;
            if self.io.dma_cycle_accum >= 4 {
                self.io.dma_cycle_accum = 0;
                let pos = self.io.dma_pos;
                let a = src + pos;
                let ghost cur = *self;
                proof {
                    assert(!(0xFE00 + start_pos <= a < 0xFE00 + pos));
                    assert(cur.mem() == head.mem());
                    assert(head.mem()[a as int] == old_self.mem()[a as int]);
                    assert(cur.spec_read_for_dma(a) == old_self.spec_read_for_dma(a));
                }
                let b = self.read_for_dma(a);
                self.ram.write(0xFE00 + pos, b);
                self.io.dma_pos = pos + 1;
                proof {
                    assert forall|i: int| 0 <= i < 0x10000 implies #[trigger] self.mem()[i] == if 0xFE00
                        + start_pos <= i < 0xFE00 + pos + 1 {
                        old_self.spec_read_for_dma((src + (i - 0xFE00)) as u16)
                    } else {
                        old_self.mem()[i]
                    } by {
                        if i != 0xFE00 + pos {
                            assert(head.mem()[i] == self.mem()[i]);
                        }
                    }
                }
                if self.io.dma_pos >= 160 {
                    self.io.dma_active = false;
                    break;
                }
            } else {
                proof {
                    assert(self.mem() == head.mem());
                }
            }
        }
        proof {
            let io0 = old_self.io();
            let d = if io0.dma_start_delay < c {
                io0.dma_start_delay
            } else {
                c
            };
            assert(remain0 == c - d);
            let total = io0.dma_cycle_accum + (c - d);
            let left = 160 - io0.dma_pos;
            let k = self.io().dma_pos - start_pos;
            if remain == 0 && self.io().dma_pos < 160 {
                assert(total == k * 4 + self.io().dma_cycle_accum);
                assert(total / 4 == k);
                assert(total % 4 == self.io().dma_cycle_accum);
            } else {
                assert(self.io().dma_pos == 160);
                assert(total >= left * 4);
                assert(total / 4 >= left);
            }
        }
    }

    /// Whether two buses agree on everything but the flat memory.
    pub open spec fn same_storage_except_mem(&self, other: Bus) -> bool {
        &&& self.rom() == other.rom()
        &&& self.rom_banks() == other.rom_banks()
        &&& self.ext_ram() == other.ext_ram()
        &&& self.mbc() == other.mbc()
        &&& self.rtc() == other.rtc()
        &&& self.fb() == other.fb()
        &&& self.apu() == other.apu()
        &&& self.events() == other.events()
    }

    /// Advances the 16-bit system counter (DIV) by `c` t-cycles and clocks TIMA on each
    /// falling edge of the TAC-selected counter bit while the timer is enabled; an overflow
    /// reloads TMA and raises the timer interrupt at once, and a reload already pending (a
    /// nonzero reload delay) completes, with the interrupt, when its delay runs out.
    #[verifier::rlimit(40)]
    fn timer_advance(&mut self, c: u32)
        requires
            old(self).wf(),
            c <= 0xFFFF_FFF0,
        ensures
            final(self).wf(),
            final(self).same_storage(*old(self)),
            timer_frame(old(self).io(), final(self).io()),
            c <= 0xFFFF_FF00 ==> div16(final(self).io()) == (div16(old(self).io()) + c) % 0x10000,
            final(self).io().div_sub == (old(self).io().div_sub + c) % 4,
            final(self).io().ifl == old(self).io().ifl || final(self).io().ifl == old(self).io().ifl
                | 0x04,
            old(self).io().tac & 0x04 == 0 && old(self).io().tima_reload_delay == 0 ==> timer_idle(
                old(self).io(),
                final(self).io(),
            ),
            old(self).io().tima_reload_delay == 0 && c <= 0xFFFF_FF00 ==> final(self).io().tima_reload_delay
                == 0 && final(self).io().tima == timer_result(
                old(self).io(),
                c as int,
            ).0 && final(self).io().ifl == (if timer_result(old(self).io(), c as int).1 {
                old(self).io().ifl | 0x04
            } else {
                old(self).io().ifl
            }),
    {
        let ghost old_self = *self;
        let mut c = c;
        let ghost c0 = c;
        while c > 0
            invariant
                self.wf(),
                self.same_storage(old_self),
                c <= c0,
                c0 <= 0xFFFF_FFF0,
                timer_frame(old_self.io(), self.io()),
                c0 <= 0xFFFF_FF00 ==> div16(self.io()) == (div16(old_self.io()) + (c0 - c))
                    % 0x10000,
                self.io().div_sub == (old_self.io().div_sub + (c0 - c)) % 4,
                self.io().ifl == old_self.io().ifl || self.io().ifl == old_self.io().ifl | 0x04,
                old_self.io().tac & 0x04 == 0 && old_self.io().tima_reload_delay == 0
                    ==> timer_idle(old_self.io(), self.io()),
                old_self.io().tima_reload_delay == 0 && c0 <= 0xFFFF_FF00 ==> self.io().tima_reload_delay
                    == 0 && self.io().tima == timer_result(old_self.io(), c0 - c).0 && self.io().ifl == (
                if timer_result(old_self.io(), c0 - c).1 {
                    old_self.io().ifl | 0x04
                } else {
                    old_self.io().ifl
                }),
            decreases c,
        {
            let ghost pre = self.io;
            let step = self.timer_slice(c);
            proof {
                let f0 = old_self.io().ifl;
                assert((f0 | 0x04) | 0x04 == f0 | 0x04) by (bit_vector);
                let used = c0 - c;
                lemma_mod_shift(div16(old_self.io()) as int + used, step as int, 0x10000);
                lemma_mod_shift(old_self.io().div_sub as int + used, step as int, 4);
                if old_self.io().tima_reload_delay == 0 && c0 <= 0xFFFF_FF00 {
                    let o = old_self.io();
                    if o.tac & 0x04 != 0 {
                        lemma_edges(o.tac, div16(o) as int, used as int, step as int);
                        lemma_counted_add(
                            o.tima,
                            o.tma,
                            tima_edges(o.tac, div16(o) as int, used as int) as nat,
                            tima_edges(o.tac, div16(o) as int + used, step as int) as nat,
                        );
                        assert(div16(pre) == (div16(o) + used) % 0x10000);
                    }
                }
            }
            c = c - step;
        }
    }

    /// One slice of the timer: up to the next input toggle, reload completion or `c`.
    fn timer_slice(&mut self, c: u32) -> (step: u32)
        requires
            old(self).wf(),
            0 < c <= 0xFFFF_FFF0,
        ensures
            1 <= step <= c,
            final(self).wf(),
            final(self).same_storage(*old(self)),
            timer_frame(old(self).io(), final(self).io()),
            step <= 0xFFFF_FF00 ==> div16(final(self).io()) == (div16(old(self).io()) + step)
                % 0x10000,
            final(self).io().div_sub == (old(self).io().div_sub + step) % 4,
            final(self).io().ifl == old(self).io().ifl || final(self).io().ifl == old(self).io().ifl
                | 0x04,
            old(self).io().tac & 0x04 == 0 && old(self).io().tima_reload_delay == 0 ==> timer_idle(
                old(self).io(),
                final(self).io(),
            ),
            old(self).io().tima_reload_delay == 0 ==> final(self).io().tima_reload_delay == 0
                && final(self).io().tima == timer_result(old(self).io(), step as int).0
                && final(self).io().ifl == (if timer_result(old(self).io(), step as int).1 {
                old(self).io().ifl | 0x04
            } else {
                old(self).io().ifl
            }),
    {
        let ghost io0 = self.io;
        let enabled = (self.io.tac & 0x04) != 0;
        let bit = tac_bit_exec(self.io.tac);
        let d16 = div16_exec(&self.io);
        let mask: u16 = 1u16 << bit;
        proof {
            crate::bits::lemma_irq_bits();
            crate::bits::lemma_u16_low_bits(d16);
            lemma_tac_mask(io0.tac, bit, mask);
        }
        let low_mask: u16 = mask - 1;
        let lower = d16 & low_mask;
        let to_toggle: u32 = if enabled {
            (low_mask - lower + 1) as u32
        } else {
            c
        };
        let to_reload: u32 = if self.io.tima_reload_delay > 0 {
            self.io.tima_reload_delay
        } else {
            u32::MAX
        };
        let mut step = if to_toggle < to_reload {
            to_toggle
        } else {
            to_reload
        };
        if c < step {
            step = c;
        }
        let prev_input = enabled && (d16 & mask) != 0;
        self.advance_counter(step);
        if self.io.tima_reload_delay > 0 {
            if to_reload <= step {
                self.io.tima_reload_delay = 0;
                self.io.tima = self.io.tma;
                proof {
                    crate::bits::lemma_irq_bits();
                    lemma_ifl_or(self.io.ifl, 0x04);
                }
                self.io.ifl = self.io.ifl | 0x04;
                return step;
            } else {
                self.io.tima_reload_delay = self.io.tima_reload_delay - step;
            }
        }
        if enabled && to_toggle <= step && self.io.tima_reload_delay == 0 {
            let new_d16 = div16_exec(&self.io);
            let new_input = (new_d16 & mask) != 0;
            proof {
                crate::bits::lemma_u16_low_bits(new_d16);
            }
            if prev_input && !new_input {
                if self.io.tima == 0xFF {
                    self.io.tima = self.io.tma;
                    proof {
                        crate::bits::lemma_irq_bits();
                        lemma_ifl_or(self.io.ifl, 0x04);
                    }
                    self.io.ifl = self.io.ifl | 0x04;
                } else {
                    self.io.tima = self.io.tima + 1;
                }
            }
        }
        proof {
            if io0.tima_reload_delay == 0 && enabled {
                lemma_slice_edges(io0.tac, d16 as int, step as int, (d16 + step) % 0x10000);
                reveal_with_fuel(tima_counted, 2);
            }
        }
        step
    }

    /// Adds `step` t-cycles to the system counter and the M-cycle phase.
    fn advance_counter(&mut self, step: u32)
        requires
            old(self).wf(),
            step <= 0xFFFF_FFF0,
        ensures
            final(self).wf(),
            final(self).same_storage(*old(self)),
            final(self).io() == (IoRegs {
                div: final(self).io().div,
                div_counter: final(self).io().div_counter,
                div_sub: final(self).io().div_sub,
                ..old(self).io()
            }),
            step <= 0xFFFF_FF00 ==> div16(final(self).io()) == (div16(old(self).io()) + step)
                % 0x10000,
            final(self).io().div_sub == (old(self).io().div_sub + step) % 4,
    {
        let ghost pre = self.io;
        let sum = self.io.div_counter.wrapping_add(step);
        let new_low = sum & 0xFF;
        let carry = sum >> 8;
        proof {
            lemma_div_step(pre.div, pre.div_counter, step);
            assert(sum & 0xFF < 256) by (bit_vector);
            let t: u32 = (pre.div_sub as u32 + step) as u32;
            assert(t & 3 == t % 4) by (bit_vector);
        }
        self.io.div_counter = new_low;
        self.io.div = self.io.div.wrapping_add(carry as u8);
        self.io.div_sub = ((self.io.div_sub as u32 + step) & 3) as u8;
        proof {
            assert(self.io.div == ((pre.div as u32 + carry) % 256) as u8);
            assert(new_low % 256 == new_low);
            let x: int = self.io.div as int * 256 + new_low as int;
            assert(0 <= x < 0x10000);
            assert(div16(self.io) as int == x);
            assert(div16(pre) as int == pre.div as int * 256 + pre.div_counter as int);
            if step <= 0xFFFF_FF00 {
                assert(io_wf(pre));
                assert(pre.div_counter + step <= 0xFFFF_FFFF);
                assert(x == (pre.div as int * 256 + pre.div_counter as int + step as int) % 0x10000);
            }
        }
    }

    /// One slice of PPU time within the current mode: handles the mode transition (STAT
    /// sources, rendering the line on entering HBlank after mode 3, capturing the line's
    /// registers on entering mode 3), then advances up to the mode boundary or `remain`.
    #[verifier::rlimit(80)]
    #[verifier::spinoff_prover]
    fn ppu_slice(&mut self, remain: u32) -> (step: u32)
        requires
            old(self).wf(),
            remain > 0,
        ensures
            final(self).wf(),
            1 <= step <= remain,
            ppu_frame(old(self).io(), final(self).io()),
            dots(final(self).io()) == (dots(old(self).io()) + step) % 70224,
            final(self).io().ifl == old(self).io().ifl | (final(self).io().ifl & 0x03),
            final(self).same_storage_except_fb_events(*old(self)),
            final(self).io().lcd_on_delay == old(self).io().lcd_on_delay,
            old(self).io().ppu_line_cycle + step <= 456,
            (final(self).io().ifl & 1 != 0) == (old(self).io().ifl & 1 != 0 || dots(
                final(self).io(),
            ) == 65664),
            old(self).io().stat_w & 0x78 == 0 ==> final(self).io().ifl & 2 == old(self).io().ifl
                & 2,
            forall|y: int|
                0 <= y < 144 && y != old(self).io().ly ==> #[trigger] row_same(
                    old(self).fb(),
                    final(self).fb(),
                    y,
                ),
            !row_same(old(self).fb(), final(self).fb(), old(self).io().ly as int) ==> old(
                self).io().ly < 144 && (old(self).events().len() == 0 ==> row_drawn(
                final(self).fb(),
                old(self).io(),
                final(self).mem(),
                old(self).io().ly as int,
            )),
            final(self).events().len() == 0 || final(self).events() == old(self).events(),
            base_from(old(self).io(), final(self).io()),
    {
        let ghost old_self = *self;
        proof {
            crate::bits::lemma_or_low_bits(old_self.io().stat_w);
            crate::bits::lemma_or_low_bits(old_self.io().ifl);
        }
        let mode: u8;
        let boundary: u32;
        if self.io.ly >= 144 {
            mode = 1;
            boundary = 456;
        } else if self.io.ppu_line_cycle < 80 {
            mode = 2;
            boundary = 80;
        } else {
            let mode3_len = 172u32 + ((self.io.scx & 0x07) as u32);
            let mode3_end = 80u32 + mode3_len;
            if self.io.ppu_line_cycle < mode3_end {
                mode = 3;
                boundary = mode3_end;
            } else {
                mode = 0;
                boundary = 456;
            }
        }
        proof {
            let sx = self.io.scx;
            crate::bits::lemma_low3(sx);
            crate::bits::lemma_irq_bits();
            lemma_gain_refl(old_self.io().ifl);
        }
        if mode != self.io.ppu_mode {
            if mode == 2 {
                if (self.io.stat_w & 0x20) != 0 {
                    proof {
                        lemma_ifl_or(self.io.ifl, 0x02);
                        crate::bits::lemma_or_low_bits(self.io.ifl);
                        lemma_gain_irq(old_self.io().ifl, self.io.ifl, 0x02);
                    }
                    self.io.ifl = self.io.ifl | 0x02;
                }
            } else if mode == 1 {
                if (self.io.stat_w & 0x10) != 0 {
                    proof {
                        lemma_ifl_or(self.io.ifl, 0x02);
                        crate::bits::lemma_or_low_bits(self.io.ifl);
                        lemma_gain_irq(old_self.io().ifl, self.io.ifl, 0x02);
                    }
                    self.io.ifl = self.io.ifl | 0x02;
                }
            } else if mode == 0 {
                if self.io.ppu_mode == 3 && self.io.ly < 144 {
                    self.render_scanline();
                    proof {
                        if old_self.events().len() == 0 {
                            assert(row_drawn(
                                self.fb(),
                                old_self.io(),
                                self.mem(),
                                old_self.io().ly as int,
                            ));
                        }
                    }
                }
                if (self.io.stat_w & 0x08) != 0 {
                    proof {
                        lemma_ifl_or(self.io.ifl, 0x02);
                        crate::bits::lemma_or_low_bits(self.io.ifl);
                        lemma_gain_irq(old_self.io().ifl, self.io.ifl, 0x02);
                    }
                    self.io.ifl = self.io.ifl | 0x02;
                }
            } else {
                self.start_mode3_line_capture();
            }
            self.io.ppu_mode = mode;
        }
        assert(self.io.ifl & 1 == old_self.io().ifl & 1);
        assert(old_self.io().stat_w & 0x78 == 0 ==> self.io.ifl & 2 == old_self.io().ifl & 2);
        let step = if boundary - self.io.ppu_line_cycle < remain {
            boundary - self.io.ppu_line_cycle
        } else {
            remain
        };
        self.io.ppu_line_cycle = self.io.ppu_line_cycle + step;
        if self.io.ppu_line_cycle >= 456 {
            self.io.ppu_line_cycle = 0;
            self.io.ly = self.io.ly + 1;
            if self.io.ly == 0 {
                self.io.win_line = 0;
            }
            if self.io.ly == 144 {
                proof {
                    crate::bits::lemma_irq_bits();
                    lemma_ifl_or(self.io.ifl, 0x01);
                    crate::bits::lemma_or_low_bits(self.io.ifl);
                    lemma_gain_irq(old_self.io().ifl, self.io.ifl, 0x01);
                }
                self.io.ifl = self.io.ifl | 0x01;
                if (self.io.stat_w & 0x10) != 0 {
                    proof {
                        lemma_ifl_or(self.io.ifl, 0x02);
                        crate::bits::lemma_or_low_bits(self.io.ifl);
                        lemma_gain_irq(old_self.io().ifl, self.io.ifl, 0x02);
                    }
                    self.io.ifl = self.io.ifl | 0x02;
                }
            }
            if self.io.ly > 153 {
                self.io.ly = 0;
            }
            if (self.io.stat_w & 0x40) != 0 && self.io.ly == self.io.lyc {
                proof {
                    lemma_ifl_or(self.io.ifl, 0x02);
                    crate::bits::lemma_or_low_bits(self.io.ifl);
                    lemma_gain_irq(old_self.io().ifl, self.io.ifl, 0x02);
                }
                self.io.ifl = self.io.ifl | 0x02;
            }
        }
        step
    }

    /// Advances the PPU by `c` t-cycles while the LCD is on (after any turn-on delay);
    /// with the LCD off the PPU rests at line 0, HBlank.
    fn ppu_advance(&mut self, c: u32)
        requires
            old(self).wf(),
        ensures
            final(self).wf(),
            final(self).same_storage_except_fb_events(*old(self)),
            ppu_frame(old(self).io(), final(self).io()),
            final(self).io().ifl == old(self).io().ifl | (final(self).io().ifl & 0x03),
            old(self).io().lcdc & 0x80 == 0 ==> final(self).io() == (IoRegs {
                ppu_mode: 0,
                ppu_line_cycle: 0,
                win_line: 0,
                ly: 0,
                ..old(self).io()
            }),
            old(self).io().lcdc & 0x80 != 0 && old(self).io().lcd_on_delay > c ==> final(self).io()
                == (IoRegs {
                lcd_on_delay: (old(self).io().lcd_on_delay - c) as u32,
                ..old(self).io()
            }),
            old(self).io().lcdc & 0x80 != 0 && old(self).io().lcd_on_delay == 0 ==> dots(
                final(self).io(),
            ) == (dots(old(self).io()) + c) % 70224,
            old(self).io().lcdc & 0x80 != 0 && 0 < old(self).io().lcd_on_delay <= c ==> dots(
                final(self).io(),
            ) == c % 70224,
            old(self).io().lcdc & 0x80 != 0 && old(self).io().lcd_on_delay == 0 ==> ((final(self).io().ifl & 1 != 0) == (old(self).io().ifl & 1 != 0 || vblank_crossed(
                dots(old(self).io()),
                c as int,
            ))),
            old(self).io().lcdc & 0x80 != 0 && 0 < old(self).io().lcd_on_delay <= c ==> ((final(self).io().ifl & 1 != 0) == (old(self).io().ifl & 1 != 0 || vblank_crossed(0, c as int))),
            old(self).io().stat_w & 0x78 == 0 ==> final(self).io().ifl & 2 == old(self).io().ifl
                & 2,
            old(self).io().lcdc & 0x80 != 0 && old(self).io().lcd_on_delay <= c && old(self).io().stat_w & 0x40 != 0 && final(self).io().ly == final(self).io().lyc ==> final(self).io().ifl & 2 != 0,
            old(self).io().lcdc & 0x80 == 0 || old(self).io().lcd_on_delay > c ==> final(self).fb()
                == old(self).fb(),
            old(self).events().len() == 0 ==> rows_drawn(
                old(self).fb(),
                final(self).fb(),
                old(self).io(),
                final(self).mem(),
            ),
    {
        let ghost old_self = *self;
        proof {
            lemma_gain_refl(old_self.io().ifl);
            crate::bits::lemma_or_low_bits(old_self.io().stat_w);
            crate::bits::lemma_or_low_bits(old_self.io().ifl);
        }
        if (self.io.lcdc & 0x80) != 0 {
            if self.io.lcd_on_delay > 0 {
                if c >= self.io.lcd_on_delay {
                    self.io.lcd_on_delay = 0;
                    self.io.ly = 0;
                    self.io.ppu_line_cycle = 0;
                    self.io.ppu_mode = 2;
                    proof {
                        lemma_stat_eval_wf(self.io);
                        lemma_stat_eval_gain(old_self.io().ifl, self.io);
                        crate::bits::lemma_or_low_bits(self.io.ifl | 0x02);
                    }
                    self.io = stat_eval_exec(self.io);
                } else {
                    self.io.lcd_on_delay = self.io.lcd_on_delay - c;
                    return;
                }
            }
            let ghost start = self.io;
            let mut remain = c;
            while remain > 0
                invariant
                    self.wf(),
                    old_self.wf(),
                    self.same_storage_except_fb_events(old_self),
                    ppu_frame(old_self.io(), self.io()),
                    self.io().ifl == old_self.io().ifl | (self.io().ifl & 0x03),
                    remain <= c,
                    dots(self.io()) == (dots(start) + (c - remain)) % 70224,
                    self.io().lcdc == old_self.io().lcdc,
                    self.io().lcd_on_delay == 0,
                    old_self.io().lcd_on_delay == 0 ==> start == old_self.io(),
                    old_self.io().lcd_on_delay != 0 ==> dots(start) == 0,
                    0 <= dots(start) < 70224,
                    (self.io().ifl & 1 != 0) == (old_self.io().ifl & 1 != 0 || vblank_crossed(
                        dots(start),
                        (c - remain) as int,
                    )),
                    old_self.io().stat_w & 0x78 == 0 ==> self.io().ifl & 2 == old_self.io().ifl
                        & 2,
                    old_self.events().len() == 0 ==> rows_drawn(
                        old_self.fb(),
                        self.fb(),
                        old_self.io(),
                        self.mem(),
                    ),
                    self.events().len() == 0 || self.events() == old_self.events(),
                    base_from(old_self.io(), self.io()),
                decreases remain,
            {
                let ghost before = self.io;
                let ghost before_bus = *self;
                let step = self.ppu_slice(remain);
                proof {
                    if old_self.events().len() == 0 {
                        Self::lemma_rows_drawn_step(old_self, before_bus, *self);
                    }
                }
                proof {
                    lemma_gain_chain(old_self.io().ifl, before.ifl, self.io.ifl);
                    lemma_mod_shift(dots(start) + (c - remain), step as int, 70224);
                    lemma_vblank_extend(
                        dots(start),
                        (c - remain) as int,
                        step as int,
                        before.ly as int,
                        before.ppu_line_cycle as int,
                    );
                }
                remain = remain - step;
            }
            if (self.io.stat_w & 0x40) != 0 && self.io.ly == self.io.lyc {
                proof {
                    crate::bits::lemma_irq_bits();
                    lemma_ifl_or(self.io.ifl, 0x02);
                    crate::bits::lemma_or_low_bits(self.io.ifl);
                    lemma_gain_irq(old_self.io().ifl, self.io.ifl, 0x02);
                }
                self.io.ifl = self.io.ifl | 0x02;
            }
        } else {
            self.io.ppu_mode = 0;
            self.io.ppu_line_cycle = 0;
            self.io.win_line = 0;
            self.io.ly = 0;
        }
    }

    /// One PPU slice that redraws at most the line it started on keeps `rows_drawn` from `o`.
proof fn lemma_rows_drawn_step(o: Bus, b: Bus, s: Bus)
    requires
        o.events().len() == 0,
        rows_drawn(o.fb(), b.fb(), o.io(), b.mem()),
        b.events().len() == 0 || b.events() == o.events(),
        base_from(o.io(), b.io()),
        ppu_frame(o.io(), b.io()),
        s.mem() == b.mem(),
        forall|y: int| 0 <= y < 144 && y != b.io().ly ==> #[trigger] row_same(b.fb(), s.fb(), y),
        !row_same(b.fb(), s.fb(), b.io().ly as int) ==> b.io().ly < 144 && (b.events().len() == 0
            ==> row_drawn(s.fb(), b.io(), s.mem(), b.io().ly as int)),
    ensures
        rows_drawn(o.fb(), s.fb(), o.io(), s.mem()),
{
    assert forall|y: int|
        0 <= y < 144 && !#[trigger] row_same(o.fb(), s.fb(), y) implies exists|io: IoRegs|
            #[trigger] line_state(o.io(), io, y) && row_drawn(s.fb(), io, s.mem(), y) by {
        if y == b.io().ly && !row_same(b.fb(), s.fb(), y) {
            assert(line_state(o.io(), b.io(), y));
        } else {
            assert(row_same(b.fb(), s.fb(), y));
            if row_same(o.fb(), b.fb(), y) {
                assert forall|x: int| 0 <= x < 160 implies o.fb()[y * 160 + x] == #[trigger] s.fb()[y
                    * 160 + x] by {
                    assert(o.fb()[y * 160 + x] == b.fb()[y * 160 + x]);
                }
                assert(false);
            }
            let io = choose|io: IoRegs| line_state(o.io(), io, y) && row_drawn(b.fb(), io, b.mem(), y);
            assert forall|x: int| 0 <= x < 160 implies bus_pixel_shade(
                io,
                s.mem(),
                x,
                #[trigger] s.fb()[y * 160 + x],
            ) by {
                assert(b.fb()[y * 160 + x] == s.fb()[y * 160 + x]);
            }
            assert(line_state(o.io(), io, y) && row_drawn(s.fb(), io, s.mem(), y));
        }
    }
}

/// Whether two buses agree on everything but the frame buffer and recorded line changes.
    pub open spec fn same_storage_except_fb_events(&self, other: Bus) -> bool {
        &&& self.mem() == other.mem()
        &&& self.rom() == other.rom()
        &&& self.rom_banks() == other.rom_banks()
        &&& self.ext_ram() == other.ext_ram()
        &&& self.mbc() == other.mbc()
        &&& self.rtc() == other.rtc()
        &&& self.apu() == other.apu()
    }

    /// Advances the bus by `cycles` t-cycles (taken modulo 2^32): OAM DMA, then the timer,
    /// then the PPU, which renders each visible line as it enters HBlank. `bus_stepped` states
    /// the timer, DMA, dot position and interrupt requests, that the frame buffer is untouched
    /// while the LCD is off or still turning on, and that every row the step changes is a line
    /// drawn from the step's registers (when no mid-line change was recorded before it); it
    /// does not say which rows are drawn.
    pub fn step(&mut self, cycles: u64)
        requires
            old(self).wf(),
            (cycles as u32) <= 0xFFFF_FFF0,
        ensures
            final(self).wf(),
            bus_stepped(*old(self), *final(self), cycles as u32),
    {
        let c = cycles as u32;
        let ghost s0 = *self;
        self.dma_progress(c);
        let ghost s1 = *self;
        self.timer_advance(c);
        let ghost s2 = *self;
        self.ppu_advance(c);
        proof {
            reveal(bus_stepped);
            lemma_gain_refl(s0.io().ifl);
            let f0 = s0.io().ifl;
            let f2 = s2.io().ifl;
            let f3 = self.io().ifl;
            lemma_gain_timer_ppu(f0, f2, f3);
            crate::bits::lemma_or_low_bits(f0);
            crate::bits::lemma_or_low_bits(f3);
            assert(f2 & 1 == f0 & 1 && f2 & 2 == f0 & 2);
            if s0.events().len() == 0 {
                assert forall|y: int|
                    0 <= y < 144 && !#[trigger] row_same(s0.fb(), self.fb(), y) implies exists|
                        io: IoRegs,
                    | #[trigger] line_state(s0.io(), io, y) && row_drawn(self.fb(), io, self.mem(), y) by {
                    assert(!row_same(s2.fb(), self.fb(), y));
                    let io = choose|io: IoRegs|
                        line_state(s2.io(), io, y) && row_drawn(self.fb(), io, self.mem(), y);
                    assert(line_state(s0.io(), io, y));
                }
            }
            assert(div16(s1.io()) == div16(s0.io()));
            assert(timer_result(s1.io(), c as int) == timer_result(s0.io(), c as int));
        }
    }

    /// The byte the CPU reads at `addr`: the memory map of ROM, VRAM, cartridge RAM, work RAM,
    /// OAM, I/O registers, HRAM and IE, gated by OAM DMA and the PPU mode.
    pub fn read(&self, addr: u16) -> (r: u8)
        requires
            self.wf(),
        ensures
            r == self.spec_read(addr),
    {
        if self.is_dma_active() {
            if !((0xFF80 <= addr && addr <= 0xFFFE) || addr == 0xFFFF) {
                return 0xFF;
            }
        }
        if addr <= 0x7FFF {
            if self.rom_banks > 0 {
                return self.read_rom(addr);
            } else {
                return self.ram.read(addr);
            }
        }
        let io = &self.io;
        if addr == 0xFF40 {
            io.lcdc
        } else if addr == 0xFF41 {
            let coincidence: u8 = if io.ly == io.lyc {
                0x04
            } else {
                0x00
            };
            0x80 | (io.stat_w & 0x78) | coincidence | (io.ppu_mode & 0x03)
        } else if addr == 0xFF42 {
            io.scy
        } else if addr == 0xFF43 {
            io.scx
        } else if addr == 0xFF44 {
            io.ly
        } else if addr == 0xFF45 {
            io.lyc
        } else if addr == 0xFFFF {
            io.ie
        } else if addr == 0xFF0F {
            io.ifl | 0xE0
        } else if addr == 0xFF00 {
            let res = 0xC0 | (io.p1_sel & 0x30);
            let mut low: u8 = 0x0F;
            if (io.p1_sel & 0x10) == 0 {
                low = low & io.joyp_dpad;
            }
            if (io.p1_sel & 0x20) == 0 {
                low = low & io.joyp_btns;
            }
            res | (low & 0x0F)
        } else if addr == 0xFF04 {
            io.div
        } else if addr == 0xFF05 {
            io.tima
        } else if addr == 0xFF06 {
            io.tma
        } else if addr == 0xFF07 {
            io.tac | 0xF8
        } else if addr == 0xFF47 {
            io.bgp
        } else if addr == 0xFF48 {
            io.obp0
        } else if addr == 0xFF49 {
            io.obp1
        } else if addr == 0xFF4A {
            io.wy
        } else if addr == 0xFF4B {
            io.wx
        } else if addr == 0xFF46 {
            io.dma
        } else if 0xFF10 <= addr && addr <= 0xFF3F {
            self.apu_regs[(addr - 0xFF10) as usize]
        } else if 0xA000 <= addr && addr <= 0xBFFF {
            self.read_cart_ram(addr)
        } else if 0x8000 <= addr && addr <= 0x9FFF {
            if (io.lcdc & 0x80) != 0 && io.ppu_mode == 3 {
                0xFF
            } else {
                self.ram.read(addr)
            }
        } else if 0xFE00 <= addr && addr <= 0xFE9F {
            if (io.lcdc & 0x80) != 0 && (io.ppu_mode == 2 || io.ppu_mode == 3) {
                0xFF
            } else {
                self.ram.read(addr)
            }
        } else {
            self.ram.read(addr)
        }
    }
}


/// Raises the STAT interrupt (IF bit 1) when LY==LYC with its enable set, or when the current
/// mode's STAT source (OAM, VBlank, HBlank) is enabled.
pub open spec fn stat_eval(io: IoRegs) -> IoRegs {
    let f1: u8 = if io.stat_w & 0x40 != 0 && io.ly == io.lyc {
        io.ifl | 0x02
    } else {
        io.ifl
    };
    let mode_on = (io.ppu_mode == 2 && io.stat_w & 0x20 != 0) || (io.ppu_mode == 1 && io.stat_w
        & 0x10 != 0) || (io.ppu_mode == 0 && io.stat_w & 0x08 != 0);
    IoRegs {
        ifl: if mode_on {
            f1 | 0x02
        } else {
            f1
        },
        ..io
    }
}

/// The 16-bit system counter whose high byte is DIV.
pub open spec fn div16(io: IoRegs) -> u16 {
    (io.div as int * 256 + (io.div_counter as int % 256)) as u16
}

/// The TIMA period in t-cycles for a TAC value: 1024, 16, 64 or 256.
pub open spec fn tima_period_of(tac: u8) -> int {
    let s = tac & 0x03;
    if s == 0 {
        1024
    } else if s == 1 {
        16
    } else if s == 2 {
        64
    } else {
        256
    }
}

/// How often TIMA is clocked while the system counter runs `c` cycles from `d`: once for
/// every multiple of the TIMA period passed (a falling edge of the selected counter bit).
pub open spec fn tima_edges(tac: u8, d: int, c: int) -> int {
    (d + c) / tima_period_of(tac) - d / tima_period_of(tac)
}

/// TIMA after `k` clocks from `tima`, reloading `tma` on each overflow, and whether an
/// overflow (a timer interrupt request) happened.
pub open spec fn tima_counted(tima: u8, tma: u8, k: nat) -> (u8, bool)
    decreases k,
{
    if k == 0 {
        (tima, false)
    } else {
        let p = tima_counted(tima, tma, (k - 1) as nat);
        if p.0 == 0xFF {
            (tma, true)
        } else {
            ((p.0 + 1) as u8, p.1)
        }
    }
}

/// TIMA after `c` cycles from `io` (no reload pending), and whether the timer interrupt was
/// requested: with the timer on, counted by `tima_edges`; off, unchanged.
pub open spec fn timer_result(io: IoRegs, c: int) -> (u8, bool) {
    if io.tac & 0x04 != 0 {
        tima_counted(io.tima, io.tma, tima_edges(io.tac, div16(io) as int, c) as nat)
    } else {
        (io.tima, false)
    }
}

/// Clocking TIMA `a` then `b` times is clocking it `a + b` times.
proof fn lemma_counted_add(t: u8, tma: u8, a: nat, b: nat)
    ensures
        tima_counted(t, tma, a + b) == (
            tima_counted(tima_counted(t, tma, a).0, tma, b).0,
            tima_counted(t, tma, a).1 || tima_counted(tima_counted(t, tma, a).0, tma, b).1,
        ),
    decreases b,
{
    if b > 0 {
        lemma_counted_add(t, tma, a, (b - 1) as nat);
        assert((a + b - 1) as nat == a + (b - 1) as nat);
    }
}

/// The clock count is additive over consecutive stretches, and depends on the counter only
/// modulo 2^16.
proof fn lemma_edges(tac: u8, d: int, u: int, s: int)
    requires
        d >= 0,
        u >= 0,
        s >= 0,
    ensures
        tima_edges(tac, d, u + s) == tima_edges(tac, d, u) + tima_edges(tac, d + u, s),
        tima_edges(tac, (d + u) % 0x10000, s) == tima_edges(tac, d + u, s),
        tima_edges(tac, d, u) >= 0,
{
    let p = tima_period_of(tac);
    let x = d + u;
    let q = x / 0x10000;
    let r = x % 0x10000;
    assert(x == q * 0x10000 + r);
    assert(p == 1024 || p == 16 || p == 64 || p == 256);
    vstd::arithmetic::div_mod::lemma_div_is_ordered(d, x, p);
    let k = 0x10000int / p;
    assert(k * p == 0x10000);
    assert((q * k) * p == q * 0x10000) by {
        vstd::arithmetic::mul::lemma_mul_is_associative(q, k, p);
    }
    vstd::arithmetic::div_mod::lemma_hoist_over_denominator(r, q * k, p as nat);
    vstd::arithmetic::div_mod::lemma_hoist_over_denominator(r + s, q * k, p as nat);
    assert(x + s == (r + s) + (q * k) * p);
}

/// The counter bit selected by TAC, as a mask, is half the TIMA period.
proof fn lemma_tac_mask(tac: u8, bit: u16, mask: u16)
    requires
        bit == tac_bit(tac),
        mask == 1u16 << bit,
        1u16 << 3u16 == 8u16,
        1u16 << 5u16 == 32u16,
        1u16 << 7u16 == 128u16,
        1u16 << 9u16 == 512u16,
    ensures
        mask as int * 2 == tima_period_of(tac),
{
}

/// Within one slice that stops at or before the next toggle of the selected counter bit
/// (half a TIMA period `h`), TIMA is clocked exactly when the bit was 1 and the slice reaches
/// the toggle, after which the bit reads 0.
proof fn lemma_slice_edges(tac: u8, d: int, step: int, nd: int)
    requires
        0 <= d < 0x10000,
        0 < step <= tima_period_of(tac) / 2 - d % (tima_period_of(tac) / 2),
        nd == (d + step) % 0x10000,
    ensures
        ({
            let h = tima_period_of(tac) / 2;
            &&& tima_edges(tac, d, step) == (if (d / h) % 2 == 1 && step == h - d % h {
                1int
            } else {
                0int
            })
            &&& step == h - d % h && (d / h) % 2 == 1 ==> (nd / h) % 2 == 0
        }),
{
    let per = tima_period_of(tac);
    assert(per == 1024 || per == 16 || per == 64 || per == 256);
    let h = per / 2;
    assert(per == 2 * h);
    let q = d / per;
    let r = d % per;
    vstd::arithmetic::div_mod::lemma_fundamental_div_mod(d, per);
    let bit: int = if r >= h {
        1
    } else {
        0
    };
    let lo = r - h * bit;
    assert(0 <= lo < h);
    assert(d == (2 * q + bit) * h + lo) by (nonlinear_arith)
        requires
            d == per * q + r,
            per == 2 * h,
            lo == r - h * bit,
    ;
    vstd::arithmetic::div_mod::lemma_fundamental_div_mod_converse_div(d, h, 2 * q + bit, lo);
    vstd::arithmetic::div_mod::lemma_fundamental_div_mod_converse_mod(d, h, 2 * q + bit, lo);
    assert((2 * q + bit) % 2 == bit);
    let e = d + step;
    if bit == 1 && step == h - lo {
        assert(e == (q + 1) * per) by (nonlinear_arith)
            requires
                d == per * q + r,
                per == 2 * h,
                lo == r - h,
                e == d + step,
                step == h - lo,
        ;
        vstd::arithmetic::div_mod::lemma_fundamental_div_mod_converse_div(e, per, q + 1, 0);
        assert(e <= 0x10000);
        if e < 0x10000 {
            assert(nd == e);
            assert(nd == (2 * (q + 1)) * h + 0) by (nonlinear_arith)
                requires
                    nd == (q + 1) * per,
                    per == 2 * h,
            ;
            vstd::arithmetic::div_mod::lemma_fundamental_div_mod_converse_div(nd, h, 2 * (q + 1), 0);
        } else {
            assert(nd == 0);
        }
    } else {
        assert(0 <= r + step < per);
        assert(e == q * per + (r + step)) by (nonlinear_arith)
            requires
                d == per * q + r,
                e == d + step,
        ;
        vstd::arithmetic::div_mod::lemma_fundamental_div_mod_converse_div(e, per, q, r + step);
    }
    assert(0 <= r < per);
    vstd::arithmetic::div_mod::lemma_fundamental_div_mod_converse_div(d, per, q, r);
}

/// The system counter bit that clocks TIMA for a TAC value.
pub open spec fn tac_bit(tac: u8) -> u16 {
    let s = tac & 0x03;
    if s == 0 {
        9
    } else if s == 1 {
        3
    } else if s == 2 {
        5
    } else {
        7
    }
}

/// Whether the selected timer input bit is currently 1.
pub open spec fn timer_input(io: IoRegs, tac: u8) -> bool {
    (div16(io) >> tac_bit(tac)) & 1 == 1
}

/// One TIMA increment; an overflow reloads TIMA from TMA and requests the timer interrupt.
pub open spec fn tima_tick(io: IoRegs) -> IoRegs {
    if io.tima == 0xFF {
        IoRegs { tima: io.tma, ifl: io.ifl | 0x04, ..io }
    } else {
        IoRegs { tima: (io.tima + 1) as u8, ..io }
    }
}

/// Whether `addr` is one of the I/O registers that the bus itself implements.
pub open spec fn is_io_addr(addr: u16) -> bool {
    addr == 0xFF00 || (0xFF04 <= addr <= 0xFF07) || addr == 0xFF0F || (0xFF40 <= addr <= 0xFF4B)
        || addr == 0xFFFF
}

/// The effect of a CPU write of `val` to the I/O register `addr` on the register block.
pub open spec fn spec_write_io(io: IoRegs, addr: u16, val: u8) -> IoRegs {
    if addr == 0xFF40 {
        let prev = io.lcdc;
        let a = IoRegs { lcdc: val, ..io };
        let b = if prev & 0x80 == 0 && val & 0x80 != 0 {
            IoRegs {
                win_line: 0,
                lcd_on_delay: if io.div_sub == 0 {
                    4
                } else {
                    (4 - io.div_sub) as u32
                },
                ..a
            }
        } else {
            a
        };
        let c = if prev & 0x80 != 0 && val & 0x80 == 0 {
            stat_eval(
                IoRegs { win_line: 0, ly: 0, ppu_line_cycle: 0, ppu_mode: 0, lcd_on_delay: 0, ..b },
            )
        } else {
            b
        };
        if (prev ^ val) & 0x20 != 0 {
            IoRegs { win_line: 0, ..c }
        } else {
            c
        }
    } else if addr == 0xFF41 {
        stat_eval(IoRegs { stat_w: val & 0x78, ..io })
    } else if addr == 0xFF42 {
        IoRegs { scy: val, ..io }
    } else if addr == 0xFF43 {
        IoRegs { scx: val, ..io }
    } else if addr == 0xFF44 {
        stat_eval(IoRegs { ly: 0, ppu_line_cycle: 0, ppu_mode: 2, win_line: 0, ..io })
    } else if addr == 0xFF45 {
        stat_eval(IoRegs { lyc: val, ..io })
    } else if addr == 0xFFFF {
        IoRegs { ie: val, ..io }
    } else if addr == 0xFF0F {
        IoRegs { ifl: val & 0x1F, ..io }
    } else if addr == 0xFF00 {
        IoRegs { p1_sel: val & 0x30, p1: 0xC0 | (val & 0x30), ..io }
    } else if addr == 0xFF04 {
        let enabled = io.tac & 0x04 != 0;
        let fired = enabled && timer_input(io, io.tac);
        let r = IoRegs { div: 0, div_counter: 0, div_sub: 0, ..io };
        if fired {
            tima_tick(r)
        } else {
            r
        }
    } else if addr == 0xFF05 {
        if io.tima_reload_delay > 1 {
            IoRegs { tima_reload_delay: 0, tima: val, ..io }
        } else if io.tima_reload_delay == 1 {
            io
        } else {
            IoRegs { tima: val, ..io }
        }
    } else if addr == 0xFF06 {
        if io.tima_reload_delay == 1 {
            IoRegs { tma: val, tima: val, ..io }
        } else {
            IoRegs { tma: val, ..io }
        }
    } else if addr == 0xFF07 {
        let prev_enabled = io.tac & 0x04 != 0;
        let prev_input = prev_enabled && timer_input(io, io.tac);
        let new_tac = val & 0x07;
        let r = IoRegs { tac: new_tac, ..io };
        let fired = if new_tac & 0x04 != 0 {
            prev_input && !timer_input(io, new_tac)
        } else {
            prev_input
        };
        if fired {
            tima_tick(r)
        } else {
            r
        }
    } else if addr == 0xFF46 {
        IoRegs {
            dma: val,
            dma_active: true,
            dma_src_base: (val as int * 256) as u16,
            dma_pos: 0,
            dma_cycle_accum: 0,
            dma_start_delay: 0,
            ..io
        }
    } else if addr == 0xFF47 {
        IoRegs { bgp: val, ..io }
    } else if addr == 0xFF48 {
        IoRegs { obp0: val, ..io }
    } else if addr == 0xFF49 {
        IoRegs { obp1: val, ..io }
    } else if addr == 0xFF4A {
        IoRegs { wy: val, win_line: 0, ..io }
    } else if addr == 0xFF4B {
        IoRegs { wx: val, ..io }
    } else {
        io
    }
}

/// The effect of a write to the cartridge control area 0x0000..=0x7FFF on the controller.
pub open spec fn spec_write_mbc(m: MbcState, addr: u16, val: u8) -> MbcState {
    match m.kind {
        MbcType::RomOnly => m,
        MbcType::Mbc1 => if addr <= 0x1FFF {
            MbcState { ram_enable: val & 0x0F == 0x0A, ..m }
        } else if addr <= 0x3FFF {
            MbcState {
                bank_low5: if val & 0x1F == 0 {
                    1
                } else {
                    val & 0x1F
                },
                ..m
            }
        } else if addr <= 0x5FFF {
            let high2 = val & 0x03;
            if m.mode & 1 == 1 {
                MbcState { bank_high2: high2, ram_bank: high2 & 0x03, ..m }
            } else {
                MbcState { bank_high2: high2, ..m }
            }
        } else if addr <= 0x7FFF {
            MbcState { mode: val & 0x01, ..m }
        } else {
            m
        },
        MbcType::Mbc3 => if addr <= 0x1FFF {
            MbcState { ram_enable: val & 0x0F == 0x0A, ..m }
        } else if addr <= 0x3FFF {
            MbcState {
                rom_bank: if val & 0x7F == 0 {
                    1
                } else {
                    (val & 0x7F) as u16
                },
                ..m
            }
        } else if addr <= 0x5FFF {
            let v = val & 0x0F;
            if v <= 0x03 {
                MbcState { ram_bank: v, rtc_sel: None, ..m }
            } else if 0x08 <= v <= 0x0C {
                MbcState { rtc_sel: Some(v), ..m }
            } else {
                m
            }
        } else {
            m
        },
        MbcType::Mbc5 => if addr <= 0x1FFF {
            MbcState { ram_enable: val & 0x0F == 0x0A, ..m }
        } else if addr <= 0x2FFF {
            MbcState { rom_bank: ((m.rom_bank & 0x100) | (val as u16)) as u16, ..m }
        } else if addr <= 0x3FFF {
            MbcState { rom_bank: ((m.rom_bank & 0x0FF) | (((val as u16) & 0x01) << 8)) as u16, ..m }
        } else if addr <= 0x5FFF {
            MbcState { ram_bank: val & 0x0F, ..m }
        } else {
            m
        },
    }
}

/// The frame column that a scanline cycle falls on during mode 3.
pub open spec fn line_cycle_to_x(cyc: u32) -> u16 {
    if cyc <= 80 {
        0
    } else if cyc - 80 >= 160 {
        159
    } else {
        (cyc - 80) as u16
    }
}

/// Whether a write to SCX, BGP or WX is recorded as a mid-scanline change.
pub open spec fn records_event(io: IoRegs, addr: u16, n_events: nat) -> bool {
    (addr == 0xFF43 || addr == 0xFF47 || addr == 0xFF4B) && io.lcdc & 0x80 != 0 && io.ppu_mode == 3
        && io.ly < 144 && n_events < 128
}

/// The kind of mid-scanline change that a write to `addr` records.
pub open spec fn event_kind(addr: u16) -> RegKind {
    if addr == 0xFF43 {
        RegKind::Scx
    } else if addr == 0xFF47 {
        RegKind::Bgp
    } else {
        RegKind::Wx
    }
}

/// `new` is `old` with `e` inserted after every event at or before its column.
pub open spec fn inserted_in_order(old: Seq<RegEvent>, new: Seq<RegEvent>, e: RegEvent) -> bool {
    exists|p: int|
        0 <= p <= old.len() && new == old.insert(p, e) && (forall|i: int|
            0 <= i < p ==> old[i].x <= e.x) && (forall|i: int| p <= i < old.len() ==> old[i].x
            > e.x)
}


proof fn lemma_ifl_or(x: u8, m: u8)
    requires
        x & 0xE0 == 0,
        m & 0xE0 == 0,
    ensures
        (x | m) & 0xE0 == 0,
{
    assert((x | m) & 0xE0 == 0) by (bit_vector)
        requires
            x & 0xE0 == 0,
            m & 0xE0 == 0,
    ;
}

proof fn lemma_stat_eval_wf(io: IoRegs)
    requires
        io_wf(io),
    ensures
        io_wf(stat_eval(io)),
{
    crate::bits::lemma_irq_bits();
    lemma_ifl_or(io.ifl, 0x02);
    lemma_ifl_or(io.ifl | 0x02, 0x02);
}

/// Every register write keeps the register block within its ranges.
proof fn lemma_write_io_wf(io: IoRegs, addr: u16, val: u8)
    requires
        io_wf(io),
    ensures
        io_wf(spec_write_io(io, addr, val)),
{
    let prev = io.lcdc;
    if addr == 0xFF40 {
        let a = IoRegs { lcdc: val, ..io };
        let b = if prev & 0x80 == 0 && val & 0x80 != 0 {
            IoRegs {
                win_line: 0,
                lcd_on_delay: if io.div_sub == 0 {
                    4
                } else {
                    (4 - io.div_sub) as u32
                },
                ..a
            }
        } else {
            a
        };
        lemma_stat_eval_wf(
            IoRegs { win_line: 0, ly: 0, ppu_line_cycle: 0, ppu_mode: 0, lcd_on_delay: 0, ..b },
        );
    } else if addr == 0xFF41 {
        lemma_stat_eval_wf(IoRegs { stat_w: val & 0x78, ..io });
    } else if addr == 0xFF44 {
        lemma_stat_eval_wf(IoRegs { ly: 0, ppu_line_cycle: 0, ppu_mode: 2, win_line: 0, ..io });
    } else if addr == 0xFF45 {
        lemma_stat_eval_wf(IoRegs { lyc: val, ..io });
    } else if addr == 0xFF0F {
        crate::bits::lemma_u8_bits(val);
    } else {
        crate::bits::lemma_irq_bits();
        lemma_ifl_or(io.ifl, 0x04);
    }
}

fn stat_eval_exec(io: IoRegs) -> (r: IoRegs)
    ensures
        r == stat_eval(io),
{
    let mut r = io;
    if (io.stat_w & 0x40) != 0 && io.ly == io.lyc {
        r.ifl = r.ifl | 0x02;
    }
    if io.ppu_mode == 2 {
        if (io.stat_w & 0x20) != 0 {
            r.ifl = r.ifl | 0x02;
        }
    } else if io.ppu_mode == 1 {
        if (io.stat_w & 0x10) != 0 {
            r.ifl = r.ifl | 0x02;
        }
    } else if io.ppu_mode == 0 {
        if (io.stat_w & 0x08) != 0 {
            r.ifl = r.ifl | 0x02;
        }
    }
    r
}

fn div16_exec(io: &IoRegs) -> (r: u16)
    ensures
        r == div16(*io),
{
    let d = io.div;
    let c = io.div_counter;
    proof {
        assert(((d as u16) << 8) | ((c as u16) & 0x00FF) == (d as int * 256 + (c as int % 256))
            as u16) by (bit_vector);
    }
    ((d as u16) << 8) | ((c as u16) & 0x00FF)
}

fn tac_bit_exec(tac: u8) -> (r: u16)
    ensures
        r == tac_bit(tac),
        r <= 9,
{
    let s = tac & 0x03;
    if s == 0 {
        9
    } else if s == 1 {
        3
    } else if s == 2 {
        5
    } else {
        7
    }
}

fn timer_input_exec(io: &IoRegs, tac: u8) -> (r: bool)
    ensures
        r == timer_input(*io, tac),
{
    let d = div16_exec(io);
    let b = tac_bit_exec(tac);
    (d >> b) & 1 == 1
}

fn tima_tick_exec(io: IoRegs) -> (r: IoRegs)
    ensures
        r == tima_tick(io),
{
    let mut r = io;
    if r.tima == 0xFF {
        r.tima = r.tma;
        r.ifl = r.ifl | 0x04;
    } else {
        r.tima = r.tima + 1;
    }
    r
}

/// The register block after the CPU writes `val` to the I/O register `addr`.
fn write_io(io: IoRegs, addr: u16, val: u8) -> (r: IoRegs)
    requires
        io_wf(io),
    ensures
        r == spec_write_io(io, addr, val),
        io_wf(r),
{
    proof {
        lemma_write_io_wf(io, addr, val);
    }
    let mut r = io;
    if addr == 0xFF40 {
        let prev = io.lcdc;
        r.lcdc = val;
        if (prev & 0x80) == 0 && (val & 0x80) != 0 {
            r.win_line = 0;
            let sub = io.div_sub as u32;
            r.lcd_on_delay = if sub == 0 {
                4
            } else {
                4 - sub
            };
        }
        if (prev & 0x80) != 0 && (val & 0x80) == 0 {
            r.win_line = 0;
            r.ly = 0;
            r.ppu_line_cycle = 0;
            r.ppu_mode = 0;
            r.lcd_on_delay = 0;
            r = stat_eval_exec(r);
        }
        if ((prev ^ val) & 0x20) != 0 {
            r.win_line = 0;
        }
    } else if addr == 0xFF41 {
        r.stat_w = val & 0x78;
        r = stat_eval_exec(r);
    } else if addr == 0xFF42 {
        r.scy = val;
    } else if addr == 0xFF43 {
        r.scx = val;
    } else if addr == 0xFF44 {
        r.ly = 0;
        r.ppu_line_cycle = 0;
        r.ppu_mode = 2;
        r.win_line = 0;
        r = stat_eval_exec(r);
    } else if addr == 0xFF45 {
        r.lyc = val;
        r = stat_eval_exec(r);
    } else if addr == 0xFFFF {
        r.ie = val;
    } else if addr == 0xFF0F {
        r.ifl = val & 0x1F;
    } else if addr == 0xFF00 {
        r.p1_sel = val & 0x30;
        r.p1 = 0xC0 | (val & 0x30);
    } else if addr == 0xFF04 {
        let enabled = (io.tac & 0x04) != 0;
        let fired = enabled && timer_input_exec(&io, io.tac);
        r.div = 0;
        r.div_counter = 0;
        r.div_sub = 0;
        if fired {
            r = tima_tick_exec(r);
        }
    } else if addr == 0xFF05 {
        if io.tima_reload_delay > 1 {
            r.tima_reload_delay = 0;
            r.tima = val;
        } else if io.tima_reload_delay == 1 {
        } else {
            r.tima = val;
        }
    } else if addr == 0xFF06 {
        r.tma = val;
        if io.tima_reload_delay == 1 {
            r.tima = val;
        }
    } else if addr == 0xFF07 {
        let prev_enabled = (io.tac & 0x04) != 0;
        let prev_input = prev_enabled && timer_input_exec(&io, io.tac);
        let new_tac = val & 0x07;
        r.tac = new_tac;
        let fired = if (new_tac & 0x04) != 0 {
            prev_input && !timer_input_exec(&io, new_tac)
        } else {
            prev_input
        };
        if fired {
            r = tima_tick_exec(r);
        }
    } else if addr == 0xFF46 {
        r.dma = val;
        r.dma_active = true;
        r.dma_src_base = (val as u16) << 8;
        proof {
            assert((val as u16) << 8 == (val as int * 256) as u16) by (bit_vector);
        }
        r.dma_pos = 0;
        r.dma_cycle_accum = 0;
        r.dma_start_delay = 0;
    } else if addr == 0xFF47 {
        r.bgp = val;
    } else if addr == 0xFF48 {
        r.obp0 = val;
    } else if addr == 0xFF49 {
        r.obp1 = val;
    } else if addr == 0xFF4A {
        r.wy = val;
        r.win_line = 0;
    } else if addr == 0xFF4B {
        r.wx = val;
    }
    r
}

fn write_mbc_state(m: MbcState, addr: u16, val: u8) -> (r: MbcState)
    requires
        addr <= 0x7FFF,
        m.rtc_sel matches Some(s) ==> 0x08 <= s <= 0x0C,
    ensures
        r == spec_write_mbc(m, addr, val),
        r.rtc_sel matches Some(s) ==> 0x08 <= s <= 0x0C,
{
    let mut r = m;
    match m.kind {
        MbcType::RomOnly => {},
        MbcType::Mbc1 => {
            if addr <= 0x1FFF {
                r.ram_enable = (val & 0x0F) == 0x0A;
            } else if addr <= 0x3FFF {
                let mut low5 = val & 0x1F;
                if low5 == 0 {
                    low5 = 1;
                }
                r.bank_low5 = low5;
            } else if addr <= 0x5FFF {
                r.bank_high2 = val & 0x03;
                if m.mode & 1 == 1 {
                    r.ram_bank = r.bank_high2 & 0x03;
                }
            } else {
                r.mode = val & 0x01;
            }
        },
        MbcType::Mbc3 => {
            if addr <= 0x1FFF {
                r.ram_enable = (val & 0x0F) == 0x0A;
            } else if addr <= 0x3FFF {
                let mut b = (val & 0x7F) as u16;
                if b == 0 {
                    b = 1;
                }
                r.rom_bank = b;
            } else if addr <= 0x5FFF {
                let v = val & 0x0F;
                if v <= 0x03 {
                    r.ram_bank = v;
                    r.rtc_sel = None;
                } else if 0x08 <= v && v <= 0x0C {
                    r.rtc_sel = Some(v);
                }
            }
        },
        MbcType::Mbc5 => {
            if addr <= 0x1FFF {
                r.ram_enable = (val & 0x0F) == 0x0A;
            } else if addr <= 0x2FFF {
                r.rom_bank = (m.rom_bank & 0x100) | (val as u16);
            } else if addr <= 0x3FFF {
                r.rom_bank = (m.rom_bank & 0x0FF) | (((val as u16) & 0x01) << 8);
            } else if addr <= 0x5FFF {
                r.ram_bank = val & 0x0F;
            }
        },
    }
    r
}

/// The 2-bit color index of pixel `bit` of a tile row given its two bit planes.
pub open spec fn color_index(lo: u8, hi: u8, bit: u8) -> u8 {
    (((hi >> bit) & 1) * 2 + ((lo >> bit) & 1)) as u8
}

/// The shade a palette byte assigns to a color index.
pub open spec fn shade_of(palette: u8, color: u8) -> u8 {
    (palette >> ((color * 2) as u8)) & 0x03
}

/// The address of a tile row in the BG/window tile data: unsigned from 0x8000, or signed
/// around 0x9000.
pub open spec fn tile_row_addr(tile_id: u8, signed: bool, row_in_tile: u16) -> u16 {
    if signed {
        (0x9000 + (tile_id as i8) as int * 16 + row_in_tile as int * 2) as u16
    } else {
        (0x8000 + tile_id as int * 16 + row_in_tile as int * 2) as u16
    }
}

/// Adding `step` cycles to the low counter byte and carrying into DIV advances the 16-bit
/// system counter by `step` (modulo 2^16).
proof fn lemma_div_step(div: u8, dc: u32, step: u32)
    requires
        dc < 256,
    ensures
        dc + step <= 0xFFFF_FFFF ==> (((div as u32 + ((dc.wrapping_add(step)) >> 8)) % 256) * 256
            + ((dc.wrapping_add(step)) & 0xFF)) as int == (div as int * 256 + dc as int
            + step as int) % 0x10000,
        ((div as u32 + ((dc.wrapping_add(step)) >> 8)) % 256) as u8 == div.wrapping_add(
            ((dc.wrapping_add(step)) >> 8) as u8,
        ),
{
    let sum = dc.wrapping_add(step);
    assert(((div as u32 + (sum >> 8)) % 256) as u8 == div.wrapping_add((sum >> 8) as u8))
        by (bit_vector);
    if dc + step <= 0xFFFF_FFFF {
        assert(sum == dc + step);
        assert(((div as u32 + (sum >> 8)) % 256) * 256 + (sum & 0xFF) == ((div as u32) * 256 + sum)
            % 0x10000) by (bit_vector)
            requires
                dc < 256,
                sum == dc + step,
        ;
    }
}

/// Only the timer registers (DIV, its counter and phase, TIMA, the reload delay, IF) differ.
pub open spec fn timer_frame(a: IoRegs, b: IoRegs) -> bool {
    b == (IoRegs {
        div: b.div,
        div_counter: b.div_counter,
        div_sub: b.div_sub,
        tima: b.tima,
        tima_reload_delay: b.tima_reload_delay,
        ifl: b.ifl,
        ..a
    })
}

/// Only the system counter and its phase differ: TIMA, the reload delay and IF are unchanged.
pub open spec fn timer_idle(a: IoRegs, b: IoRegs) -> bool {
    b == (IoRegs { div: b.div, div_counter: b.div_counter, div_sub: b.div_sub, ..a })
}

pub(crate) proof fn lemma_mod_shift(x: int, s: int, m: int)
    requires
        m > 0,
    ensures
        ((x % m) + s) % m == (x + s) % m,
{
    vstd::arithmetic::div_mod::lemma_add_mod_noop_right(s, x, m);
    vstd::arithmetic::div_mod::lemma_add_mod_noop(x, s, m);
    vstd::arithmetic::div_mod::lemma_mod_twice(x, m);
}

/// The position of the PPU within a frame, in dots (456 per line, 154 lines).
pub open spec fn dots(io: IoRegs) -> int {
    io.ly as int * 456 + io.ppu_line_cycle as int
}

/// Whether the dot `t` dots after frame position `d0` is the first dot of line 144, where
/// V-Blank begins.
pub open spec fn vblank_at(d0: int, t: int) -> bool {
    (d0 + t) % 70224 == 65664
}

/// Whether the PPU, running `c` dots on from frame position `d0`, enters line 144.
pub open spec fn vblank_crossed(d0: int, c: int) -> bool {
    exists|t: int| 1 <= t <= c && #[trigger] vblank_at(d0, t)
}

/// Running `s` more dots within one line (from line `ly`, cycle `cyc`) enters line 144 only
/// if the last of them does.
pub(crate) proof fn lemma_vblank_extend(d0: int, u: int, s: int, ly: int, cyc: int)
    requires
        0 <= d0 < 70224,
        0 <= u,
        1 <= s,
        0 <= ly <= 153,
        0 <= cyc,
        cyc + s <= 456,
        ly * 456 + cyc == (d0 + u) % 70224,
    ensures
        vblank_crossed(d0, u + s) == (vblank_crossed(d0, u) || vblank_at(d0, u + s)),
{
    if vblank_crossed(d0, u) {
        let t = choose|t: int| 1 <= t <= u && vblank_at(d0, t);
        assert(1 <= t <= u + s && vblank_at(d0, t));
    }
    if vblank_at(d0, u + s) {
        assert(1 <= u + s <= u + s && vblank_at(d0, u + s));
    }
    if vblank_crossed(d0, u + s) && !vblank_crossed(d0, u) {
        let t = choose|t: int| 1 <= t <= u + s && vblank_at(d0, t);
        if t < u + s {
            assert(t > u);
            let k = t - u;
            lemma_mod_shift(d0 + u, k, 70224);
            let v = ly * 456 + cyc + k;
            assert(0 <= v < 70224);
            vstd::arithmetic::div_mod::lemma_small_mod(v as nat, 70224);
            assert(v == 65664);
            assert(false);
        }
    }
}

/// Only the PPU's own registers differ (line, line cycle, mode, IF, window line, captured
/// line registers, turn-on delay).
pub open spec fn ppu_frame(a: IoRegs, b: IoRegs) -> bool {
    b == (IoRegs {
        ly: b.ly,
        ppu_line_cycle: b.ppu_line_cycle,
        ppu_mode: b.ppu_mode,
        ifl: b.ifl,
        win_line: b.win_line,
        line_base_scx: b.line_base_scx,
        line_base_scy: b.line_base_scy,
        line_base_wx: b.line_base_wx,
        line_base_bgp: b.line_base_bgp,
        lcd_on_delay: b.lcd_on_delay,
        ..a
    })
}

pub(crate) proof fn lemma_gain_irq(f0: u8, cur: u8, m: u8)
    requires
        cur == f0 | (cur & 0x03),
        m == 0 || m == 1 || m == 2,
    ensures
        (cur | m) == f0 | ((cur | m) & 0x03),
        f0 == f0 | (f0 & 0x03),
{
    assert((cur | m) == f0 | ((cur | m) & 0x03) && f0 == f0 | (f0 & 0x03)) by (bit_vector)
        requires
            cur == f0 | (cur & 0x03),
            m == 0 || m == 1 || m == 2,
    ;
}

/// A timer request followed by PPU requests only adds bits 0-2 to IF.
pub(crate) proof fn lemma_gain_timer_ppu(f0: u8, f2: u8, f3: u8)
    requires
        f2 == f0 || f2 == f0 | 0x04,
        f3 == f2 | (f3 & 0x03),
    ensures
        f3 == f0 | (f3 & 0x07),
        (f3 & 0x04 != 0) == (f2 & 0x04 != 0),
        (f0 | 0x04) & 0x04 != 0,
        f2 & 0x03 == f0 & 0x03,
{
    assert(f3 == f0 | (f3 & 0x07) && ((f3 & 0x04 != 0) == (f2 & 0x04 != 0)) && (f0 | 0x04) & 0x04
        != 0 && f2 & 0x03 == f0 & 0x03) by (bit_vector)
        requires
            f2 == f0 || f2 == f0 | 0x04,
            f3 == f2 | (f3 & 0x03),
    ;
}

pub(crate) proof fn lemma_gain_refl(f0: u8)
    ensures
        f0 == f0 | (f0 & 0x03),
{
    assert(f0 == f0 | (f0 & 0x03)) by (bit_vector);
}

pub(crate) proof fn lemma_gain_chain(f0: u8, f1: u8, f2: u8)
    requires
        f1 == f0 | (f1 & 0x03),
        f2 == f1 | (f2 & 0x03),
    ensures
        f2 == f0 | (f2 & 0x03),
{
    assert(f2 == f0 | (f2 & 0x03)) by (bit_vector)
        requires
            f1 == f0 | (f1 & 0x03),
            f2 == f1 | (f2 & 0x03),
    ;
}

proof fn lemma_stat_eval_gain(f0: u8, io: IoRegs)
    requires
        io.ifl == f0 | (io.ifl & 0x03),
    ensures
        stat_eval(io).ifl == f0 | (stat_eval(io).ifl & 0x03),
{
    lemma_gain_irq(f0, io.ifl, 2);
    lemma_gain_irq(f0, io.ifl | 2, 2);
}

/// The number of bytes a running DMA copies during `c` t-cycles.
pub open spec fn dma_bytes(io0: IoRegs, c: u32) -> int {
    let d = if io0.dma_start_delay < c {
        io0.dma_start_delay
    } else {
        c
    };
    let total = io0.dma_cycle_accum + (c - d);
    let left = 160 - io0.dma_pos;
    if total / 4 < left {
        total / 4
    } else {
        left
    }
}

/// The DMA registers after a running transfer advances `c` t-cycles: the start delay is
/// consumed first, then one byte moves per 4 cycles until all 160 have moved.
pub open spec fn dma_io(io0: IoRegs, c: u32) -> IoRegs {
    let d = if io0.dma_start_delay < c {
        io0.dma_start_delay
    } else {
        c
    };
    let total = io0.dma_cycle_accum + (c - d);
    let nb = dma_bytes(io0, c);
    let done = io0.dma_pos + nb >= 160;
    IoRegs {
        dma_start_delay: (io0.dma_start_delay - d) as u32,
        dma_pos: (io0.dma_pos + nb) as u16,
        dma_active: !done,
        dma_cycle_accum: if done {
            0
        } else {
            (total % 4) as u32
        },
        ..io0
    }
}

/// The memory after a running DMA advances `c` t-cycles: the OAM bytes it reaches hold the
/// source bytes, every other byte is unchanged.
pub open spec fn dma_mem(old: Bus, new_mem: Seq<u8>, c: u32) -> bool {
    let io0 = old.io();
    let nb = dma_bytes(io0, c);
    &&& new_mem.len() == 0x10000
    &&& forall|i: int|
        0 <= i < 0x10000 ==> #[trigger] new_mem[i] == if 0xFE00 + io0.dma_pos <= i < 0xFE00
            + io0.dma_pos + nb {
            old.spec_read_for_dma((io0.dma_src_base + (i - 0xFE00)) as u16)
        } else {
            old.mem()[i]
        }
}

/// Only timer, DMA progress and PPU registers differ after time passes.
pub open spec fn step_frame(a: IoRegs, b: IoRegs) -> bool {
    b == (IoRegs {
        div: b.div,
        div_counter: b.div_counter,
        div_sub: b.div_sub,
        tima: b.tima,
        tima_reload_delay: b.tima_reload_delay,
        ifl: b.ifl,
        dma_active: b.dma_active,
        dma_pos: b.dma_pos,
        dma_cycle_accum: b.dma_cycle_accum,
        dma_start_delay: b.dma_start_delay,
        ly: b.ly,
        ppu_line_cycle: b.ppu_line_cycle,
        ppu_mode: b.ppu_mode,
        win_line: b.win_line,
        line_base_scx: b.line_base_scx,
        line_base_scy: b.line_base_scy,
        line_base_wx: b.line_base_wx,
        line_base_bgp: b.line_base_bgp,
        lcd_on_delay: b.lcd_on_delay,
        ..a
    })
}

/// The DMA progress registers agree.
pub open spec fn dma_regs_same(a: IoRegs, b: IoRegs) -> bool {
    &&& a.dma_active == b.dma_active
    &&& a.dma_pos == b.dma_pos
    &&& a.dma_cycle_accum == b.dma_cycle_accum
    &&& a.dma_start_delay == b.dma_start_delay
}

/// The power-on I/O register values.
pub open spec fn fresh_io() -> IoRegs {
    IoRegs {
        ie: 0,
        ifl: 0,
        p1: 0xFF,
        p1_sel: 0x30,
        joyp_dpad: 0x0F,
        joyp_btns: 0x0F,
        div: 0,
        tima: 0,
        tma: 0,
        tac: 0,
        dma: 0,
        dma_active: false,
        dma_src_base: 0,
        dma_pos: 0,
        dma_cycle_accum: 0,
        dma_start_delay: 0,
        lcdc: 0,
        stat_w: 0,
        scy: 0,
        scx: 0,
        ly: 0,
        lyc: 0,
        bgp: 0xFC,
        obp0: 0xFF,
        obp1: 0xFF,
        wy: 0,
        wx: 0,
        ppu_line_cycle: 0,
        ppu_mode: 2,
        lcd_on_delay: 0,
        div_counter: 0,
        div_sub: 0,
        tima_reload_delay: 0,
        win_line: 0,
        line_base_scx: 0,
        line_base_scy: 0,
        line_base_wx: 0,
        line_base_bgp: 0xFC,
    }
}

/// The first byte of any ROM bank lies inside the image when the bank number is in range.
proof fn lemma_bank_base(len: nat, b: nat)
    requires
        b < banks_of(len),
        len + 0x3FFF <= usize::MAX,
    ensures
        b * 0x4000 < len,
        b * 0x4000 + 0x3FFF <= usize::MAX,
{
}

} // verus!
