use vstd::prelude::*;
use crate::emu_core::mmu::mmu::MMU;
use crate::emu_core::ppu::vram::VRAM;

verus! {

/// Number of pixels in a frame (160 x 144).
pub const FRAME_SIZE: usize = 23040;

/// The lightest shade of the green palette, the colour of a blank screen.
pub open spec fn white() -> (u8, u8, u8) {
    (224u8, 248u8, 208u8)
}

/// The pixel processing unit of the core: registers, OAM and an RGB frame buffer.
pub struct PPU {
    pub lcd_enabled: bool,
    pub framebuffer: Vec<(u8, u8, u8)>,
    pub bgp: u8,
    pub obp0: u8,
    pub obp1: u8,
    pub scx: u8,
    pub scy: u8,
    pub wy: u8,
    pub wx: u8,
    pub lcdc: u8,
    pub fps_counter: u32,
    pub mode: u8,
    pub ly: u8,
    pub lyc: u8,
    pub stat: u8,
    pub dots: u32,
    pub oam: [u8; 0xA0],
}

/// The green shade of palette colour `s` (0 lightest .. 3 darkest).
pub open spec fn shade_rgb(s: u8) -> (u8, u8, u8) {
    if s == 0 {
        white()
    } else if s == 1 {
        (136u8, 192u8, 112u8)
    } else if s == 2 {
        (52u8, 104u8, 86u8)
    } else {
        (8u8, 24u8, 32u8)
    }
}

/// The shade that palette register `p` gives colour number `c` (0..=3): bits 2c..2c+1.
pub open spec fn palette_shade(p: u8, c: u8) -> u8 {
    (p >> (2 * c) as u8) & 0x03
}

/// The VRAM byte at `i`, 0 outside the data.
pub open spec fn vram_byte(data: Seq<u8>, i: int) -> u8 {
    if 0 <= i < data.len() {
        data[i]
    } else {
        0
    }
}

/// The start of tile `tile_num` in VRAM: unsigned from 0x0000 with LCDC bit 4 set, else
/// signed around 0x0800.
pub open spec fn tile_start(lcdc: u8, tile_num: u8) -> int {
    if lcdc & 0x10 != 0 {
        tile_num * 16
    } else if tile_num < 128 {
        0x0800 + tile_num * 16
    } else {
        0x0800 + (tile_num - 256) * 16
    }
}

/// The colour number (0..=3) of column `col` (0 leftmost) of row `row` of the tile at
/// `start`.
pub open spec fn tile_color(data: Seq<u8>, start: int, row: int, col: int) -> u8 {
    let lo = vram_byte(data, start + row * 2);
    let hi = vram_byte(data, start + row * 2 + 1);
    let bit = (7 - col) as u8;
    (((hi >> bit) & 1) << 1u8) | ((lo >> bit) & 1)
}

/// The window or background colour of pixel (`x`, `y`): the window where it is enabled and
/// covers the pixel (from WY down and from WX - 7 right), else the scrolled background; a zero
/// BGP counts as 0xE4.
pub open spec fn bg_pixel(p: PPU, data: Seq<u8>, y: int, x: int) -> (u8, u8, u8) {
    let bgp = if p.bgp == 0 {
        0xE4u8
    } else {
        p.bgp
    };
    let wxs = if p.wx >= 7 {
        p.wx - 7
    } else {
        0
    };
    if p.lcdc & 0x20 != 0 && y >= p.wy && x >= wxs {
        let wyy = y - p.wy;
        let wxx = x - wxs;
        let map = if p.lcdc & 0x40 != 0 {
            0x1C00int
        } else {
            0x1800int
        };
        let num = vram_byte(data, map + (wyy / 8) * 32 + wxx / 8);
        shade_rgb(palette_shade(bgp, tile_color(data, tile_start(p.lcdc, num), wyy % 8, wxx % 8)))
    } else {
        let ly = (y + p.scy) % 256;
        let lx = (x + p.scx) % 256;
        let map = if p.lcdc & 0x08 != 0 {
            0x1C00int
        } else {
            0x1800int
        };
        let num = vram_byte(data, map + ((ly / 8) % 32) * 32 + (lx / 8) % 32);
        shade_rgb(palette_shade(bgp, tile_color(data, tile_start(p.lcdc, num), ly % 8, lx % 8)))
    }
}

/// Pixel (`x`, `y`) after OAM sprite `i` is laid over `rgb`: a sprite covering the pixel
/// with a nonzero colour draws it through OBP0 or OBP1 (attribute bit 4), unless its
/// priority bit 7 is set and the pixel is not white.
pub open spec fn sprite_step(p: PPU, data: Seq<u8>, y: int, x: int, i: int, rgb: (u8, u8, u8)) -> (
    u8,
    u8,
    u8,
) {
    let sy = p.oam[4 * i] - 16;
    let sx = p.oam[4 * i + 1] - 8;
    let attr = p.oam[4 * i + 3];
    let line = y - sy;
    let col = x - sx;
    if 0 <= line < 8 && 0 <= col < 8 {
        let c = tile_color(data, p.oam[4 * i + 2] * 16, line, col);
        if c != 0 && (attr & 0x80 == 0 || rgb == white()) {
            shade_rgb(
                palette_shade(
                    if attr & 0x10 == 0 {
                        p.obp0
                    } else {
                        p.obp1
                    },
                    c,
                ),
            )
        } else {
            rgb
        }
    } else {
        rgb
    }
}

/// Pixel (`x`, `y`) after OAM sprites 0..n are laid over `base` in order.
pub open spec fn sprites_over(p: PPU, data: Seq<u8>, y: int, x: int, n: nat, base: (u8, u8, u8)) -> (
    u8,
    u8,
    u8,
)
    decreases n,
{
    if n == 0 {
        base
    } else {
        sprite_step(p, data, y, x, n - 1, sprites_over(p, data, y, x, (n - 1) as nat, base))
    }
}

/// The colour of pixel (`x`, `y`): window or background, with the 40 sprites over it when
/// LCDC bit 1 enables them.
pub open spec fn frame_pixel(p: PPU, data: Seq<u8>, y: int, x: int) -> (u8, u8, u8) {
    if p.lcdc & 0x02 != 0 {
        sprites_over(p, data, y, x, 40, bg_pixel(p, data, y, x))
    } else {
        bg_pixel(p, data, y, x)
    }
}

/// The frame drawn from registers `p` and VRAM `data`: white with the display off (LCDC
/// bit 7), else pixel by pixel, row-major.
pub open spec fn frame_of(p: PPU, data: Seq<u8>) -> Seq<(u8, u8, u8)> {
    if p.lcdc & 0x80 == 0 {
        Seq::new(FRAME_SIZE as nat, |k: int| white())
    } else {
        Seq::new(FRAME_SIZE as nat, |k: int| frame_pixel(p, data, k / 160, k % 160))
    }
}

/// `n` is the PPU `o` after one tick: the palettes reloaded from the memory map
/// (0xFF47..=0xFF49) and the frame redrawn from them and VRAM; the rest unchanged.
pub open spec fn ticked(o: PPU, n: PPU, m: MMU, data: Seq<u8>) -> bool {
    let p = PPU {
        bgp: m.read_spec(0xFF47),
        obp0: m.read_spec(0xFF48),
        obp1: m.read_spec(0xFF49),
        ..o
    };
    &&& n.framebuffer@ == frame_of(p, data)
    &&& n.lcd_enabled == o.lcd_enabled
    &&& n.bgp == p.bgp && n.obp0 == p.obp0 && n.obp1 == p.obp1
    &&& n.scx == o.scx && n.scy == o.scy && n.wy == o.wy && n.wx == o.wx && n.lcdc == o.lcdc
    &&& n.fps_counter == o.fps_counter && n.mode == o.mode && n.ly == o.ly && n.lyc == o.lyc
    &&& n.stat == o.stat && n.dots == o.dots
    &&& n.oam@ == o.oam@
}

/// Two single bits side by side make a colour number of at most 3.
proof fn lemma_two_bits(h: u8, l: u8)
    by (bit_vector)
    ensures
        ((h & 1) << 1u8) | (l & 1) <= 3,
{
}

/// Whether two PPUs agree on everything the frame is drawn from.
pub open spec fn same_render_inputs(a: PPU, b: PPU) -> bool {
    &&& a.lcdc == b.lcdc && a.bgp == b.bgp && a.obp0 == b.obp0 && a.obp1 == b.obp1
    &&& a.scx == b.scx && a.scy == b.scy && a.wx == b.wx && a.wy == b.wy
    &&& a.oam@ == b.oam@
}

proof fn lemma_sprites_congruent(a: PPU, b: PPU, data: Seq<u8>, y: int, x: int, n: nat, base: (
    u8,
    u8,
    u8,
))
    requires
        same_render_inputs(a, b),
    ensures
        sprites_over(a, data, y, x, n, base) == sprites_over(b, data, y, x, n, base),
    decreases n,
{
    if n > 0 {
        lemma_sprites_congruent(a, b, data, y, x, (n - 1) as nat, base);
        let i = n - 1;
        assert(a.oam[4 * i] == b.oam[4 * i] && a.oam[4 * i + 1] == b.oam[4 * i + 1] && a.oam[4 * i
            + 2] == b.oam[4 * i + 2] && a.oam[4 * i + 3] == b.oam[4 * i + 3]);
    }
}

/// Two PPUs that agree on the registers and OAM draw the same frame from the same VRAM.
proof fn lemma_frame_congruent(a: PPU, b: PPU, data: Seq<u8>)
    requires
        same_render_inputs(a, b),
    ensures
        frame_of(a, data) == frame_of(b, data),
{
    assert forall|k: int| 0 <= k < FRAME_SIZE implies #[trigger] frame_pixel(a, data, k / 160, k
        % 160) == frame_pixel(b, data, k / 160, k % 160) by {
        lemma_sprites_congruent(a, b, data, k / 160, k % 160, 40, bg_pixel(a, data, k / 160, k % 160));
    }
    assert(frame_of(a, data) =~= frame_of(b, data));
}

/// Ticking again without changes in between draws the same frame: a second tick leaves the
/// PPU as the first one did.
pub proof fn law_tick_idempotent(o: PPU, n1: PPU, n2: PPU, m: MMU, data: Seq<u8>)
    requires
        ticked(o, n1, m, data),
        ticked(n1, n2, m, data),
    ensures
        ticked(o, n2, m, data),
{
    let p1 = PPU { bgp: m.read_spec(0xFF47), obp0: m.read_spec(0xFF48), obp1: m.read_spec(0xFF49), ..o };
    let p2 = PPU { bgp: m.read_spec(0xFF47), obp0: m.read_spec(0xFF48), obp1: m.read_spec(0xFF49), ..n1 };
    lemma_frame_congruent(p1, p2, data);
}

fn white_frame() -> (r: Vec<(u8, u8, u8)>)
    ensures
        r@ == Seq::new(FRAME_SIZE as nat, |i: int| white()),
{
    let mut v: Vec<(u8, u8, u8)> = Vec::with_capacity(FRAME_SIZE);
    let mut i: usize = 0;
    while i < FRAME_SIZE
        invariant
            i <= FRAME_SIZE,
            v@ == Seq::new(i as nat, |k: int| white()),
        decreases FRAME_SIZE - i,
    {
        v.push((224, 248, 208));
        i = i + 1;
        proof {
            assert(v@ =~= Seq::new(i as nat, |k: int| white()));
        }
    }
    v
}

impl PPU {
    /// A PPU with the LCD off, a white frame, BGP 0xE4, both object palettes 0xFF and LCDC
    /// 0xB1.
    pub fn new() -> (r: PPU)
        ensures
            !r.lcd_enabled,
            r.framebuffer@ == Seq::new(FRAME_SIZE as nat, |i: int| white()),
            r.bgp == 0xE4 && r.obp0 == 0xFF && r.obp1 == 0xFF,
            r.scx == 0 && r.scy == 0 && r.wy == 0 && r.wx == 0,
            r.lcdc == 0xB1,
            r.fps_counter == 0 && r.mode == 0 && r.ly == 0 && r.lyc == 0 && r.stat == 0 && r.dots
                == 0,
            r.oam@ == Seq::new(0xA0, |i: int| 0u8),
    {
        let r = PPU {
            lcd_enabled: false,
            framebuffer: white_frame(),
            bgp: 0xE4,
            obp0: 0xFF,
            obp1: 0xFF,
            scx: 0,
            scy: 0,
            wy: 0,
            wx: 0,
            lcdc: 0xB1,
            fps_counter: 0,
            mode: 0,
            ly: 0,
            lyc: 0,
            stat: 0,
            dots: 0,
            oam: [0u8; 0xA0],
        };
        proof {
            assert(r.oam@ =~= Seq::new(0xA0, |i: int| 0u8));
        }
        r
    }

    /// The frame as palette indices: the red component of each pixel.
    pub fn get_framebuffer_indices(&self) -> (r: Vec<u8>)
        ensures
            r@ == self.framebuffer@.map_values(|p: (u8, u8, u8)| p.0),
    {
        let mut v: Vec<u8> = Vec::with_capacity(self.framebuffer.len());
        let mut i: usize = 0;
        while i < self.framebuffer.len()
            invariant
                i <= self.framebuffer@.len(),
                v@ == self.framebuffer@.subrange(0, i as int).map_values(|p: (u8, u8, u8)| p.0),
            decreases self.framebuffer@.len() - i,
        {
            v.push(self.framebuffer[i].0);
            i = i + 1;
            proof {
                assert(v@ =~= self.framebuffer@.subrange(0, i as int).map_values(
                    |p: (u8, u8, u8)| p.0,
                ));
            }
        }
        proof {
            assert(self.framebuffer@.subrange(0, i as int) =~= self.framebuffer@);
        }
        v
    }

    /// Turns the LCD on or off.
    pub fn set_lcd_enabled(&mut self, enabled: bool)
        ensures
            *final(self) == (PPU { lcd_enabled: enabled, ..*old(self) }),
    {
        self.lcd_enabled = enabled;
    }

    /// Whether the LCD is on.
    pub fn is_lcd_enabled(&self) -> (r: bool)
        ensures
            r == self.lcd_enabled,
    {
        self.lcd_enabled
    }

    /// The frame: the frame buffer, or a white frame when the buffer holds less than a
    /// whole frame.
    pub fn get_framebuffer(&self) -> (r: Vec<(u8, u8, u8)>)
        ensures
            r@ == if self.framebuffer@.len() < FRAME_SIZE {
                Seq::new(FRAME_SIZE as nat, |i: int| white())
            } else {
                self.framebuffer@
            },
    {
        if self.framebuffer.len() < FRAME_SIZE {
            white_frame()
        } else {
            let mut v: Vec<(u8, u8, u8)> = Vec::with_capacity(self.framebuffer.len());
            let mut i: usize = 0;
            while i < self.framebuffer.len()
                invariant
                    i <= self.framebuffer@.len(),
                    v@ == self.framebuffer@.subrange(0, i as int),
                decreases self.framebuffer@.len() - i,
            {
                v.push(self.framebuffer[i]);
                i = i + 1;
                proof {
                    assert(v@ =~= self.framebuffer@.subrange(0, i as int));
                }
            }
            proof {
                assert(v@ =~= self.framebuffer@);
            }
            v
        }
    }

    fn vram_at(data: &Vec<u8>, i: usize) -> (r: u8)
        ensures
            r == vram_byte(data@, i as int),
    {
        if i < data.len() {
            data[i]
        } else {
            0
        }
    }

    fn shade(s: u8) -> (r: (u8, u8, u8))
        ensures
            r == shade_rgb(s),
    {
        if s == 0 {
            (224, 248, 208)
        } else if s == 1 {
            (136, 192, 112)
        } else if s == 2 {
            (52, 104, 86)
        } else {
            (8, 24, 32)
        }
    }

    fn tile_addr(lcdc: u8, num: u8) -> (r: usize)
        ensures
            r as int == tile_start(lcdc, num),
            r < 0x1000,
    {
        if lcdc & 0x10 != 0 {
            (num as usize) * 16
        } else if num < 128 {
            0x0800 + (num as usize) * 16
        } else {
            (num as usize) * 16 - 0x0800
        }
    }

    fn color_at(data: &Vec<u8>, start: usize, row: usize, col: usize) -> (r: u8)
        requires
            start < 0x10000,
            row < 8,
            col < 8,
        ensures
            r == tile_color(data@, start as int, row as int, col as int),
            r <= 3,
    {
        let lo = Self::vram_at(data, start + row * 2);
        let hi = Self::vram_at(data, start + row * 2 + 1);
        let bit = (7 - col) as u8;
        proof {
            lemma_two_bits(hi >> bit, lo >> bit);
        }
        (((hi >> bit) & 1) << 1) | ((lo >> bit) & 1)
    }

    fn background_at(&self, data: &Vec<u8>, y: usize, x: usize) -> (r: (u8, u8, u8))
        requires
            y < 144,
            x < 160,
        ensures
            r == bg_pixel(*self, data@, y as int, x as int),
    {
        let bgp = if self.bgp == 0 {
            0xE4u8
        } else {
            self.bgp
        };
        let wxs: usize = if self.wx >= 7 {
            (self.wx - 7) as usize
        } else {
            0
        };
        if self.lcdc & 0x20 != 0 && y >= self.wy as usize && x >= wxs {
            let wyy = y - self.wy as usize;
            let wxx = x - wxs;
            let map: usize = if self.lcdc & 0x40 != 0 {
                0x1C00
            } else {
                0x1800
            };
            let num = Self::vram_at(data, map + (wyy / 8) * 32 + wxx / 8);
            let c = Self::color_at(data, Self::tile_addr(self.lcdc, num), wyy % 8, wxx % 8);
            Self::shade((bgp >> (2 * c)) & 0x03)
        } else {
            let ly = (y + self.scy as usize) % 256;
            let lx = (x + self.scx as usize) % 256;
            let map: usize = if self.lcdc & 0x08 != 0 {
                0x1C00
            } else {
                0x1800
            };
            let num = Self::vram_at(data, map + ((ly / 8) % 32) * 32 + (lx / 8) % 32);
            let c = Self::color_at(data, Self::tile_addr(self.lcdc, num), ly % 8, lx % 8);
            Self::shade((bgp >> (2 * c)) & 0x03)
        }
    }

    fn sprite_at(&self, data: &Vec<u8>, y: usize, x: usize, i: usize, rgb: (u8, u8, u8)) -> (r: (
        u8,
        u8,
        u8,
    ))
        requires
            y < 144,
            x < 160,
            i < 40,
        ensures
            r == sprite_step(*self, data@, y as int, x as int, i as int, rgb),
    {
        let sy = self.oam[4 * i] as i32 - 16;
        let sx = self.oam[4 * i + 1] as i32 - 8;
        let tile = self.oam[4 * i + 2];
        let attr = self.oam[4 * i + 3];
        let line = y as i32 - sy;
        let col = x as i32 - sx;
        if 0 <= line && line < 8 && 0 <= col && col < 8 {
            let c = Self::color_at(data, (tile as usize) * 16, line as usize, col as usize);
            if c != 0 && ((attr & 0x80) == 0 || (rgb.0 == 224 && rgb.1 == 248 && rgb.2 == 208)) {
                let pal = if (attr & 0x10) == 0 {
                    self.obp0
                } else {
                    self.obp1
                };
                Self::shade((pal >> (2 * c)) & 0x03)
            } else {
                rgb
            }
        } else {
            rgb
        }
    }

    fn pixel_at(&self, data: &Vec<u8>, y: usize, x: usize) -> (r: (u8, u8, u8))
        requires
            y < 144,
            x < 160,
        ensures
            r == frame_pixel(*self, data@, y as int, x as int),
    {
        let base = self.background_at(data, y, x);
        if self.lcdc & 0x02 != 0 {
            let mut rgb = base;
            let mut i: usize = 0;
            while i < 40
                invariant
                    i <= 40,
                    y < 144,
                    x < 160,
                    rgb == sprites_over(*self, data@, y as int, x as int, i as nat, base),
                decreases 40 - i,
            {
                rgb = self.sprite_at(data, y, x, i, rgb);
                i = i + 1;
            }
            rgb
        } else {
            base
        }
    }

    /// Reloads the palettes from the memory map (0xFF47..=0xFF49) and redraws the whole
    /// frame from the registers and VRAM, as `ticked` describes.
    pub fn tick(&mut self, mmu: &MMU, vram: &VRAM)
        requires
            mmu.wf(),
        ensures
            ticked(*old(self), *final(self), *mmu, vram.data@),
    {
        self.bgp = match mmu.read_byte(0xFF47) {
            Ok(v) => v,
            Err(_) => 0xE4,
        };
        self.obp0 = match mmu.read_byte(0xFF48) {
            Ok(v) => v,
            Err(_) => 0xFF,
        };
        self.obp1 = match mmu.read_byte(0xFF49) {
            Ok(v) => v,
            Err(_) => 0xFF,
        };
        if self.lcdc & 0x80 == 0 {
            self.framebuffer = white_frame();
            return;
        }
        let data = &vram.data;
        let mut fb: Vec<(u8, u8, u8)> = Vec::with_capacity(FRAME_SIZE);
        let mut y: usize = 0;
        while y < 144
            invariant
                y <= 144,
                fb@.len() == y * 160,
                forall|k: int| 0 <= k < fb@.len() ==> fb@[k] == frame_pixel(*self, data@, k / 160, k % 160),
            decreases 144 - y,
        {
            let mut x: usize = 0;
            while x < 160
                invariant
                    y < 144,
                    x <= 160,
                    fb@.len() == y * 160 + x,
                    forall|k: int| 0 <= k < fb@.len() ==> fb@[k] == frame_pixel(*self, data@, k / 160, k % 160),
                decreases 160 - x,
            {
                let px = self.pixel_at(data, y, x);
                proof {
                    assert((y * 160 + x) / 160 == y && (y * 160 + x) % 160 == x) by (nonlinear_arith)
                        requires
                            x < 160,
                    ;
                }
                fb.push(px);
                x = x + 1;
            }
            y = y + 1;
        }
        proof {
            assert(fb@ =~= frame_of(*self, data@));
        }
        self.framebuffer = fb;
    }

    /// One PPU step: a tick.
    pub fn step(&mut self, mmu: &MMU, vram: &VRAM)
        requires
            mmu.wf(),
        ensures
            ticked(*old(self), *final(self), *mmu, vram.data@),
    {
        self.tick(mmu, vram);
    }

    /// Runs `cycles` PPU ticks: none leaves the PPU as it was; any number draws the frame
    /// that one tick draws.
    pub fn run(&mut self, cycles: usize, mmu: &MMU, vram: &VRAM)
        requires
            mmu.wf(),
        ensures
            cycles == 0 ==> *final(self) == *old(self),
            cycles > 0 ==> ticked(*old(self), *final(self), *mmu, vram.data@),
    {
        let ghost o = *self;
        let mut i: usize = 0;
        while i < cycles
            invariant
                i <= cycles,
                mmu.wf(),
                i == 0 ==> *self == o,
                i > 0 ==> ticked(o, *self, *mmu, vram.data@),
            decreases cycles - i,
        {
            let ghost before = *self;
            self.tick(mmu, vram);
            proof {
                if i > 0 {
                    law_tick_idempotent(o, before, *self, *mmu, vram.data@);
                }
            }
            i = i + 1;
        }
    }
}

} // verus!
