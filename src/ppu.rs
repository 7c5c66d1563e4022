use vstd::prelude::*;

use crate::byteop::{get_bit, set_bit, spec_bit, spec_set_bit};
use crate::memory::Memory;
use crate::registers;

verus! {

/// Dots in one scanline.
pub const LINE_DOTS: u16 = 456;

/// Dots in one frame: 154 lines.
pub const FRAME_DOTS: u32 = 70224;

/// Width of the screen in pixels.
pub const SCREEN_W: u8 = 160;

/// Height of the screen in pixels.
pub const SCREEN_H: u8 = 144;

/// One OAM entry.
#[derive(Clone, Copy)]
struct Sprite {
    addr: u16,
    x: u8,
    y: u8,
    tile: u8,
    flags: u8,
}

/// Address of tile `tile_id`'s data: from 8000 with an unsigned index, or around 9000 with a
/// signed one (indices 80–FF then lie at 8800–8FF0).
pub open spec fn spec_tile_addr(tile_id: u8, signed_mode: bool) -> u16 {
    if signed_mode && tile_id < 0x80 {
        (0x9000 + tile_id as int * 16) as u16
    } else {
        (0x8000 + tile_id as int * 16) as u16
    }
}

pub fn tile_addr(tile_id: u8, signed_mode: bool) -> (r: u16)
    ensures
        r == spec_tile_addr(tile_id, signed_mode),
{
    let select = get_bit(tile_id as u16, 7) == 1;
    proof {
        assert((spec_bit(tile_id as u16, 7) == 1) <==> tile_id >= 0x80) by (bit_vector);
    }
    let base: u16 = if !signed_mode && !select {
        0x8000
    } else if !signed_mode && select {
        0x8800
    } else if signed_mode && !select {
        0x9000
    } else {
        0x8800
    };
    let tile = if select {
        tile_id - 0x80
    } else {
        tile_id
    };
    base + tile as u16 * 16
}

/// Index into a 32×32 tile map of the tile under pixel (`x` + `scx`, `ly` + `scy`).
pub open spec fn spec_map_index(x: u8, scx: u8, ly: u8, scy: u8) -> u16 {
    ((((x as int + scx as int) % 256) / 8) % 32 + ((((ly as int + scy as int) % 256) / 8) % 32)
        * 32) as u16
}

/// Calculates the tile-map index of the pixel at X, SCX, LY, SCY.
pub fn get_tile_addr(x: u8, scx: u8, ly: u8, scy: u8) -> (r: u16)
    ensures
        r == spec_map_index(x, scx, ly, scy),
        r < 0x400,
{
    let px = (x as u16 + scx as u16) % 256;
    let py = (ly as u16 + scy as u16) % 256;
    let tile_x = (px / 8) % 32;
    let tile_y = (py / 8) % 32;
    tile_x + tile_y * 32
}

/// Entry `id` of a palette register: two bits per entry.
pub open spec fn palette_entry(palette: u8, id: u8) -> u8 {
    ((palette >> (id * 2) as u8) & 3) as u8
}

/// The 2-bit colour id at bit `bit` of a tile row with planes `lo` and `hi`.
pub open spec fn color_id(lo: u8, hi: u8, bit: u8) -> u8 {
    (spec_bit(hi as u16, bit) * 2 + spec_bit(lo as u16, bit)) as u8
}

proof fn lemma_mul_u8(a: u8, b: u8)
    ensures
        a as int * b as int <= 65025,
{
    assert(a as int * b as int <= 65025) by (nonlinear_arith)
        requires
            a <= 255,
            b <= 255,
    ;
}

/// The frame buffer: one colour index per pixel, row after row.
pub struct Display {
    pixels: Vec<u8>,
    width: u8,
    height: u8,
}

impl Display {
    pub closed spec fn view(&self) -> Seq<u8> {
        self.pixels@
    }

    pub closed spec fn w(&self) -> u8 {
        self.width
    }

    pub closed spec fn h(&self) -> u8 {
        self.height
    }

    pub open spec fn wf(&self) -> bool {
        self.view().len() == self.w() as int * self.h() as int
    }

    /// The colour index at (`x`, `y`).
    pub open spec fn pixel(&self, x: int, y: int) -> u8 {
        self.view()[x + y * self.w() as int]
    }

    /// A blank display of the given size.
    pub fn new(width: u8, height: u8) -> (r: Display)
        ensures
            r.wf(),
            r.w() == width,
            r.h() == height,
            forall|i: int| 0 <= i < r.view().len() ==> r.view()[i] == 0,
    {
        proof {
            lemma_mul_u8(width, height);
        }
        let size = width as usize * height as usize;
        Display { pixels: vec![0; size], width, height }
    }

    pub fn width(&self) -> (r: u8)
        ensures
            r == self.w(),
    {
        self.width
    }

    pub fn height(&self) -> (r: u8)
        ensures
            r == self.h(),
    {
        self.height
    }

    pub fn get_pixel(&self, x: u8, y: u8) -> (r: u8)
        requires
            self.wf(),
            x < self.w(),
            y < self.h(),
        ensures
            r == self.pixel(x as int, y as int),
    {
        proof {
            assert((x as int + y as int * self.w() as int) < (self.w() as int) * (self.h() as int)) by (nonlinear_arith)
                requires
                    x < self.w(),
                    y < self.h(),
            ;
        }
        proof {
            lemma_mul_u8(y, self.width);
        }
        let addr = x as usize + y as usize * self.width as usize;
        self.pixels[addr]
    }

    /// Sets the pixel at (`x`, `y`); a pixel outside the display is dropped.
    pub fn set_pixel(&mut self, x: u8, y: u8, color: u8)
        requires
            old(self).wf(),
        ensures
            final(self).wf(),
            final(self).w() == old(self).w(),
            final(self).h() == old(self).h(),
            ({
                let i = x as int + y as int * old(self).w() as int;
                final(self).view() == if i < old(self).view().len() {
                    old(self).view().update(i, color)
                } else {
                    old(self).view()
                }
            }),
    {
        proof {
            lemma_mul_u8(y, self.width);
        }
        let addr = x as usize + y as usize * self.width as usize;
        if addr < self.pixels.len() {
            self.pixels.set(addr, color);
        }
    }
}

/// The 2-bit colour id of pixel (`x` + `scx`, `y` + `scy`) of the tile map chosen by `map_sel`,
/// with the tile data addressing of LCDC bit 4.
pub open spec fn spec_tile_pixel<M: Memory>(
    m: &M,
    lcdc: u8,
    map_sel: u8,
    x: u8,
    scx: u8,
    y: u8,
    scy: u8,
) -> u8 {
    let map: int = if map_sel == 0 { 0x9800 } else { 0x9C00 };
    let tile = m.peek((map + spec_map_index(x, scx, y, scy) as int) as u16);
    let row = ((y as int + scy as int) % 256) % 8;
    let addr = spec_tile_addr(tile, spec_bit(lcdc as u16, 4) == 0) as int + row * 2;
    let bit = (7 - ((x as int + scx as int) % 256) % 8) as u8;
    color_id(m.peek(addr as u16), m.peek((addr + 1) as u16), bit)
}

/// Whether the window covers pixel `px` of line `ly`.
pub open spec fn in_window(lcdc: u8, wx: u8, wy: u8, ly: u8, px: u8) -> bool {
    spec_bit(lcdc as u16, 5) == 1 && ly >= wy && px as int + 7 >= wx as int
}

/// The background or window colour id of pixel `px` on line `ly`.
pub open spec fn spec_bg_id<M: Memory>(
    m: &M,
    lcdc: u8,
    scx: u8,
    scy: u8,
    wx: u8,
    wy: u8,
    ly: u8,
    px: u8,
) -> u8 {
    if in_window(lcdc, wx, wy, ly, px) {
        spec_tile_pixel(
            m,
            lcdc,
            spec_bit(lcdc as u16, 6),
            (px as int + 7 - wx as int) as u8,
            0,
            (ly - wy) as u8,
            0,
        )
    } else {
        spec_tile_pixel(m, lcdc, spec_bit(lcdc as u16, 3), px, scx, ly, scy)
    }
}

/// Colour id of column `i` of a sprite row with planes `lo` and `hi`; flag bit 5 flips it.
pub open spec fn sprite_id(lo: u8, hi: u8, flags: u8, i: u8) -> u8 {
    color_id(lo, hi, if spec_bit(flags as u16, 5) == 1 { i } else { (7 - i) as u8 })
}

/// STAT as written back: the program's enable bits, the coincidence flag and the mode.
pub open spec fn spec_stat(stat: u8, coincidence: bool, mode: u8) -> u8 {
    (spec_set_bit(stat, 2, coincidence) & 0xFC) | mode
}

/// Whether sprite `s` has a row on line `ly` (`tall`: 8×16 sprites).
spec fn on_line(s: Sprite, ly: u8, tall: bool) -> bool {
    let h: int = if tall { 16 } else { 8 };
    ly as int + 16 >= s.y as int && ly as int + 16 < s.y as int + h
}

/// The colour id sprite `s` shows at screen column `px` of line `ly` (0 where it has none).
spec fn sprite_id_at<M: Memory>(m: &M, s: Sprite, ly: u8, tall: bool, px: int) -> u8 {
    let h: int = if tall { 16 } else { 8 };
    let row0 = ly as int + 16 - s.y as int;
    let row = if spec_bit(s.flags as u16, 6) == 1 { h - 1 - row0 } else { row0 };
    let tile: int = if tall { (s.tile & 0xFE) as int } else { s.tile as int };
    let addr = 0x8000 + tile * 16 + row * 2;
    let i = px - (s.x as int - 8);
    if on_line(s, ly, tall) && 0 <= i < 8 {
        sprite_id(m.peek(addr as u16), m.peek((addr + 1) as u16), s.flags, i as u8)
    } else {
        0
    }
}

/// The colour at column `px` once sprites `k..` of `sprites` are drawn over `base`: the first of
/// them with a visible pixel there wins, through OBP0 or OBP1 by flag bit 4.
spec fn obj_over<M: Memory>(
    m: &M,
    sprites: Seq<Sprite>,
    k: int,
    obp0: u8,
    obp1: u8,
    ly: u8,
    tall: bool,
    px: int,
    base: u8,
) -> u8
    decreases sprites.len() - k,
{
    if k < 0 || k >= sprites.len() {
        base
    } else {
        let s = sprites[k];
        let id = sprite_id_at(m, s, ly, tall, px);
        if id != 0 {
            palette_entry(if spec_bit(s.flags as u16, 4) == 0 { obp0 } else { obp1 }, id)
        } else {
            obj_over(m, sprites, k + 1, obp0, obp1, ly, tall, px, base)
        }
    }
}

/// OAM entry `i` as the memory holds it.
spec fn oam_sprite<M: Memory>(m: &M, i: int) -> Sprite {
    let addr = (0xFE00 + 4 * i) as u16;
    Sprite {
        addr,
        y: m.peek(addr),
        x: m.peek((addr + 1) as u16),
        tile: m.peek((addr + 2) as u16),
        flags: m.peek((addr + 3) as u16),
    }
}

/// The sprites an OAM scan of entries `0..n` selects for line `ly`: in OAM order, each entry
/// with X ≠ 0 and a row on the line, at most ten.
spec fn selected<M: Memory>(m: &M, n: int, ly: u8, tall: bool) -> Seq<Sprite>
    decreases n,
{
    if n <= 0 {
        Seq::empty()
    } else {
        let prev = selected(m, n - 1, ly, tall);
        let s = oam_sprite(m, n - 1);
        if prev.len() < 10 && s.x != 0 && on_line(s, ly, tall) {
            prev.push(s)
        } else {
            prev
        }
    }
}

impl Sprite {
    /// The entry at `addr` bytes into OAM.
    fn new(addr: u16) -> (r: Sprite)
        requires
            addr <= 0x9C,
        ensures
            r.addr == 0xFE00 + addr,
    {
        Sprite { addr: 0xFE00u16 + addr, x: 0, y: 0, tile: 0, flags: 0 }
    }

    fn load<M: Memory>(&mut self, rt: &M)
        requires
            rt.mem_wf(),
            0xFE00 <= old(self).addr <= 0xFE9C,
        ensures
            final(self).addr == old(self).addr,
            final(self).y == rt.peek(old(self).addr),
            final(self).x == rt.peek((old(self).addr + 1) as u16),
            final(self).tile == rt.peek((old(self).addr + 2) as u16),
            final(self).flags == rt.peek((old(self).addr + 3) as u16),
    {
        self.y = rt.get(self.addr);
        self.x = rt.get(self.addr + 1);
        self.tile = rt.get(self.addr + 2);
        self.flags = rt.get(self.addr + 3);
    }

    /// Whether the sprite has a row on line `ly`; `tall` selects 8×16 sprites.
    fn is_visible(&self, ly: u8, tall: bool) -> (r: bool)
        ensures
            r == (self.x != 0 && ly as int + 16 >= self.y as int && ly as int + 16 < self.y as int
                + if tall {
                16int
            } else {
                8int
            }),
    {
        let height: u16 = if tall {
            16
        } else {
            8
        };
        self.x != 0 && (ly as u16 + 16 >= self.y as u16) && (ly as u16 + 16 < self.y as u16 + height)
    }

    /// The two bytes of row `row` of the sprite's tile (rows 8–15 come from the next tile of an
    /// 8×16 sprite).
    fn tile_line<M: Memory>(&self, mem: &M, row: u8, tall: bool) -> (r: (u8, u8))
        requires
            mem.mem_wf(),
            row < 16,
        ensures
            ({
                let tile = if tall { self.tile & 0xFE } else { self.tile };
                let addr = 0x8000 + tile as int * 16 + row as int * 2;
                r == (mem.peek(addr as u16), mem.peek((addr + 1) as u16))
            }),
    {
        let tile = if tall {
            self.tile & 0xFE
        } else {
            self.tile
        };
        let addr = tile_addr(tile, false) + row as u16 * 2;
        let fst = mem.get(addr);
        let snd = mem.get(addr + 1);
        (fst, snd)
    }

    /// The OBP register the sprite uses: 0 or 1, by flag bit 4.
    fn palette(&self) -> (r: u8)
        ensures
            r == spec_bit(self.flags as u16, 4),
            r <= 1,
    {
        get_bit(self.flags as u16, 4)
    }
}

/// The pixel processing unit.
pub struct PPU {
    x: u8,
    r_control: u8,
    r_status: u8,
    scx: u8,
    scy: u8,
    ly: u8,
    lyc: u8,
    obp0: u8,
    obp1: u8,
    wx: u8,
    wy: u8,
    bgp: u8,
    sprites: Vec<Sprite>,
    ppu_state: u8,
    wait: u16,
    waited: u16,
    filtered_sprites: Vec<Sprite>,
    vblank_entered: bool,
}

impl PPU {
    /// The scanline LY.
    pub closed spec fn line(&self) -> u8 {
        self.ly
    }

    /// The mode: 2 OAM scan, 3 pixel transfer, 0 HBLANK, 1 VBLANK.
    pub closed spec fn mode(&self) -> u8 {
        self.ppu_state
    }

    /// Dots since the start of the frame, counted through line `ly` (at a line's end, before
    /// its event, this is the next line's start).
    pub closed spec fn line_pos(&self) -> int {
        self.ly as int * 456 + self.waited as int - self.wait as int
    }

    /// Dots since the start of the frame.
    pub closed spec fn frame_pos(&self) -> int {
        (self.ly as int * 456 + self.waited as int - self.wait as int) % 70224
    }

    pub closed spec fn wf(&self) -> bool {
        &&& self.ly <= 153
        &&& self.ppu_state <= 3
        &&& self.wait <= self.waited <= 456
        &&& self.x <= 20
        &&& self.sprites@.len() == 40
        &&& forall|i: int| 0 <= i < 40 ==> #[trigger] self.sprites@[i].addr == 0xFE00 + 4 * i
        &&& self.filtered_sprites@.len() <= 10
        &&& self.ppu_state == 2 ==> self.ly < 144 && self.waited == 80 && self.x == 0
        &&& self.ppu_state == 3 ==> self.ly < 144 && 92 <= self.waited && self.waited as int <= 192
            + 8 * self.x as int && (self.x == 0 ==> self.waited == 92)
        &&& self.ppu_state == 0 ==> self.ly < 144 && self.waited == 456
        &&& (self.ppu_state == 3 || self.ppu_state == 0) ==> self.waited - self.wait >= 80
        &&& self.ppu_state == 1 ==> self.ly >= 144 && self.waited == 456 && self.x == 0
    }

    /// Everything but the sprite tables is as in `o`.
    pub closed spec fn same_but_sprites(&self, o: &PPU) -> bool {
        &&& self.x == o.x
        &&& self.r_control == o.r_control
        &&& self.r_status == o.r_status
        &&& self.scx == o.scx
        &&& self.scy == o.scy
        &&& self.ly == o.ly
        &&& self.lyc == o.lyc
        &&& self.obp0 == o.obp0
        &&& self.obp1 == o.obp1
        &&& self.wx == o.wx
        &&& self.wy == o.wy
        &&& self.bgp == o.bgp
        &&& self.ppu_state == o.ppu_state
        &&& self.wait == o.wait
        &&& self.waited == o.waited
        &&& self.vblank_entered == o.vblank_entered
    }

    /// The colour this PPU draws at column `px` of its line: the background or window pixel
    /// through BGP, with the line's sprites over it when LCDC bit 1 is set.
    pub closed spec fn pixel_at<M: Memory>(&self, m: &M, px: int) -> u8 {
        let base = palette_entry(
            self.bgp,
            spec_bg_id(m, self.r_control, self.scx, self.scy, self.wx, self.wy, self.ly, px as u8),
        );
        if spec_bit(self.r_control as u16, 1) == 1 {
            obj_over(
                m,
                self.filtered_sprites@,
                0,
                self.obp0,
                self.obp1,
                self.ly,
                spec_bit(self.r_control as u16, 2) == 1,
                px,
                base,
            )
        } else {
            base
        }
    }

    /// The tile column mode 3 draws next (0..=20).
    pub closed spec fn column(&self) -> u8 {
        self.x
    }

    /// The line entered VBLANK during the last update.
    pub closed spec fn entered_vblank(&self) -> bool {
        self.vblank_entered
    }

    /// Between updates: well formed, with dots left to wait in the current mode.
    pub closed spec fn settled(&self) -> bool {
        self.wf() && self.wait > 0
    }

    pub proof fn lemma_settled_line(&self)
        requires
            self.settled(),
        ensures
            self.line() as int == self.frame_pos() / 456,
            self.line() <= 153,
            0 <= self.frame_pos() < 70224,
    {
        assert((self.ly as int * 456 + self.waited as int - self.wait as int) < 70224);
    }

    pub fn new() -> (r: PPU)
        ensures
            r.settled(),
            r.frame_pos() == 0,
            r.line() == 0,
            r.mode() == 2,
    {
        let mut sprites: Vec<Sprite> = Vec::with_capacity(40);
        let mut i: u16 = 0;
        while i < 40
            invariant
                i <= 40,
                sprites@.len() == i,
                forall|j: int| 0 <= j < i ==> #[trigger] sprites@[j].addr == 0xFE00 + 4 * j,
            decreases 40 - i,
        {
            sprites.push(Sprite::new(i * 4));
            i = i + 1;
        }
        PPU {
            x: 0,
            r_control: 0,
            r_status: 0,
            scx: 0,
            scy: 0,
            ly: 0,
            lyc: 0,
            obp0: 0,
            obp1: 0,
            wx: 0,
            wy: 0,
            bgp: 0,
            sprites,
            ppu_state: 2,
            wait: 80,
            waited: 80,
            filtered_sprites: Vec::with_capacity(10),
            vblank_entered: false,
        }
    }

    /// Entry `id` of a palette register.
    fn get_color(&self, id: u8, palette: u8) -> (r: u8)
        requires
            id < 4,
        ensures
            r == palette_entry(palette, id),
            r < 4,
    {
        let shift = id * 2;
        proof {
            assert((palette >> shift) & 3 < 4) by (bit_vector);
        }
        (palette >> shift) & 3
    }

    /// Base of the tile map that `id` (an LCDC bit) selects.
    fn tile_offset(&self, id: u8) -> (r: u16)
        ensures
            r == if id == 0 {
                0x9800u16
            } else {
                0x9C00u16
            },
    {
        if id == 0 {
            0x9800
        } else {
            0x9C00
        }
    }

    /// Address of row `row` of tile `tile`, by the addressing mode of LCDC bit 4.
    fn get_tile(&self, tile: u8, row: u8) -> (r: u16)
        requires
            row < 8,
        ensures
            r as int == spec_tile_addr(tile, spec_bit(self.r_control as u16, 4) == 0) as int + row
                as int * 2,
    {
        let mode_8800 = get_bit(self.r_control as u16, 4) == 0;
        tile_addr(tile, mode_8800) + row as u16 * 2
    }

    /// Colour id of pixel (`x` + `scx`, `y` + `scy`) of the map that `map_sel` chooses.
    fn tile_pixel<M: Memory>(&self, rt: &M, map_sel: u8, x: u8, scx: u8, y: u8, scy: u8) -> (r: u8)
        requires
            rt.mem_wf(),
        ensures
            r == spec_tile_pixel(rt, self.r_control, map_sel, x, scx, y, scy),
            r < 4,
    {
        let idx = get_tile_addr(x, scx, y, scy);
        let tile_id = rt.get(self.tile_offset(map_sel) + idx);
        let row = (((y as u16 + scy as u16) % 256) % 8) as u8;
        let addr = self.get_tile(tile_id, row);
        let lo = rt.get(addr);
        let hi = rt.get(addr + 1);
        let bit = 7 - (((x as u16 + scx as u16) % 256) % 8) as u8;
        let l = get_bit(lo as u16, bit);
        let h = get_bit(hi as u16, bit);
        h * 2 + l
    }

    /// Background tile data for pixel `px` of the current line.
    fn bg_tile_addr<M: Memory>(&self, rt: &M, px: u8) -> (r: u8)
        requires
            rt.mem_wf(),
        ensures
            r == spec_tile_pixel(
                rt,
                self.r_control,
                spec_bit(self.r_control as u16, 3),
                px,
                self.scx,
                self.ly,
                self.scy,
            ),
            r < 4,
    {
        let bg_tilemap = get_bit(self.r_control as u16, 3);
        self.tile_pixel(rt, bg_tilemap, px, self.scx, self.ly, self.scy)
    }

    /// Window tile data for pixel `px` of the current line.
    fn win_tile_addr<M: Memory>(&self, rt: &M, px: u8) -> (r: u8)
        requires
            rt.mem_wf(),
            in_window(self.r_control, self.wx, self.wy, self.ly, px),
        ensures
            r == spec_tile_pixel(
                rt,
                self.r_control,
                spec_bit(self.r_control as u16, 6),
                (px as int + 7 - self.wx as int) as u8,
                0,
                (self.ly - self.wy) as u8,
                0,
            ),
            r < 4,
    {
        let window_tilemap = get_bit(self.r_control as u16, 6);
        let wx = (px as u16 + 7 - self.wx as u16) as u8;
        self.tile_pixel(rt, window_tilemap, wx, 0, self.ly - self.wy, 0)
    }

    /// Colour id of pixel `px` on the current line: the window where it covers the pixel,
    /// else the background.
    fn fetch_pixels<M: Memory>(&self, rt: &M, px: u8) -> (r: u8)
        requires
            rt.mem_wf(),
        ensures
            r == spec_bg_id(rt, self.r_control, self.scx, self.scy, self.wx, self.wy, self.ly, px),
            r < 4,
    {
        let window_enable = get_bit(self.r_control as u16, 5) == 1 && self.ly >= self.wy;
        if window_enable && px as u16 + 7 >= self.wx as u16 {
            self.win_tile_addr(rt, px)
        } else {
            self.bg_tile_addr(rt, px)
        }
    }

    /// Draws the eight background pixels of tile column `x` on the current line.
    fn draw_pixels<M: Memory>(&self, rt: &M, display: &mut Display)
        requires
            rt.mem_wf(),
            old(display).wf(),
            self.x < 20,
        ensures
            final(display).wf(),
            final(display).w() == old(display).w(),
            final(display).h() == old(display).h(),
            (old(display).w() as int) == 160 && (old(display).h() as int) == 144 && self.ly < 144
                ==> forall|q: int|
                #![trigger final(display).pixel(q, self.ly as int)]
                0 <= q < 160 && !(8 * self.x <= q < 8 * self.x + 8) ==> final(display).pixel(
                    q,
                    self.ly as int,
                ) == old(display).pixel(q, self.ly as int),
            forall|i: int|
                0 <= i < 8 && (old(display).w() as int) == 160 && (old(display).h() as int) == 144
                    && self.ly < 144 ==> #[trigger] final(display).pixel(8 * self.x + i, self.ly as int)
                    == palette_entry(
                    self.bgp,
                    spec_bg_id(
                        rt,
                        self.r_control,
                        self.scx,
                        self.scy,
                        self.wx,
                        self.wy,
                        self.ly,
                        (8 * self.x + i) as u8,
                    ),
                ),
    {
        let mut idx: u8 = 0;
        while idx < 8
            invariant
                idx <= 8,
                self.x < 20,
                rt.mem_wf(),
                display.wf(),
                display.w() == old(display).w(),
                display.h() == old(display).h(),
                (old(display).w() as int) == 160 && (old(display).h() as int) == 144 && self.ly < 144
                    ==> forall|q: int|
                    #![trigger display.pixel(q, self.ly as int)]
                    0 <= q < 160 && !(8 * self.x <= q < 8 * self.x + 8) ==> display.pixel(
                        q,
                        self.ly as int,
                    ) == old(display).pixel(q, self.ly as int),
                forall|i: int|
                    0 <= i < idx && (old(display).w() as int) == 160 && (old(display).h() as int)
                        == 144 && self.ly < 144 ==> #[trigger] display.pixel(
                        8 * self.x + i,
                        self.ly as int,
                    ) == palette_entry(
                        self.bgp,
                        spec_bg_id(
                            rt,
                            self.r_control,
                            self.scx,
                            self.scy,
                            self.wx,
                            self.wy,
                            self.ly,
                            (8 * self.x + i) as u8,
                        ),
                    ),
            decreases 8 - idx,
        {
            let px = self.x * 8 + idx;
            let id = self.fetch_pixels(rt, px);
            let color = self.get_color(id, self.bgp);
            let ghost before = *display;
            display.set_pixel(px, self.ly, color);
            proof {
                if (old(display).w() as int) == 160 && (old(display).h() as int) == 144 && self.ly < 144 {
                    assert forall|q: int| 0 <= q < 160 && !(8 * self.x <= q < 8 * self.x + 8) implies #[trigger] display.pixel(
                        q,
                        self.ly as int,
                    ) == before.pixel(q, self.ly as int) by {
                        assert(q + self.ly as int * 160 < 160 * 144);
                        assert(q + self.ly as int * 160 != px as int + self.ly as int * 160);
                    }
                    assert forall|i: int| 0 <= i < idx + 1 implies #[trigger] display.pixel(
                        8 * self.x + i,
                        self.ly as int,
                    ) == palette_entry(
                        self.bgp,
                        spec_bg_id(
                            rt,
                            self.r_control,
                            self.scx,
                            self.scy,
                            self.wx,
                            self.wy,
                            self.ly,
                            (8 * self.x + i) as u8,
                        ),
                    ) by {
                        assert((8 * self.x + i) + self.ly as int * 160 < 160 * 144);
                        if i < idx {
                            assert(before.pixel(8 * self.x + i, self.ly as int) == display.pixel(8 * self.x + i, self.ly as int));
                        }
                    }
                }
            }
            idx = idx + 1;
        }
    }

    /// The colour of sprite colour `id` through OBP0 or OBP1.
    fn obj_color(&self, id: u8, palette_id: u8) -> (r: Option<u8>)
        requires
            id < 4,
        ensures
            r == Some(palette_entry(if palette_id == 0 { self.obp0 } else { self.obp1 }, id)),
    {
        let palette = if palette_id == 0 {
            self.obp0
        } else {
            self.obp1
        };
        let c = self.get_color(id, palette);
        Some(c)
    }

    /// Draws columns `slice` of one sprite row whose column 0 lies at screen x `x`; colour 0 is
    /// transparent.
    fn render_obj_partial(
        &self,
        display: &mut Display,
        tile: (u8, u8),
        slice: (u8, u8),
        y: u8,
        x: i16,
        palette: u8,
        flags: u8,
    )
        requires
            old(display).wf(),
            slice.0 <= slice.1 <= 8,
            0 <= x + slice.0,
            x + slice.1 <= 160,
        ensures
            final(display).wf(),
            final(display).w() == old(display).w(),
            final(display).h() == old(display).h(),
            (old(display).w() as int) == 160 && (old(display).h() as int) == 144 && y < 144 ==> {
                &&& forall|i: int|
                    #![trigger final(display).pixel(x + i, y as int)]
                    slice.0 <= i < slice.1 ==> {
                        let id = sprite_id(tile.0, tile.1, flags, i as u8);
                        final(display).pixel(x + i, y as int) == if id != 0 {
                            palette_entry(if palette == 0 { self.obp0 } else { self.obp1 }, id)
                        } else {
                            old(display).pixel(x + i, y as int)
                        }
                    }
                &&& forall|q: int|
                    #![trigger final(display).pixel(q, y as int)]
                    0 <= q < 160 && !(x + slice.0 <= q < x + slice.1) ==> final(display).pixel(q, y as int)
                        == old(display).pixel(q, y as int)
            },
    {
        let (fst, snd) = tile;
        let (t_start, t_end) = slice;
        let is_flipped_x = get_bit(flags as u16, 5) == 1;
        let mut i = t_start;
        while i < t_end
            invariant
                t_start <= i <= t_end <= 8,
                0 <= x + t_start,
                x + t_end <= 160,
                display.wf(),
                display.w() == old(display).w(),
                display.h() == old(display).h(),
                is_flipped_x == (spec_bit(flags as u16, 5) == 1),
                (fst, snd) == tile,
                (old(display).w() as int) == 160 && (old(display).h() as int) == 144 && y < 144 ==> {
                    &&& forall|j: int|
                        #![trigger display.pixel(x + j, y as int)]
                        t_start <= j < i ==> {
                            let id = sprite_id(fst, snd, flags, j as u8);
                            display.pixel(x + j, y as int) == if id != 0 {
                                palette_entry(if palette == 0 { self.obp0 } else { self.obp1 }, id)
                            } else {
                                old(display).pixel(x + j, y as int)
                            }
                        }
                    &&& forall|j: int|
                        #![trigger display.pixel(x + j, y as int)]
                        i <= j < t_end ==> display.pixel(x + j, y as int) == old(display).pixel(x + j, y as int)
                    &&& forall|q: int|
                        #![trigger display.pixel(q, y as int)]
                        0 <= q < 160 && !(x + t_start <= q < x + t_end) ==> display.pixel(q, y as int)
                            == old(display).pixel(q, y as int)
                },
            decreases t_end - i,
        {
            let bit = if is_flipped_x {
                i
            } else {
                7 - i
            };
            let l = get_bit(fst as u16, bit);
            let h = get_bit(snd as u16, bit);
            let color = h * 2 + l;
            let ghost before = *display;
            if color != 0 {
                if let Some(c) = self.obj_color(color, palette) {
                    display.set_pixel((x + i as i16) as u8, y, c);
                }
            }
            proof {
                if (old(display).w() as int) == 160 && (old(display).h() as int) == 144 && y < 144 {
                    assert forall|j: int| t_start <= j < t_end && j != i implies #[trigger] display.pixel(x + j, y as int)
                        == before.pixel(x + j, y as int) by {
                        assert((x + j) + y as int * 160 < 160 * 144);
                        assert((x + j) + y as int * 160 != (x + i) + y as int * 160);
                    }
                    assert((x + i) + y as int * 160 < 160 * 144);
                    assert forall|q: int| 0 <= q < 160 && !(x + t_start <= q < x + t_end) implies #[trigger] display.pixel(q, y as int)
                        == before.pixel(q, y as int) by {
                        assert(q + y as int * 160 < 160 * 144);
                        assert(q + y as int * 160 != (x + i) + y as int * 160);
                    }
                }
            }
            i = i + 1;
        }
    }

    /// Draws the rows of the line's sprites that fall in tile column `x`, last selected first so
    /// that earlier sprites win.
    fn render_objects<M: Memory>(&self, rt: &M, display: &mut Display)
        requires
            rt.mem_wf(),
            old(display).wf(),
            self.x < 20,
        ensures
            final(display).wf(),
            final(display).w() == old(display).w(),
            final(display).h() == old(display).h(),
            (old(display).w() as int) == 160 && (old(display).h() as int) == 144 && self.ly < 144
                ==> forall|px: int|
                #![trigger final(display).pixel(px, self.ly as int)]
                8 * self.x <= px < 8 * self.x + 8 ==> final(display).pixel(px, self.ly as int) == if spec_bit(
                    self.r_control as u16,
                    1,
                ) == 1 {
                    obj_over(
                        rt,
                        self.filtered_sprites@,
                        0,
                        self.obp0,
                        self.obp1,
                        self.ly,
                        spec_bit(self.r_control as u16, 2) == 1,
                        px,
                        old(display).pixel(px, self.ly as int),
                    )
                } else {
                    old(display).pixel(px, self.ly as int)
                },
            (old(display).w() as int) == 160 && (old(display).h() as int) == 144 && self.ly < 144
                ==> forall|q: int|
                #![trigger final(display).pixel(q, self.ly as int)]
                0 <= q < 160 && !(8 * self.x <= q < 8 * self.x + 8) ==> final(display).pixel(
                    q,
                    self.ly as int,
                ) == old(display).pixel(q, self.ly as int),
    {
        if get_bit(self.r_control as u16, 1) == 0 {
            return;
        }
        let tall = get_bit(self.r_control as u16, 2) == 1;
        let height: u16 = if tall {
            16
        } else {
            8
        };
        let cx: i16 = self.x as i16 * 8;
        let mut k = self.filtered_sprites.len();
        while k > 0
            invariant
                k <= self.filtered_sprites@.len(),
                rt.mem_wf(),
                self.x < 20,
                cx == self.x as int * 8,
                height == 8 || height == 16,
                tall == (spec_bit(self.r_control as u16, 2) == 1),
                height == if tall { 16u16 } else { 8u16 },
                spec_bit(self.r_control as u16, 1) == 1,
                display.wf(),
                display.w() == old(display).w(),
                display.h() == old(display).h(),
                (old(display).w() as int) == 160 && (old(display).h() as int) == 144 && self.ly < 144
                    ==> forall|q: int|
                    #![trigger display.pixel(q, self.ly as int)]
                    0 <= q < 160 && !(8 * self.x <= q < 8 * self.x + 8) ==> display.pixel(
                        q,
                        self.ly as int,
                    ) == old(display).pixel(q, self.ly as int),
                (old(display).w() as int) == 160 && (old(display).h() as int) == 144 && self.ly < 144
                    ==> forall|px: int|
                    #![trigger display.pixel(px, self.ly as int)]
                    8 * self.x <= px < 8 * self.x + 8 ==> display.pixel(px, self.ly as int) == obj_over(
                        rt,
                        self.filtered_sprites@,
                        k as int,
                        self.obp0,
                        self.obp1,
                        self.ly,
                        tall,
                        px,
                        old(display).pixel(px, self.ly as int),
                    ),
            decreases k,
        {
            k = k - 1;
            let s = self.filtered_sprites[k];
            let ghost before = *display;
            let top = self.ly as u16 + 16;
            if top >= s.y as u16 && top < s.y as u16 + height {
                let row = (top - s.y as u16) as u8;
                let row = if get_bit(s.flags as u16, 6) == 1 {
                    (height - 1 - row as u16) as u8
                } else {
                    row
                };
                let line = s.tile_line(rt, row, tall);
                let left: i16 = s.x as i16 - 8;
                // columns of the sprite inside this tile column and on screen
                let lo: i16 = if cx > left { cx - left } else { 0 };
                let hi: i16 = if cx + 8 - left < 8 { cx + 8 - left } else { 8 };
                if lo < hi && left + hi <= 160 {
                    self.render_obj_partial(display, line, (lo as u8, hi as u8), self.ly, left, s.palette(), s.flags);
                }
                proof {
                    if (old(display).w() as int) == 160 && (old(display).h() as int) == 144 && self.ly < 144 {
                        assert forall|px: int| 8 * self.x <= px < 8 * self.x + 8 implies #[trigger] display.pixel(
                            px,
                            self.ly as int,
                        ) == obj_over(
                            rt,
                            self.filtered_sprites@,
                            k as int,
                            self.obp0,
                            self.obp1,
                            self.ly,
                            tall,
                            px,
                            old(display).pixel(px, self.ly as int),
                        ) by {
                            assert(self.filtered_sprites@[k as int] == s);
                            let i = px - left;
                            assert(before.pixel(px, self.ly as int) == obj_over(
                                rt,
                                self.filtered_sprites@,
                                k + 1,
                                self.obp0,
                                self.obp1,
                                self.ly,
                                tall,
                                px,
                                old(display).pixel(px, self.ly as int),
                            ));
                            if lo < hi && left + hi <= 160 {
                                if lo <= i < hi {
                                    assert(display.pixel(left + i, self.ly as int) == display.pixel(px, self.ly as int));
                                } else {
                                    assert(!(left + lo <= px < left + hi));
                                }
                            }
                        }
                    }
                }
            } else {
                proof {
                    if (old(display).w() as int) == 160 && (old(display).h() as int) == 144 && self.ly < 144 {
                        assert forall|px: int| 8 * self.x <= px < 8 * self.x + 8 implies #[trigger] display.pixel(
                            px,
                            self.ly as int,
                        ) == obj_over(
                            rt,
                            self.filtered_sprites@,
                            k as int,
                            self.obp0,
                            self.obp1,
                            self.ly,
                            tall,
                            px,
                            old(display).pixel(px, self.ly as int),
                        ) by {
                            assert(self.filtered_sprites@[k as int] == s);
                            assert(before.pixel(px, self.ly as int) == obj_over(
                                rt,
                                self.filtered_sprites@,
                                k + 1,
                                self.obp0,
                                self.obp1,
                                self.ly,
                                tall,
                                px,
                                old(display).pixel(px, self.ly as int),
                            ));
                        }
                    }
                }
            }
        }
    }

    /// OAM scan: loads the 40 entries and keeps the first ten visible on the current line.
    fn scan_oam<M: Memory>(&mut self, rt: &M)
        requires
            rt.mem_wf(),
            old(self).wf(),
        ensures
            final(self).wf(),
            final(self).same_but_sprites(old(self)),
            final(self).filtered_sprites@ == selected(
                rt,
                40,
                old(self).ly,
                spec_bit(old(self).r_control as u16, 2) == 1,
            ),
    {
        let tall = get_bit(self.r_control as u16, 2) == 1;
        self.filtered_sprites.clear();
        let mut i: usize = 0;
        while i < 40
            invariant
                rt.mem_wf(),
                i <= 40,
                self.wf(),
                self.same_but_sprites(old(self)),
                tall == (spec_bit(old(self).r_control as u16, 2) == 1),
                self.filtered_sprites@ == selected(rt, i as int, self.ly, tall),
            decreases 40 - i,
        {
            let mut s = self.sprites[i];
            proof {
                assert(self.sprites@[i as int].addr == 0xFE00 + 4 * i);
            }
            s.load(rt);
            self.sprites.set(i, s);
            proof {
                assert(s == oam_sprite(rt, i as int));
            }
            if self.filtered_sprites.len() < 10 && s.is_visible(self.ly, tall) {
                self.filtered_sprites.push(s);
            }
            i = i + 1;
        }
    }

    /// One event of the LCD state machine, when the current mode has no dots left to wait.
    fn render<M: Memory>(&mut self, rt: &M, display: &mut Display)
        requires
            rt.mem_wf(),
            old(self).wf(),
            old(self).wait == 0,
            old(display).wf(),
        ensures
            final(self).wf(),
            final(self).wait > 0,
            final(self).frame_pos() == old(self).frame_pos(),
            final(self).r_control == old(self).r_control,
            final(self).r_status == old(self).r_status,
            final(self).lyc == old(self).lyc,
            old(self).ppu_state == 3 && old(self).x < 20 && (old(display).w() as int) == 160 && (old(
                display,
            ).h() as int) == 144 ==> forall|px: int|
                #![trigger final(display).pixel(px, old(self).ly as int)]
                8 * old(self).x <= px < 8 * old(self).x + 8 ==> final(display).pixel(
                    px,
                    old(self).ly as int,
                ) == final(self).pixel_at(rt, px),
            old(self).vblank_entered ==> final(self).vblank_entered,
            final(self).ly >= 144 ==> old(self).ly >= 144 || final(self).vblank_entered,
            final(self).scx == old(self).scx && final(self).scy == old(self).scy,
            final(self).wx == old(self).wx && final(self).wy == old(self).wy,
            final(self).bgp == old(self).bgp && final(self).obp0 == old(self).obp0,
            final(self).obp1 == old(self).obp1,
            !(old(self).ppu_state == 1 && old(self).ly == 153) ==> final(self).line_pos() == old(
                self,
            ).line_pos(),
            (old(display).w() as int) == 160 && (old(display).h() as int) == 144 && old(self).ly < 144
                ==> forall|q: int|
                #![trigger final(display).pixel(q, old(self).ly as int)]
                0 <= q < 160 && !(old(self).ppu_state == 3 && old(self).x < 20 && 8 * old(self).x <= q
                    < 8 * old(self).x + 8) ==> final(display).pixel(q, old(self).ly as int) == old(
                    display,
                ).pixel(q, old(self).ly as int),
            final(self).x == if old(self).ppu_state == 3 && old(self).x < 20 {
                (old(self).x + 1) as u8
            } else if old(self).ppu_state == 0 {
                0u8
            } else {
                old(self).x
            },
            final(self).wait == if old(self).ppu_state == 1 {
                if old(self).ly == 153 { 80u16 } else { 456u16 }
            } else if old(self).ppu_state == 2 {
                12u16
            } else if old(self).ppu_state == 3 {
                if old(self).x == 20 {
                    (456 - old(self).waited) as u16
                } else if old(self).x == 0 {
                    (8 + 10 * final(self).filtered_sprites@.len()) as u16
                } else {
                    8u16
                }
            } else if old(self).ly + 1 == 144 {
                456u16
            } else {
                80u16
            },
            final(self).filtered_sprites@.len() <= 10,
            old(self).ppu_state == 3 && old(self).x == 0 ==> final(self).filtered_sprites@ == selected(
                rt,
                40,
                old(self).ly,
                spec_bit(old(self).r_control as u16, 2) == 1,
            ),
            !(old(self).ppu_state == 3 && old(self).x == 0) ==> final(self).filtered_sprites@
                == old(self).filtered_sprites@,
            final(self).ly == if old(self).ppu_state == 1 && old(self).ly == 153 {
                0u8
            } else if old(self).ppu_state == 1 || old(self).ppu_state == 0 {
                (old(self).ly + 1) as u8
            } else {
                old(self).ly
            },
            final(self).mode() == if old(self).ppu_state == 1 {
                if old(self).ly == 153 { 2u8 } else { 1u8 }
            } else if old(self).ppu_state == 2 {
                3u8
            } else if old(self).ppu_state == 3 {
                if old(self).x == 20 { 0u8 } else { 3u8 }
            } else if old(self).ly + 1 == 144 {
                1u8
            } else {
                2u8
            },
            final(display).wf(),
            final(display).w() == old(display).w(),
            final(display).h() == old(display).h(),
    {
        if self.ppu_state == 1 {
            if self.ly == 153 {
                self.ly = 0;
                self.ppu_state = 2;
                self.wait = 80;
                self.waited = 80;
            } else {
                self.ly = self.ly + 1;
                self.wait = 456;
                self.waited = 456;
            }
        } else if self.ppu_state == 2 {
            self.ppu_state = 3;
            self.wait = 12;
            self.waited = 92;
        } else if self.ppu_state == 3 {
            if self.x == 20 {
                // enter HBLANK for the rest of the line
                self.wait = 456 - self.waited;
                self.waited = 456;
                self.ppu_state = 0;
            } else {
                let mut add: u16 = 8;
                if self.x == 0 {
                    self.scan_oam(rt);
                    add = add + 10 * self.filtered_sprites.len() as u16;
                }
                self.draw_pixels(rt, display);
                let ghost drawn = *display;
                self.render_objects(rt, display);
                proof {
                    if (old(display).w() as int) == 160 && (old(display).h() as int) == 144 {
                        assert forall|px: int| 8 * self.x <= px < 8 * self.x + 8 implies #[trigger] display.pixel(
                            px,
                            self.ly as int,
                        ) == self.pixel_at(rt, px) by {
                            let i = px - 8 * self.x;
                            assert(drawn.pixel(8 * self.x + i, self.ly as int) == drawn.pixel(px, self.ly as int));
                        }
                    }
                }
                self.x = self.x + 1;
                self.wait = add;
                self.waited = self.waited + add;
            }
        } else {
            self.ly = self.ly + 1;
            self.x = 0;
            if self.ly == 144 {
                self.ppu_state = 1;
                self.wait = 456;
                self.waited = 456;
                self.vblank_entered = true;
            } else {
                self.ppu_state = 2;
                self.wait = 80;
                self.waited = 80;
            }
        }
    }

    /// Whether a STAT interrupt source is active: HBLANK, VBLANK, OAM scan or LY = LYC, each
    /// when its STAT bit (3 to 6) is set.
    pub open spec fn spec_stat_int(stat: u8, mode: u8, coincidence: bool) -> bool {
        (spec_bit(stat as u16, 3) == 1 && mode == 0) || (spec_bit(stat as u16, 4) == 1 && mode == 1)
            || (spec_bit(stat as u16, 5) == 1 && mode == 2) || (spec_bit(stat as u16, 6) == 1
            && coincidence)
    }

    /// Writes LY, STAT and the interrupt requests: VBLANK when the line entered VBLANK since the
    /// last update, and LCD STAT set exactly while a STAT source is active.
    fn update_registers<M: Memory>(&self, rt: &mut M)
        requires
            old(rt).mem_wf(),
            self.wf(),
        ensures
            final(rt).mem_wf(),
            final(rt).peek(registers::LY) == self.ly,
            final(rt).peek(registers::STAT) == spec_stat(
                self.r_status,
                self.ly == self.lyc,
                self.ppu_state,
            ),
            ({
                let i0 = old(rt).peek(registers::IF);
                let i1 = if self.vblank_entered { spec_set_bit(i0, 0, true) } else { i0 };
                let active = PPU::spec_stat_int(self.r_status, self.ppu_state, self.ly
                    == self.lyc);
                final(rt).peek(registers::IF) == spec_set_bit(i1, 1, active)
            }),
            forall|a: u16|
                0xFF00 <= a && a != registers::IF && a != registers::STAT && a != registers::LY
                    ==> #[trigger] final(rt).peek(a) == old(rt).peek(a),
    {
        let r_status = self.r_status;
        let coincidence = self.ly == self.lyc;
        let mut reg_if = rt.get(registers::IF);
        if self.vblank_entered {
            reg_if = set_bit(reg_if, 0, true);
        }
        let stat_int = (get_bit(r_status as u16, 3) == 1 && self.ppu_state == 0) || (get_bit(r_status as u16, 4) == 1
            && self.ppu_state == 1) || (get_bit(r_status as u16, 5) == 1 && self.ppu_state == 2) || (get_bit(
            r_status as u16,
            6,
        ) == 1 && coincidence);
        // the LCD STAT request follows its sources on every update
        reg_if = set_bit(reg_if, 1, stat_int);
        let stat = (set_bit(r_status, 2, coincidence) & 0xFC) | self.ppu_state;
        rt.set(registers::IF, reg_if);
        rt.set(registers::STAT, stat);
        rt.set(registers::LY, self.ly);
    }

    /// Advances the LCD by `dots` dots, drawing into `display` (160×144 for the drawn pixels to
    /// land where the screen has them), and writes back LY, STAT and the interrupt requests.
    pub fn update<M: Memory>(&mut self, rt: &mut M, dots: u8, display: &mut Display)
        requires
            old(self).settled(),
            old(rt).mem_wf(),
            old(display).wf(),
        ensures
            final(self).settled(),
            final(rt).mem_wf(),
            final(display).wf(),
            final(display).w() == old(display).w(),
            final(display).h() == old(display).h(),
            final(self).frame_pos() == (old(self).frame_pos() + dots as int) % 70224,
            final(self).line() as int == final(self).frame_pos() / 456,
            final(rt).peek(registers::LY) == final(self).line(),
            (final(self).mode() == 1) == (final(self).line() >= 144),
            final(self).line() < 144 ==> ((final(self).frame_pos() % 456 < 80) == (final(self).mode()
                == 2)),
            final(rt).peek(registers::STAT) == spec_stat(
                old(rt).peek(registers::STAT),
                final(self).line() == old(rt).peek(registers::LYC),
                final(self).mode(),
            ),
            old(self).line() < 144 && final(self).line() >= 144 ==> final(self).entered_vblank(),
            ({
                let i0 = old(rt).peek(registers::IF);
                let i1 = if final(self).entered_vblank() { spec_set_bit(i0, 0, true) } else { i0 };
                let active = PPU::spec_stat_int(
                    old(rt).peek(registers::STAT),
                    final(self).mode(),
                    final(self).line() == old(rt).peek(registers::LYC),
                );
                final(rt).peek(registers::IF) == spec_set_bit(i1, 1, active)
            }),
            (old(display).w() as int) == 160 && (old(display).h() as int) == 144 && (old(self).mode()
                == 2 || old(self).mode() == 3) && final(self).line() == old(self).line() ==> forall|
                px: int,
            |
                #![trigger final(display).pixel(px, old(self).line() as int)]
                8 * old(self).column() <= px < 8 * final(self).column() ==> final(display).pixel(
                    px,
                    old(self).line() as int,
                ) == final(self).pixel_at(old(rt), px),
    {
        self.r_control = rt.get(registers::LCDC);
        self.r_status = rt.get(registers::STAT);
        self.scy = rt.get(registers::SCY);
        self.scx = rt.get(registers::SCX);
        self.lyc = rt.get(registers::LYC);
        self.bgp = rt.get(registers::BGP);
        self.obp0 = rt.get(registers::OBP0);
        self.obp1 = rt.get(registers::OBP1);
        self.wy = rt.get(registers::WY);
        self.wx = rt.get(registers::WX);
        self.vblank_entered = false;
        let ghost start = self.frame_pos();
        let ghost start_ly = self.ly;
        let ghost stat0 = self.r_status;
        let ghost lyc0 = self.lyc;
        let ghost if0 = rt.peek(registers::IF);
        let ghost x0 = self.x;
        let ghost lp0 = self.line_pos();
        let ghost visible = self.ppu_state == 2 || self.ppu_state == 3;
        let ghost wh = (display.w() as int) == 160 && (display.h() as int) == 144;
        let mut left: u16 = dots as u16;
        while left > 0 || self.wait == 0
            invariant
                self.wf(),
                rt.mem_wf(),
                display.wf(),
                display.w() == old(display).w(),
                display.h() == old(display).h(),
                left <= dots,
                0 <= start < 70224,
                self.frame_pos() == (start + (dots - left)) % 70224,
                start_ly < 144 && self.ly >= 144 ==> self.vblank_entered,
                self.r_status == stat0 && self.lyc == lyc0,
                stat0 == old(rt).peek(registers::STAT),
                lyc0 == old(rt).peek(registers::LYC),
                rt.peek(registers::IF) == old(rt).peek(registers::IF),
                start_ly == old(self).ly,
                *rt == *old(rt),
                x0 == old(self).x,
                visible == (old(self).ppu_state == 2 || old(self).ppu_state == 3),
                wh == ((old(display).w() as int) == 160 && (old(display).h() as int) == 144),
                visible ==> self.line_pos() == lp0 + (dots - left),
                visible ==> lp0 <= start_ly as int * 456 + 456 && start_ly < 144,
                visible ==> self.ly >= start_ly,
                visible && self.ly == start_ly ==> self.x >= x0 && self.ppu_state != 1,
                visible && self.ly == start_ly && self.ppu_state == 2 ==> x0 == 0,
                visible && wh && self.ly == start_ly ==> forall|px: int|
                    #![trigger display.pixel(px, start_ly as int)]
                    8 * x0 <= px < 8 * self.x ==> display.pixel(px, start_ly as int) == self.pixel_at(
                        rt,
                        px,
                    ),
            decreases left * 2 + if self.wait == 0 {
                1int
            } else {
                0int
            },
        {
            if self.wait == 0 {
                self.render(rt, display);
            } else if self.wait >= left {
                proof {
                    lemma_pos_step(self.ly as int * 456 + self.waited as int - self.wait as int, left as int, start, (dots - left) as int);
                }
                self.wait = self.wait - left;
                left = 0;
            } else {
                proof {
                    lemma_pos_step(self.ly as int * 456 + self.waited as int - self.wait as int, self.wait as int, start, (dots - left) as int);
                }
                left = left - self.wait;
                self.wait = 0;
            }
        }
        proof {
            self.lemma_settled_line();
        }
        self.update_registers(rt);
    }
}

proof fn lemma_pos_step(p: int, d: int, start: int, done: int)
    requires
        0 <= p,
        0 <= d,
        p % 70224 == (start + done) % 70224,
    ensures
        (p + d) % 70224 == (start + done + d) % 70224,
{
    vstd::arithmetic::div_mod::lemma_add_mod_noop(p, d, 70224);
    vstd::arithmetic::div_mod::lemma_add_mod_noop(start + done, d, 70224);
}

/// LY runs through 0..=153 and repeats every 70224 dots: from one settled state, the settled
/// states `d` dots and `d` + 70224 dots later show the same line, `((pos + d) mod 70224) / 456`.
pub proof fn ly_period(p: PPU, q1: PPU, q2: PPU, d: nat)
    requires
        p.settled(),
        q1.settled(),
        q2.settled(),
        q1.frame_pos() == (p.frame_pos() + d) % 70224,
        q2.frame_pos() == (p.frame_pos() + d + 70224) % 70224,
    ensures
        q1.line() == q2.line(),
        q1.line() <= 153,
        q1.line() as int == ((p.frame_pos() + d) % 70224) / 456,
{
    q1.lemma_settled_line();
    q2.lemma_settled_line();
    vstd::arithmetic::div_mod::lemma_add_mod_noop(p.frame_pos() + d, 70224, 70224);
}

} // verus!
