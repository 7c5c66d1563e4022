use dmg_emu::byteop::b64;
use dmg_emu::mbc::{Cartridge, RomNoMBC};
use dmg_emu::memory::{Memory, MMU};
use dmg_emu::ppu::{get_tile_addr, tile_addr, Display, PPU};
use dmg_emu::registers;

#[test]
fn test_signed_mode_128_returns_8800() {
    let got = tile_addr(128, true);
    assert_eq!(b64(got), "8800");
}

#[test]
fn test_signed_mode_0_returns_9000() {
    let got = tile_addr(0, true);
    assert_eq!(b64(got), "9000");
}

#[test]
fn test_signed_mode_127_returns_last_addr_of_block_2() {
    let got = tile_addr(127, true);
    assert_eq!(b64(got), "97F0");
}

#[test]
fn test_signed_mode_255_returns_last_addr_of_block_1() {
    let got = tile_addr(0xFF, true);
    assert_eq!(b64(got), "8FF0");
}

#[test]
fn unsigned_mode_addresses_from_8000() {
    assert_eq!(tile_addr(0, false), 0x8000);
    assert_eq!(tile_addr(1, false), 0x8010);
    assert_eq!(tile_addr(0x80, false), 0x8800);
    assert_eq!(tile_addr(0xFF, false), 0x8FF0);
}

#[test]
fn map_index_wraps_and_scrolls() {
    assert_eq!(get_tile_addr(0, 0, 0, 0), 0);
    assert_eq!(get_tile_addr(8, 0, 0, 0), 1);
    assert_eq!(get_tile_addr(0, 0, 8, 0), 32);
    assert_eq!(get_tile_addr(0, 8, 0, 0), 1);
    assert_eq!(get_tile_addr(255, 1, 0, 0), 0);
    assert_eq!(get_tile_addr(0, 0, 0, 0xF8), 31 * 32);
}

fn blank_mmu() -> MMU {
    let rom = vec![0u8; 0x8000];
    MMU::new(vec![0u8; 0x100], Cartridge::NoMbc(RomNoMBC { rom }))
}

fn scanline(lo: u8, hi: u8) -> Vec<u8> {
    let mut mmu = blank_mmu();
    mmu.write(registers::LCDC, 0x91);
    mmu.write(registers::BGP, 0xE4);
    for i in 0..0x400u16 {
        mmu.write(0x9800 + i, 0);
    }
    for row in 0..8u16 {
        mmu.write(0x8000 + row * 2, lo);
        mmu.write(0x8000 + row * 2 + 1, hi);
    }
    let mut ppu = PPU::new();
    let mut display = Display::new(160, 144);
    ppu.update(&mut mmu, 255, &mut display);
    ppu.update(&mut mmu, 201, &mut display);
    assert_eq!(mmu.get(registers::LY), 1);
    (0..160u8).map(|x| display.get_pixel(x, 0)).collect()
}

#[test]
fn scanline_alternates_dark_and_light() {
    // low plane 0x55 and high plane 0xAA give colour ids 2, 1, 2, 1, ...
    let row = scanline(0x55, 0xAA);
    for x in 0..160usize {
        if x % 2 == 0 {
            assert_eq!(row[x], 2, "column {}", x);
        } else {
            assert_eq!(row[x], 1, "column {}", x);
        }
    }
}

#[test]
fn scanline_with_low_plane_only_is_light() {
    // bytes 0xFF, 0x00 give colour id 1 everywhere, which 0xE4 maps to light
    let row = scanline(0xFF, 0x00);
    assert!(row.iter().all(|&c| c == 1));
}

#[test]
fn ly_advances_one_line_per_456_dots_and_wraps_after_a_frame() {
    let mut mmu = blank_mmu();
    let mut ppu = PPU::new();
    let mut display = Display::new(160, 144);
    let mut seen = vec![];
    for _ in 0..154 {
        ppu.update(&mut mmu, 228, &mut display);
        ppu.update(&mut mmu, 228, &mut display);
        seen.push(mmu.get(registers::LY));
    }
    let expected: Vec<u8> = (1..154u16).map(|l| l as u8).chain(std::iter::once(0)).collect();
    assert_eq!(seen, expected);
}

#[test]
fn vblank_interrupt_is_raised_on_entry() {
    let mut mmu = blank_mmu();
    let mut ppu = PPU::new();
    let mut display = Display::new(160, 144);
    for _ in 0..143 {
        ppu.update(&mut mmu, 228, &mut display);
        ppu.update(&mut mmu, 228, &mut display);
    }
    assert_eq!(mmu.get(registers::IF) & 1, 0);
    ppu.update(&mut mmu, 228, &mut display);
    ppu.update(&mut mmu, 228, &mut display);
    assert_eq!(mmu.get(registers::LY), 144);
    assert_eq!(mmu.get(registers::IF) & 1, 1);
    assert_eq!(mmu.get(registers::STAT) & 3, 1);
}

#[test]
fn display_drops_pixels_outside() {
    let mut d = Display::new(2, 2);
    d.set_pixel(1, 1, 3);
    d.set_pixel(5, 5, 3);
    assert_eq!(d.get_pixel(1, 1), 3);
    assert_eq!(d.get_pixel(0, 0), 0);
}

#[test]
fn sprites_cover_the_background_where_not_transparent() {
    let mut mmu = blank_mmu();
    // LCD on, sprites on, unsigned tile data, background map at 9800
    mmu.write(registers::LCDC, 0x93);
    mmu.write(registers::BGP, 0xE4);
    mmu.write(registers::OBP0, 0xE4);
    mmu.write(registers::OBP1, 0x1B);
    // sprite 0 at screen (0, 0) with tile 1; sprite 1 at screen x 20, flipped, palette 1
    for (i, v) in [16u8, 8, 1, 0x00, 16, 28, 1, 0x30].iter().enumerate() {
        mmu.write(0xFE00 + i as u16, *v);
    }
    // tile 1, row 0: colour 3 in the leftmost column, colour 1 in the next, the rest 0
    mmu.write(0x8010, 0xC0);
    mmu.write(0x8011, 0x80);
    let mut ppu = PPU::new();
    let mut display = Display::new(160, 144);
    ppu.update(&mut mmu, 255, &mut display);
    ppu.update(&mut mmu, 201, &mut display);
    assert_eq!(display.get_pixel(0, 0), 3);
    assert_eq!(display.get_pixel(1, 0), 1);
    assert_eq!(display.get_pixel(2, 0), 0);
    // flipped: the leftmost tile column lands on the right, through OBP1 (0x1B)
    assert_eq!(display.get_pixel(27, 0), 0);
    assert_eq!(display.get_pixel(26, 0), 2);
    assert_eq!(display.get_pixel(20, 0), 0);
}

#[test]
fn stat_request_follows_the_coincidence_source() {
    let mut mmu = blank_mmu();
    mmu.write(registers::LYC, 2);
    mmu.write(registers::STAT, 0x40);
    let mut ppu = PPU::new();
    let mut display = Display::new(160, 144);
    for _ in 0..2 {
        ppu.update(&mut mmu, 228, &mut display);
        ppu.update(&mut mmu, 228, &mut display);
    }
    assert_eq!(mmu.get(registers::LY), 2);
    assert_eq!(mmu.get(registers::IF) & 0b10, 0b10);
    assert_eq!(mmu.get(registers::STAT) & 0b100, 0b100);
    ppu.update(&mut mmu, 100, &mut display);
    assert_eq!(mmu.get(registers::IF) & 0b10, 0b10);
    ppu.update(&mut mmu, 200, &mut display);
    ppu.update(&mut mmu, 156, &mut display);
    assert_eq!(mmu.get(registers::LY), 3);
    assert_eq!(mmu.get(registers::IF) & 0b10, 0);
}
