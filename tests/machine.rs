use dmg_emu::apu::APU;
use dmg_emu::keymap::get_btn;
use dmg_emu::ppu::{Display, PPU};
use dmg_emu::mbc::{Cartridge, Rom, RomMBC3, RomNoMBC};
use dmg_emu::memory::{get_inputs, HWInput, Memory, MMU};
use dmg_emu::registers;
use dmg_emu::runtime::{CpuFault, Runtime};

fn cart_with(program: &[u8]) -> Cartridge {
    let mut rom = vec![0u8; 0x8000];
    rom[0x100..0x100 + program.len()].copy_from_slice(program);
    Cartridge::from_image(rom, None).unwrap()
}

fn machine(program: &[u8]) -> Runtime {
    Runtime::noboot(vec![0u8; 0x100], cart_with(program))
}

#[test]
fn load_store_program() {
    let mut rt = machine(&[0x3E, 0x42, 0xEA, 0x00, 0xC0, 0x3E, 0x00, 0xFA, 0x00, 0xC0]);
    let mut cycles = 0u32;
    for _ in 0..4 {
        cycles += rt.tick().unwrap() as u32;
    }
    assert_eq!(rt.cpu.ra, 0x42);
    assert_eq!(rt.cpu.pc, 0x0100 + 10);
    assert_eq!(rt.memory.read(0xC000), 0x42);
    // LD A,d8 takes 2 cycles and LD (a16),A / LD A,(a16) take 4
    assert_eq!(cycles, 12);
}

#[test]
fn push_then_pop_af_masks_flags() {
    let mut rt = machine(&[]);
    rt.cpu.sp = 0xFFFE;
    rt.cpu.set_bc(0x1234);
    assert_eq!(rt.execute(0xC5), Ok(4));
    assert_eq!(rt.memory.read(0xFFFD), 0x12);
    assert_eq!(rt.memory.read(0xFFFC), 0x34);
    assert_eq!(rt.cpu.sp, 0xFFFC);
    assert_eq!(rt.execute(0xF1), Ok(3));
    assert_eq!(rt.cpu.ra, 0x12);
    assert_eq!(rt.cpu.rf, 0x30);
    assert_eq!(rt.cpu.sp, 0xFFFE);
}

#[test]
fn push_bc_pop_de_copies_the_pair() {
    let mut rt = machine(&[]);
    rt.cpu.sp = 0xDFF0;
    rt.cpu.rb = 0xAB;
    rt.cpu.rc = 0xCD;
    rt.execute(0xC5).unwrap();
    rt.execute(0xD1).unwrap();
    assert_eq!(rt.cpu.rd, 0xAB);
    assert_eq!(rt.cpu.re, 0xCD);
    assert_eq!(rt.cpu.sp, 0xDFF0);
}

#[test]
fn pop_af_keeps_low_nibble_clear() {
    let mut rt = machine(&[]);
    rt.cpu.sp = 0xC100;
    rt.memory.write(0xC100, 0xFF);
    rt.memory.write(0xC101, 0xFF);
    rt.execute(0xF1).unwrap();
    assert_eq!(rt.cpu.rf, 0xF0);
    assert_eq!(rt.cpu.ra, 0xFF);
}

#[test]
fn conditional_branch_cycles() {
    let mut rt = machine(&[0x20, 0x02]);
    rt.cpu.rf = 0x00;
    assert_eq!(rt.tick(), Ok(3));
    assert_eq!(rt.cpu.pc, 0x0104);
    let mut rt = machine(&[0x20, 0x02]);
    rt.cpu.rf = 0x80;
    assert_eq!(rt.tick(), Ok(2));
    assert_eq!(rt.cpu.pc, 0x0102);
    let mut rt = machine(&[0xC4, 0x00, 0x02]);
    rt.cpu.rf = 0x00;
    assert_eq!(rt.tick(), Ok(6));
    assert_eq!(rt.cpu.pc, 0x0200);
    let mut rt = machine(&[0xD8]);
    rt.cpu.rf = 0x00;
    assert_eq!(rt.tick(), Ok(2));
}

#[test]
fn fixed_cycle_counts() {
    let cases: [(u8, u8); 10] = [
        (0x00, 1),
        (0x01, 3),
        (0x08, 5),
        (0x34, 3),
        (0x46, 2),
        (0x70, 2),
        (0x86, 2),
        (0xC3, 4),
        (0xCD, 6),
        (0xE8, 4),
    ];
    for (op, cycles) in cases {
        let mut rt = machine(&[op, 0x00, 0xC0]);
        rt.cpu.rh = 0xC0;
        rt.cpu.sp = 0xDFF0;
        assert_eq!(rt.tick(), Ok(cycles), "opcode {:02X}", op);
    }
}

#[test]
fn cb_cycle_counts() {
    for (op, cycles) in [(0x00u8, 2u8), (0x06, 4), (0x46, 3), (0x86, 4), (0xC6, 4), (0x7F, 2)] {
        let mut rt = machine(&[0xCB, op]);
        rt.cpu.rh = 0xC0;
        assert_eq!(rt.tick(), Ok(cycles));
        assert_eq!(rt.cpu.pc, 0x0102);
    }
}

#[test]
fn unknown_opcode_faults() {
    let mut rt = machine(&[0xD3]);
    assert_eq!(rt.tick(), Err(CpuFault::UnknownOpcode { opcode: 0xD3, pc: 0x0100 }));
}

#[test]
fn interrupt_dispatch_jumps_to_vector() {
    let mut rt = machine(&[0x00]);
    rt.cpu.ime = true;
    rt.memory.write(registers::IE, 0b00101);
    rt.memory.write(registers::IF, 0b00100);
    assert_eq!(rt.tick(), Ok(1));
    // served the timer interrupt at 0050, whose byte is 00 (NOP)
    assert_eq!(rt.cpu.pc, 0x0051);
    assert!(!rt.cpu.ime);
    assert_eq!(rt.memory.read(registers::IF) & 0b100, 0);
    assert_eq!(rt.memory.read(0xFFFD), 0x01);
    assert_eq!(rt.memory.read(0xFFFC), 0x00);
}

#[test]
fn halt_idles_until_an_interrupt_is_pending() {
    let mut rt = machine(&[0x76, 0x00]);
    assert_eq!(rt.tick(), Ok(1));
    assert!(rt.cpu.halt);
    assert_eq!(rt.tick(), Ok(1));
    assert_eq!(rt.cpu.pc, 0x0101);
    rt.memory.write(registers::IE, 1);
    rt.memory.write(registers::IF, 1);
    assert_eq!(rt.tick(), Ok(1));
    assert!(!rt.cpu.halt);
    assert_eq!(rt.cpu.pc, 0x0102);
}

#[test]
fn div_write_resets() {
    let mut rt = machine(&[]);
    rt.memory.hw_write(registers::DIV, 0x37);
    assert_eq!(rt.memory.read(registers::DIV), 0x37);
    rt.memory.write(registers::DIV, 0x55);
    assert_eq!(rt.memory.read(registers::DIV), 0);
}

#[test]
fn nr52_program_writes_reach_bit_7_only() {
    let mut rt = machine(&[]);
    rt.memory.hw_write(registers::NR52, 0x03);
    rt.memory.write(registers::NR52, 0xFF);
    assert_eq!(rt.memory.read(registers::NR52), 0x83);
    rt.memory.write(registers::NR52, 0x00);
    assert_eq!(rt.memory.read(registers::NR52), 0x03);
}

#[test]
fn echo_ram_aliases_work_ram() {
    let mut rt = machine(&[]);
    rt.memory.write(0xC123, 0x77);
    assert_eq!(rt.memory.read(0xE123), 0x77);
    rt.memory.write(0xFDFF, 0x66);
    assert_eq!(rt.memory.read(0xDDFF), 0x66);
}

#[test]
fn dma_copies_into_oam() {
    let mut rt = machine(&[]);
    for i in 0..0xA0u16 {
        rt.memory.write(0xC000 + i, i as u8);
    }
    rt.memory.write(registers::DMA, 0xC0);
    for i in 0..0xA0u16 {
        assert_eq!(rt.memory.read(0xFE00 + i), i as u8);
    }
}

#[test]
fn rom_writes_are_dropped() {
    let mut rt = machine(&[0x12]);
    rt.memory.write(0x0100, 0x99);
    assert_eq!(rt.memory.read(0x0100), 0x12);
}

#[test]
fn boot_rom_overlay_is_one_way() {
    let mut boot = vec![0u8; 0x100];
    boot[0] = 0x31;
    let mut rom = vec![0u8; 0x8000];
    rom[0] = 0xAA;
    let mut rt = Runtime::load(boot, Cartridge::from_image(rom, None).unwrap());
    assert_eq!(rt.memory.read(0x0000), 0x31);
    assert!(!rt.boot_rom_disabled());
    rt.memory.write(registers::BOOT_OFF, 1);
    assert_eq!(rt.memory.read(0x0000), 0xAA);
    rt.memory.write(registers::BOOT_OFF, 0);
    assert_eq!(rt.memory.read(0x0000), 0xAA);
    assert!(rt.boot_rom_disabled());
}

#[test]
fn joypad_reads_selected_group() {
    let mut rt = machine(&[]);
    rt.press_btn(HWInput::ArrDown);
    rt.press_btn(HWInput::BtnA);
    // bit 4 clear selects the directions: Down is pressed
    rt.memory.write(registers::P1, 0x20);
    assert_eq!(rt.memory.read(registers::P1), 0xE7);
    // bit 5 clear selects the buttons: A is pressed
    rt.memory.write(registers::P1, 0x10);
    assert_eq!(rt.memory.read(registers::P1), 0xDE);
    rt.release_btn(HWInput::BtnA);
    assert_eq!(rt.memory.read(registers::P1), 0xDF);
    assert_eq!(get_inputs(0x30, 0x00), 0xFF);
    assert_eq!(get_inputs(0x00, 0xF3), 0xC3);
}

#[test]
fn cartridge_type_selects_controller() {
    let mut rom = vec![0u8; 0x8000];
    rom[0x147] = 0x13;
    assert!(matches!(Cartridge::from_image(rom.clone(), None), Ok(Cartridge::Mbc3(_))));
    rom[0x147] = 0x02;
    assert!(matches!(Cartridge::from_image(rom.clone(), None), Ok(Cartridge::NoMbc(_))));
    rom[0x147] = 0x05;
    assert!(matches!(Cartridge::from_image(rom, None), Err(0x05)));
}

fn banked_rom() -> Vec<u8> {
    let mut rom = vec![0u8; 0x4000 * 8];
    for bank in 0..8usize {
        rom[bank * 0x4000] = bank as u8;
        rom[bank * 0x4000 + 0x10] = 0x80 + bank as u8;
    }
    rom
}

#[test]
fn mbc3_switches_rom_banks() {
    let mut c = RomMBC3::new(banked_rom(), None);
    assert_eq!(c.get(0x4000), 1);
    c.set(0x2000, 3);
    assert_eq!(c.get(0x4000), 3);
    assert_eq!(c.get(0x4010), 0x83);
    c.set(0x2000, 0);
    assert_eq!(c.get(0x4000), 1);
    c.set(0x3FFF, 0x85);
    assert_eq!(c.get(0x4000), 5);
    c.set(0x4000, 2);
    c.set(0x0000, 0x0A);
    assert_eq!(c.get(0x4000), 5);
    assert_eq!(c.get(0x0000), 0);
    // past the end of the image the bus reads FF
    c.set(0x2000, 0x7F);
    assert_eq!(c.get(0x4000), 0xFF);
}

#[test]
fn mbc3_ram_banks_and_save_mark() {
    let mut c = RomMBC3::new(banked_rom(), None);
    assert!(!c.take_dirty());
    c.set(0x4000, 2);
    c.set(0xA001, 0x5A);
    assert_eq!(c.get(0xA001), 0x5A);
    assert_eq!(c.ram()[2 * 0x2000 + 1], 0x5A);
    c.set(0x4000, 1);
    assert_eq!(c.get(0xA001), 0);
    c.set(0x4000, 0x08);
    assert_eq!(c.get(0xA001), 0);
    assert!(c.take_dirty());
    assert!(!c.take_dirty());
}

#[test]
fn mbc3_loads_saved_ram() {
    let mut saved = vec![0u8; 0x8000];
    saved[5] = 9;
    let c = RomMBC3::new(banked_rom(), Some(saved));
    assert_eq!(c.get(0xA005), 9);
    let c = RomMBC3::new(banked_rom(), Some(vec![1, 2, 3]));
    assert_eq!(c.get(0xA000), 0);
}

#[test]
fn no_mbc_ignores_writes() {
    let mut c = RomNoMBC { rom: vec![7u8; 0x8000] };
    c.set(0x2000, 3);
    assert_eq!(c.get(0x4000), 7);
    let mmu = MMU::new(vec![], Cartridge::NoMbc(c));
    assert_eq!(mmu.get(0x0000), 0xFF);
}

#[test]
fn take_save_reports_written_ram() {
    let mut rom = vec![0u8; 0x8000];
    rom[0x147] = 0x13;
    let mut rt = Runtime::noboot(vec![], Cartridge::from_image(rom, None).unwrap());
    assert!(rt.memory.take_save().is_none());
    rt.memory.write(0xA010, 0x42);
    let ram = rt.memory.take_save().unwrap();
    assert_eq!(ram.len(), 0x8000);
    assert_eq!(ram[0x10], 0x42);
    assert!(rt.memory.take_save().is_none());
}

#[test]
fn timer_runs_through_the_bus() {
    let mut rt = machine(&[]);
    rt.memory.write(registers::TAC, 0b100);
    rt.memory.write(registers::TIMA, 0xFF);
    rt.memory.write(registers::TMA, 0x42);
    rt.memory.write(registers::IF, 0);
    for _ in 0..4 {
        rt.tick_timer(255);
    }
    rt.tick_timer(4);
    assert_eq!(rt.memory.read(registers::TIMA), 0x42);
    assert_eq!(rt.memory.read(registers::IF) & 0b100, 0b100);
}

#[test]
fn host_keys_map_to_buttons() {
    assert_eq!(get_btn("I"), Some(HWInput::ArrUp));
    assert_eq!(get_btn("K"), Some(HWInput::ArrDown));
    assert_eq!(get_btn("J"), Some(HWInput::ArrLeft));
    assert_eq!(get_btn("L"), Some(HWInput::ArrRight));
    assert_eq!(get_btn("A"), Some(HWInput::BtnA));
    assert_eq!(get_btn("B"), Some(HWInput::BtnB));
    assert_eq!(get_btn("Return"), Some(HWInput::BtnStart));
    assert_eq!(get_btn("Space"), Some(HWInput::BtnSelect));
    assert_eq!(get_btn("Q"), None);
    assert_eq!(get_btn("Returns"), None);
    assert_eq!(get_btn(""), None);
}

#[test]
fn step_runs_timer_ppu_and_apu_after_the_cpu() {
    let mut rt = machine(&[0x00, 0xC3, 0x00, 0x01]);
    let mut ppu = PPU::new();
    let mut apu = APU::new();
    let mut display = Display::new(160, 144);
    assert_eq!(rt.step(&mut ppu, &mut apu, &mut display), Ok((1, 0)));
    assert_eq!(rt.step(&mut ppu, &mut apu, &mut display), Ok((4, 0)));
    assert_eq!(rt.cpu.pc, 0x0100);
    // each NOP and JP pair takes 20 dots: 23 pairs make 460, past the first 456-dot line
    for _ in 0..44 {
        rt.step(&mut ppu, &mut apu, &mut display).unwrap();
    }
    assert_eq!(rt.memory.read(registers::LY), 1);
    let mut rt = machine(&[0xDB]);
    assert!(rt.step(&mut ppu, &mut apu, &mut display).is_err());
}
