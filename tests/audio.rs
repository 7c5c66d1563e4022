use dmg_emu::apu::APU;
use dmg_emu::mbc::{Cartridge, RomNoMBC};
use dmg_emu::memory::Memory;
use dmg_emu::registers;
use dmg_emu::runtime::Runtime;

fn bus() -> Runtime {
    Runtime::noboot(vec![0u8; 0x100], Cartridge::NoMbc(RomNoMBC { rom: vec![0u8; 0x8000] }))
}

/// Updates the APU as after an instruction during which the timer counted `n` frame-sequencer
/// ticks.
fn update_after(apu: &mut APU, rt: &mut Runtime, n: u8) -> u8 {
    rt.timer.delta_div = n;
    apu.update(4, rt)
}

#[test]
fn voice1_sweep_halves_the_period_downwards() {
    let mut mmu = bus();
    let mut apu = APU::new();
    mmu.set(registers::NR52, 0x80);
    mmu.set(registers::NR10, 0x11);
    mmu.set(registers::NR12, 0xF0);
    mmu.set(registers::NR13, 0x00);
    mmu.set(registers::NR14, 0xC7);
    assert_eq!(update_after(&mut apu, &mut mmu, 0), 0b0001);
    assert_eq!(apu.voice1().period(), 0x700);
    assert_eq!(mmu.get(registers::NR14) & 0x80, 0);
    update_after(&mut apu, &mut mmu, 4);
    assert_eq!(apu.voice1().period(), 0x380);
    assert!(apu.voice1().is_active());
    // the swept period is written back to NR13 and the low bits of NR14
    assert_eq!(mmu.get(registers::NR13), 0x80);
    assert_eq!(mmu.get(registers::NR14) & 0x07, 0x03);
    assert_eq!(mmu.get(registers::NR52) & 1, 1);
    assert!(apu.master_on());
}

#[test]
fn voice1_sweep_up_past_the_range_turns_it_off() {
    let mut mmu = bus();
    let mut apu = APU::new();
    mmu.set(registers::NR10, 0x19);
    mmu.set(registers::NR12, 0xF0);
    mmu.set(registers::NR13, 0x00);
    mmu.set(registers::NR14, 0x87);
    update_after(&mut apu, &mut mmu, 0);
    update_after(&mut apu, &mut mmu, 4);
    assert!(!apu.voice1().is_active());
}

#[test]
fn envelope_counts_volume_down() {
    let mut mmu = bus();
    let mut apu = APU::new();
    mmu.set(registers::NR22, 0xF1);
    mmu.set(registers::NR24, 0x80);
    update_after(&mut apu, &mut mmu, 0);
    assert_eq!(apu.voice2().volume(), 15);
    update_after(&mut apu, &mut mmu, 8);
    assert_eq!(apu.voice2().volume(), 14);
    assert_eq!(mmu.get(registers::NR52) & 0b10, 0b10);
}

#[test]
fn length_counter_stops_voice2() {
    let mut mmu = bus();
    let mut apu = APU::new();
    mmu.set(registers::NR21, 62);
    mmu.set(registers::NR22, 0xF0);
    mmu.set(registers::NR24, 0xC0);
    update_after(&mut apu, &mut mmu, 0);
    assert!(apu.voice2().is_active());
    assert_eq!(mmu.get(registers::NR52) & 0b10, 0b10);
    update_after(&mut apu, &mut mmu, 6);
    assert!(!apu.voice2().is_active());
    assert_eq!(mmu.get(registers::NR52) & 0b10, 0);
}

#[test]
fn wave_voice_reads_pattern_nibbles() {
    let mut mmu = bus();
    let mut apu = APU::new();
    for i in 0..16u16 {
        mmu.set(0xFF30 + i, (i as u8) * 0x11 + 0x01);
    }
    mmu.set(registers::NR30, 0x80);
    mmu.set(registers::NR32, 0x20);
    mmu.set(registers::NR34, 0x80);
    update_after(&mut apu, &mut mmu, 0);
    let v3 = apu.voice3();
    assert!(v3.is_active());
    assert_eq!(v3.volume_code(), 1);
    assert_eq!(v3.index(), 0);
    assert_eq!(v3.get_sample(0), 0x0);
    assert_eq!(v3.get_sample(1), 0x1);
    assert_eq!(v3.get_sample(2), 0x1);
    assert_eq!(v3.get_sample(3), 0x2);
    apu.advance_wave();
    assert_eq!(apu.voice3().index(), 1);
}

#[test]
fn noise_register_feeds_back_xnor() {
    let mut mmu = bus();
    let mut apu = APU::new();
    mmu.set(registers::NR42, 0xF0);
    mmu.set(registers::NR44, 0x80);
    update_after(&mut apu, &mut mmu, 0);
    // from 0, NOT(0 XOR 0) = 1 enters at bit 14
    apu.step_noise();
    assert_eq!(apu.voice4().output_bit(), 0);
    apu.step_noise();
    apu.step_noise();
    assert!(apu.voice4().is_active());
    let mut bits = vec![];
    for _ in 0..20 {
        apu.step_noise();
        bits.push(apu.voice4().output_bit());
    }
    assert!(bits.iter().all(|&b| b <= 1));
    assert!(bits.contains(&1));
}
