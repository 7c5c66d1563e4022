use dmg_emu::memory::Memory;
use dmg_emu::registers;
use dmg_emu::timer::Timer;

struct Mem {
    memory: Vec<u8>,
}

impl Mem {
    fn new() -> Mem {
        Mem {
            memory: vec![0; 0x10000],
        }
    }
}

impl Memory for Mem {
    fn mem_wf(&self) -> bool {
        self.memory.len() == 0x10000
    }
    fn peek(&self, addr: u16) -> u8 {
        self.memory[addr as usize]
    }
    fn write_post(&self, next: Self, addr: u16, val: u8) -> bool {
        next.memory[addr as usize] == val
    }
    fn hw_write_post(&self, next: Self, addr: u16, val: u8) -> bool {
        next.memory[addr as usize] == val
    }
    fn get(&self, addr: u16) -> u8 {
        self.memory[addr as usize]
    }
    fn set(&mut self, addr: u16, val: u8) {
        self.memory[addr as usize] = val;
    }
    fn hwset(&mut self, addr: u16, val: u8) {
        self.memory[addr as usize] = val;
    }
}

#[test]
fn test_div_increment() {
    let mut timer = Timer::new();
    let mut mem = Mem::new();

    timer.tick(&mut mem, 255);
    assert_eq!(mem.get(registers::DIV), 0);

    timer.tick(&mut mem, 1);
    assert_eq!(mem.get(registers::DIV), 1);
}

#[test]
fn test_invokes_interrupt() {
    let mut timer = Timer::new();
    let mut mem = Mem::new();
    mem.set(registers::TAC, 0b111);

    timer.tick(&mut mem, 255);
    assert_eq!(mem.get(registers::DIV), 0);

    timer.tick(&mut mem, 1);
    assert_eq!(mem.get(registers::DIV), 1);
}

#[test]
fn test_does_not_increment_tima_if_tac_enable_is_0() {
    let mut timer = Timer::new();
    let mut mem = Mem::new();
    mem.set(registers::TAC, 0b011);
    timer.tick(&mut mem, 255);
    timer.tick(&mut mem, 1);

    let tima = mem.get(registers::TIMA);
    assert_eq!(tima, 0);
}

#[test]
fn test_does_increment_tima_if_tac_enable_is_1() {
    let mut timer = Timer::new();
    let mut mem = Mem::new();
    mem.set(registers::TAC, 0b111);
    timer.tick(&mut mem, 255);
    timer.tick(&mut mem, 1);

    let tima = mem.get(registers::TIMA);
    assert_eq!(tima, 1);
}

#[test]
fn test_tima_restarts_from_tma() {
    let mut timer = Timer::new();
    let mut mem = Mem::new();
    mem.set(registers::TAC, 0b111);
    mem.set(registers::TIMA, 0xFF);
    mem.set(registers::TMA, 0xFE);

    timer.tick(&mut mem, 255);
    timer.tick(&mut mem, 1);

    let tima = mem.get(registers::TIMA);
    assert_eq!(tima, 0xFE);
}

#[test]
fn test_tima_restarts_from_tma_f0() {
    let mut timer = Timer::new();
    let mut mem = Mem::new();
    mem.set(registers::TAC, 0b111);
    mem.set(registers::TIMA, 0xFF);
    mem.set(registers::TMA, 0xF0);

    timer.tick(&mut mem, 255);
    timer.tick(&mut mem, 1);

    let tima = mem.get(registers::TIMA);
    assert_eq!(tima, 0xF0);
}

#[test]
fn test_tima() {
    let mut timer = Timer::new();
    let mut mem = Mem::new();
    mem.set(registers::TAC, 0b101);
    mem.set(registers::TIMA, 0);
    mem.set(registers::IF, 0);

    for _ in 0..4 {
        timer.tick(&mut mem, 250);
        timer.tick(&mut mem, 250);
    }
    timer.tick(&mut mem, 250);

    assert_eq!(mem.get(0xFF0F), 0);

    for _ in 0..4 {
        timer.tick(&mut mem, 250);
        timer.tick(&mut mem, 250);
    }

    assert_eq!(mem.get(0xFF0F), 0b100);
}

#[test]
fn slowest_timer_overflows_after_1024_dots() {
    let mut timer = Timer::new();
    let mut mem = Mem::new();
    // enabled, speed 0: TIMA counts every 1024 dots
    mem.set(registers::TAC, 0b100);
    mem.set(registers::TIMA, 0xFF);
    mem.set(registers::TMA, 0x42);
    mem.set(registers::IF, 0);
    for _ in 0..4 {
        timer.tick(&mut mem, 255);
    }
    assert_eq!(mem.get(registers::TIMA), 0xFF);
    assert_eq!(mem.get(registers::IF), 0);
    timer.tick(&mut mem, 4);
    assert_eq!(mem.get(registers::TIMA), 0x42);
    assert_eq!(mem.get(registers::IF) & 0b100, 0b100);
}

#[test]
fn frame_sequencer_ticks_when_div_bit_4_falls() {
    let mut timer = Timer::new();
    let mut mem = Mem::new();
    mem.set(registers::DIV, 0x1F);
    timer.tick(&mut mem, 255);
    assert_eq!(timer.delta_div, 0);
    timer.tick(&mut mem, 1);
    assert_eq!(mem.get(registers::DIV), 0x20);
    assert_eq!(timer.delta_div, 1);
}
