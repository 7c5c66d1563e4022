use vstd::prelude::*;

use crate::byteop::{get_bit, set_bit, spec_bit, spec_set_bit};
use crate::mbc::{rom_byte, Cartridge, Rom};
use crate::registers::{BOOT_OFF, DIV, DMA, NR52, P1};

verus! {

/// An I/O register that stores what the program writes: the I/O page, high RAM and IE, but for
/// the joypad matrix, DIV and NR52.
pub open spec fn plain_io(addr: u16) -> bool {
    0xFF01 <= addr && addr != DIV && addr != NR52
}

/// The memory-mapped address space as the CPU, timer and PPU see it.
pub trait Memory: Sized {
    /// The memory is well formed.
    spec fn mem_wf(&self) -> bool;

    /// What a read of `addr` returns.
    spec fn peek(&self, addr: u16) -> u8;

    /// `next` is this memory after a program write of `value` to `addr`.
    spec fn write_post(&self, next: Self, addr: u16, value: u8) -> bool;

    /// `next` is this memory after a hardware write of `value` to `addr`.
    spec fn hw_write_post(&self, next: Self, addr: u16, value: u8) -> bool;

    fn get(&self, addr: u16) -> (r: u8)
        requires
            self.mem_wf(),
        ensures
            r == self.peek(addr),
    ;

    /// A program write.
    fn set(&mut self, addr: u16, value: u8)
        requires
            old(self).mem_wf(),
        ensures
            final(self).mem_wf(),
            old(self).write_post(*final(self), addr, value),
            plain_io(addr) ==> final(self).peek(addr) == value,
            addr == DIV ==> final(self).peek(DIV) == 0,
            forall|a: u16|
                0xFF00 <= a && a != addr ==> #[trigger] final(self).peek(a) == old(self).peek(a),
    ;

    /// A write by the hardware, which reaches the bits that program writes cannot.
    fn hwset(&mut self, addr: u16, value: u8)
        requires
            old(self).mem_wf(),
            0xFF01 <= addr,
        ensures
            final(self).mem_wf(),
            old(self).hw_write_post(*final(self), addr, value),
            final(self).peek(addr) == value,
            forall|a: u16|
                0xFF00 <= a && a != addr ==> #[trigger] final(self).peek(a) == old(self).peek(a),
    ;
}

/// The joypad inputs: directions in bits 0–3, buttons in bits 4–7.
#[derive(Clone, Copy, Debug, PartialEq, Eq, Structural)]
pub enum HWInput {
    BtnA,
    BtnB,
    BtnSelect,
    BtnStart,
    ArrRight,
    ArrLeft,
    ArrUp,
    ArrDown,
}

/// Bit of the input vector that holds a button.
pub open spec fn input_bit(btn: HWInput) -> u8 {
    match btn {
        HWInput::ArrRight => 0,
        HWInput::ArrLeft => 1,
        HWInput::ArrUp => 2,
        HWInput::ArrDown => 3,
        HWInput::BtnA => 4,
        HWInput::BtnB => 5,
        HWInput::BtnSelect => 6,
        HWInput::BtnStart => 7,
    }
}

impl HWInput {
    pub fn bit(&self) -> (r: u8)
        ensures
            r == input_bit(*self),
    {
        match self {
            HWInput::ArrRight => 0,
            HWInput::ArrLeft => 1,
            HWInput::ArrUp => 2,
            HWInput::ArrDown => 3,
            HWInput::BtnA => 4,
            HWInput::BtnB => 5,
            HWInput::BtnSelect => 6,
            HWInput::BtnStart => 7,
        }
    }
}

/// The low nibble of FF00 for the selection bits `select` (bits 4 and 5, active low): the
/// directions when bit 4 is clear, else the buttons when bit 5 is clear, else none (all 1s).
pub open spec fn selected_nibble(select: u8, inputs: u8) -> u8 {
    if spec_bit(select as u16, 4) == 0 {
        inputs % 16
    } else if spec_bit(select as u16, 5) == 0 {
        inputs / 16
    } else {
        0x0F
    }
}

/// What a read of FF00 returns after the program wrote `select` there: bits 6–7 set, the
/// selection bits 4–5 it wrote, and the selected group's inputs in bits 0–3.
pub open spec fn spec_inputs(select: u8, inputs: u8) -> u8 {
    (0xC0 + (select & 0x30) as int + selected_nibble(select, inputs) as int) as u8
}

pub fn get_inputs(select: u8, inputs: u8) -> (r: u8)
    ensures
        r == spec_inputs(select, inputs),
{
    proof {
        assert((select & 0x30) <= 0x30) by (bit_vector);
    }
    let lower = if get_bit(select as u16, 4) == 0 {
        inputs % 16
    } else if get_bit(select as u16, 5) == 0 {
        inputs / 16
    } else {
        0x0F
    };
    0xC0 + (select & 0x30) + lower
}

/// Size of the video RAM.
pub const VRAM_SIZE: usize = 0x2000;

/// Size of the RAM behind C000–FFFF: work RAM, OAM, I/O registers, high RAM and IE.
pub const WRAM_SIZE: usize = 0x4000;

/// An address the cartridge answers.
pub open spec fn cart_addr(addr: u16) -> bool {
    addr <= 0x7FFF || (0xA000 <= addr && addr <= 0xBFFF)
}

/// An address whose byte is RAM that stores what is written: video RAM, work RAM and its echo,
/// OAM, and the plain I/O registers and high RAM.
pub open spec fn ram_addr(addr: u16) -> bool {
    (0x8000 <= addr && addr <= 0x9FFF) || (0xC000 <= addr && addr <= 0xFEFF) || plain_io(addr)
}

/// Index into the work RAM that serves `addr` (the echo region aliases C000–DDFF).
pub open spec fn wram_index(addr: u16) -> int {
    if 0xE000 <= addr && addr <= 0xFDFF {
        addr as int - 0xE000
    } else {
        addr as int - 0xC000
    }
}

/// Two addresses that read the same storage.
pub open spec fn same_cell(a: u16, b: u16) -> bool {
    a == b || (0xC000 <= a && 0xC000 <= b && wram_index(a) == wram_index(b))
}

/// The memory bus.
pub struct MMU {
    boot_rom: Vec<u8>,
    rom: Cartridge,
    vram: Vec<u8>,
    wram: Vec<u8>,
    boot_off: bool,
    inputs: u8,
}

impl MMU {
    pub open spec fn wf(&self) -> bool {
        &&& self.vram_view().len() == VRAM_SIZE
        &&& self.wram_view().len() == WRAM_SIZE
        &&& self.cart().wf()
    }

    pub closed spec fn vram_view(&self) -> Seq<u8> {
        self.vram@
    }

    pub closed spec fn wram_view(&self) -> Seq<u8> {
        self.wram@
    }

    pub closed spec fn boot_view(&self) -> Seq<u8> {
        self.boot_rom@
    }

    pub closed spec fn cart(&self) -> Cartridge {
        self.rom
    }

    pub closed spec fn boot_disabled(&self) -> bool {
        self.boot_off
    }

    pub closed spec fn input_bits(&self) -> u8 {
        self.inputs
    }

    pub fn new(boot_rom: Vec<u8>, rom: Cartridge) -> (r: MMU)
        requires
            rom.wf(),
        ensures
            r.wf(),
            r.boot_view() == boot_rom@,
            r.cart() == rom,
            !r.boot_disabled(),
            r.input_bits() == 0xFF,
            forall|i: int| 0 <= i < VRAM_SIZE ==> r.vram_view()[i] == 0,
            forall|i: int| 0 <= i < WRAM_SIZE ==> r.wram_view()[i] == 0,
    {
        MMU {
            boot_rom,
            rom,
            vram: vec![0; VRAM_SIZE],
            wram: vec![0; WRAM_SIZE],
            boot_off: false,
            inputs: 0xFF,
        }
    }

    pub fn boot_rom_disabled(&self) -> (r: bool)
        ensures
            r == self.boot_disabled(),
    {
        self.boot_off
    }

    /// Marks a joypad input as pressed or released (the input vector is active low).
    pub fn press(&mut self, btn: HWInput, pressed: bool)
        ensures
            final(self).input_bits() == spec_set_bit(old(self).input_bits(), input_bit(btn), !pressed),
            final(self).vram_view() == old(self).vram_view(),
            final(self).wram_view() == old(self).wram_view(),
            final(self).boot_view() == old(self).boot_view(),
            final(self).cart() == old(self).cart(),
            final(self).boot_disabled() == old(self).boot_disabled(),
    {
        let bit = btn.bit();
        self.inputs = set_bit(self.inputs, bit, !pressed);
    }

    /// The cartridge's battery-backed RAM when it was written since the last call.
    pub fn take_save(&mut self) -> (r: Option<Vec<u8>>)
        requires
            old(self).wf(),
        ensures
            final(self).wf(),
            forall|a: u16| #[trigger] final(self).peek(a) == old(self).peek(a),
            match old(self).cart() {
                Cartridge::Mbc3(c) => match r {
                    Some(v) => c.is_dirty() && v@ == c.ram_view(),
                    None => !c.is_dirty(),
                },
                Cartridge::NoMbc(_) => r is None,
            },
    {
        self.rom.take_save()
    }

    /// Copies the 160 bytes at `page`·0x100 into OAM.
    fn dma(&mut self, page: u8)
        requires
            old(self).wf(),
        ensures
            final(self).wf(),
            final(self).vram_view() == old(self).vram_view(),
            final(self).boot_view() == old(self).boot_view(),
            final(self).cart() == old(self).cart(),
            final(self).boot_disabled() == old(self).boot_disabled(),
            final(self).input_bits() == old(self).input_bits(),
            forall|i: int|
                0 <= i < WRAM_SIZE && !(0x3E00 <= i < 0x3EA0) ==> final(self).wram_view()[i]
                    == old(self).wram_view()[i],
            forall|i: int|
                #![trigger final(self).wram_view()[0x3E00 + i]]
                0 <= i < 0xA0 ==> final(self).wram_view()[0x3E00 + i] == old(self).peek(
                    (page as int * 256 + i) as u16,
                ),
    {
        let source: u16 = page as u16 * 256;
        let mut i: u16 = 0;
        while i < 0xA0
            invariant
                0 <= i <= 0xA0,
                source == page as int * 256,
                self.wf(),
                self.vram_view() == old(self).vram_view(),
                self.boot_view() == old(self).boot_view(),
                self.cart() == old(self).cart(),
                self.boot_disabled() == old(self).boot_disabled(),
                self.input_bits() == old(self).input_bits(),
                forall|j: int|
                    0 <= j < WRAM_SIZE && !(0x3E00 <= j < 0x3E00 + i) ==> self.wram_view()[j]
                        == old(self).wram_view()[j],
                forall|j: int|
                    #![trigger self.wram_view()[0x3E00 + j]]
                    0 <= j < i ==> self.wram_view()[0x3E00 + j] == old(self).peek(
                        (page as int * 256 + j) as u16,
                    ),
            decreases 0xA0 - i,
        {
            let addr: u16 = source + i;
            let byte = self.read(addr);
            proof {
                assert(byte == old(self).peek(addr));
            }
            self.wram.set(0x3E00 + i as usize, byte);
            i = i + 1;
        }
    }

    pub fn read(&self, addr: u16) -> (r: u8)
        requires
            self.wf(),
        ensures
            r == self.peek(addr),
    {
        if addr <= 0x00FF {
            if self.boot_off {
                self.rom.get(addr)
            } else if (addr as usize) < self.boot_rom.len() {
                self.boot_rom[addr as usize]
            } else {
                0xFF
            }
        } else if addr <= 0x7FFF {
            self.rom.get(addr)
        } else if addr <= 0x9FFF {
            self.vram[addr as usize - 0x8000]
        } else if addr <= 0xBFFF {
            self.rom.get(addr)
        } else if addr == P1 {
            get_inputs(self.wram[0x3F00], self.inputs)
        } else if 0xE000 <= addr && addr <= 0xFDFF {
            self.wram[addr as usize - 0xE000]
        } else {
            self.wram[addr as usize - 0xC000]
        }
    }

    /// A hardware write: stores the byte as is.
    pub fn hw_write(&mut self, addr: u16, value: u8)
        requires
            old(self).wf(),
            0xFF01 <= addr,
        ensures
            final(self).wf(),
            final(self).vram_view() == old(self).vram_view(),
            final(self).boot_view() == old(self).boot_view(),
            final(self).cart() == old(self).cart(),
            final(self).boot_disabled() == old(self).boot_disabled(),
            final(self).input_bits() == old(self).input_bits(),
            final(self).wram_view() == old(self).wram_view().update(addr as int - 0xC000, value),
    {
        self.wram.set(addr as usize - 0xC000, value);
    }

    /// A program write.
    pub fn write(&mut self, addr: u16, val: u8)
        requires
            old(self).wf(),
        ensures
            old(self).write_post(*final(self), addr, val),
    {
        if addr <= 0x7FFF {
            self.rom.set(addr, val);
        } else if addr <= 0x9FFF {
            self.vram.set(addr as usize - 0x8000, val);
        } else if addr <= 0xBFFF {
            self.rom.set(addr, val);
        } else if 0xE000 <= addr && addr <= 0xFDFF {
            self.wram.set(addr as usize - 0xE000, val);
        } else if addr == P1 {
            self.wram.set(0x3F00, val & 0x30);
        } else if addr == NR52 {
            // programs reach bit 7 only; the channel flags belong to the APU
            let current = self.read(NR52);
            let new_value = set_bit(current, 7, get_bit(val as u16, 7) == 1);
            self.hw_write(NR52, new_value);
        } else if addr == DIV {
            self.hw_write(DIV, 0);
        } else if addr == DMA {
            self.dma(val);
            self.wram.set(addr as usize - 0xC000, val);
            proof {
                assert forall|i: int| 0 <= i < 0xA0 implies #[trigger] self.peek((0xFE00 + i) as u16)
                    == old(self).peek((val as int * 256 + i) as u16) by {
                    assert(wram_index((0xFE00 + i) as u16) == 0x3E00 + i);
                }
            }
        } else if addr == BOOT_OFF {
            self.wram.set(addr as usize - 0xC000, val);
            if val == 1 {
                self.boot_off = true;
            }
        } else {
            self.wram.set(addr as usize - 0xC000, val);
        }
    }
}

impl Memory for MMU {
    open spec fn mem_wf(&self) -> bool {
        self.wf()
    }

    open spec fn peek(&self, addr: u16) -> u8 {
        if addr <= 0x00FF {
            if self.boot_disabled() {
                self.cart().peek(addr)
            } else {
                rom_byte(self.boot_view(), addr as int)
            }
        } else if addr <= 0x7FFF {
            self.cart().peek(addr)
        } else if addr <= 0x9FFF {
            self.vram_view()[addr as int - 0x8000]
        } else if addr <= 0xBFFF {
            self.cart().peek(addr)
        } else if addr == P1 {
            spec_inputs(self.wram_view()[0x3F00], self.input_bits())
        } else {
            self.wram_view()[wram_index(addr)]
        }
    }

    open spec fn write_post(&self, next: Self, addr: u16, value: u8) -> bool {
        &&& self.wf() ==> next.wf()
        &&& next.boot_view() == self.boot_view()
        &&& next.input_bits() == self.input_bits()
        &&& next.boot_disabled() == (self.boot_disabled() || (addr == BOOT_OFF && value == 1))
        &&& cart_addr(addr) ==> self.cart().set_post(next.cart(), addr, value)
        &&& !cart_addr(addr) ==> next.cart() == self.cart()
        &&& self.wf() && ram_addr(addr) ==> next.peek(addr) == value
        &&& self.wf() && addr == DIV ==> next.peek(DIV) == 0
        &&& self.wf() && addr == NR52 ==> next.peek(NR52) == spec_set_bit(
            self.peek(NR52),
            7,
            spec_bit(value as u16, 7) == 1,
        )
        &&& self.wf() && addr == P1 ==> next.wram_view()[0x3F00] == value & 0x30
        &&& self.wf() && addr == DMA ==> forall|i: int|
            0 <= i < 0xA0 ==> #[trigger] next.peek((0xFE00 + i) as u16) == self.peek(
                (value as int * 256 + i) as u16,
            )
        &&& self.wf() ==> forall|a: u16|
            !(cart_addr(a) && cart_addr(addr)) && !same_cell(a, addr) && !(addr == DMA && 0xFE00
                <= a <= 0xFE9F) && !(addr == BOOT_OFF && a <= 0xFF) ==> #[trigger] next.peek(a)
                == self.peek(a)
    }

    open spec fn hw_write_post(&self, next: Self, addr: u16, value: u8) -> bool {
        &&& self.wf() ==> next.wf()
        &&& next.boot_view() == self.boot_view()
        &&& next.input_bits() == self.input_bits()
        &&& next.boot_disabled() == self.boot_disabled()
        &&& next.cart() == self.cart()
        &&& next.vram_view() == self.vram_view()
        &&& self.wf() ==> forall|a: u16| a != addr ==> #[trigger] next.peek(a) == self.peek(a)
    }

    fn get(&self, addr: u16) -> (r: u8) {
        self.read(addr)
    }

    fn set(&mut self, addr: u16, value: u8) {
        self.write(addr, value);
    }

    fn hwset(&mut self, addr: u16, value: u8) {
        self.hw_write(addr, value);
    }
}

} // verus!
