use vstd::prelude::*;

verus! {

/// The byte at `i` of a cartridge image; past its end the bus reads 0xFF.
pub open spec fn rom_byte(rom: Seq<u8>, i: int) -> u8 {
    if 0 <= i < rom.len() {
        rom[i]
    } else {
        0xFF
    }
}

fn read_rom(rom: &Vec<u8>, i: usize) -> (r: u8)
    ensures
        r == rom_byte(rom@, i as int),
{
    if i < rom.len() {
        rom[i]
    } else {
        0xFF
    }
}

/// A cartridge bank controller: reads of the cartridge's address ranges, and writes to its
/// control registers and RAM.
pub trait Rom: Sized {
    /// What a read of `addr` returns.
    spec fn peek(&self, addr: u16) -> u8;

    /// `next` is this controller after `set(addr, val)`.
    spec fn set_post(&self, next: Self, addr: u16, val: u8) -> bool;

    fn get(&self, addr: u16) -> (r: u8)
        ensures
            r == self.peek(addr),
    ;

    fn set(&mut self, addr: u16, val: u8)
        ensures
            old(self).set_post(*final(self), addr, val),
    ;
}

/// A cartridge without bank controller: plain ROM, writes are ignored.
pub struct RomNoMBC {
    pub rom: Vec<u8>,
}

impl Rom for RomNoMBC {
    open spec fn peek(&self, addr: u16) -> u8 {
        rom_byte(self.rom@, addr as int)
    }

    open spec fn set_post(&self, next: Self, addr: u16, val: u8) -> bool {
        next.rom@ == self.rom@
    }

    fn get(&self, addr: u16) -> (r: u8) {
        read_rom(&self.rom, addr as usize)
    }

    fn set(&mut self, addr: u16, val: u8) {
    }
}

/// Size of one switchable RAM bank.
pub const RAM_BANK_SIZE: usize = 0x2000;

/// Size of the whole battery-backed RAM: four banks.
pub const RAM_SIZE: usize = 0x8000;

/// The MBC3 controller: 128 ROM banks of 16 KiB, four RAM banks of 8 KiB.
pub struct RomMBC3 {
    rom: Vec<u8>,
    rom_bank: u8,
    exram_enable: bool,
    bank_or_rtc: u8,
    ram: Vec<u8>,
    dirty: bool,
}

/// The ROM bank that a write of `val` to 2000–3FFF selects.
pub open spec fn selected_bank(val: u8) -> u8 {
    if val & 0x7F == 0 {
        1
    } else {
        val & 0x7F
    }
}

impl RomMBC3 {
    pub closed spec fn rom_view(&self) -> Seq<u8> {
        self.rom@
    }

    pub closed spec fn ram_view(&self) -> Seq<u8> {
        self.ram@
    }

    pub closed spec fn bank(&self) -> u8 {
        self.rom_bank
    }

    pub closed spec fn ram_select(&self) -> u8 {
        self.bank_or_rtc
    }

    pub closed spec fn ram_enabled(&self) -> bool {
        self.exram_enable
    }

    pub closed spec fn is_dirty(&self) -> bool {
        self.dirty
    }

    pub open spec fn wf(&self) -> bool {
        &&& self.ram_view().len() == RAM_SIZE
        &&& 1 <= self.bank() <= 127
    }

    /// A fresh controller on `rom`, with the RAM that `saved` holds when it has the size of the
    /// whole RAM, else zeroed RAM.
    pub fn new(rom: Vec<u8>, saved: Option<Vec<u8>>) -> (r: RomMBC3)
        ensures
            r.wf(),
            r.rom_view() == rom@,
            r.bank() == 1,
            !r.ram_enabled(),
            r.ram_select() == 0,
            !r.is_dirty(),
            match saved {
                Some(s) if s@.len() == RAM_SIZE => r.ram_view() == s@,
                _ => r.ram_view() == Seq::new(RAM_SIZE as nat, |i: int| 0u8),
            },
    {
        let ram = match saved {
            Some(s) if s.len() == RAM_SIZE => s,
            _ => {
                let z: Vec<u8> = vec![0; RAM_SIZE];
                proof {
                    assert(z@ =~= Seq::new(RAM_SIZE as nat, |i: int| 0u8));
                }
                z
            },
        };
        RomMBC3 { rom, rom_bank: 1, exram_enable: false, bank_or_rtc: 0, ram, dirty: false }
    }

    /// The external RAM, four banks in order.
    pub fn ram(&self) -> (r: &Vec<u8>)
        ensures
            r@ == self.ram_view(),
    {
        &self.ram
    }

    /// Whether the RAM was written since the last call, clearing that mark.
    pub fn take_dirty(&mut self) -> (r: bool)
        ensures
            r == old(self).is_dirty(),
            !final(self).is_dirty(),
            final(self).rom_view() == old(self).rom_view(),
            final(self).ram_view() == old(self).ram_view(),
            final(self).bank() == old(self).bank(),
            final(self).ram_select() == old(self).ram_select(),
            final(self).ram_enabled() == old(self).ram_enabled(),
    {
        let d = self.dirty;
        self.dirty = false;
        d
    }
}

impl Rom for RomMBC3 {
    open spec fn peek(&self, addr: u16) -> u8 {
        if addr <= 0x3FFF {
            rom_byte(self.rom_view(), addr as int)
        } else if addr <= 0x7FFF {
            rom_byte(self.rom_view(), addr as int - 0x4000 + 0x4000 * self.bank() as int)
        } else if 0xA000 <= addr <= 0xBFFF {
            if self.ram_select() <= 3 && self.ram_view().len() == RAM_SIZE {
                self.ram_view()[addr as int - 0xA000 + self.ram_select() as int * 0x2000]
            } else {
                0
            }
        } else {
            0xFF
        }
    }

    open spec fn set_post(&self, next: Self, addr: u16, val: u8) -> bool {
        &&& self.wf() ==> next.wf()
        &&& next.rom_view() == self.rom_view()
        &&& next.ram_view().len() == self.ram_view().len()
        &&& next.ram_enabled() == if addr <= 0x1FFF {
            val & 0x0F == 0x0A
        } else {
            self.ram_enabled()
        }
        &&& next.bank() == if 0x2000 <= addr <= 0x3FFF {
            selected_bank(val)
        } else {
            self.bank()
        }
        &&& next.ram_select() == if 0x4000 <= addr <= 0x5FFF {
            val
        } else {
            self.ram_select()
        }
        &&& next.ram_view() == if 0xA000 <= addr <= 0xBFFF && self.ram_select() <= 3
            && self.ram_view().len() == RAM_SIZE {
            self.ram_view().update(addr as int - 0xA000 + self.ram_select() as int * 0x2000, val)
        } else {
            self.ram_view()
        }
        &&& next.is_dirty() == (self.is_dirty() || (0xA000 <= addr <= 0xBFFF && self.ram_select()
            <= 3 && self.ram_view().len() == RAM_SIZE))
    }

    fn get(&self, addr: u16) -> (r: u8) {
        if addr <= 0x3FFF {
            read_rom(&self.rom, addr as usize)
        } else if addr <= 0x7FFF {
            read_rom(&self.rom, addr as usize - 0x4000 + 0x4000 * self.rom_bank as usize)
        } else if 0xA000 <= addr && addr <= 0xBFFF {
            if self.bank_or_rtc <= 3 && self.ram.len() == RAM_SIZE {
                self.ram[addr as usize - 0xA000 + self.bank_or_rtc as usize * RAM_BANK_SIZE]
            } else {
                0
            }
        } else {
            0xFF
        }
    }

    fn set(&mut self, addr: u16, val: u8) {
        if addr <= 0x1FFF {
            self.exram_enable = val & 0x0F == 0x0A;
        } else if addr <= 0x3FFF {
            proof {
                assert(val & 0x7F <= 127) by (bit_vector);
            }
            self.rom_bank = val & 0x7F;
            if self.rom_bank == 0 {
                self.rom_bank = 1;
            }
        } else if addr <= 0x5FFF {
            self.bank_or_rtc = val;
        } else if addr <= 0x7FFF {
            // latching the clock is not modelled
        } else if 0xA000 <= addr && addr <= 0xBFFF {
            if self.bank_or_rtc <= 3 && self.ram.len() == RAM_SIZE {
                let i = addr as usize - 0xA000 + self.bank_or_rtc as usize * RAM_BANK_SIZE;
                self.ram.set(i, val);
                self.dirty = true;
            }
        }
    }
}

/// The header byte at 0147 that names the bank controller.
pub const CARTRIDGE_TYPE_ADDR: usize = 0x0147;

/// The bank controllers this core supports.
pub enum Cartridge {
    NoMbc(RomNoMBC),
    Mbc3(RomMBC3),
}

impl Cartridge {
    pub open spec fn wf(&self) -> bool {
        match self {
            Cartridge::NoMbc(_) => true,
            Cartridge::Mbc3(c) => c.wf(),
        }
    }

    /// Picks the bank controller from the header byte at 0147: 00–03 have none, 13 is MBC3
    /// with battery RAM (loaded from `saved`, see `RomMBC3::new`); any other code is returned
    /// as the error.
    pub fn from_image(rom: Vec<u8>, saved: Option<Vec<u8>>) -> (r: Result<Cartridge, u8>)
        ensures
            ({
                let code = rom_byte(rom@, CARTRIDGE_TYPE_ADDR as int);
                match r {
                    Ok(Cartridge::NoMbc(c)) => code <= 3 && c.rom@ == rom@,
                    Ok(Cartridge::Mbc3(c)) => code == 0x13 && c.wf() && c.rom_view() == rom@
                        && c.bank() == 1,
                    Err(e) => e == code && code > 3 && code != 0x13,
                }
            }),
            r matches Ok(c) ==> c.wf(),
    {
        let code = read_rom(&rom, CARTRIDGE_TYPE_ADDR);
        if code <= 3 {
            Ok(Cartridge::NoMbc(RomNoMBC { rom }))
        } else if code == 0x13 {
            Ok(Cartridge::Mbc3(RomMBC3::new(rom, saved)))
        } else {
            Err(code)
        }
    }

    /// The battery-backed RAM when it was written since the last call (clearing that mark).
    pub fn take_save(&mut self) -> (r: Option<Vec<u8>>)
        requires
            old(self).wf(),
        ensures
            final(self).wf(),
            forall|a: u16| #[trigger] final(self).peek(a) == old(self).peek(a),
            match *old(self) {
                Cartridge::Mbc3(c) => match r {
                    Some(v) => c.is_dirty() && v@ == c.ram_view(),
                    None => !c.is_dirty(),
                },
                Cartridge::NoMbc(_) => r is None,
            },
    {
        match self {
            Cartridge::NoMbc(_) => None,
            Cartridge::Mbc3(c) => {
                if c.take_dirty() {
                    Some(c.ram().clone())
                } else {
                    None
                }
            },
        }
    }
}

impl Rom for Cartridge {
    open spec fn peek(&self, addr: u16) -> u8 {
        match self {
            Cartridge::NoMbc(c) => c.peek(addr),
            Cartridge::Mbc3(c) => c.peek(addr),
        }
    }

    open spec fn set_post(&self, next: Self, addr: u16, val: u8) -> bool {
        match (self, next) {
            (Cartridge::NoMbc(c), Cartridge::NoMbc(n)) => c.set_post(n, addr, val),
            (Cartridge::Mbc3(c), Cartridge::Mbc3(n)) => c.set_post(n, addr, val),
            _ => false,
        }
    }

    fn get(&self, addr: u16) -> (r: u8) {
        match self {
            Cartridge::NoMbc(c) => c.get(addr),
            Cartridge::Mbc3(c) => c.get(addr),
        }
    }

    fn set(&mut self, addr: u16, val: u8) {
        match self {
            Cartridge::NoMbc(c) => c.set(addr, val),
            Cartridge::Mbc3(c) => c.set(addr, val),
        }
    }
}

/// After a run of writes to an MBC3 controller, the bank selected by the last write to 2000–3FFF
/// stays selected through the later writes elsewhere.
proof fn lemma_bank_kept(states: Seq<RomMBC3>, writes: Seq<(u16, u8)>, k: int, j: int)
    requires
        states.len() == writes.len() + 1,
        forall|i: int|
            0 <= i < writes.len() ==> #[trigger] states[i].set_post(
                states[i + 1],
                writes[i].0,
                writes[i].1,
            ),
        0 <= k < writes.len(),
        0x2000 <= writes[k].0 <= 0x3FFF,
        forall|i: int| k < i < writes.len() ==> !(0x2000 <= #[trigger] writes[i].0 <= 0x3FFF),
        k < j <= writes.len(),
    ensures
        states[j].bank() == selected_bank(writes[k].1),
        states[j].rom_view() == states[k].rom_view(),
    decreases j - k,
{
    if j > k + 1 {
        lemma_bank_kept(states, writes, k, j - 1);
        let i = j - 1;
        assert(states[i].set_post(states[i + 1], writes[i].0, writes[i].1));
    } else {
        assert(states[k].set_post(states[k + 1], writes[k].0, writes[k].1));
    }
}

proof fn lemma_rom_kept(states: Seq<RomMBC3>, writes: Seq<(u16, u8)>, j: int)
    requires
        states.len() == writes.len() + 1,
        forall|i: int|
            0 <= i < writes.len() ==> #[trigger] states[i].set_post(
                states[i + 1],
                writes[i].0,
                writes[i].1,
            ),
        0 <= j <= writes.len(),
    ensures
        states[j].rom_view() == states[0].rom_view(),
    decreases j,
{
    if j > 0 {
        lemma_rom_kept(states, writes, j - 1);
        let i = j - 1;
        assert(states[i].set_post(states[i + 1], writes[i].0, writes[i].1));
    }
}

/// For any sequence of writes to an MBC3 controller, once a value `v` has been written to
/// 2000–3FFF (and no later write went there), reads from 4000–7FFF come from ROM bank
/// `max(v & 0x7F, 1)` of the cartridge image.
pub proof fn mbc3_reads_use_last_bank(
    states: Seq<RomMBC3>,
    writes: Seq<(u16, u8)>,
    k: int,
    a: u16,
)
    requires
        states.len() == writes.len() + 1,
        forall|i: int|
            0 <= i < writes.len() ==> #[trigger] states[i].set_post(
                states[i + 1],
                writes[i].0,
                writes[i].1,
            ),
        0 <= k < writes.len(),
        0x2000 <= writes[k].0 <= 0x3FFF,
        forall|i: int| k < i < writes.len() ==> !(0x2000 <= #[trigger] writes[i].0 <= 0x3FFF),
        0x4000 <= a <= 0x7FFF,
    ensures
        selected_bank(writes[k].1) == vstd::math::max((writes[k].1 & 0x7F) as int, 1),
        states.last().peek(a) == rom_byte(
            states[0].rom_view(),
            a as int - 0x4000 + 0x4000 * selected_bank(writes[k].1) as int,
        ),
{
    lemma_bank_kept(states, writes, k, writes.len() as int);
    lemma_rom_kept(states, writes, k);
}

} // verus!
