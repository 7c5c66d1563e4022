use vstd::prelude::*;

use crate::byteop::{get_bit, join_u8, rl, set_bit, spec_bit, spec_join, spec_set_bit, split_u16};
use crate::cpu::{flag_set, low_nibble_clear, spec_flags, CFlag, CpuRegisters};
use crate::mbc::Cartridge;
use crate::memory::{plain_io, ram_addr, HWInput, Memory, MMU};
use crate::registers::{self, BOOT_OFF, IE, IF};
use crate::apu::APU;
use crate::ppu::{Display, PPU};
use crate::timer::{reload, spec_increment, speed_shift, Timer};

verus! {

/// Why the CPU stopped.
#[derive(Clone, Copy, Debug, PartialEq, Eq, Structural)]
pub enum CpuFault {
    /// The byte at `pc` is no instruction.
    UnknownOpcode { opcode: u8, pc: u16 },
}

/// The eleven bytes that decode to no instruction.
pub open spec fn illegal_opcode(op: u8) -> bool {
    op == 0xD3 || op == 0xDB || op == 0xDD || op == 0xE3 || op == 0xE4 || op == 0xEB || op == 0xEC
        || op == 0xED || op == 0xF4 || op == 0xFC || op == 0xFD
}

/// The condition of a conditional jump, call or return: NZ, Z, NC or C by bits 3–4.
pub open spec fn cond_holds(op: u8, rf: u8) -> bool {
    let sel = (op / 8) % 4;
    if sel == 0 {
        !flag_set(rf, 7)
    } else if sel == 1 {
        flag_set(rf, 7)
    } else if sel == 2 {
        !flag_set(rf, 4)
    } else {
        flag_set(rf, 4)
    }
}

/// Machine cycles of a primary opcode; `taken` tells whether a conditional branch is taken.
pub open spec fn primary_cycles(op: u8, taken: bool) -> u8 {
    if 0x40 <= op && op <= 0x7F {
        if op == 0x76 {
            1
        } else if op % 8 == 6 || (0x70 <= op && op <= 0x77) {
            2
        } else {
            1
        }
    } else if 0x80 <= op && op <= 0xBF {
        if op % 8 == 6 {
            2
        } else {
            1
        }
    } else {
        match op {
            0x20u8 | 0x28 | 0x30 | 0x38 => if taken { 3 } else { 2 },
            0xC0u8 | 0xC8 | 0xD0 | 0xD8 => if taken { 5 } else { 2 },
            0xC2u8 | 0xCA | 0xD2 | 0xDA => if taken { 4 } else { 3 },
            0xC4u8 | 0xCC | 0xD4 | 0xDC => if taken { 6 } else { 3 },
            0x00u8 | 0x07 | 0x0F | 0x10 | 0x17 | 0x1F | 0x27 | 0x2F | 0x37 | 0x3F => 1,
            0x04u8 | 0x05 | 0x0C | 0x0D | 0x14 | 0x15 | 0x1C | 0x1D | 0x24 | 0x25 | 0x2C | 0x2D
            | 0x3C | 0x3D => 1,
            0x06u8 | 0x0E | 0x16 | 0x1E | 0x26 | 0x2E | 0x3E => 2,
            0x02u8 | 0x03 | 0x09 | 0x0A | 0x0B | 0x12 | 0x13 | 0x19 | 0x1A | 0x1B | 0x22 | 0x23
            | 0x29 | 0x2A | 0x2B | 0x32 | 0x33 | 0x39 | 0x3A | 0x3B => 2,
            0x01u8 | 0x11 | 0x21 | 0x31 | 0x18 | 0x34 | 0x35 | 0x36 => 3,
            0x08u8 => 5,
            0xC1u8 | 0xD1 | 0xE1 | 0xF1 | 0xE0 | 0xF0 | 0xF8 => 3,
            0xC5u8 | 0xD5 | 0xE5 | 0xF5 | 0xC3 | 0xC9 | 0xD9 | 0xEA | 0xFA | 0xE8 => 4,
            0xC7u8 | 0xCF | 0xD7 | 0xDF | 0xE7 | 0xEF | 0xF7 | 0xFF => 4,
            0xCDu8 => 6,
            0xC6u8 | 0xCE | 0xD6 | 0xDE | 0xE6 | 0xEE | 0xF6 | 0xFE | 0xE2 | 0xF2 | 0xF9 => 2,
            0xE9u8 | 0xF3 | 0xFB => 1,
            _ => 0,
        }
    }
}

proof fn lemma_cycles_range(op: u8)
    ensures
        !illegal_opcode(op) && op != 0xCB ==> 1 <= primary_cycles(op, true) <= 6 && 1
            <= primary_cycles(op, false) <= 6,
        forall|cb: u8| 2 <= #[trigger] cb_cycles(cb) <= 4,
{
}

/// Machine cycles of a CB-prefixed opcode, the prefix included.
pub open spec fn cb_cycles(op: u8) -> u8 {
    if op % 8 == 6 {
        if 0x40 <= op && op <= 0x7F {
            3
        } else {
            4
        }
    } else {
        2
    }
}

/// A after ALU operation `kind` (ADD, ADC, SUB, SBC, AND, XOR, OR, CP) on `a` and `v` with
/// carry `c`.
pub open spec fn alu_a(kind: int, a: u8, v: u8, c: int) -> u8 {
    if kind == 0 {
        ((a as int + v as int) % 256) as u8
    } else if kind == 1 {
        ((a as int + v as int + c) % 256) as u8
    } else if kind == 2 {
        ((a as int - v as int + 256) % 256) as u8
    } else if kind == 3 {
        ((a as int - v as int - c + 512) % 256) as u8
    } else if kind == 4 {
        a & v
    } else if kind == 5 {
        a ^ v
    } else if kind == 6 {
        a | v
    } else {
        a
    }
}

/// The flag byte after ALU operation `kind` on `a` and `v` with carry `c`.
pub open spec fn alu_f(kind: int, a: u8, v: u8, c: int) -> u8 {
    let r = alu_a(kind, a, v, c);
    if kind == 0 {
        spec_flags(r == 0, false, a % 16 + v % 16 >= 16, a + v >= 256)
    } else if kind == 1 {
        spec_flags(r == 0, false, a % 16 + v % 16 + c >= 16, a + v + c >= 256)
    } else if kind == 2 {
        spec_flags(r == 0, true, a % 16 < v % 16, a < v)
    } else if kind == 3 {
        spec_flags(r == 0, true, a % 16 < v % 16 + c, a < v + c)
    } else if kind == 4 {
        spec_flags(r == 0, false, true, false)
    } else if kind == 7 {
        spec_flags(a == v, true, a % 16 < v % 16, a < v)
    } else {
        spec_flags(r == 0, false, false, false)
    }
}

/// Rotate or shift `n` of the CB table (RLC, RRC, RL, RR, SLA, SRA, SWAP, SRL) on `v` with carry
/// `c`: the result and the carry out.
pub open spec fn cb_rot(n: int, v: u8, c: int) -> (u8, bool) {
    if n == 0 {
        (crate::cpu::rotl(v), v >= 128)
    } else if n == 1 {
        (crate::cpu::rotr(v), v % 2 == 1)
    } else if n == 2 {
        (((v as int * 2) % 256 + c) as u8, v >= 128)
    } else if n == 3 {
        ((v as int / 2 + c * 128) as u8, v % 2 == 1)
    } else if n == 4 {
        (((v as int * 2) % 256) as u8, v >= 128)
    } else if n == 5 {
        ((v as int / 2 + (v as int / 128) * 128) as u8, v % 2 == 1)
    } else if n == 6 {
        (crate::cpu::spec_swap(v), false)
    } else {
        ((v as int / 2) as u8, v % 2 == 1)
    }
}

/// The address `n` bytes past PC, wrapping.
pub open spec fn pc_plus(s: Runtime, n: int) -> u16 {
    ((s.cpu.pc as int + n) % 0x10000) as u16
}

/// A signed offset byte.
pub open spec fn signed(b: u8) -> int {
    if b < 128 {
        b as int
    } else {
        b as int - 256
    }
}

/// Which of A, F, BC, DE, HL and SP primary opcode `op` may change; the others it keeps.
pub open spec fn changes(op: u8) -> (bool, bool, bool, bool, bool, bool) {
    let reg = op / 8;
    let pair = op / 16;
    if op < 0x40 {
        if op % 8 == 4 || op % 8 == 5 || op % 8 == 6 {
            let f = op % 8 != 6;
            (reg == 7, f, reg == 0 || reg == 1, reg == 2 || reg == 3, reg == 4 || reg == 5, false)
        } else if op % 16 == 1 || op % 16 == 3 || op % 16 == 0xB {
            (false, false, pair == 0, pair == 1, pair == 2, pair == 3)
        } else if op % 16 == 9 {
            (false, true, false, false, true, false)
        } else if op == 0x0A || op == 0x1A {
            (true, false, false, false, false, false)
        } else if op == 0x22 || op == 0x32 {
            (false, false, false, false, true, false)
        } else if op == 0x2A || op == 0x3A {
            (true, false, false, false, true, false)
        } else if op == 0x07 || op == 0x0F || op == 0x17 || op == 0x1F || op == 0x27 || op == 0x2F {
            (true, true, false, false, false, false)
        } else if op == 0x37 || op == 0x3F {
            (false, true, false, false, false, false)
        } else {
            (false, false, false, false, false, false)
        }
    } else if op < 0x80 {
        let dst = (op / 8) % 8;
        (dst == 7, false, dst == 0 || dst == 1, dst == 2 || dst == 3, dst == 4 || dst == 5, false)
    } else if op < 0xC0 || op % 8 == 6 {
        (true, true, false, false, false, false)
    } else if op % 16 == 1 {
        (pair == 0xF, pair == 0xF, pair == 0xC, pair == 0xD, pair == 0xE, true)
    } else if op == 0xF0 || op == 0xF2 || op == 0xFA {
        (true, false, false, false, false, false)
    } else if op == 0xE8 {
        (false, true, false, false, false, true)
    } else if op == 0xF8 {
        (false, true, false, false, true, false)
    } else if op % 16 == 5 || op % 8 == 7 || op == 0xC0 || op == 0xC8 || op == 0xD0 || op == 0xD8
        || op == 0xC9 || op == 0xD9 || op == 0xC4 || op == 0xCC || op == 0xD4 || op == 0xDC
        || op == 0xCD || op == 0xF9 {
        (false, false, false, false, false, true)
    } else {
        (false, false, false, false, false, false)
    }
}

/// The cycle count (or fault) of a `step` result.
pub open spec fn cycles_of(r: Result<(u8, u8), CpuFault>) -> Result<u8, CpuFault> {
    match r {
        Ok((c, _)) => Ok(c),
        Err(e) => Err(e),
    }
}

/// The interrupt sources that are both requested and enabled.
pub open spec fn pending_of(ie: u8, iflag: u8) -> u8 {
    ie & iflag & 0x1F
}

/// The highest-priority pending interrupt: the lowest set bit.
pub open spec fn first_pending(p: u8) -> u8 {
    if spec_bit(p as u16, 0) == 1 {
        0
    } else if spec_bit(p as u16, 1) == 1 {
        1
    } else if spec_bit(p as u16, 2) == 1 {
        2
    } else if spec_bit(p as u16, 3) == 1 {
        3
    } else {
        4
    }
}

/// The vector of interrupt `k`: VBLANK 0040, LCD STAT 0048, timer 0050, serial 0058, joypad 0060.
pub open spec fn interrupt_vector(k: u8) -> u16 {
    (0x40 + 8 * k as int) as u16
}

/// The address `k` bytes below `sp`, wrapping.
pub open spec fn below(sp: u16, k: int) -> u16 {
    ((sp as int + 0x10000 - k) % 0x10000) as u16
}

/// The emulated machine: CPU registers, memory bus and timer.
pub struct Runtime {
    pub memory: MMU,
    pub cpu: CpuRegisters,
    pub timer: Timer,
}

impl Memory for Runtime {
    open spec fn mem_wf(&self) -> bool {
        self.wf()
    }

    open spec fn peek(&self, addr: u16) -> u8 {
        self.memory.peek(addr)
    }

    open spec fn write_post(&self, next: Self, addr: u16, value: u8) -> bool {
        self.memory.write_post(next.memory, addr, value) && next.cpu == self.cpu
    }

    open spec fn hw_write_post(&self, next: Self, addr: u16, value: u8) -> bool {
        self.memory.hw_write_post(next.memory, addr, value) && next.cpu == self.cpu
    }

    fn get(&self, addr: u16) -> (r: u8) {
        self.memory.read(addr)
    }

    fn set(&mut self, addr: u16, value: u8) {
        self.memory.write(addr, value);
    }

    fn hwset(&mut self, addr: u16, value: u8) {
        self.memory.hw_write(addr, value);
    }
}

/// PUSH BC followed by POP DE leaves D = B and E = C, when the two stack bytes lie in RAM.
pub proof fn push_bc_pop_de(s0: Runtime, s1: Runtime, s2: Runtime)
    requires
        Runtime::pushed(s0, s1, s0.pair(0)),
        Runtime::popped(s1, s2, 1),
        ram_addr(below(s0.cpu.sp, 1)),
        ram_addr(below(s0.cpu.sp, 2)),
    ensures
        s2.cpu.rd == s0.cpu.rb,
        s2.cpu.re == s0.cpu.rc,
{
    assert(((below(s0.cpu.sp, 2) as int + 1) % 0x10000) as u16 == below(s0.cpu.sp, 1));
    assert(s1.top_word() == s0.pair(0));
    assert(s2.pair(1) == s0.pair(0));
}

/// Adds two 16-bit values: the carry out of bit 15, the carry out of bit 11 and the sum.
pub fn add_u16(a: u16, b: u16) -> (r: (u8, u8, u16))
    ensures
        (r.0 == 1) == (a as int + b as int >= 0x10000),
        r.0 <= 1,
        (r.1 == 1) == (a as int % 0x1000 + b as int % 0x1000 >= 0x1000),
        r.1 <= 1,
        r.2 as int == (a as int + b as int) % 0x10000,
{
    let res = a as u32 + b as u32;
    let cy: u8 = if res >= 0x10000 { 1 } else { 0 };
    let hc: u8 = if (a % 0x1000) + (b % 0x1000) >= 0x1000 { 1 } else { 0 };
    (cy, hc, (res % 0x10000) as u16)
}

impl Runtime {
    pub open spec fn wf(&self) -> bool {
        self.memory.wf() && self.cpu.wf()
    }

    /// The value of 8-bit operand `idx`: B, C, D, E, H, L, (HL), A.
    pub open spec fn r8(&self, idx: u8) -> u8 {
        if idx == 0 {
            self.cpu.rb
        } else if idx == 1 {
            self.cpu.rc
        } else if idx == 2 {
            self.cpu.rd
        } else if idx == 3 {
            self.cpu.re
        } else if idx == 4 {
            self.cpu.rh
        } else if idx == 5 {
            self.cpu.rl
        } else if idx == 6 {
            self.memory.peek(spec_join(self.cpu.rh, self.cpu.rl))
        } else {
            self.cpu.ra
        }
    }

    /// This machine with PC moved past the opcode byte.
    pub open spec fn fetched(&self) -> Runtime {
        Runtime {
            cpu: CpuRegisters { pc: pc_plus(*self, 1), ..self.cpu },
            memory: self.memory,
            timer: self.timer,
        }
    }

    /// `t` is `s` (PC already past the opcode byte) after executing `op`, which returned `r`: a
    /// fault on the bytes that are no instruction, else the cycles from the table (CB opcodes by
    /// their second byte), with the effects the opcode has.
    pub open spec fn executed(s: Runtime, t: Runtime, op: u8, r: Result<u8, CpuFault>) -> bool {
        &&& illegal_opcode(op) <==> r is Err
        &&& !illegal_opcode(op) && op != 0xCB ==> r == Ok::<u8, CpuFault>(
            primary_cycles(op, cond_holds(op, s.cpu.rf)),
        )
        &&& op == 0xCB ==> r == Ok::<u8, CpuFault>(cb_cycles(s.imm8()))
        &&& illegal_opcode(op) ==> t.cpu == s.cpu && t.memory == s.memory
        &&& op < 0x40 ==> Runtime::low_effects(s, t, op)
        &&& 0x40 <= op < 0x80 ==> Runtime::ld_effects(s, t, op)
        &&& 0x80 <= op < 0xC0 ==> Runtime::alu_effects(s, t, op)
        &&& op == 0xCB ==> Runtime::cb_effects(s.fetched(), t, s.imm8())
        &&& 0xC0 <= op && op != 0xCB && !illegal_opcode(op) ==> Runtime::high_effects(s, t, op)
        &&& op != 0xCB && !illegal_opcode(op) ==> Runtime::framed(s, t, op)
        &&& op == 0xCB ==> t.cpu.halt == s.cpu.halt && t.cpu.ime == s.cpu.ime && t.cpu.debug
            == s.cpu.debug
    }

    /// `mid` is `s` after interrupt dispatch, when the CPU is not idling in HALT.
    pub open spec fn dispatched(s: Runtime, mid: Runtime) -> bool {
        let pending = pending_of(s.memory.peek(IE), s.memory.peek(IF));
        &&& mid.wf()
        &&& mid.cpu.ra == s.cpu.ra && mid.cpu.rf == s.cpu.rf && mid.cpu.rb == s.cpu.rb
        &&& mid.cpu.rc == s.cpu.rc && mid.cpu.rd == s.cpu.rd && mid.cpu.re == s.cpu.re
        &&& mid.cpu.rh == s.cpu.rh && mid.cpu.rl == s.cpu.rl && mid.cpu.debug == s.cpu.debug
        &&& pending != 0 ==> !mid.cpu.halt
        &&& pending == 0 ==> mid.cpu.halt == s.cpu.halt
        &&& if s.cpu.ime && pending != 0 {
            let k = first_pending(pending);
            let sp1 = below(s.cpu.sp, 1);
            let sp2 = below(s.cpu.sp, 2);
            &&& !mid.cpu.ime
            &&& mid.cpu.pc == interrupt_vector(k)
            &&& mid.cpu.sp == sp2
            &&& ram_addr(sp1) && ram_addr(sp2) && sp1 != IF && sp2 != IF ==> {
                &&& mid.memory.peek(sp1) as int == s.cpu.pc as int / 256
                &&& mid.memory.peek(sp2) as int == s.cpu.pc as int % 256
                &&& mid.memory.peek(IF) == spec_set_bit(s.memory.peek(IF), k, false)
            }
        } else {
            &&& mid.memory == s.memory
            &&& mid.cpu.pc == s.cpu.pc
            &&& mid.cpu.sp == s.cpu.sp
            &&& mid.cpu.ime == s.cpu.ime
        }
    }

    pub fn load(bootstrap: Vec<u8>, rom: Cartridge) -> (r: Runtime)
        requires
            rom.wf(),
        ensures
            r.wf(),
            r.memory.boot_view() == bootstrap@,
            r.memory.cart() == rom,
            !r.memory.boot_disabled(),
            r.cpu.pc == 0 && r.cpu.sp == 0 && r.cpu.ra == 0 && r.cpu.rf == 0,
            r.cpu.rb == 0 && r.cpu.rc == 0 && r.cpu.rd == 0 && r.cpu.re == 0,
            r.cpu.rh == 0 && r.cpu.rl == 0 && !r.cpu.ime && !r.cpu.halt,
    {
        Runtime { cpu: CpuRegisters::new(), memory: MMU::new(bootstrap, rom), timer: Timer::new() }
    }

    /// A machine in the state the boot ROM leaves: registers primed, boot ROM unmapped.
    pub fn noboot(bootstrap: Vec<u8>, rom: Cartridge) -> (r: Runtime)
        requires
            rom.wf(),
        ensures
            r.wf(),
            r.memory.boot_disabled(),
            r.memory.cart() == rom,
            r.memory.boot_view() == bootstrap@,
            r.memory.peek(BOOT_OFF) == 1,
            r.timer.ticks() == 0,
            r.timer.sequencer_ticks() == 0,
            r.cpu.pc == 0x0100 && r.cpu.sp == 0xFFFE && r.cpu.ra == 0x01 && r.cpu.rf == 0xB0,
            r.cpu.rb == 0x00 && r.cpu.rc == 0x13 && r.cpu.rd == 0x00 && r.cpu.re == 0xD8,
            r.cpu.rh == 0x01 && r.cpu.rl == 0x4D && !r.cpu.ime && !r.cpu.halt,
    {
        let mut rt = Runtime {
            cpu: CpuRegisters::atboot(),
            memory: MMU::new(bootstrap, rom),
            timer: Timer::new(),
        };
        rt.memory.write(BOOT_OFF, 1);
        rt
    }

    /// Advances the timer by `ticks` dots.
    pub fn tick_timer(&mut self, ticks: u8)
        requires
            old(self).wf(),
        ensures
            final(self).wf(),
            final(self).cpu == old(self).cpu,
            final(self).timer.ticks() as int == (old(self).timer.ticks() as int + ticks as int) % 65536,
            ({
                let div = old(self).memory.peek(registers::DIV);
                let div_incr = spec_increment(old(self).timer.ticks(), ticks, 8);
                &&& final(self).timer.sequencer_ticks() == (((div & 0x1F) + div_incr) as u8) >> 5u8
                &&& final(self).memory.peek(registers::DIV) as int == (div as int + div_incr as int) % 256
            }),
            ({
                let tima = old(self).memory.peek(registers::TIMA);
                let tma = old(self).memory.peek(registers::TMA);
                let tac = old(self).memory.peek(registers::TAC);
                let iflag = old(self).memory.peek(registers::IF);
                let incr = spec_increment(old(self).timer.ticks(), ticks, speed_shift(tac & 3));
                &&& final(self).memory.peek(registers::TMA) == tma
                &&& final(self).memory.peek(registers::TAC) == tac
                &&& if spec_bit(tac as u16, 2) == 1 {
                    if tima as int + incr as int > 0xFF {
                        &&& final(self).memory.peek(registers::TIMA) == reload(tima, tma, incr)
                        &&& final(self).memory.peek(registers::IF) == iflag | 0b100
                    } else {
                        &&& final(self).memory.peek(registers::TIMA) as int == tima as int + incr as int
                        &&& final(self).memory.peek(registers::IF) == iflag
                    }
                } else {
                    &&& final(self).memory.peek(registers::TIMA) == tima
                    &&& final(self).memory.peek(registers::IF) == iflag
                }
            }),
            forall|a: u16|
                0xFF00 <= a && a != registers::DIV && a != registers::TIMA && a != registers::IF
                    ==> #[trigger] final(self).memory.peek(a) == old(self).memory.peek(a),
    {
        self.timer.tick(&mut self.memory, ticks);
    }

    fn next_opcode(&mut self) -> (r: u8)
        requires
            old(self).wf(),
        ensures
            final(self).wf(),
            final(self).timer == old(self).timer,
            r == old(self).memory.peek(old(self).cpu.pc),
            final(self).cpu.pc as int == (old(self).cpu.pc as int + 1) % 0x10000,
            final(self).cpu.same_regs(&old(self).cpu),
            final(self).memory == old(self).memory,
            final(self).timer == old(self).timer,
    {
        let opcode = self.memory.read(self.cpu.pc);
        self.cpu.pc = self.cpu.pc.wrapping_add(1);
        opcode
    }

    pub fn press_btn(&mut self, btn: HWInput)
        ensures
            final(self).cpu == old(self).cpu,
            final(self).memory.input_bits() == spec_set_bit(
                old(self).memory.input_bits(),
                crate::memory::input_bit(btn),
                false,
            ),
    {
        self.memory.press(btn, true);
    }

    pub fn release_btn(&mut self, btn: HWInput)
        ensures
            final(self).cpu == old(self).cpu,
            final(self).memory.input_bits() == spec_set_bit(
                old(self).memory.input_bits(),
                crate::memory::input_bit(btn),
                true,
            ),
    {
        self.memory.press(btn, false);
    }

    pub fn boot_rom_disabled(&self) -> (r: bool)
        ensures
            r == self.memory.boot_disabled(),
    {
        self.memory.boot_rom_disabled()
    }

    fn stack_push(&mut self, value: u8)
        requires
            old(self).wf(),
        ensures
            final(self).wf(),
            final(self).timer == old(self).timer,
            final(self).cpu.sp as int == (old(self).cpu.sp as int + 0xFFFF) % 0x10000,
            final(self).cpu.pc == old(self).cpu.pc,
            old(self).memory.write_post(final(self).memory, final(self).cpu.sp, value),
            final(self).cpu.ra == old(self).cpu.ra && final(self).cpu.rf == old(self).cpu.rf,
            final(self).cpu.rb == old(self).cpu.rb && final(self).cpu.rc == old(self).cpu.rc,
            final(self).cpu.rd == old(self).cpu.rd && final(self).cpu.re == old(self).cpu.re,
            final(self).cpu.rh == old(self).cpu.rh && final(self).cpu.rl == old(self).cpu.rl,
            final(self).cpu.debug == old(self).cpu.debug,
            final(self).cpu.ime == old(self).cpu.ime && final(self).cpu.halt == old(self).cpu.halt,
            final(self).cpu.debug == old(self).cpu.debug,
    {
        self.cpu.sp = self.cpu.sp.wrapping_sub(1);
        self.memory.write(self.cpu.sp, value);
    }

    /// Pushes the high byte, then the low byte.
    fn stack_push_u16(&mut self, value: u16)
        requires
            old(self).wf(),
        ensures
            final(self).wf(),
            final(self).timer == old(self).timer,
            final(self).cpu.sp as int == (old(self).cpu.sp as int + 0xFFFE) % 0x10000,
            final(self).cpu.pc == old(self).cpu.pc,
            final(self).cpu.ra == old(self).cpu.ra && final(self).cpu.rf == old(self).cpu.rf,
            final(self).cpu.rb == old(self).cpu.rb && final(self).cpu.rc == old(self).cpu.rc,
            final(self).cpu.rd == old(self).cpu.rd && final(self).cpu.re == old(self).cpu.re,
            final(self).cpu.rh == old(self).cpu.rh && final(self).cpu.rl == old(self).cpu.rl,
            final(self).cpu.ime == old(self).cpu.ime && final(self).cpu.halt == old(self).cpu.halt,
            final(self).cpu.debug == old(self).cpu.debug,
            ({
                let sp1 = below(old(self).cpu.sp, 1);
                let sp2 = below(old(self).cpu.sp, 2);
                ram_addr(sp1) && ram_addr(sp2) ==> {
                    &&& final(self).memory.peek(sp1) as int == value as int / 256
                    &&& final(self).memory.peek(sp2) as int == value as int % 256
                    &&& forall|a: u16|
                        0xFF00 <= a && a != sp1 && a != sp2 ==> #[trigger] final(self).memory.peek(a)
                            == old(self).memory.peek(a)
                }
            }),
    {
        let (h, l) = split_u16(value);
        let ghost s0 = self.memory;
        self.stack_push(h);
        let ghost s1 = self.memory;
        self.stack_push(l);
        proof {
            let sp1 = below(old(self).cpu.sp, 1);
            let sp2 = below(old(self).cpu.sp, 2);
            if ram_addr(sp1) && ram_addr(sp2) {
                assert(s1.peek(sp1) == h);
                assert(!crate::memory::same_cell(sp1, sp2));
                assert(self.memory.peek(sp1) == s1.peek(sp1));
                assert forall|a: u16| 0xFF00 <= a && a != sp1 && a != sp2 implies #[trigger] self.memory.peek(a)
                    == s0.peek(a) by {
                    assert(!crate::memory::same_cell(a, sp1));
                    assert(!crate::memory::same_cell(a, sp2));
                    assert(s1.peek(a) == s0.peek(a));
                }
            }
        }
    }

    fn stack_pop(&mut self) -> (r: u8)
        requires
            old(self).wf(),
        ensures
            final(self).wf(),
            final(self).timer == old(self).timer,
            r == old(self).memory.peek(old(self).cpu.sp),
            final(self).cpu.sp as int == (old(self).cpu.sp as int + 1) % 0x10000,
            final(self).memory == old(self).memory,
            final(self).cpu.pc == old(self).cpu.pc,
            final(self).cpu.ra == old(self).cpu.ra && final(self).cpu.rf == old(self).cpu.rf,
            final(self).cpu.rb == old(self).cpu.rb && final(self).cpu.rc == old(self).cpu.rc,
            final(self).cpu.rd == old(self).cpu.rd && final(self).cpu.re == old(self).cpu.re,
            final(self).cpu.rh == old(self).cpu.rh && final(self).cpu.rl == old(self).cpu.rl,
            final(self).cpu.ime == old(self).cpu.ime && final(self).cpu.halt == old(self).cpu.halt,
            final(self).cpu.debug == old(self).cpu.debug,
    {
        let val = self.memory.read(self.cpu.sp);
        self.cpu.sp = self.cpu.sp.wrapping_add(1);
        val
    }

    /// Pops the low byte, then the high byte.
    fn stack_pop_u16(&mut self) -> (r: u16)
        requires
            old(self).wf(),
        ensures
            final(self).wf(),
            final(self).timer == old(self).timer,
            r == spec_join(
                old(self).memory.peek(((old(self).cpu.sp as int + 1) % 0x10000) as u16),
                old(self).memory.peek(old(self).cpu.sp),
            ),
            final(self).cpu.sp as int == (old(self).cpu.sp as int + 2) % 0x10000,
            final(self).memory == old(self).memory,
            final(self).cpu.pc == old(self).cpu.pc,
            final(self).cpu.ra == old(self).cpu.ra && final(self).cpu.rf == old(self).cpu.rf,
            final(self).cpu.rb == old(self).cpu.rb && final(self).cpu.rc == old(self).cpu.rc,
            final(self).cpu.rd == old(self).cpu.rd && final(self).cpu.re == old(self).cpu.re,
            final(self).cpu.rh == old(self).cpu.rh && final(self).cpu.rl == old(self).cpu.rl,
            final(self).cpu.ime == old(self).cpu.ime && final(self).cpu.halt == old(self).cpu.halt,
            final(self).cpu.debug == old(self).cpu.debug,
    {
        let l = self.stack_pop();
        let h = self.stack_pop();
        join_u8(h, l)
    }

    /// Reads 8-bit operand `idx`: B, C, D, E, H, L, (HL), A.
    fn read_r8(&self, idx: u8) -> (r: u8)
        requires
            self.wf(),
            idx < 8,
        ensures
            r == self.r8(idx),
    {
        if idx == 0 {
            self.cpu.rb
        } else if idx == 1 {
            self.cpu.rc
        } else if idx == 2 {
            self.cpu.rd
        } else if idx == 3 {
            self.cpu.re
        } else if idx == 4 {
            self.cpu.rh
        } else if idx == 5 {
            self.cpu.rl
        } else if idx == 6 {
            self.memory.read(self.cpu.hl())
        } else {
            self.cpu.ra
        }
    }

    /// Writes 8-bit operand `idx`.
    fn write_r8(&mut self, idx: u8, v: u8)
        requires
            old(self).wf(),
            idx < 8,
        ensures
            final(self).wf(),
            final(self).timer == old(self).timer,
            idx != 6 ==> final(self).memory == old(self).memory,
            idx != 6 ==> final(self).r8(idx) == v,
            idx == 6 ==> old(self).memory.write_post(
                final(self).memory,
                spec_join(old(self).cpu.rh, old(self).cpu.rl),
                v,
            ),
            idx == 6 ==> final(self).cpu == old(self).cpu,
            forall|i: u8| i < 8 && i != 6 && i != idx ==> #[trigger] final(self).r8(i) == old(self).r8(i),
            idx != 0 ==> final(self).cpu.rb == old(self).cpu.rb,
            idx != 1 ==> final(self).cpu.rc == old(self).cpu.rc,
            idx != 2 ==> final(self).cpu.rd == old(self).cpu.rd,
            idx != 3 ==> final(self).cpu.re == old(self).cpu.re,
            idx != 4 ==> final(self).cpu.rh == old(self).cpu.rh,
            idx != 5 ==> final(self).cpu.rl == old(self).cpu.rl,
            idx != 7 ==> final(self).cpu.ra == old(self).cpu.ra,
            final(self).cpu.debug == old(self).cpu.debug,
            final(self).cpu.pc == old(self).cpu.pc,
            final(self).cpu.sp == old(self).cpu.sp,
            final(self).cpu.rf == old(self).cpu.rf,
            final(self).cpu.ime == old(self).cpu.ime,
            final(self).cpu.halt == old(self).cpu.halt,
    {
        if idx == 0 {
            self.cpu.rb = v;
        } else if idx == 1 {
            self.cpu.rc = v;
        } else if idx == 2 {
            self.cpu.rd = v;
        } else if idx == 3 {
            self.cpu.re = v;
        } else if idx == 4 {
            self.cpu.rh = v;
        } else if idx == 5 {
            self.cpu.rl = v;
        } else if idx == 6 {
            let hl = self.cpu.hl();
            self.memory.write(hl, v);
        } else {
            self.cpu.ra = v;
        }
    }

    /// Program write through the bus.
    fn store(&mut self, addr: u16, v: u8)
        requires
            old(self).wf(),
        ensures
            final(self).wf(),
            final(self).timer == old(self).timer,
            final(self).cpu == old(self).cpu,
            old(self).memory.write_post(final(self).memory, addr, v),
    {
        self.memory.write(addr, v);
    }

    /// Whether the condition of conditional opcode `op` holds.
    fn cond(&self, op: u8) -> (r: bool)
        ensures
            r == cond_holds(op, self.cpu.rf),
    {
        let sel = (op / 8) % 4;
        if sel == 0 {
            self.cpu.get_flag(CFlag::Z) == 0
        } else if sel == 1 {
            self.cpu.get_flag(CFlag::Z) == 1
        } else if sel == 2 {
            self.cpu.get_flag(CFlag::CY) == 0
        } else {
            self.cpu.get_flag(CFlag::CY) == 1
        }
    }

    /// Reads a signed 8-bit immediate.
    fn next_offset(&mut self) -> (r: i8)
        requires
            old(self).wf(),
        ensures
            final(self).wf(),
            final(self).timer == old(self).timer,
            r as int == signed(old(self).imm8()),
            crate::cpu::low_byte(r) == old(self).imm8() as int,
            final(self).memory == old(self).memory,
            final(self).timer == old(self).timer,
            final(self).cpu.pc as int == (old(self).cpu.pc as int + 1) % 0x10000,
            final(self).cpu.same_regs(&old(self).cpu),
    {
        let b = self.next_opcode();
        if b < 128 {
            b as i8
        } else {
            (b as i16 - 256) as i8
        }
    }

    /// Reads a little-endian 16-bit immediate.
    fn next_u16(&mut self) -> (r: u16)
        requires
            old(self).wf(),
        ensures
            final(self).wf(),
            final(self).timer == old(self).timer,
            r == old(self).imm16(),
            final(self).cpu.pc as int == (old(self).cpu.pc as int + 2) % 0x10000,
            final(self).timer == old(self).timer,
            final(self).memory == old(self).memory,
            final(self).cpu.same_regs(&old(self).cpu),
    {
        let l = self.next_opcode();
        let h = self.next_opcode();
        join_u8(h, l)
    }

    /// ADD, ADC, SUB, SBC, AND, XOR, OR or CP of A with `v`, by `kind`.
    fn alu(&mut self, kind: u8, v: u8)
        requires
            old(self).wf(),
        ensures
            final(self).wf(),
            final(self).timer == old(self).timer,
            final(self).cpu.ra == alu_a(kind as int, old(self).cpu.ra, v, old(self).cpu.carry()),
            kind < 8 ==> final(self).cpu.rf == alu_f(kind as int, old(self).cpu.ra, v, old(self).cpu.carry()),
            final(self).cpu.rb == old(self).cpu.rb && final(self).cpu.rc == old(self).cpu.rc,
            final(self).cpu.rd == old(self).cpu.rd && final(self).cpu.re == old(self).cpu.re,
            final(self).cpu.rh == old(self).cpu.rh && final(self).cpu.rl == old(self).cpu.rl,
            final(self).memory == old(self).memory,
            final(self).cpu.pc == old(self).cpu.pc,
            final(self).cpu.sp == old(self).cpu.sp,
            final(self).cpu.ime == old(self).cpu.ime,
            final(self).cpu.halt == old(self).cpu.halt,
            final(self).cpu.debug == old(self).cpu.debug,
    {
        if kind == 0 {
            self.cpu.add_ra(v);
        } else if kind == 1 {
            self.cpu.adc_ra(v);
        } else if kind == 2 {
            self.cpu.ra = self.cpu.sub_ra(v);
        } else if kind == 3 {
            self.cpu.ra = self.cpu.sbc_ra(v);
        } else if kind == 4 {
            self.cpu.and_ra(v);
        } else if kind == 5 {
            self.cpu.xor_ra(v);
        } else if kind == 6 {
            self.cpu.or_ra(v);
        } else {
            self.cpu.cp_ra(v);
        }
    }

    /// ADD HL, `v`: Z kept, N cleared, H from bit 11, C from bit 15.
    fn add_hl(&mut self, v: u16)
        requires
            old(self).wf(),
        ensures
            final(self).wf(),
            final(self).timer == old(self).timer,
            spec_join(final(self).cpu.rh, final(self).cpu.rl) as int == (spec_join(
                old(self).cpu.rh,
                old(self).cpu.rl,
            ) as int + v as int) % 0x10000,
            final(self).cpu.zf() == old(self).cpu.zf(),
            final(self).cpu.ra == old(self).cpu.ra && final(self).cpu.rb == old(self).cpu.rb,
            final(self).cpu.rc == old(self).cpu.rc && final(self).cpu.rd == old(self).cpu.rd,
            final(self).cpu.re == old(self).cpu.re && final(self).cpu.debug == old(self).cpu.debug,
            !final(self).cpu.nf(),
            final(self).cpu.hf() == (spec_join(old(self).cpu.rh, old(self).cpu.rl) as int % 0x1000
                + v as int % 0x1000 >= 0x1000),
            final(self).cpu.cf() == (spec_join(old(self).cpu.rh, old(self).cpu.rl) as int + v as int
                >= 0x10000),
            final(self).memory == old(self).memory,
            final(self).cpu.pc == old(self).cpu.pc,
            final(self).cpu.sp == old(self).cpu.sp,
            final(self).cpu.ime == old(self).cpu.ime,
            final(self).cpu.halt == old(self).cpu.halt,
    {
        let (cy, h, res) = add_u16(self.cpu.hl(), v);
        self.cpu.set_hl(res);
        self.cpu.set_flag(CFlag::S, 0);
        self.cpu.set_flag(CFlag::CY, cy);
        self.cpu.set_flag(CFlag::H, h);
    }

    /// INC r, DEC r and LD r, d8 (opcodes 00–3F ending in 4, 5 or 6).
    fn exec_r8_low(&mut self, op: u8) -> (r: u8)
        requires
            old(self).wf(),
            op < 0x40,
            op % 8 == 4 || op % 8 == 5 || op % 8 == 6,
        ensures
            final(self).wf(),
            final(self).timer == old(self).timer,
            r == primary_cycles(op, cond_holds(op, old(self).cpu.rf)),
            Runtime::low_effects(*old(self), *final(self), op),
            Runtime::framed(*old(self), *final(self), op),
    {
        let lo = op % 8;
        let reg = op / 8;
        if lo == 4 {
            let v = self.read_r8(reg);
            let v = self.cpu.inc(v);
            self.write_r8(reg, v);
            if reg == 6 { 3 } else { 1 }
        } else if lo == 5 {
            let v = self.read_r8(reg);
            let v = self.cpu.dec(v);
            self.write_r8(reg, v);
            if reg == 6 { 3 } else { 1 }
        } else {
            let v = self.next_opcode();
            self.write_r8(reg, v);
            if reg == 6 { 3 } else { 2 }
        }
    }

    /// Opcodes 00–1F other than INC r, DEC r and LD r, d8.
    #[verifier::rlimit(100)]
    fn exec_low_0(&mut self, op: u8) -> (r: u8)
        requires
            old(self).wf(),
            op < 0x40,
            op < 0x20,
            op % 8 != 4 && op % 8 != 5 && op % 8 != 6,
        ensures
            final(self).wf(),
            final(self).timer == old(self).timer,
            r == primary_cycles(op, cond_holds(op, old(self).cpu.rf)),
            Runtime::low_effects(*old(self), *final(self), op),
            Runtime::framed(*old(self), *final(self), op),
    {
        match op {
            0x00 => 1,
            0x01 => {
                self.cpu.rc = self.next_opcode();
                self.cpu.rb = self.next_opcode();
                3
            },
            0x02 => {
                self.store(self.cpu.bc(), self.cpu.ra);
                2
            },
            0x03 => {
                self.cpu.set_bc(self.cpu.bc().wrapping_add(1));
                2
            },
            0x07 => {
                let a = self.cpu.ra;
                self.cpu.ra = self.cpu.rlc(a);
                proof {
                    crate::cpu::lemma_flags(self.cpu.ra == 0, false, false, a >= 128);
                }
                self.cpu.set_flag(CFlag::Z, 0);
                1
            },
            0x08 => {
                let (h, l) = split_u16(self.cpu.sp);
                let addr = self.next_u16();
                self.store(addr, l);
                self.store(addr.wrapping_add(1), h);
                5
            },
            0x09 => {
                self.add_hl(self.cpu.bc());
                2
            },
            0x0A => {
                self.cpu.ra = self.memory.read(self.cpu.bc());
                2
            },
            0x0B => {
                self.cpu.set_bc(self.cpu.bc().wrapping_sub(1));
                2
            },
            0x0F => {
                let a = self.cpu.ra;
                self.cpu.ra = self.cpu.rrc(a);
                proof {
                    crate::cpu::lemma_flags(self.cpu.ra == 0, false, false, a % 2 == 1);
                }
                self.cpu.set_flag(CFlag::Z, 0);
                1
            },
            // STOP is taken as NOP
            0x10 => 1,
            0x11 => {
                let v = self.next_u16();
                self.cpu.set_de(v);
                3
            },
            0x12 => {
                self.store(self.cpu.de(), self.cpu.ra);
                2
            },
            0x13 => {
                self.cpu.set_de(self.cpu.de().wrapping_add(1));
                2
            },
            0x17 => {
                let (cy, ra) = rl(self.cpu.get_flag(CFlag::CY), self.cpu.ra);
                self.cpu.ra = ra;
                self.cpu.set_flag(CFlag::CY, cy);
                self.cpu.set_flag(CFlag::S, 0);
                self.cpu.set_flag(CFlag::H, 0);
                self.cpu.set_flag(CFlag::Z, 0);
                1
            },
            0x18 => {
                let raddr = self.next_offset();
                self.cpu.jr(raddr);
                3
            },
            0x19 => {
                self.add_hl(self.cpu.de());
                2
            },
            0x1A => {
                self.cpu.ra = self.memory.read(self.cpu.de());
                2
            },
            0x1B => {
                self.cpu.set_de(self.cpu.de().wrapping_sub(1));
                2
            },
            // 1F: RRA
            _ => {
                let a = self.cpu.ra;
                self.cpu.ra = self.cpu.rr(a);
                proof {
                    crate::cpu::lemma_flags(self.cpu.ra == 0, false, false, a % 2 == 1);
                }
                self.cpu.set_flag(CFlag::Z, 0);
                1
            },
        }
    }

    /// Opcodes 20–3F other than INC r, DEC r and LD r, d8.
    #[verifier::rlimit(100)]
    fn exec_low_2(&mut self, op: u8) -> (r: u8)
        requires
            old(self).wf(),
            op < 0x40,
            op >= 0x20,
            op % 8 != 4 && op % 8 != 5 && op % 8 != 6,
        ensures
            final(self).wf(),
            final(self).timer == old(self).timer,
            r == primary_cycles(op, cond_holds(op, old(self).cpu.rf)),
            Runtime::low_effects(*old(self), *final(self), op),
            Runtime::framed(*old(self), *final(self), op),
    {
        match op {
            0x20 | 0x28 | 0x30 | 0x38 => {
                let raddr = self.next_offset();
                if self.cond(op) {
                    self.cpu.jr(raddr);
                    3
                } else {
                    2
                }
            },
            0x21 => {
                let v = self.next_u16();
                self.cpu.set_hl(v);
                3
            },
            0x22 => {
                let hl = self.cpu.hl();
                self.store(hl, self.cpu.ra);
                self.cpu.set_hl(hl.wrapping_add(1));
                2
            },
            0x23 => {
                self.cpu.set_hl(self.cpu.hl().wrapping_add(1));
                2
            },
            0x27 => {
                self.cpu.daa();
                1
            },
            0x29 => {
                self.add_hl(self.cpu.hl());
                2
            },
            0x2A => {
                let hl = self.cpu.hl();
                self.cpu.ra = self.memory.read(hl);
                self.cpu.set_hl(hl.wrapping_add(1));
                2
            },
            0x2B => {
                self.cpu.set_hl(self.cpu.hl().wrapping_sub(1));
                2
            },
            0x2F => {
                self.cpu.ra = !self.cpu.ra;
                self.cpu.set_flag(CFlag::S, 1);
                self.cpu.set_flag(CFlag::H, 1);
                1
            },
            0x31 => {
                self.cpu.sp = self.next_u16();
                3
            },
            0x32 => {
                let hl = self.cpu.hl();
                self.store(hl, self.cpu.ra);
                self.cpu.set_hl(hl.wrapping_sub(1));
                2
            },
            0x33 => {
                self.cpu.sp = self.cpu.sp.wrapping_add(1);
                2
            },
            0x37 => {
                self.cpu.set_flag(CFlag::CY, 1);
                self.cpu.set_flag(CFlag::H, 0);
                self.cpu.set_flag(CFlag::S, 0);
                1
            },
            0x39 => {
                self.add_hl(self.cpu.sp);
                2
            },
            0x3A => {
                let hl = self.cpu.hl();
                self.cpu.ra = self.memory.read(hl);
                self.cpu.set_hl(hl.wrapping_sub(1));
                2
            },
            0x3B => {
                self.cpu.sp = self.cpu.sp.wrapping_sub(1);
                2
            },
            _ => {
                let cy = self.cpu.get_flag(CFlag::CY);
                self.cpu.set_flag(CFlag::CY, if cy == 1 { 0 } else { 1 });
                self.cpu.set_flag(CFlag::S, 0);
                self.cpu.set_flag(CFlag::H, 0);
                1
            },
        }
    }

    /// Opcodes 00–3F.
    fn exec_low(&mut self, op: u8) -> (r: u8)
        requires
            old(self).wf(),
            op < 0x40,
        ensures
            final(self).wf(),
            final(self).timer == old(self).timer,
            r == primary_cycles(op, cond_holds(op, old(self).cpu.rf)),
            Runtime::low_effects(*old(self), *final(self), op),
            Runtime::framed(*old(self), *final(self), op),
    {
        let lo = op % 8;
        if lo == 4 || lo == 5 || lo == 6 {
            self.exec_r8_low(op)
        } else if op < 0x20 {
            self.exec_low_0(op)
        } else {
            self.exec_low_2(op)
        }
    }

    /// Opcodes 40–7F: register-to-register loads, and HALT.
    fn exec_ld(&mut self, op: u8) -> (r: u8)
        requires
            old(self).wf(),
            0x40 <= op < 0x80,
        ensures
            final(self).wf(),
            final(self).timer == old(self).timer,
            r == primary_cycles(op, cond_holds(op, old(self).cpu.rf)),
            final(self).cpu.pc == old(self).cpu.pc,
            op == 0x76 ==> final(self).cpu.halt,
            op != 0x76 && (op / 8) % 8 != 6 ==> final(self).r8((op / 8) % 8) == old(self).r8(op % 8),
            Runtime::ld_effects(*old(self), *final(self), op),
            Runtime::framed(*old(self), *final(self), op),
    {
        if op == 0x76 {
            self.cpu.halt = true;
            return 1;
        }
        let dst = (op / 8) % 8;
        let src = op % 8;
        let v = self.read_r8(src);
        self.write_r8(dst, v);
        if src == 6 || dst == 6 {
            2
        } else {
            1
        }
    }

    /// Opcodes 80–BF: arithmetic and logic on A.
    fn exec_alu(&mut self, op: u8) -> (r: u8)
        requires
            old(self).wf(),
            0x80 <= op < 0xC0,
        ensures
            final(self).wf(),
            final(self).timer == old(self).timer,
            r == primary_cycles(op, cond_holds(op, old(self).cpu.rf)),
            final(self).cpu.pc == old(self).cpu.pc,
            Runtime::alu_effects(*old(self), *final(self), op),
            Runtime::framed(*old(self), *final(self), op),
    {
        let src = op % 8;
        let v = self.read_r8(src);
        self.alu((op / 8) % 8, v);
        if src == 6 {
            2
        } else {
            1
        }
    }

    /// `t` keeps the registers that primary opcode `op` does not change, the HALT latch (but
    /// for HALT) and IME (but for DI, EI and RETI).
    pub open spec fn framed(s: Runtime, t: Runtime, op: u8) -> bool {
        let ch = changes(op);
        &&& !ch.0 ==> t.cpu.ra == s.cpu.ra
        &&& !ch.1 ==> t.cpu.rf == s.cpu.rf
        &&& !ch.2 ==> t.cpu.rb == s.cpu.rb && t.cpu.rc == s.cpu.rc
        &&& !ch.3 ==> t.cpu.rd == s.cpu.rd && t.cpu.re == s.cpu.re
        &&& !ch.4 ==> t.cpu.rh == s.cpu.rh && t.cpu.rl == s.cpu.rl
        &&& !ch.5 ==> t.cpu.sp == s.cpu.sp
        &&& op != 0x76 ==> t.cpu.halt == s.cpu.halt
        &&& op != 0xF3 && op != 0xFB && op != 0xD9 ==> t.cpu.ime == s.cpu.ime
        &&& t.cpu.debug == s.cpu.debug
    }

    /// The 8-bit immediate at PC.
    pub open spec fn imm8(&self) -> u8 {
        self.memory.peek(self.cpu.pc)
    }

    /// HL.
    pub open spec fn hl(&self) -> u16 {
        spec_join(self.cpu.rh, self.cpu.rl)
    }

    /// `t` is `s` after the CB opcode `cb` (its prefix and opcode already read).
    pub open spec fn cb_effects(s: Runtime, t: Runtime, cb: u8) -> bool {
        let reg = cb % 8;
        let n = (cb as int / 8) % 8;
        let v = s.r8(reg);
        &&& t.cpu.pc == s.cpu.pc
        &&& t.cpu.sp == s.cpu.sp
        &&& forall|i: u8| i < 8 && i != 6 && i != reg ==> #[trigger] t.r8(i) == s.r8(i)
        &&& reg != 6 ==> t.memory == s.memory
        &&& cb < 0x40 ==> {
            let (res, c) = cb_rot(n, v, s.cpu.carry());
            &&& t.cpu.rf == spec_flags(res == 0, false, false, c)
            &&& reg != 6 ==> t.r8(reg) == res
            &&& reg == 6 ==> s.memory.write_post(t.memory, s.hl(), res)
        }
        &&& 0x40 <= cb < 0x80 ==> {
            &&& t.cpu.rf == spec_flags(spec_bit(v as u16, n as u8) == 0, false, true, s.cpu.cf())
            &&& t.memory == s.memory
            &&& reg != 6 ==> t.r8(reg) == v
        }
        &&& 0x80 <= cb ==> {
            let res = spec_set_bit(v, n as u8, cb >= 0xC0);
            &&& t.cpu.rf == s.cpu.rf
            &&& reg != 6 ==> t.r8(reg) == res
            &&& reg == 6 ==> s.memory.write_post(t.memory, s.hl(), res)
        }
    }

    /// `t` is `s` after a load 40–7F (or HALT), fetched.
    pub open spec fn ld_effects(s: Runtime, t: Runtime, op: u8) -> bool {
        let dst = (op / 8) % 8;
        let src = op % 8;
        &&& t.cpu.pc == s.cpu.pc
        &&& t.cpu.sp == s.cpu.sp
        &&& t.cpu.rf == s.cpu.rf
        &&& t.cpu.ime == s.cpu.ime
        &&& op == 0x76 ==> t.cpu.halt && t.memory == s.memory
        &&& op != 0x76 && dst != 6 ==> t.r8(dst) == s.r8(src) && t.memory == s.memory
        &&& op != 0x76 && dst != 6 ==> forall|i: u8| i < 8 && i != 6 && i != dst ==> #[trigger] t.r8(i) == s.r8(i)
        &&& op != 0x76 && dst == 6 ==> s.memory.write_post(t.memory, s.hl(), s.r8(src))
            && t.cpu == s.cpu
    }

    /// `t` is `s` after an ALU opcode 80–BF, fetched.
    pub open spec fn alu_effects(s: Runtime, t: Runtime, op: u8) -> bool {
        let kind = (op as int / 8) % 8;
        let v = s.r8(op % 8);
        &&& t.cpu.ra == alu_a(kind, s.cpu.ra, v, s.cpu.carry())
        &&& t.cpu.rf == alu_f(kind, s.cpu.ra, v, s.cpu.carry())
        &&& t.cpu.pc == s.cpu.pc
        &&& t.cpu.sp == s.cpu.sp
        &&& t.memory == s.memory
        &&& forall|i: u8| i < 7 && i != 6 ==> #[trigger] t.r8(i) == s.r8(i)
    }

    /// Register pair `idx` of the 16-bit loads and arithmetic: BC, DE, HL, SP.
    pub open spec fn pair16(&self, idx: int) -> u16 {
        if idx == 0 {
            spec_join(self.cpu.rb, self.cpu.rc)
        } else if idx == 1 {
            spec_join(self.cpu.rd, self.cpu.re)
        } else if idx == 2 {
            spec_join(self.cpu.rh, self.cpu.rl)
        } else {
            self.cpu.sp
        }
    }

    /// The four flags of `t` are Z, N, H and C.
    pub open spec fn flags_are(t: Runtime, z: bool, n: bool, h: bool, c: bool) -> bool {
        t.cpu.zf() == z && t.cpu.nf() == n && t.cpu.hf() == h && t.cpu.cf() == c
    }

    /// `t` is `s` after an opcode 00–3F, fetched.
    pub open spec fn low_effects(s: Runtime, t: Runtime, op: u8) -> bool {
        let reg = op / 8;
        let pair = op as int / 16;
        let a = s.cpu.ra;
        &&& t.cpu.ime == s.cpu.ime
        &&& (op == 0x00 || op == 0x10) ==> t.cpu == s.cpu && t.memory == s.memory
        &&& op % 8 == 4 ==> {
            let v = s.r8(reg);
            let r = ((v as int + 1) % 256) as u8;
            &&& t.cpu.rf == spec_flags(r == 0, false, v % 16 == 15, s.cpu.cf())
            &&& reg != 6 ==> t.r8(reg) == r
            &&& reg == 6 ==> s.memory.write_post(t.memory, s.hl(), r)
            &&& t.cpu.pc == s.cpu.pc
        }
        &&& op % 8 == 5 ==> {
            let v = s.r8(reg);
            let r = ((v as int + 255) % 256) as u8;
            &&& t.cpu.rf == spec_flags(r == 0, true, v % 16 == 0, s.cpu.cf())
            &&& reg != 6 ==> t.r8(reg) == r
            &&& reg == 6 ==> s.memory.write_post(t.memory, s.hl(), r)
            &&& t.cpu.pc == s.cpu.pc
        }
        &&& op % 8 == 6 ==> {
            &&& reg != 6 ==> t.r8(reg) == s.imm8()
            &&& reg == 6 ==> s.memory.write_post(t.memory, s.hl(), s.imm8())
            &&& t.cpu.pc == pc_plus(s, 1)
            &&& t.cpu.rf == s.cpu.rf
        }
        &&& op % 16 == 1 ==> t.pair16(pair) == s.imm16() && t.cpu.pc == pc_plus(s, 2)
        &&& op % 16 == 3 ==> t.pair16(pair) as int == (s.pair16(pair) as int + 1) % 0x10000
        &&& op % 16 == 0xB ==> t.pair16(pair) as int == (s.pair16(pair) as int + 0xFFFF) % 0x10000
        &&& op % 16 == 9 ==> {
            let v = s.pair16(pair);
            &&& t.hl() as int == (s.hl() as int + v as int) % 0x10000
            &&& Runtime::flags_are(
                t,
                s.cpu.zf(),
                false,
                s.hl() as int % 0x1000 + v as int % 0x1000 >= 0x1000,
                s.hl() as int + v as int >= 0x10000,
            )
        }
        &&& op == 0x02 ==> s.memory.write_post(t.memory, s.pair16(0), a)
        &&& op == 0x12 ==> s.memory.write_post(t.memory, s.pair16(1), a)
        &&& op == 0x0A ==> t.cpu.ra == s.memory.peek(s.pair16(0))
        &&& op == 0x1A ==> t.cpu.ra == s.memory.peek(s.pair16(1))
        &&& op == 0x22 ==> s.memory.write_post(t.memory, s.hl(), a) && t.hl() as int == (
        s.hl() as int + 1) % 0x10000
        &&& op == 0x32 ==> s.memory.write_post(t.memory, s.hl(), a) && t.hl() as int == (
        s.hl() as int + 0xFFFF) % 0x10000
        &&& op == 0x2A ==> t.cpu.ra == s.memory.peek(s.hl()) && t.hl() as int == (s.hl() as int
            + 1) % 0x10000
        &&& op == 0x3A ==> t.cpu.ra == s.memory.peek(s.hl()) && t.hl() as int == (s.hl() as int
            + 0xFFFF) % 0x10000
        &&& op == 0x07 ==> t.cpu.ra == crate::cpu::rotl(a) && Runtime::flags_are(
            t,
            false,
            false,
            false,
            a >= 128,
        )
        &&& op == 0x0F ==> t.cpu.ra == crate::cpu::rotr(a) && Runtime::flags_are(
            t,
            false,
            false,
            false,
            a % 2 == 1,
        )
        &&& op == 0x17 ==> t.cpu.ra as int == (a as int * 2) % 256 + s.cpu.carry()
            && Runtime::flags_are(t, false, false, false, a >= 128)
        &&& op == 0x1F ==> t.cpu.ra as int == a as int / 2 + s.cpu.carry() * 128
            && Runtime::flags_are(t, false, false, false, a % 2 == 1)
        &&& op == 0x18 ==> t.cpu.pc as int == (s.cpu.pc as int + 1 + signed(s.imm8())) % 0x10000
        &&& (op == 0x20 || op == 0x28 || op == 0x30 || op == 0x38) ==> t.cpu.pc as int == if cond_holds(
            op,
            s.cpu.rf,
        ) {
            (s.cpu.pc as int + 1 + signed(s.imm8())) % 0x10000
        } else {
            pc_plus(s, 1) as int
        }
        &&& op == 0x27 ==> {
            let d = crate::cpu::spec_daa(a, s.cpu.nf(), s.cpu.hf(), s.cpu.cf());
            t.cpu.ra == d.0 && t.cpu.rf == spec_flags(d.0 == 0, s.cpu.nf(), false, d.1)
        }
        &&& op == 0x2F ==> t.cpu.ra == !a && Runtime::flags_are(
            t,
            s.cpu.zf(),
            true,
            true,
            s.cpu.cf(),
        )
        &&& op == 0x37 ==> Runtime::flags_are(t, s.cpu.zf(), false, false, true)
        &&& op == 0x3F ==> Runtime::flags_are(t, s.cpu.zf(), false, false, !s.cpu.cf())
    }

    /// `t` is `s` after an opcode C0–FF (not CB, not illegal), fetched.
    pub open spec fn high_effects(s: Runtime, t: Runtime, op: u8) -> bool {
        let cond = cond_holds(op, s.cpu.rf);
        let kind = (op as int / 8) % 8;
        let a = s.cpu.ra;
        &&& op % 16 == 5 ==> Runtime::pushed(s, t, s.pair((op as int / 16) % 4))
        &&& op % 16 == 1 ==> Runtime::popped(s, t, (op as int / 16) % 4)
        &&& op % 8 == 7 ==> Runtime::pushed(s, t, s.cpu.pc) && t.cpu.pc == op - 0xC7
        &&& op % 8 == 6 ==> t.cpu.ra == alu_a(kind, a, s.imm8(), s.cpu.carry()) && t.cpu.rf
            == alu_f(kind, a, s.imm8(), s.cpu.carry()) && t.cpu.pc == pc_plus(s, 1)
        &&& (op == 0xC2 || op == 0xCA || op == 0xD2 || op == 0xDA) ==> t.cpu.pc == if cond {
            s.imm16()
        } else {
            pc_plus(s, 2)
        }
        &&& op == 0xC3 ==> t.cpu.pc == s.imm16()
        &&& (op == 0xC4 || op == 0xCC || op == 0xD4 || op == 0xDC) ==> if cond {
            t.cpu.pc == s.imm16() && Runtime::pushed(s, t, pc_plus(s, 2))
        } else {
            t.cpu.pc == pc_plus(s, 2) && t.cpu.sp == s.cpu.sp && t.memory == s.memory
        }
        &&& op == 0xCD ==> t.cpu.pc == s.imm16() && Runtime::pushed(s, t, pc_plus(s, 2))
        &&& (op == 0xC0 || op == 0xC8 || op == 0xD0 || op == 0xD8) ==> if cond {
            t.cpu.pc == s.top_word() && t.cpu.sp as int == (s.cpu.sp as int + 2) % 0x10000
        } else {
            t.cpu.pc == s.cpu.pc && t.cpu.sp == s.cpu.sp
        }
        &&& (op == 0xC9 || op == 0xD9) ==> t.cpu.pc == s.top_word() && t.cpu.sp as int == (
        s.cpu.sp as int + 2) % 0x10000
        &&& op == 0xD9 ==> t.cpu.ime
        &&& op == 0xE0 ==> s.memory.write_post(t.memory, (0xFF00 + s.imm8() as int) as u16, a)
            && t.cpu.pc == pc_plus(s, 1)
        &&& op == 0xF0 ==> t.cpu.ra == s.memory.peek((0xFF00 + s.imm8() as int) as u16)
            && t.cpu.pc == pc_plus(s, 1)
        &&& op == 0xE2 ==> s.memory.write_post(t.memory, (0xFF00 + s.cpu.rc as int) as u16, a)
        &&& op == 0xF2 ==> t.cpu.ra == s.memory.peek((0xFF00 + s.cpu.rc as int) as u16)
        &&& op == 0xEA ==> s.memory.write_post(t.memory, s.imm16(), a) && t.cpu.pc == pc_plus(s, 2)
        &&& op == 0xFA ==> t.cpu.ra == s.memory.peek(s.imm16()) && t.cpu.pc == pc_plus(s, 2)
        &&& op == 0xE8 ==> t.cpu.sp as int == (s.cpu.sp as int + signed(s.imm8())) % 0x10000
            && Runtime::flags_are(
            t,
            false,
            false,
            s.cpu.sp as int % 16 + s.imm8() as int % 16 >= 16,
            s.cpu.sp as int % 256 + s.imm8() as int >= 256,
        )
        &&& op == 0xF8 ==> t.hl() as int == (s.cpu.sp as int + signed(s.imm8())) % 0x10000
            && t.cpu.sp == s.cpu.sp && Runtime::flags_are(
            t,
            false,
            false,
            s.cpu.sp as int % 16 + s.imm8() as int % 16 >= 16,
            s.cpu.sp as int % 256 + s.imm8() as int >= 256,
        )
        &&& op == 0xF9 ==> t.cpu.sp == s.hl()
        &&& op == 0xE9 ==> t.cpu.pc == s.hl()
        &&& op == 0xF3 ==> !t.cpu.ime
        &&& op == 0xFB ==> t.cpu.ime
    }

    /// The value of register pair `idx` of PUSH and POP: BC, DE, HL, AF.
    pub open spec fn pair(&self, idx: int) -> u16 {
        if idx == 0 {
            spec_join(self.cpu.rb, self.cpu.rc)
        } else if idx == 1 {
            spec_join(self.cpu.rd, self.cpu.re)
        } else if idx == 2 {
            spec_join(self.cpu.rh, self.cpu.rl)
        } else {
            spec_join(self.cpu.ra, self.cpu.rf)
        }
    }

    /// The 16-bit immediate at PC, low byte first.
    pub open spec fn imm16(&self) -> u16 {
        spec_join(
            self.memory.peek(((self.cpu.pc as int + 1) % 0x10000) as u16),
            self.memory.peek(self.cpu.pc),
        )
    }

    /// The word at the top of the stack.
    pub open spec fn top_word(&self) -> u16 {
        spec_join(
            self.memory.peek(((self.cpu.sp as int + 1) % 0x10000) as u16),
            self.memory.peek(self.cpu.sp),
        )
    }

    /// `t` is `s` after pushing `value`: SP lowered by two, the bytes on the stack when it lies
    /// in RAM.
    pub open spec fn pushed(s: Runtime, t: Runtime, value: u16) -> bool {
        let sp1 = below(s.cpu.sp, 1);
        let sp2 = below(s.cpu.sp, 2);
        &&& t.cpu.sp == sp2
        &&& ram_addr(sp1) && ram_addr(sp2) ==> {
            &&& t.memory.peek(sp1) as int == value as int / 256
            &&& t.memory.peek(sp2) as int == value as int % 256
        }
    }

    /// `t` is `s` after popping into pair `idx`.
    pub open spec fn popped(s: Runtime, t: Runtime, idx: int) -> bool {
        &&& t.cpu.sp as int == (s.cpu.sp as int + 2) % 0x10000
        &&& idx < 3 ==> t.pair(idx) == s.top_word()
        &&& idx == 3 ==> t.cpu.ra as int == s.top_word() as int / 256 && t.cpu.rf == ((
        s.top_word() % 256) as u8) & 0xF0
    }

    /// Opcodes C0–FF but CB and the illegal ones.
    fn exec_high(&mut self, op: u8) -> (r: u8)
        requires
            old(self).wf(),
            0xC0 <= op,
            op != 0xCB,
            !illegal_opcode(op),
        ensures
            final(self).wf(),
            final(self).timer == old(self).timer,
            r == primary_cycles(op, cond_holds(op, old(self).cpu.rf)),
            Runtime::high_effects(*old(self), *final(self), op),
            Runtime::framed(*old(self), *final(self), op),
    {
        let lo = op % 8;
        if lo == 7 {
            // RST
            self.stack_push_u16(self.cpu.pc);
            self.cpu.pc = (op - 0xC7) as u16;
            return 4;
        }
        if op % 16 == 5 {
            let idx = (op / 16) % 4;
            let v = if idx == 0 {
                self.cpu.bc()
            } else if idx == 1 {
                self.cpu.de()
            } else if idx == 2 {
                self.cpu.hl()
            } else {
                self.cpu.af()
            };
            self.stack_push_u16(v);
            return 4;
        }
        if op % 16 == 1 {
            let idx = (op / 16) % 4;
            let v = self.stack_pop_u16();
            if idx == 0 {
                self.cpu.set_bc(v);
            } else if idx == 1 {
                self.cpu.set_de(v);
            } else if idx == 2 {
                self.cpu.set_hl(v);
            } else {
                self.cpu.set_af(v);
            }
            return 3;
        }
        if lo == 6 {
            let v = self.next_opcode();
            self.alu((op / 8) % 8, v);
            return 2;
        }
        match op {
            0xC0 | 0xC8 | 0xD0 | 0xD8 => {
                if self.cond(op) {
                    self.cpu.pc = self.stack_pop_u16();
                    5
                } else {
                    2
                }
            },
            0xC2 | 0xCA | 0xD2 | 0xDA => {
                let addr = self.next_u16();
                if self.cond(op) {
                    self.cpu.pc = addr;
                    4
                } else {
                    3
                }
            },
            0xC4 | 0xCC | 0xD4 | 0xDC => {
                let addr = self.next_u16();
                if self.cond(op) {
                    self.stack_push_u16(self.cpu.pc);
                    self.cpu.pc = addr;
                    6
                } else {
                    3
                }
            },
            0xC3 => {
                self.cpu.pc = self.next_u16();
                4
            },
            0xC9 => {
                self.cpu.pc = self.stack_pop_u16();
                4
            },
            0xCD => {
                let addr = self.next_u16();
                self.stack_push_u16(self.cpu.pc);
                self.cpu.pc = addr;
                6
            },
            0xD9 => {
                self.cpu.pc = self.stack_pop_u16();
                self.cpu.ime = true;
                4
            },
            0xE0 => {
                let addr = 0xFF00 + self.next_opcode() as u16;
                self.store(addr, self.cpu.ra);
                3
            },
            0xE2 => {
                let addr = 0xFF00 + self.cpu.rc as u16;
                self.store(addr, self.cpu.ra);
                2
            },
            0xE8 => {
                let e = self.next_offset();
                let sp = self.cpu.sp;
                self.cpu.sp = self.cpu.add_u16_i8(sp, e);
                proof {
                    crate::cpu::lemma_flags(
                        self.cpu.sp == 0,
                        false,
                        (sp as int % 16) + (crate::cpu::low_byte(e) % 16) >= 16,
                        (sp as int % 256) + crate::cpu::low_byte(e) >= 256,
                    );
                }
                self.cpu.set_flag(CFlag::Z, 0);
                4
            },
            0xE9 => {
                self.cpu.pc = self.cpu.hl();
                1
            },
            0xEA => {
                let addr = self.next_u16();
                self.store(addr, self.cpu.ra);
                4
            },
            0xF0 => {
                let addr = 0xFF00 + self.next_opcode() as u16;
                self.cpu.ra = self.memory.read(addr);
                3
            },
            0xF2 => {
                let addr = 0xFF00 + self.cpu.rc as u16;
                self.cpu.ra = self.memory.read(addr);
                2
            },
            0xF3 => {
                self.cpu.ime = false;
                1
            },
            0xF8 => {
                let e = self.next_offset();
                let sp = self.cpu.sp;
                let res = self.cpu.add_u16_i8(sp, e);
                proof {
                    crate::cpu::lemma_flags(
                        res == 0,
                        false,
                        (sp as int % 16) + (crate::cpu::low_byte(e) % 16) >= 16,
                        (sp as int % 256) + crate::cpu::low_byte(e) >= 256,
                    );
                }
                self.cpu.set_hl(res);
                self.cpu.set_flag(CFlag::Z, 0);
                3
            },
            0xF9 => {
                self.cpu.sp = self.cpu.hl();
                2
            },
            0xFA => {
                let addr = self.next_u16();
                self.cpu.ra = self.memory.read(addr);
                4
            },
            // EI takes effect at once in this core
            _ => {
                self.cpu.ime = true;
                1
            },
        }
    }

    /// Executes CB-prefixed opcode `opcode`: rotates and shifts, BIT, RES and SET.
    pub fn eval_cb(&mut self, opcode: u8) -> (r: u8)
        requires
            old(self).wf(),
        ensures
            final(self).wf(),
            final(self).timer == old(self).timer,
            r == cb_cycles(opcode),
            0x40 <= opcode < 0x80 ==> final(self).cpu.cf() == old(self).cpu.cf() && final(self).cpu.hf(),
            Runtime::cb_effects(*old(self), *final(self), opcode),
            final(self).cpu.halt == old(self).cpu.halt && final(self).cpu.ime == old(self).cpu.ime
                && final(self).cpu.debug == old(self).cpu.debug,
    {
        let reg = opcode % 8;
        let n = (opcode / 8) % 8;
        let v = self.read_r8(reg);
        if opcode < 0x40 {
            let res = if n == 0 {
                self.cpu.rlc(v)
            } else if n == 1 {
                self.cpu.rrc(v)
            } else if n == 2 {
                self.cpu.rl(v)
            } else if n == 3 {
                self.cpu.rr(v)
            } else if n == 4 {
                self.cpu.sla(v)
            } else if n == 5 {
                self.cpu.sra(v)
            } else if n == 6 {
                self.cpu.swap(v)
            } else {
                self.cpu.srl(v)
            };
            self.write_r8(reg, res);
        } else if opcode < 0x80 {
            self.cpu.bit(v, n);
            return if reg == 6 { 3 } else { 2 };
        } else {
            let mut res = v;
            if opcode < 0xC0 {
                crate::byteop::res(&mut res, n);
            } else {
                crate::byteop::set(&mut res, n);
            }
            self.write_r8(reg, res);
        }
        if reg == 6 {
            4
        } else {
            2
        }
    }

    /// Executes `opcode`, already fetched: the cycles it took, or a fault for the bytes that
    /// are no instruction.
    pub fn execute(&mut self, opcode: u8) -> (r: Result<u8, CpuFault>)
        requires
            old(self).wf(),
        ensures
            final(self).wf(),
            final(self).timer == old(self).timer,
            Runtime::executed(*old(self), *final(self), opcode, r),
    {
        if opcode < 0x40 {
            Ok(self.exec_low(opcode))
        } else if opcode < 0x80 {
            Ok(self.exec_ld(opcode))
        } else if opcode < 0xC0 {
            Ok(self.exec_alu(opcode))
        } else if opcode == 0xCB {
            let next = self.next_opcode();
            Ok(self.eval_cb(next))
        } else if opcode == 0xD3 || opcode == 0xDB || opcode == 0xDD || opcode == 0xE3
            || opcode == 0xE4 || opcode == 0xEB || opcode == 0xEC || opcode == 0xED
            || opcode == 0xF4 || opcode == 0xFC || opcode == 0xFD {
            Err(CpuFault::UnknownOpcode { opcode, pc: self.cpu.pc.wrapping_sub(1) })
        } else {
            Ok(self.exec_high(opcode))
        }
    }

    /// Interrupt dispatch: leaves HALT when an interrupt is pending and, with IME set, serves
    /// the highest-priority one. Returns whether the CPU stays idle in HALT.
    fn service_interrupts(&mut self) -> (idle: bool)
        requires
            old(self).wf(),
        ensures
            final(self).wf(),
            final(self).timer == old(self).timer,
            idle == (old(self).cpu.halt && pending_of(
                old(self).memory.peek(IE),
                old(self).memory.peek(IF),
            ) == 0),
            idle ==> final(self).cpu == old(self).cpu && final(self).memory == old(self).memory,
            !idle ==> Runtime::dispatched(*old(self), *final(self)),
            final(self).cpu.rf == old(self).cpu.rf,
    {
        proof {
            let ie = self.memory.peek(IE);
            let ifl = self.memory.peek(IF);
            assert((ie & ifl & 0x1F) != 0 ==> (((((ie & ifl & 0x1F) as u16) >> 0u8) & 1) == 1
                || ((((ie & ifl & 0x1F) as u16) >> 1u8) & 1) == 1 || ((((ie & ifl & 0x1F) as u16)
                >> 2u8) & 1) == 1 || ((((ie & ifl & 0x1F) as u16) >> 3u8) & 1) == 1 || ((((ie
                & ifl & 0x1F) as u16) >> 4u8) & 1) == 1)) by (bit_vector);
        }
        let interrupts = self.memory.read(IE) & self.memory.read(IF) & 0x1F;
        if self.cpu.halt {
            if interrupts == 0 {
                return true;
            } else {
                self.cpu.halt = false;
            }
        }
        if self.cpu.ime && interrupts != 0 {
            self.cpu.ime = false;
            let ghost s0 = *self;
            self.stack_push_u16(self.cpu.pc);
            let ghost s1 = *self;
            let interrupt_flag = self.memory.read(IF);
            // priority goes from bit 0 up
            let k: u8 = if get_bit(interrupts as u16, 0) == 1 {
                0
            } else if get_bit(interrupts as u16, 1) == 1 {
                1
            } else if get_bit(interrupts as u16, 2) == 1 {
                2
            } else if get_bit(interrupts as u16, 3) == 1 {
                3
            } else {
                4
            };
            self.cpu.pc = 0x40 + 8 * k as u16;
            self.memory.write(IF, set_bit(interrupt_flag, k, false));
            proof {
                let sp1 = below(s0.cpu.sp, 1);
                let sp2 = below(s0.cpu.sp, 2);
                if ram_addr(sp1) && ram_addr(sp2) && sp1 != IF && sp2 != IF {
                    assert(s1.memory.peek(IF) == s0.memory.peek(IF));
                    assert(!crate::memory::same_cell(sp1, IF));
                    assert(!crate::memory::same_cell(sp2, IF));
                    assert(plain_io(IF));
                }
            }
        }
        false
    }

    /// Runs one instruction, after interrupt dispatch: the machine cycles it took (1 while
    /// idle in HALT), or a fault for a byte that is no instruction.
    /// Runs one instruction and lets the other units follow it: the timer counts 4·c dots for
    /// the instruction's c cycles, then the PPU advances by those dots, then the APU updates.
    /// Returns the cycles and the voices the APU started (bits 0–3), or the CPU's fault (the
    /// other units then do not move).
    pub fn step(&mut self, ppu: &mut PPU, apu: &mut APU, display: &mut Display) -> (r: Result<
        (u8, u8),
        CpuFault,
    >)
        requires
            old(self).wf(),
            old(ppu).settled(),
            old(apu).wf(),
            old(display).wf(),
        ensures
            final(self).wf(),
            final(ppu).settled(),
            final(apu).wf(),
            final(display).wf(),
            final(display).w() == old(display).w(),
            final(display).h() == old(display).h(),
            ({
                let idle = old(self).cpu.halt && pending_of(
                    old(self).memory.peek(IE),
                    old(self).memory.peek(IF),
                ) == 0;
                &&& idle ==> (r matches Ok((c, _)) && c == 1) && final(self).cpu == old(self).cpu
                &&& !idle ==> exists|mid: Runtime, t: Runtime|
                    Runtime::dispatched(*old(self), mid) && #[trigger] Runtime::executed(
                        mid.fetched(),
                        t,
                        mid.memory.peek(mid.cpu.pc),
                        cycles_of(r),
                    ) && final(self).cpu == t.cpu
            }),
            r is Err ==> *final(ppu) == *old(ppu) && final(self).timer == old(self).timer,
            r matches Ok((c, _)) ==> 1 <= c <= 6 && final(ppu).frame_pos() == (old(ppu).frame_pos()
                + 4 * c) % 70224 && final(self).timer.ticks() as int == (old(self).timer.ticks() as int
                + 4 * c) % 65536,
    {
        let ghost s0 = *self;
        let res = self.tick();
        let ghost t = *self;
        proof {
            let idle = s0.cpu.halt && pending_of(s0.memory.peek(IE), s0.memory.peek(IF)) == 0;
            if !idle {
                let mid = choose|mid: Runtime|
                    Runtime::dispatched(s0, mid) && #[trigger] Runtime::executed(
                        mid.fetched(),
                        t,
                        mid.memory.peek(mid.cpu.pc),
                        res,
                    );
                assert(Runtime::dispatched(s0, mid));
            }
        }
        let cycles = match res {
            Ok(c) => c,
            Err(fault) => {
                return Err(fault);
            },
        };
        self.tick_timer(cycles * 4);
        ppu.update(&mut self.memory, cycles * 4, display);
        let started = apu.update(cycles * 4, self);
        Ok((cycles, started))
    }

    pub fn tick(&mut self) -> (r: Result<u8, CpuFault>)
        requires
            old(self).wf(),
        ensures
            final(self).wf(),
            final(self).timer == old(self).timer,
            low_nibble_clear(final(self).cpu.rf),
            r matches Ok(c) ==> 1 <= c <= 6,
            ({
                let idle = old(self).cpu.halt && pending_of(
                    old(self).memory.peek(IE),
                    old(self).memory.peek(IF),
                ) == 0;
                &&& idle ==> r == Ok::<u8, CpuFault>(1) && final(self).cpu == old(self).cpu
                    && final(self).memory == old(self).memory
                &&& !idle ==> exists|mid: Runtime|
                    Runtime::dispatched(*old(self), mid) && #[trigger] Runtime::executed(
                        mid.fetched(),
                        *final(self),
                        mid.memory.peek(mid.cpu.pc),
                        r,
                    )
            }),
    {
        if self.service_interrupts() {
            return Ok(1);
        }
        let ghost mid = *self;
        let opcode = self.next_opcode();
        proof {
            lemma_cycles_range(opcode);
            assert(self.cpu == mid.fetched().cpu);
            assert(*self == mid.fetched());
        }
        let r = self.execute(opcode);
        r
    }
}

} // verus!
