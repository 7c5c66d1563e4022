use vstd::prelude::*;

use crate::byteop::{get_bit, spec_bit};
use crate::memory::Memory;
use crate::registers;

verus! {

/// Bit of the dot counter whose carries drive a counter at the given TAC speed (3 drives DIV).
pub open spec fn speed_shift(speed: u8) -> u16 {
    if speed == 0 {
        10
    } else if speed == 1 {
        4
    } else if speed == 2 {
        6
    } else {
        8
    }
}

/// How many times bit `shifts` of a counter at `curr` carries while it advances by `elapsed`.
pub open spec fn spec_increment(curr: u16, elapsed: u8, shifts: u16) -> u8 {
    ((((curr & (((1u16 << shifts) - 1u16) as u16)) as int + elapsed as int) as u16) >> shifts) as u8
}

/// TIMA after an increment of `incr` that overflows: reloaded from TMA, plus the excess.
pub open spec fn reload(tima: u8, tma: u8, incr: u8) -> u8 {
    (tma as int + (((incr as int + tima as int - 256) as u8) & ((0xFF - tma) as u8)) as int) as u8
}

proof fn lemma_mask(x: u16, s: u16)
    requires
        s <= 10,
    ensures
        (1u16 << s) >= 1,
        (x & (((1u16 << s) - 1u16) as u16)) < 1024,
{
    assert(s <= 10 ==> (1u16 << s) >= 1 && (x & (((1u16 << s) - 1u16) as u16)) < 1024) by (bit_vector);
}

fn timer_increment(curr_cycles: u16, elapsed: u8, speed: u8) -> (r: u8)
    requires
        speed <= 3,
    ensures
        r == spec_increment(curr_cycles, elapsed, speed_shift(speed)),
{
    let shifts: u16 = if speed == 0 {
        10
    } else if speed == 1 {
        4
    } else if speed == 2 {
        6
    } else {
        8
    };
    proof {
        lemma_mask(curr_cycles, shifts);
    }
    let mask: u16 = (1u16 << shifts) - 1;
    let curr = curr_cycles & mask;
    ((curr + elapsed as u16) >> shifts) as u8
}

/// The divider and the programmable timer.
pub struct Timer {
    internal_ticks: u16,
    /// Frame-sequencer ticks (falling edges of DIV bit 4) in the last `tick`.
    pub delta_div: u8,
}

impl Timer {
    /// The dot counter.
    pub closed spec fn ticks(&self) -> u16 {
        self.internal_ticks
    }

    /// The `delta_div` field.
    pub closed spec fn sequencer_ticks(&self) -> u8 {
        self.delta_div
    }

    /// Frame-sequencer ticks counted by the last `tick`.
    pub fn frame_ticks(&self) -> (r: u8)
        ensures
            r == self.sequencer_ticks(),
    {
        self.delta_div
    }

    pub fn new() -> (r: Timer)
        ensures
            r.ticks() == 0,
            r.sequencer_ticks() == 0,
    {
        Timer { internal_ticks: 0, delta_div: 0 }
    }

    /// Advances the counters by `ticks` dots: DIV every 256 dots, TIMA at the TAC speed when
    /// TAC bit 2 is set, raising the timer interrupt when TIMA overflows.
    pub fn tick<M: Memory>(&mut self, mem: &mut M, ticks: u8)
        requires
            old(mem).mem_wf(),
        ensures
            final(mem).mem_wf(),
            final(self).ticks() as int == (old(self).ticks() as int + ticks as int) % 65536,
            ({
                let div = old(mem).peek(registers::DIV);
                let div_incr = spec_increment(old(self).ticks(), ticks, 8);
                &&& final(self).sequencer_ticks() == (((div & 0x1F) + div_incr) as u8) >> 5u8
                &&& final(mem).peek(registers::DIV) as int == (div as int + div_incr as int) % 256
            }),
            ({
                let tima = old(mem).peek(registers::TIMA);
                let tma = old(mem).peek(registers::TMA);
                let tac = old(mem).peek(registers::TAC);
                let iflag = old(mem).peek(registers::IF);
                let incr = spec_increment(old(self).ticks(), ticks, speed_shift(tac & 3));
                &&& final(mem).peek(registers::TMA) == tma
                &&& final(mem).peek(registers::TAC) == tac
                &&& if spec_bit(tac as u16, 2) == 1 {
                    if tima as int + incr as int > 0xFF {
                        &&& final(mem).peek(registers::TIMA) == reload(tima, tma, incr)
                        &&& final(mem).peek(registers::IF) == iflag | 0b100
                    } else {
                        &&& final(mem).peek(registers::TIMA) as int == tima as int + incr as int
                        &&& final(mem).peek(registers::IF) == iflag
                    }
                } else {
                    &&& final(mem).peek(registers::TIMA) == tima
                    &&& final(mem).peek(registers::IF) == iflag
                }
            }),
            forall|a: u16|
                0xFF00 <= a && a != registers::DIV && a != registers::TIMA && a != registers::IF
                    ==> #[trigger] final(mem).peek(a) == old(mem).peek(a),
    {
        let internal_ticks = self.internal_ticks;
        self.internal_ticks = self.internal_ticks.wrapping_add(ticks as u16);

        let div = mem.get(registers::DIV);
        let timer_incr = timer_increment(internal_ticks, ticks, 3);
        proof {
            lemma_mask(internal_ticks, 8);
            assert(((((internal_ticks & (((1u16 << 8u16) - 1u16) as u16)) as int + ticks as int) as u16) >> 8u16) <= 1) by (bit_vector);
            assert((div & 0x1F) <= 0x1F) by (bit_vector);
        }

        // the APU's frame sequencer ticks each time bit 4 of DIV goes from 1 to 0
        self.delta_div = ((div & 0x1F) + timer_incr) >> 5;

        let div = div.wrapping_add(timer_incr);
        mem.hwset(registers::DIV, div);

        let tima = mem.get(registers::TIMA);
        let tma = mem.get(registers::TMA);
        let tac = mem.get(registers::TAC);

        proof {
            assert(tac & 3 <= 3) by (bit_vector);
        }
        let timer_speed = tac & 0b11;

        if get_bit(tac as u16, 2) == 0x1 {
            let incr = timer_increment(internal_ticks, ticks, timer_speed);
            let interrupt = (tima as u16 + incr as u16) > 0xFF;

            let tima = if interrupt {
                let int_flag = mem.get(registers::IF) | 0b100;
                mem.set(registers::IF, int_flag);
                proof {
                    let x = ((incr as int + tima as int - 256) as u8);
                    assert(x & ((0xFF - tma) as u8) <= 0xFF - tma) by (bit_vector);
                }
                tma + (((incr as u16 + tima as u16 - 256) as u8) & (0xFF - tma))
            } else {
                tima + incr
            };

            mem.set(registers::TIMA, tima);
        }
    }
}

} // verus!
