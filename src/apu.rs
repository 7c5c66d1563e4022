use vstd::prelude::*;

use crate::byteop::{get_bit, set_bit, spec_bit, spec_set_bit};
use crate::memory::Memory;
use crate::runtime::Runtime;
use crate::registers::{
    NR10, NR11, NR12, NR13, NR14, NR21, NR22, NR23, NR24, NR30, NR31, NR32, NR33, NR34, NR41, NR42,
    NR43, NR44, NR50, NR51, NR52,
};

verus! {

/// Bound on the frame-sequencer countdowns.
pub const TIMER_BOUND: i16 = 1000;

/// A countdown of frame-sequencer ticks within its bounds.
pub open spec fn timer_ok(t: i16) -> bool {
    -TIMER_BOUND <= t <= TIMER_BOUND
}

/// How many times a countdown standing at `t` fires when each firing adds `step` to it, until
/// it is above zero.
pub open spec fn fires(t: int, step: int) -> nat
    decreases (if t > 0 || step <= 0 { 0 } else { 1 - t }),
{
    if t > 0 || step <= 0 {
        0
    } else {
        1 + fires(t + step, step)
    }
}

/// The countdown after its firings: `t` plus one `step` per firing.
pub open spec fn after_fires(t: int, step: int) -> int {
    t + step * fires(t, step)
}

proof fn lemma_fires_step(t: int, step: int)
    requires
        t <= 0,
        step > 0,
    ensures
        fires(t, step) == 1 + fires(t + step, step),
        after_fires(t, step) == after_fires(t + step, step),
{
    let f = fires(t + step, step) as int;
    assert(step * (1 + f) == step + step * f) by (nonlinear_arith);
}

/// Counts `delta` sequencer ticks off a length timer that fires every 2 ticks; each firing
/// lengthens the sound by one until `limit`, where the channel turns off. With `f` firings the
/// length becomes `min(length + f, limit)` and the channel stays on while `length + f <= limit`.
fn length_step(timer: i16, length: u16, limit: u16, on: bool, delta: u8) -> (r: (i16, u16, bool))
    requires
        timer_ok(timer),
        length <= limit,
    ensures
        timer_ok(r.0),
        r.0 as int == after_fires(timer - delta, 2),
        r.1 as int == vstd::math::min(length + fires(timer - delta, 2), limit as int),
        r.2 == (on && length + fires(timer - delta, 2) <= limit),
{
    let mut t: i16 = timer - delta as i16;
    let ghost t0: int = t as int;
    let ghost k: int = 0;
    let mut len = length;
    let mut active = on;
    if t <= 0 {
        while t <= 0
            invariant
                -TIMER_BOUND - 256 <= t <= 2,
                t0 <= 0,
                k >= 0,
                t as int == t0 + 2 * k,
                fires(t0, 2) == k + fires(t as int, 2),
                after_fires(t0, 2) == after_fires(t as int, 2),
                len as int == vstd::math::min(length + k, limit as int),
                active == (on && length + k <= limit),
            decreases 2 - t,
        {
            proof {
                lemma_fires_step(t as int, 2);
            }
            t = t + 2;
            if len < limit {
                len = len + 1;
            } else {
                active = false;
            }
            proof {
                k = k + 1;
            }
        }
    }
    (t, len, active)
}

/// The volume after `f` envelope firings: up by `f` (`envelope` set) or down by `f`, within 0..=15.
pub open spec fn enveloped(volume: int, envelope: u8, f: int) -> int {
    if envelope > 0 {
        vstd::math::min(volume + f, 15)
    } else {
        vstd::math::max(volume - f, 0)
    }
}

/// Counts `delta` sequencer ticks off a volume envelope that fires every 8·`sweep` ticks; each
/// firing moves the volume one step up (`envelope` set) or down, within 0..=15.
fn envelope_step(timer: i16, volume: u8, envelope: u8, sweep: u8, delta: u8) -> (r: (i16, u8))
    requires
        timer_ok(timer),
        volume <= 15,
        1 <= sweep <= 7,
    ensures
        timer_ok(r.0),
        r.0 as int == after_fires(timer - delta, 8 * sweep),
        r.1 as int == enveloped(volume as int, envelope, fires(timer - delta, 8 * sweep) as int),
        r.1 <= 15,
{
    let mut t: i16 = timer - delta as i16;
    let ghost t0: int = t as int;
    let ghost step: int = 8 * sweep;
    let ghost k: int = 0;
    let mut vol = volume;
    if t <= 0 {
        while t <= 0
            invariant
                -TIMER_BOUND - 256 <= t <= 56,
                1 <= sweep <= 7,
                step == 8 * sweep,
                t0 <= 0,
                k >= 0,
                fires(t0, step) == k + fires(t as int, step),
                after_fires(t0, step) == after_fires(t as int, step),
                vol as int == enveloped(volume as int, envelope, k),
                vol <= 15,
            decreases 56 - t,
        {
            proof {
                lemma_fires_step(t as int, step);
            }
            t = t + 8 * sweep as i16;
            if envelope > 0 && vol < 0xF {
                vol = vol + 1;
            } else if envelope == 0 && vol > 0 {
                // reaching volume 0 does not turn the channel off
                vol = vol - 1;
            }
            proof {
                k = k + 1;
            }
        }
    }
    proof {
        assert(fires(t as int, step) == 0);
        assert(step * 0 == 0);
    }
    (t, vol)
}

/// The voice-1 period after `n` sweep firings: each adds (`up`) or takes `period >> step`; a
/// period past 0x7FF has turned the voice off and stays as it is.
pub open spec fn swept(period: u16, step: u8, up: bool, n: nat) -> u16
    decreases n,
{
    if n == 0 {
        period
    } else {
        let p = swept(period, step, up, (n - 1) as nat);
        if p <= 0x7FF {
            if up {
                (p + (p >> step)) as u16
            } else {
                (p - (p >> step)) as u16
            }
        } else {
            p
        }
    }
}

/// The period held by a low byte and the low three bits of a high byte.
pub open spec fn spec_period(lo: u8, hi: u8) -> u16 {
    (lo as int + (hi as int % 8) * 256) as u16
}

fn read_period(lo: u8, hi: u8) -> (r: u16)
    ensures
        r == spec_period(lo, hi),
        r <= 0x7FF,
{
    lo as u16 + (hi as u16 % 8) * 256
}

/// Voice 1: pulse with frequency sweep.
pub struct Voice1 {
    pace: u8,
    direction: u8,
    step: u8,
    wave_duty: u8,
    length: u8,
    volume: u8,
    envelope: u8,
    sweep: u8,
    period: u16,
    length_enable: bool,
    left: bool,
    right: bool,
    on: bool,
    dac_on: bool,
    sweep_vol_timer: i16,
    sweep_len_timer: i16,
    sweep_freq_timer: i16,
}

impl Voice1 {
    pub closed spec fn wf(&self) -> bool {
        &&& self.pace <= 7
        &&& self.step <= 7
        &&& self.wave_duty <= 3
        &&& self.length <= 64
        &&& self.volume <= 15
        &&& self.sweep <= 7
        &&& timer_ok(self.sweep_vol_timer)
        &&& timer_ok(self.sweep_len_timer)
        &&& timer_ok(self.sweep_freq_timer)
        &&& self.on ==> self.period <= 0x7FF
    }

    pub closed spec fn spec_period(&self) -> u16 {
        self.period
    }

    pub closed spec fn spec_volume(&self) -> u8 {
        self.volume
    }

    pub closed spec fn spec_on(&self) -> bool {
        self.on && self.dac_on
    }

    pub closed spec fn spec_running(&self) -> bool {
        self.on
    }

    pub closed spec fn spec_length(&self) -> u8 {
        self.length
    }

    /// Length, running flag, period and volume after `delta` sequencer ticks, when the DAC is
    /// `dac`: while the voice runs, the length counter (every 2 ticks, when enabled), the sweep
    /// (every 4·pace ticks) and the envelope (every 8·period ticks) fire.
    pub closed spec fn after_steps(&self, dac: bool, delta: u8) -> (u8, bool, u16, u8) {
        let run = self.on && dac;
        let fl = fires(self.sweep_len_timer - delta, 2);
        let len: int = if run && self.length_enable {
            vstd::math::min(self.length + fl, 64)
        } else {
            self.length as int
        };
        let on1 = if run && self.length_enable {
            self.on && self.length + fl <= 64
        } else {
            self.on
        };
        let fs = fires(self.sweep_freq_timer - delta, 4 * self.pace);
        let per = if run && self.pace != 0 {
            swept(self.period, self.step, self.direction > 0, fs)
        } else {
            self.period
        };
        let on2 = if run && self.pace != 0 {
            on1 && per <= 0x7FF
        } else {
            on1
        };
        let fe = fires(self.sweep_vol_timer - delta, 8 * self.sweep);
        let vol: int = if run && self.sweep != 0 {
            enveloped(self.volume as int, self.envelope, fe as int)
        } else {
            self.volume as int
        };
        (len as u8, on2, per, vol as u8)
    }

    /// The voice after `delta` sequencer ticks with the DAC at `dac`, before NR10–NR14 are read:
    /// while it runs, the length counter fires every 2 ticks (when enabled), the sweep every
    /// 4·pace ticks and the envelope every 8·period ticks, each countdown reloaded per firing.
    pub closed spec fn stepped(&self, dac: bool, delta: u8) -> Voice1 {
        let run = self.on && dac;
        let st = self.after_steps(dac, delta);
        Voice1 {
            dac_on: dac,
            length: st.0,
            on: st.1,
            period: st.2,
            volume: st.3,
            sweep_len_timer: if run && self.length_enable {
                after_fires(self.sweep_len_timer - delta, 2) as i16
            } else {
                self.sweep_len_timer
            },
            sweep_freq_timer: if run && self.pace != 0 {
                after_fires(self.sweep_freq_timer - delta, 4 * self.pace) as i16
            } else {
                self.sweep_freq_timer
            },
            sweep_vol_timer: if run && self.sweep != 0 {
                after_fires(self.sweep_vol_timer - delta, 8 * self.sweep) as i16
            } else {
                self.sweep_vol_timer
            },
            ..*self
        }
    }

    /// Whether the sweep fires at least once in `stepped(dac, delta)`.
    pub closed spec fn sweeps(&self, dac: bool, delta: u8) -> bool {
        self.on && dac && self.pace != 0 && self.sweep_freq_timer - delta <= 0
    }

    /// `next` is the voice after one update that stepped it as `stepped(dac, delta)` and then
    /// read NR10, NR11, NR12, NR13/NR14 (`nr14` as read, bit 7 the trigger) and NR51.
    pub closed spec fn tick_post(
        &self,
        next: Voice1,
        dac: bool,
        delta: u8,
        nr10: u8,
        nr11: u8,
        nr12: u8,
        nr13: u8,
        nr14: u8,
        nr51: u8,
    ) -> bool {
        let st = self.stepped(dac, delta);
        let pace = (nr10 / 16) % 8;
        &&& next.dac_on == dac
        &&& next.left == (spec_bit(nr51 as u16, 4) == 1)
        &&& next.right == (spec_bit(nr51 as u16, 0) == 1)
        &&& next.step == nr10 % 8
        &&& next.direction == spec_bit(nr10 as u16, 3)
        &&& next.pace == pace
        &&& next.wave_duty == nr11 / 64
        &&& next.length_enable == (spec_bit(nr14 as u16, 6) == 1)
        &&& if spec_bit(nr14 as u16, 7) == 1 {
            &&& next.on
            &&& next.sweep_freq_timer == 4 * pace
            &&& next.period == spec_period(nr13, nr14)
            &&& next.length == nr11 % 64
            &&& next.sweep == nr12 % 8
            &&& next.volume == nr12 / 16
            &&& next.envelope == spec_bit(nr12 as u16, 3)
            &&& next.sweep_vol_timer == 8 * (nr12 % 8)
            &&& next.sweep_len_timer == 2
        } else {
            &&& next.on == st.on
            &&& next.sweep_freq_timer == st.sweep_freq_timer
            &&& next.period == st.period
            &&& next.length == st.length
            &&& next.sweep == st.sweep
            &&& next.volume == st.volume
            &&& next.envelope == st.envelope
            &&& next.sweep_vol_timer == st.sweep_vol_timer
            &&& next.sweep_len_timer == st.sweep_len_timer
        }
    }

    pub fn new() -> (r: Voice1)
        ensures
            r.wf(),
            !r.spec_on(),
    {
        Voice1 {
            pace: 0,
            direction: 0,
            step: 0,
            wave_duty: 0,
            length: 0,
            volume: 0,
            envelope: 0,
            sweep: 0,
            period: 0,
            length_enable: false,
            left: false,
            right: false,
            on: false,
            dac_on: false,
            sweep_vol_timer: 0,
            sweep_len_timer: 0,
            sweep_freq_timer: 0,
        }
    }

    /// Whether the voice produces sound.
    pub fn is_active(&self) -> (r: bool)
        ensures
            r == self.spec_on(),
    {
        self.on && self.dac_on
    }

    pub fn period(&self) -> (r: u16)
        ensures
            r == self.spec_period(),
    {
        self.period
    }

    pub fn volume(&self) -> (r: u8)
        ensures
            r == self.spec_volume(),
    {
        self.volume
    }

    pub closed spec fn spec_duty(&self) -> u8 {
        self.wave_duty
    }

    pub closed spec fn spec_panning(&self) -> (bool, bool) {
        (self.left, self.right)
    }

    /// Wave duty: 0..=3 for 12.5 %, 25 %, 50 %, 75 %.
    pub fn wave_duty(&self) -> (r: u8)
        requires
            self.wf(),
        ensures
            r == self.spec_duty(),
            r <= 3,
    {
        self.wave_duty
    }

    /// Routing to the left and right outputs (NR51 bits 4 and 0).
    pub fn panning(&self) -> (r: (bool, bool))
        ensures
            r == self.spec_panning(),
    {
        (self.left, self.right)
    }

    /// Runs the length counter, sweep and envelope for `delta_div` sequencer ticks, writing a
    /// swept period back to NR13 and the low bits of NR14.
    fn run_counters<M: Memory>(&mut self, rt: &mut M, delta_div: u8)
        requires
            old(self).wf(),
            old(rt).mem_wf(),
        ensures
            final(self).wf(),
            final(rt).mem_wf(),
            ({
                let dac = (old(rt).peek(NR12) & 0xF8) != 0;
                let st = old(self).stepped(dac, delta_div);
                &&& *final(self) == st
                &&& final(rt).peek(NR13) == if old(self).sweeps(dac, delta_div) {
                    (st.period % 256) as u8
                } else {
                    old(rt).peek(NR13)
                }
                &&& final(rt).peek(NR14) == if old(self).sweeps(dac, delta_div) {
                    ((old(rt).peek(NR14) & 0xF8) + st.period / 256 % 8) as u8
                } else {
                    old(rt).peek(NR14)
                }
            }),
            forall|a: u16|
                0xFF00 <= a && a != NR13 && a != NR14 ==> #[trigger] final(rt).peek(a) == old(
                    rt,
                ).peek(a),
    {
        self.dac_on = (rt.get(NR12) & 0xF8) != 0;

        if self.on && self.dac_on {
            if self.length_enable {
                // the length counter fires every 2 sequencer ticks
                let (t, len, on) = length_step(self.sweep_len_timer, self.length as u16, 64, self.on, delta_div);
                self.sweep_len_timer = t;
                self.length = len as u8;
                self.on = on;
            }
            if self.pace != 0 {
                let mut t: i16 = self.sweep_freq_timer - delta_div as i16;
                let stepped = t <= 0;
                let ghost t0: int = t as int;
                let ghost step4: int = 4 * self.pace;
                let ghost p0: u16 = self.period;
                let ghost on0: bool = self.on;
                let ghost k: nat = 0;
                let ghost s1 = *self;
                while t <= 0
                    invariant
                        self.length == s1.length && self.length_enable == s1.length_enable,
                        self.wave_duty == s1.wave_duty && self.left == s1.left && self.right == s1.right,
                        self.sweep_len_timer == s1.sweep_len_timer && self.dac_on == s1.dac_on,
                        self.pace == s1.pace && self.step == s1.step && self.direction == s1.direction,
                        self.sweep == s1.sweep && self.volume == s1.volume && self.envelope == s1.envelope,
                        self.sweep_vol_timer == s1.sweep_vol_timer && self.sweep_freq_timer == s1.sweep_freq_timer,
                        -TIMER_BOUND - 256 <= t,
                        t <= 28 || t == t0,
                        t0 == self.sweep_freq_timer - delta_div,
                        self.wf(),
                        1 <= self.pace <= 7,
                        step4 == 4 * self.pace,
                        self.step <= 7,
                        fires(t0, step4) == k + fires(t as int, step4),
                        after_fires(t0, step4) == after_fires(t as int, step4),
                        rt.peek(NR13) == old(rt).peek(NR13),
                        self.period == swept(p0, self.step, self.direction > 0, k),
                        on0 ==> p0 <= 0x7FF,
                        self.on == (on0 && self.period <= 0x7FF),
                        rt.mem_wf(),
                        forall|a: u16|
                            0xFF00 <= a && a != NR13 && a != NR14 ==> #[trigger] rt.peek(a) == old(
                                rt,
                            ).peek(a),
                        rt.peek(NR14) == old(rt).peek(NR14),
                        self.period <= 0xFFF,
                    decreases 1000 - t,
                {
                    proof {
                        lemma_fires_step(t as int, step4);
                    }
                    t = t + 4 * self.pace as i16;
                    if self.period <= 0x7FF {
                        let delta = self.period >> self.step;
                        proof {
                            let p = self.period;
                            let st = self.step;
                            assert(p >> st <= p) by (bit_vector);
                        }
                        if self.direction > 0 {
                            self.period = self.period + delta;
                        } else {
                            self.period = self.period - delta;
                        }
                    }
                    if self.period > 0x7FF {
                        self.on = false;
                    }
                    proof {
                        k = k + 1;
                    }
                }
                proof {
                    assert(step4 * 0 == 0);
                }
                self.sweep_freq_timer = t;
                if stepped {
                    // write the period back to NR13 and the low bits of NR14
                    let nr14 = rt.get(NR14);
                    rt.hwset(NR13, (self.period % 256) as u8);
                    let per = self.period;
                    let top = (per >> 8) as u8;
                    let high = top & 0b111;
                    proof {
                        assert(spec_bit(((nr14 & 0xF8) | high) as u16, 7) == spec_bit(nr14 as u16, 7)
                            && ((nr14 & 0xF8) | high) as int == (nr14 & 0xF8) as int + high as int
                            && high as int == (per as int / 256) % 8
                            && spec_bit(((nr14 & 0xF8) | high) as u16, 6) == spec_bit(nr14 as u16, 6)) by (bit_vector)
                            requires
                                high == top & 0b111,
                                top == (per >> 8u16) as u8,
                                per <= 0xFFF,
                        ;
                    }
                    rt.hwset(NR14, (nr14 & 0xF8) | high);
                }
            }
            if self.sweep != 0 {
                let (t, vol) = envelope_step(self.sweep_vol_timer, self.volume, self.envelope, self.sweep, delta_div);
                self.sweep_vol_timer = t;
                self.volume = vol;
            }
        }
    }

    /// One APU update: runs length, sweep and envelope for `delta_div` sequencer ticks, then
    /// reads NR10–NR14 and starts the voice when NR14 bit 7 is set (clearing that bit). Returns
    /// whether it was started, so that the caller restarts the wave phase.
    #[verifier::rlimit(100)]
    #[verifier::spinoff_prover]
    pub fn tick<M: Memory>(&mut self, rt: &mut M, delta_div: u8) -> (triggered: bool)
        requires
            old(self).wf(),
            old(rt).mem_wf(),
        ensures
            final(self).wf(),
            final(rt).mem_wf(),
            triggered == (spec_bit(old(rt).peek(NR14) as u16, 7) == 1),
            ({
                let dac = (old(rt).peek(NR12) & 0xF8) != 0;
                let st = old(self).stepped(dac, delta_div);
                &&& old(self).tick_post(
                    *final(self),
                    dac,
                    delta_div,
                    old(rt).peek(NR10),
                    old(rt).peek(NR11),
                    old(rt).peek(NR12),
                    final(rt).peek(NR13),
                    if old(self).sweeps(dac, delta_div) {
                        ((old(rt).peek(NR14) & 0xF8) + st.spec_period() / 256 % 8) as u8
                    } else {
                        old(rt).peek(NR14)
                    },
                    old(rt).peek(NR51),
                )
                &&& final(rt).peek(NR13) == if old(self).sweeps(dac, delta_div) {
                    (st.spec_period() % 256) as u8
                } else {
                    old(rt).peek(NR13)
                }
                &&& final(rt).peek(NR14) % 128 == (if old(self).sweeps(dac, delta_div) {
                    (old(rt).peek(NR14) & 0xF8) + st.spec_period() / 256 % 8
                } else {
                    old(rt).peek(NR14) as int
                }) % 128
                &&& triggered ==> spec_bit(final(rt).peek(NR14) as u16, 7) == 0
                &&& !triggered ==> final(rt).peek(NR14) == (if old(self).sweeps(dac, delta_div) {
                    ((old(rt).peek(NR14) & 0xF8) + st.spec_period() / 256 % 8) as u8
                } else {
                    old(rt).peek(NR14)
                })
            }),
            final(self).spec_on() == (final(self).spec_running() && (old(rt).peek(NR12) & 0xF8) != 0),
            triggered ==> final(self).spec_period() == spec_period(
                final(rt).peek(NR13),
                final(rt).peek(NR14),
            ),
            triggered && !old(self).sweeps((old(rt).peek(NR12) & 0xF8) != 0, delta_div)
                ==> final(self).spec_period() == spec_period(old(rt).peek(NR13), old(rt).peek(NR14)),
            triggered ==> final(self).spec_running() && final(self).spec_length() == old(rt).peek(NR11) % 64
                && final(self).spec_volume() == old(rt).peek(NR12) / 16,
            !triggered ==> (
                final(self).spec_length(),
                final(self).spec_running(),
                final(self).spec_period(),
                final(self).spec_volume(),
            ) == old(self).after_steps((old(rt).peek(NR12) & 0xF8) != 0, delta_div),
            forall|a: u16|
                0xFF00 <= a && a != NR13 && a != NR14 ==> #[trigger] final(rt).peek(a) == old(
                    rt,
                ).peek(a),
    {
        let ghost r0 = rt.peek(NR14);
        self.run_counters(rt, delta_div);
        proof {
            let h: u8 = (self.period as int / 256 % 8) as u8;
            assert(h <= 7 ==> spec_bit((((r0 & 0xF8) as u16) + h as u16) as u8 as u16, 7) == spec_bit(r0 as u16, 7)
                && (r0 & 0xF8) as int + h as int <= 255) by (bit_vector);
        }
        let nr10 = rt.get(NR10);
        let nr11 = rt.get(NR11);
        let nr12 = rt.get(NR12);
        let nr13 = rt.get(NR13);
        let nr14 = rt.get(NR14);
        let nr51 = rt.get(NR51);
        let trigger = get_bit(nr14 as u16, 7) == 1;
        self.left = get_bit(nr51 as u16, 4) == 1;
        self.right = get_bit(nr51 as u16, 0) == 1;
        self.step = nr10 % 8;
        self.direction = get_bit(nr10 as u16, 3);
        self.pace = (nr10 / 16) % 8;
        self.wave_duty = nr11 / 64;
        self.length_enable = get_bit(nr14 as u16, 6) == 1;
        if trigger {
            self.sweep_freq_timer = self.pace as i16 * 4;
            self.period = read_period(nr13, nr14);
            self.length = nr11 % 64;
            // retriggering is what reloads the envelope
            self.sweep = nr12 % 8;
            self.volume = nr12 / 16;
            self.envelope = get_bit(nr12 as u16, 3);
            self.sweep_vol_timer = 8 * self.sweep as i16;
            self.sweep_len_timer = 2;
            self.on = true;
            proof {
                assert(spec_bit(spec_set_bit(nr14, 7, false) as u16, 7) == 0
                    && spec_set_bit(nr14, 7, false) % 128 == nr14 % 128) by (bit_vector);
            }
            rt.hwset(NR14, set_bit(nr14, 7, false));
        }
        trigger
    }
}

/// Voice 2: pulse without sweep.
pub struct Voice2 {
    wave_duty: u8,
    length: u8,
    volume: u8,
    envelope: u8,
    sweep: u8,
    period: u16,
    length_enable: bool,
    left: bool,
    right: bool,
    on: bool,
    dac_on: bool,
    sweep_len_timer: i16,
    sweep_vol_timer: i16,
}

impl Voice2 {
    pub closed spec fn wf(&self) -> bool {
        &&& self.wave_duty <= 3
        &&& self.length <= 64
        &&& self.volume <= 15
        &&& self.sweep <= 7
        &&& self.period <= 0x7FF
        &&& timer_ok(self.sweep_vol_timer)
        &&& timer_ok(self.sweep_len_timer)
    }

    pub closed spec fn spec_on(&self) -> bool {
        self.on && self.dac_on
    }

    pub closed spec fn spec_running(&self) -> bool {
        self.on
    }

    pub closed spec fn spec_period(&self) -> u16 {
        self.period
    }

    pub closed spec fn spec_volume(&self) -> u8 {
        self.volume
    }

    pub closed spec fn spec_length(&self) -> u8 {
        self.length
    }

    /// Length, running flag and volume after `delta` sequencer ticks: while the voice runs, the
    /// length counter (every 2 ticks, when enabled) and the envelope (every 8·period ticks) fire.
    pub closed spec fn after_steps(&self, delta: u8) -> (u8, bool, u8) {
        let fl = fires(self.sweep_len_timer - delta, 2);
        let len: int = if self.on && self.length_enable {
            vstd::math::min(self.length + fl, 64)
        } else {
            self.length as int
        };
        let on1 = if self.on && self.length_enable {
            self.on && self.length + fl <= 64
        } else {
            self.on
        };
        let fe = fires(self.sweep_vol_timer - delta, 8 * self.sweep);
        let vol: int = if self.on && self.sweep != 0 {
            enveloped(self.volume as int, self.envelope, fe as int)
        } else {
            self.volume as int
        };
        (len as u8, on1, vol as u8)
    }

    /// The length and envelope countdowns.
    pub closed spec fn countdowns(&self) -> (i16, i16) {
        (self.sweep_len_timer, self.sweep_vol_timer)
    }

    /// The countdowns after `delta` sequencer ticks: each reloaded per firing while the voice
    /// runs with the counter enabled.
    pub closed spec fn counted(&self, delta: u8) -> (i16, i16) {
        (
            if self.on && self.length_enable {
                after_fires(self.sweep_len_timer - delta, 2) as i16
            } else {
                self.sweep_len_timer
            },
            if self.on && self.sweep != 0 {
                after_fires(self.sweep_vol_timer - delta, 8 * self.sweep) as i16
            } else {
                self.sweep_vol_timer
            },
        )
    }

    pub fn new() -> (r: Voice2)
        ensures
            r.wf(),
            !r.spec_on(),
    {
        Voice2 {
            wave_duty: 0,
            length: 0,
            volume: 0,
            envelope: 0,
            sweep: 0,
            period: 0,
            length_enable: false,
            left: false,
            right: false,
            on: false,
            dac_on: false,
            sweep_len_timer: 0,
            sweep_vol_timer: 0,
        }
    }

    pub fn is_active(&self) -> (r: bool)
        ensures
            r == self.spec_on(),
    {
        self.on && self.dac_on
    }

    pub fn period(&self) -> (r: u16)
        ensures
            r == self.spec_period(),
    {
        self.period
    }

    pub fn volume(&self) -> (r: u8)
        ensures
            r == self.spec_volume(),
    {
        self.volume
    }

    pub closed spec fn spec_duty(&self) -> u8 {
        self.wave_duty
    }

    pub closed spec fn spec_panning(&self) -> (bool, bool) {
        (self.left, self.right)
    }

    /// Wave duty: 0..=3 for 12.5 %, 25 %, 50 %, 75 %.
    pub fn wave_duty(&self) -> (r: u8)
        requires
            self.wf(),
        ensures
            r == self.spec_duty(),
            r <= 3,
    {
        self.wave_duty
    }

    /// Routing to the left and right outputs (NR51 bits 5 and 1).
    pub fn panning(&self) -> (r: (bool, bool))
        ensures
            r == self.spec_panning(),
    {
        (self.left, self.right)
    }

    /// One APU update: length and envelope for `delta_div` sequencer ticks, then NR21–NR24;
    /// NR24 bit 7 starts the voice. Returns whether it was started.
    pub fn tick<M: Memory>(&mut self, rt: &mut M, delta_div: u8) -> (triggered: bool)
        requires
            old(self).wf(),
            old(rt).mem_wf(),
        ensures
            final(self).wf(),
            final(rt).mem_wf(),
            triggered == (spec_bit(old(rt).peek(NR24) as u16, 7) == 1),
            triggered ==> final(self).spec_running() && final(self).spec_length() == old(rt).peek(
                NR21,
            ) % 64 && final(self).spec_volume() == old(rt).peek(NR22) / 16
                && final(self).spec_period() == spec_period(old(rt).peek(NR23), old(rt).peek(NR24))
                && final(rt).peek(NR24) == spec_set_bit(old(rt).peek(NR24), 7, false),
            triggered ==> final(self).countdowns() == (2i16, (8 * (old(rt).peek(NR22) % 8)) as i16),
            !triggered ==> (final(self).spec_length(), final(self).spec_running(), final(self).spec_volume())
                == old(self).after_steps(delta_div),
            !triggered ==> final(self).countdowns() == old(self).counted(delta_div),
            forall|a: u16|
                0xFF00 <= a && a != NR24 ==> #[trigger] final(rt).peek(a) == old(rt).peek(a),
    {
        self.dac_on = (rt.get(NR22) & 0xF8) != 0;
        if self.on {
            if self.length_enable {
                let (t, len, on) = length_step(self.sweep_len_timer, self.length as u16, 64, self.on, delta_div);
                self.sweep_len_timer = t;
                self.length = len as u8;
                self.on = on;
            }
            if self.sweep != 0 {
                let (t, vol) = envelope_step(self.sweep_vol_timer, self.volume, self.envelope, self.sweep, delta_div);
                self.sweep_vol_timer = t;
                self.volume = vol;
            }
        }
        let nr21 = rt.get(NR21);
        let nr22 = rt.get(NR22);
        let nr23 = rt.get(NR23);
        let nr24 = rt.get(NR24);
        let nr51 = rt.get(NR51);
        let trigger = get_bit(nr24 as u16, 7) == 1;
        self.left = get_bit(nr51 as u16, 5) == 1;
        self.right = get_bit(nr51 as u16, 1) == 1;
        self.wave_duty = nr21 / 64;
        self.length_enable = get_bit(nr24 as u16, 6) == 1;
        if trigger {
            self.period = read_period(nr23, nr24);
            self.length = nr21 % 64;
            self.volume = nr22 / 16;
            self.envelope = get_bit(nr22 as u16, 3);
            self.sweep = nr22 % 8;
            self.sweep_vol_timer = 8 * self.sweep as i16;
            self.sweep_len_timer = 2;
            self.on = true;
            rt.hwset(NR24, set_bit(nr24, 7, false));
        }
        trigger
    }
}

/// Voice 3: 32 four-bit samples from FF30–FF3F.
pub struct Voice3 {
    dac: bool,
    length_enable: bool,
    length: u16,
    volume_code: u8,
    period: u16,
    on: bool,
    idx: u8,
    pattern: [u8; 16],
    sweep_len_timer: i16,
}

impl Voice3 {
    pub closed spec fn wf(&self) -> bool {
        &&& self.length <= 256
        &&& self.volume_code <= 3
        &&& self.period <= 0x7FF
        &&& self.idx < 32
        &&& timer_ok(self.sweep_len_timer)
    }

    pub closed spec fn spec_on(&self) -> bool {
        self.on && self.dac
    }

    pub closed spec fn spec_running(&self) -> bool {
        self.on
    }

    pub closed spec fn spec_index(&self) -> u8 {
        self.idx
    }

    pub closed spec fn spec_pattern(&self) -> Seq<u8> {
        self.pattern@
    }

    pub closed spec fn spec_length(&self) -> u16 {
        self.length
    }

    /// Length and running flag after `delta` sequencer ticks: while the voice runs, the length
    /// counter fires every 2 ticks when enabled, up to 256.
    pub closed spec fn after_steps(&self, delta: u8) -> (u16, bool) {
        let fl = fires(self.sweep_len_timer - delta, 2);
        if self.on && self.length_enable {
            (vstd::math::min(self.length + fl, 256) as u16, self.length + fl <= 256)
        } else {
            (self.length, self.on)
        }
    }

    /// The length countdown.
    pub closed spec fn countdown(&self) -> i16 {
        self.sweep_len_timer
    }

    /// The length countdown after `delta` sequencer ticks: reloaded per firing while the voice
    /// runs with the counter enabled.
    pub closed spec fn counted(&self, delta: u8) -> i16 {
        if self.on && self.length_enable {
            after_fires(self.sweep_len_timer - delta, 2) as i16
        } else {
            self.sweep_len_timer
        }
    }

    pub fn new() -> (r: Voice3)
        ensures
            r.wf(),
            !r.spec_on(),
    {
        Voice3 {
            dac: false,
            length_enable: false,
            length: 0,
            volume_code: 0,
            period: 0,
            on: false,
            idx: 0,
            pattern: [0; 16],
            sweep_len_timer: 0,
        }
    }

    pub fn is_active(&self) -> (r: bool)
        ensures
            r == self.spec_on(),
    {
        self.on && self.dac
    }

    pub closed spec fn spec_period(&self) -> u16 {
        self.period
    }

    pub closed spec fn spec_volume_code(&self) -> u8 {
        self.volume_code
    }

    pub fn period(&self) -> (r: u16)
        requires
            self.wf(),
        ensures
            r == self.spec_period(),
            r <= 0x7FF,
    {
        self.period
    }

    /// The output level: 0 mute, 1 full, 2 half, 3 quarter.
    pub fn volume_code(&self) -> (r: u8)
        requires
            self.wf(),
        ensures
            r == self.spec_volume_code(),
            r <= 3,
    {
        self.volume_code
    }

    /// The sample the voice plays now.
    pub fn index(&self) -> (r: u8)
        requires
            self.wf(),
        ensures
            r == self.spec_index(),
            r < 32,
    {
        self.idx
    }

    /// Moves on to the next of the 32 samples.
    pub fn advance(&mut self)
        requires
            old(self).wf(),
        ensures
            final(self).wf(),
            final(self).spec_index() as int == (old(self).spec_index() as int + 1) % 32,
    {
        self.idx = (self.idx + 1) % 32;
    }

    /// Sample `idx`: the high nibble of pattern byte `idx / 2` for even `idx`, else the low one.
    pub fn get_sample(&self, idx: u8) -> (r: u8)
        requires
            idx < 32,
        ensures
            r == if idx % 2 == 0 {
                self.spec_pattern()[idx as int / 2] / 16
            } else {
                self.spec_pattern()[idx as int / 2] % 16
            },
            r < 16,
    {
        let value = self.pattern[(idx / 2) as usize];
        if idx % 2 == 0 {
            value / 16
        } else {
            value % 16
        }
    }

    /// One APU update: length for `delta_div` sequencer ticks, then NR30–NR34 and the pattern;
    /// NR34 bit 7 starts the voice from sample 0. Returns whether it was started.
    pub fn tick<M: Memory>(&mut self, rt: &mut M, delta_div: u8) -> (triggered: bool)
        requires
            old(self).wf(),
            old(rt).mem_wf(),
        ensures
            final(self).wf(),
            final(rt).mem_wf(),
            triggered == (spec_bit(old(rt).peek(NR34) as u16, 7) == 1),
            triggered ==> final(self).spec_running() && final(self).spec_index() == 0,
            triggered ==> final(self).spec_period() == spec_period(old(rt).peek(NR33), old(rt).peek(NR34))
                && final(self).spec_volume_code() == (old(rt).peek(NR32) / 32) % 4
                && final(self).spec_length() == if old(self).after_steps(delta_div).0 == 256 {
                old(rt).peek(NR31) as u16
            } else {
                old(self).after_steps(delta_div).0
            },
            !triggered ==> (final(self).spec_length(), final(self).spec_running()) == old(self).after_steps(
                delta_div,
            ),
            final(self).countdown() == old(self).counted(delta_div),
            forall|i: int|
                0 <= i < 16 ==> #[trigger] final(self).spec_pattern()[i] == old(rt).peek(
                    (0xFF30 + i) as u16,
                ),
            forall|a: u16|
                0xFF00 <= a && a != NR34 ==> #[trigger] final(rt).peek(a) == old(rt).peek(a),
    {
        let nr30 = rt.get(NR30);
        let nr31 = rt.get(NR31);
        let nr32 = rt.get(NR32);
        let nr33 = rt.get(NR33);
        let nr34 = rt.get(NR34);
        if self.on {
            if self.length_enable {
                let (t, len, on) = length_step(self.sweep_len_timer, self.length, 256, self.on, delta_div);
                self.sweep_len_timer = t;
                self.length = len;
                self.on = on;
            }
        }
        self.dac = get_bit(nr30 as u16, 7) == 1;
        self.length_enable = get_bit(nr34 as u16, 6) == 1;
        let trigger = get_bit(nr34 as u16, 7) == 1;
        if trigger {
            self.idx = 0;
            self.period = read_period(nr33, nr34);
            self.volume_code = (nr32 / 32) % 4;
            self.on = true;
            rt.hwset(NR34, set_bit(nr34, 7, false));
            if self.length == 256 {
                self.length = nr31 as u16;
            }
        }
        let ghost s1 = *self;
        let mut i: usize = 0;
        while i < 16
            invariant
                self.length == s1.length && self.on == s1.on,
                self.period == s1.period && self.volume_code == s1.volume_code,
                self.sweep_len_timer == s1.sweep_len_timer,
                i <= 16,
                rt.mem_wf(),
                self.wf(),
                trigger ==> self.spec_running() && self.spec_index() == 0,
                forall|j: int|
                    0 <= j < i ==> #[trigger] self.pattern@[j] == rt.peek((0xFF30 + j) as u16),
                forall|a: u16|
                    0xFF00 <= a && a != NR34 ==> #[trigger] rt.peek(a) == old(rt).peek(a),
            decreases 16 - i,
        {
            self.pattern[i] = rt.get(0xFF30 + i as u16);
            i = i + 1;
        }
        trigger
    }
}

/// Voice 4: noise from a linear-feedback shift register.
pub struct Voice4 {
    on: bool,
    length: u8,
    clock_shift: u8,
    lfsr_width: u8,
    clock_div: u8,
    length_enable: bool,
    lfsr: u16,
    volume: u8,
    envelope: u8,
    sweep: u8,
    sweep_len_timer: i16,
    sweep_vol_timer: i16,
    lfsr_bit: u8,
    dac_on: bool,
}

/// The shift register after one step: the new bit NOT(bit 0 XOR bit 1) enters at bit 14 (and
/// at bit 6 in the 7-bit mode) after the shift right.
pub open spec fn lfsr_step(lfsr: u16, short: bool) -> u16 {
    let b = !((lfsr & 1) ^ ((lfsr >> 1u16) & 1)) & 1;
    let shifted = lfsr >> 1u16;
    let with14 = (shifted & !0x4000u16) | (b << 14u16);
    if short {
        (with14 & !0x40u16) | (b << 6u16)
    } else {
        with14
    }
}

impl Voice4 {
    pub closed spec fn wf(&self) -> bool {
        &&& self.length <= 64
        &&& self.volume <= 15
        &&& self.sweep <= 7
        &&& self.clock_div <= 7
        &&& self.lfsr_bit <= 1
        &&& timer_ok(self.sweep_vol_timer)
        &&& timer_ok(self.sweep_len_timer)
    }

    pub closed spec fn spec_on(&self) -> bool {
        self.on && self.dac_on
    }

    pub closed spec fn spec_running(&self) -> bool {
        self.on
    }

    pub closed spec fn spec_lfsr(&self) -> u16 {
        self.lfsr
    }

    pub closed spec fn spec_bit_out(&self) -> u8 {
        self.lfsr_bit
    }

    pub closed spec fn spec_short(&self) -> bool {
        self.lfsr_width == 1
    }

    /// Length, running flag and volume after `delta` sequencer ticks: while the voice runs, the
    /// length counter (every 2 ticks, when enabled) and the envelope (every 8·period ticks) fire.
    pub closed spec fn after_steps(&self, delta: u8) -> (u8, bool, u8) {
        let fl = fires(self.sweep_len_timer - delta, 2);
        let len: int = if self.on && self.length_enable {
            vstd::math::min(self.length + fl, 64)
        } else {
            self.length as int
        };
        let on1 = if self.on && self.length_enable {
            self.on && self.length + fl <= 64
        } else {
            self.on
        };
        let fe = fires(self.sweep_vol_timer - delta, 8 * self.sweep);
        let vol: int = if self.on && self.sweep != 0 {
            enveloped(self.volume as int, self.envelope, fe as int)
        } else {
            self.volume as int
        };
        (len as u8, on1, vol as u8)
    }

    pub closed spec fn spec_length(&self) -> u8 {
        self.length
    }

    /// The length and envelope countdowns.
    pub closed spec fn countdowns(&self) -> (i16, i16) {
        (self.sweep_len_timer, self.sweep_vol_timer)
    }

    /// The countdowns after `delta` sequencer ticks: each reloaded per firing while the voice
    /// runs with the counter enabled.
    pub closed spec fn counted(&self, delta: u8) -> (i16, i16) {
        (
            if self.on && self.length_enable {
                after_fires(self.sweep_len_timer - delta, 2) as i16
            } else {
                self.sweep_len_timer
            },
            if self.on && self.sweep != 0 {
                after_fires(self.sweep_vol_timer - delta, 8 * self.sweep) as i16
            } else {
                self.sweep_vol_timer
            },
        )
    }

    pub fn new() -> (r: Voice4)
        ensures
            r.wf(),
            !r.spec_on(),
    {
        Voice4 {
            on: false,
            length: 0,
            clock_shift: 0,
            lfsr_width: 0,
            clock_div: 0,
            length_enable: false,
            lfsr: 0,
            volume: 0,
            envelope: 0,
            sweep: 0,
            sweep_len_timer: 0,
            sweep_vol_timer: 0,
            lfsr_bit: 0,
            dac_on: false,
        }
    }

    pub fn is_active(&self) -> (r: bool)
        ensures
            r == self.spec_on(),
    {
        self.on && self.dac_on
    }

    pub closed spec fn spec_volume(&self) -> u8 {
        self.volume
    }

    pub closed spec fn spec_clock(&self) -> (u8, u8) {
        (self.clock_div, self.clock_shift)
    }

    pub fn volume(&self) -> (r: u8)
        requires
            self.wf(),
        ensures
            r == self.spec_volume(),
            r <= 15,
    {
        self.volume
    }

    /// The bit the register ejected last: the voice sounds while it is 1.
    pub fn output_bit(&self) -> (r: u8)
        ensures
            r == self.spec_bit_out(),
    {
        self.lfsr_bit
    }

    /// The clock divisor code (0..=7 for 8, 16, 32, 48, 64, 80, 96, 112) and the shift.
    pub fn clock(&self) -> (r: (u8, u8))
        requires
            self.wf(),
        ensures
            r == self.spec_clock(),
            r.0 <= 7,
    {
        (self.clock_div, self.clock_shift)
    }

    /// Steps the shift register once, keeping the ejected bit as the output.
    pub fn lfsr_next_bit(&mut self)
        requires
            old(self).wf(),
        ensures
            final(self).wf(),
            final(self).spec_lfsr() == lfsr_step(old(self).spec_lfsr(), old(self).spec_short()),
            final(self).spec_bit_out() as u16 == old(self).spec_lfsr() & 1,
            final(self).spec_short() == old(self).spec_short(),
    {
        let lfsr = self.lfsr;
        let bit0 = lfsr & 1;
        let bit1 = (lfsr >> 1) & 1;
        let b = !(bit0 ^ bit1) & 1;
        let shifted = lfsr >> 1;
        let mut next = (shifted & !0x4000u16) | (b << 14);
        if self.lfsr_width == 1 {
            next = (next & !0x40u16) | (b << 6);
        }
        proof {
            assert(lfsr & 1 <= 1) by (bit_vector);
        }
        self.lfsr = next;
        self.lfsr_bit = bit0 as u8;
    }

    /// One APU update: length and envelope for `delta_div` sequencer ticks, then NR41–NR44;
    /// NR44 bit 7 starts the voice with a cleared register. Returns whether it was started.
    pub fn tick<M: Memory>(&mut self, rt: &mut M, delta_div: u8) -> (triggered: bool)
        requires
            old(self).wf(),
            old(rt).mem_wf(),
        ensures
            final(self).wf(),
            final(rt).mem_wf(),
            triggered == (spec_bit(old(rt).peek(NR44) as u16, 7) == 1),
            triggered ==> final(self).spec_length() == old(rt).peek(NR41) % 64 && final(self).spec_volume()
                == old(rt).peek(NR42) / 16,
            triggered ==> final(self).countdowns() == (2i16, (8 * (old(rt).peek(NR42) % 8)) as i16),
            final(self).spec_clock() == (old(rt).peek(NR43) % 8, old(rt).peek(NR43) / 16),
            final(self).spec_short() == (spec_bit(old(rt).peek(NR43) as u16, 3) == 1),
            triggered ==> final(self).spec_running() && final(self).spec_lfsr() == 0
                && final(rt).peek(NR44) == spec_set_bit(old(rt).peek(NR44), 7, false),
            !triggered ==> (final(self).spec_length(), final(self).spec_running(), final(self).spec_volume())
                == old(self).after_steps(delta_div),
            !triggered ==> final(self).countdowns() == old(self).counted(delta_div),
            forall|a: u16|
                0xFF00 <= a && a != NR44 ==> #[trigger] final(rt).peek(a) == old(rt).peek(a),
    {
        let nr41 = rt.get(NR41);
        let nr42 = rt.get(NR42);
        let nr43 = rt.get(NR43);
        let nr44 = rt.get(NR44);
        self.dac_on = (nr42 & 0xF8) != 0;
        if self.on {
            if self.length_enable {
                let (t, len, on) = length_step(self.sweep_len_timer, self.length as u16, 64, self.on, delta_div);
                self.sweep_len_timer = t;
                self.length = len as u8;
                self.on = on;
            }
            if self.sweep != 0 {
                let (t, vol) = envelope_step(self.sweep_vol_timer, self.volume, self.envelope, self.sweep, delta_div);
                self.sweep_vol_timer = t;
                self.volume = vol;
            }
        }
        let trigger = get_bit(nr44 as u16, 7) == 1;
        self.length_enable = get_bit(nr44 as u16, 6) == 1;
        if trigger {
            self.length = nr41 % 64;
            self.sweep_len_timer = 2;
            self.volume = nr42 / 16;
            self.envelope = get_bit(nr42 as u16, 3);
            self.sweep = nr42 % 8;
            self.sweep_vol_timer = 8 * self.sweep as i16;
            rt.hwset(NR44, set_bit(nr44, 7, false));
            self.on = true;
            self.lfsr = 0;
            self.lfsr_bit = 0;
        }
        self.clock_div = nr43 % 8;
        self.lfsr_width = get_bit(nr43 as u16, 3);
        self.clock_shift = nr43 / 16;
        trigger
    }
}

/// The active flags of the four voices, as NR52 bits 0–3.
pub open spec fn active_mask(a1: bool, a2: bool, a3: bool, a4: bool) -> u8 {
    ((if a1 { 1int } else { 0 }) + (if a2 { 2int } else { 0 }) + (if a3 { 4int } else { 0 }) + (
    if a4 {
        8int
    } else {
        0
    })) as u8
}

/// The audio unit's state machines: master enable, output levels and the four voices.
pub struct APU {
    master_on: bool,
    left_level: u8,
    right_level: u8,
    voice1: Voice1,
    voice2: Voice2,
    voice3: Voice3,
    voice4: Voice4,
}

impl APU {
    pub closed spec fn wf(&self) -> bool {
        &&& self.voice1.wf()
        &&& self.voice2.wf()
        &&& self.voice3.wf()
        &&& self.voice4.wf()
    }

    pub closed spec fn v1(&self) -> Voice1 {
        self.voice1
    }

    pub closed spec fn v2(&self) -> Voice2 {
        self.voice2
    }

    pub closed spec fn v3(&self) -> Voice3 {
        self.voice3
    }

    pub closed spec fn v4(&self) -> Voice4 {
        self.voice4
    }

    pub fn voice1(&self) -> (r: &Voice1)
        ensures
            *r == self.v1(),
    {
        &self.voice1
    }

    pub fn voice2(&self) -> (r: &Voice2)
        ensures
            *r == self.v2(),
    {
        &self.voice2
    }

    pub fn voice3(&self) -> (r: &Voice3)
        ensures
            *r == self.v3(),
    {
        &self.voice3
    }

    pub fn voice4(&self) -> (r: &Voice4)
        ensures
            *r == self.v4(),
    {
        &self.voice4
    }

    /// Moves voice 3 on to its next sample.
    pub fn advance_wave(&mut self)
        requires
            old(self).wf(),
        ensures
            final(self).wf(),
            final(self).v3().spec_index() as int == (old(self).v3().spec_index() as int + 1) % 32,
    {
        self.voice3.advance();
    }

    /// Steps the noise register of voice 4 once.
    pub fn step_noise(&mut self)
        requires
            old(self).wf(),
        ensures
            final(self).wf(),
            final(self).v4().spec_lfsr() == lfsr_step(old(self).v4().spec_lfsr(), old(self).v4().spec_short()),
    {
        self.voice4.lfsr_next_bit();
    }

    pub fn new() -> (r: APU)
        ensures
            r.wf(),
    {
        APU {
            master_on: false,
            left_level: 0,
            right_level: 0,
            voice1: Voice1::new(),
            voice2: Voice2::new(),
            voice3: Voice3::new(),
            voice4: Voice4::new(),
        }
    }

    pub closed spec fn spec_master(&self) -> bool {
        self.master_on
    }

    pub closed spec fn spec_levels(&self) -> (u8, u8) {
        (self.left_level, self.right_level)
    }

    /// Master enable, NR52 bit 7.
    pub fn master_on(&self) -> (r: bool)
        ensures
            r == self.spec_master(),
    {
        self.master_on
    }

    /// Left and right output levels 0..=7 from NR50 (0 stands for 1/8, 7 for full).
    pub fn levels(&self) -> (r: (u8, u8))
        ensures
            r == self.spec_levels(),
    {
        (self.left_level, self.right_level)
    }

    /// One update after an instruction of `ticks` dots, which the timer has already counted:
    /// takes the timer's frame-sequencer ticks, reads NR52 and NR50, runs the four
    /// voices and sets NR52 bits 0–3 to their active flags (by hardware write, as programs
    /// cannot reach them). Returns the
    /// voices started in this update as bits 0–3.
    #[verifier::rlimit(100)]
    #[verifier::spinoff_prover]
    pub fn update(&mut self, ticks: u8, rt: &mut Runtime) -> (started: u8)
        requires
            old(self).wf(),
            old(rt).mem_wf(),
        ensures
            final(self).wf(),
            final(rt).mem_wf(),
            final(rt).cpu == old(rt).cpu,
            final(rt).timer == old(rt).timer,
            final(rt).peek(NR52) == (old(rt).peek(NR52) & 0xF0) | active_mask(
                final(self).v1().spec_on(),
                final(self).v2().spec_on(),
                final(self).v3().spec_on(),
                final(self).v4().spec_on(),
            ),
            started <= 15,
            started == active_mask(
                spec_bit(old(rt).peek(NR14) as u16, 7) == 1,
                spec_bit(old(rt).peek(NR24) as u16, 7) == 1,
                spec_bit(old(rt).peek(NR34) as u16, 7) == 1,
                spec_bit(old(rt).peek(NR44) as u16, 7) == 1,
            ),
            final(self).v1().spec_on() == (final(self).v1().spec_running() && (old(rt).peek(NR12)
                & 0xF8) != 0),
            spec_bit(old(rt).peek(NR14) as u16, 7) == 1 ==> final(self).v1().spec_running(),
            final(self).spec_master() == (spec_bit(old(rt).peek(NR52) as u16, 7) == 1),
            spec_bit(old(rt).peek(NR14) as u16, 7) == 0 ==> (
                final(self).v1().spec_length(),
                final(self).v1().spec_running(),
                final(self).v1().spec_period(),
                final(self).v1().spec_volume(),
            ) == old(self).v1().after_steps(
                (old(rt).peek(NR12) & 0xF8) != 0,
                old(rt).timer.sequencer_ticks(),
            ),
            final(self).spec_levels() == ((old(rt).peek(NR50) / 16) % 8, old(rt).peek(NR50) % 8),
    {
        let delta_div = rt.timer.frame_ticks();
        let nr52 = rt.memory.read(NR52);
        self.master_on = get_bit(nr52 as u16, 7) == 1;
        let nr50 = rt.memory.read(NR50);
        self.left_level = (nr50 / 16) % 8;
        self.right_level = nr50 % 8;
        let mut started: u8 = 0;
        if self.voice1.tick(&mut rt.memory, delta_div) {
            started = started + 1;
        }
        if self.voice2.tick(&mut rt.memory, delta_div) {
            started = started + 2;
        }
        if self.voice3.tick(&mut rt.memory, delta_div) {
            started = started + 4;
        }
        if self.voice4.tick(&mut rt.memory, delta_div) {
            started = started + 8;
        }
        let mut mask: u8 = 0;
        if self.voice1.is_active() {
            mask = mask + 1;
        }
        if self.voice2.is_active() {
            mask = mask + 2;
        }
        if self.voice3.is_active() {
            mask = mask + 4;
        }
        if self.voice4.is_active() {
            mask = mask + 8;
        }
        let current = rt.memory.read(NR52);
        rt.memory.hw_write(NR52, (current & 0xF0) | mask);
        started
    }
}

} // verus!
