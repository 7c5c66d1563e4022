use vstd::prelude::*;

use crate::byteop::{get_bit, join_u8, set_bit, spec_bit, spec_join, spec_set_bit, split_u16};

verus! {

/// The four flags of the F register.
#[derive(Clone, Copy, Debug, PartialEq, Eq, Structural)]
pub enum CFlag {
    /// zero
    Z,
    /// subtraction
    S,
    /// half carry
    H,
    /// carry
    CY,
}

/// Bit position of a flag inside F.
pub open spec fn flag_pos(flag: CFlag) -> u8 {
    match flag {
        CFlag::Z => 7,
        CFlag::S => 6,
        CFlag::H => 5,
        CFlag::CY => 4,
    }
}

/// Whether bit `pos` of the flag byte is set.
pub open spec fn flag_set(rf: u8, pos: u8) -> bool {
    spec_bit(rf as u16, pos) == 1
}

/// The flag byte holding Z, N, H and C, with a clear low nibble.
pub open spec fn spec_flags(z: bool, n: bool, h: bool, c: bool) -> u8 {
    ((if z { 128int } else { 0 }) + (if n { 64int } else { 0 }) + (if h { 32int } else { 0 }) + (
    if c {
        16int
    } else {
        0
    })) as u8
}

/// The flag byte is well formed: its low nibble is zero.
pub open spec fn low_nibble_clear(rf: u8) -> bool {
    rf & 0x0F == 0
}

pub proof fn lemma_flags(z: bool, n: bool, h: bool, c: bool)
    ensures
        low_nibble_clear(spec_flags(z, n, h, c)),
        flag_set(spec_flags(z, n, h, c), 7) == z,
        flag_set(spec_flags(z, n, h, c), 6) == n,
        flag_set(spec_flags(z, n, h, c), 5) == h,
        flag_set(spec_flags(z, n, h, c), 4) == c,
{
    let f = spec_flags(z, n, h, c);
    let zb: u8 = if z { 1 } else { 0 };
    let nb: u8 = if n { 1 } else { 0 };
    let hb: u8 = if h { 1 } else { 0 };
    let cb: u8 = if c { 1 } else { 0 };
    assert(f == zb * 128 + nb * 64 + hb * 32 + cb * 16);
    assert(zb <= 1 && nb <= 1 && hb <= 1 && cb <= 1 ==> {
        let g: u8 = (zb * 128 + nb * 64 + hb * 32 + cb * 16) as u8;
        &&& g & 0x0F == 0
        &&& ((g as u16 >> 7u8) & 1) == zb as u16
        &&& ((g as u16 >> 6u8) & 1) == nb as u16
        &&& ((g as u16 >> 5u8) & 1) == hb as u16
        &&& ((g as u16 >> 4u8) & 1) == cb as u16
    }) by (bit_vector);
}

pub proof fn lemma_set_flag(rf: u8, pos: u8, val: bool)
    requires
        4 <= pos < 8,
    ensures
        low_nibble_clear(rf) ==> low_nibble_clear(spec_set_bit(rf, pos, val)),
        flag_set(spec_set_bit(rf, pos, val), pos) == val,
        forall|q: u8| 4 <= q < 8 && q != pos ==> flag_set(spec_set_bit(rf, pos, val), q) == flag_set(rf, q),
{
    assert(4 <= pos < 8 ==> ((rf & 0x0F == 0) ==> ((rf | (1u8 << pos)) & 0x0F == 0 && (rf & !(1u8 << pos)) & 0x0F == 0))) by (bit_vector);
    assert(4 <= pos < 8 ==> (((((rf | (1u8 << pos)) as u16) >> pos) & 1) == 1 && ((((rf & !(1u8 << pos)) as u16) >> pos) & 1) == 0)) by (bit_vector);
    assert forall|q: u8| 4 <= q < 8 && q != pos implies flag_set(spec_set_bit(rf, pos, val), q) == flag_set(rf, q) by {
        assert(4 <= pos < 8 && 4 <= q < 8 && q != pos ==> (((((rf | (1u8 << pos)) as u16) >> q) & 1) == (((rf as u16) >> q) & 1) && ((((rf & !(1u8 << pos)) as u16) >> q) & 1) == (((rf as u16) >> q) & 1))) by (bit_vector);
    }
}

/// The CPU register file.
pub struct CpuRegisters {
    pub ra: u8,
    pub rf: u8,
    pub rb: u8,
    pub rc: u8,
    pub rd: u8,
    pub re: u8,
    pub rh: u8,
    pub rl: u8,
    pub sp: u16,
    pub pc: u16,
    pub ime: bool,
    pub debug: bool,
    pub halt: bool,
}

fn flags_byte(z: bool, n: bool, h: bool, c: bool) -> (r: u8)
    ensures
        r == spec_flags(z, n, h, c),
        low_nibble_clear(r),
        flag_set(r, 7) == z,
        flag_set(r, 6) == n,
        flag_set(r, 5) == h,
        flag_set(r, 4) == c,
{
    proof {
        lemma_flags(z, n, h, c);
    }
    let mut f: u8 = 0;
    if z {
        f = f + 128;
    }
    if n {
        f = f + 64;
    }
    if h {
        f = f + 32;
    }
    if c {
        f = f + 16;
    }
    f
}

/// Result of the binary-coded-decimal adjust of `a` given the N, H and C flags:
/// the new A and the new carry.
pub open spec fn spec_daa(a: u8, n: bool, h: bool, c: bool) -> (u8, bool) {
    if !n {
        let a1: u8 = if c || a > 0x99 { ((a as int + 0x60) % 256) as u8 } else { a };
        let c1 = c || a > 0x99;
        let a2: u8 = if h || a1 % 16 > 9 { ((a1 as int + 6) % 256) as u8 } else { a1 };
        (a2, c1)
    } else {
        let a1: u8 = if c { ((a as int + 256 - 0x60) % 256) as u8 } else { a };
        let a2: u8 = if h { ((a1 as int + 256 - 6) % 256) as u8 } else { a1 };
        (a2, c)
    }
}

/// The byte with its two nibbles exchanged.
pub open spec fn spec_swap(v: u8) -> u8 {
    ((v % 16) * 16 + v / 16) as u8
}

pub proof fn lemma_byte_arith(x: u8)
    ensures
        x & 0x0F == x % 16,
        x & 1 == x % 2,
        x >> 4u8 == x / 16,
        x >> 1u8 == x / 2,
        (x << 1u8) as int == (x as int * 2) % 256,
        ((x as u16 >> 7u8) & 1) as int == x as int / 128,
        ((x as u16 >> 0u8) & 1) as int == x as int % 2,
        (x / 128) << 7u8 == (x / 128) * 128,
        (x % 2) << 7u8 == (x % 2) * 128,
        rotl(x) as int == (x as int * 2) % 256 + x as int / 128,
        rotr(x) as int == x as int / 2 + (x as int % 2) * 128,
{
    assert(rotl(x) == ((x as u16 * 2) % 256 + x as u16 / 128) as u8 && rotr(x) == (x / 2 + (x % 2) * 128) as u8) by (bit_vector);
    assert(x & 0x0F == x % 16 && x & 1 == x % 2 && x >> 4u8 == x / 16 && x >> 1u8 == x / 2
        && (x << 1u8) == ((x as u16 * 2) % 256) as u8 && ((x as u16 >> 7u8) & 1) == (x / 128) as u16
        && ((x as u16 >> 0u8) & 1) == (x % 2) as u16 && (x / 128) << 7u8 == (x / 128) * 128
        && (x % 2) << 7u8 == (x % 2) * 128) by (bit_vector);
}

/// The two's-complement byte of a signed offset.
pub open spec fn low_byte(b: i8) -> int {
    if b >= 0 {
        b as int
    } else {
        b as int + 256
    }
}

/// Both nibbles of `v` are decimal digits.
pub open spec fn bcd_valid(v: u8) -> bool {
    v % 16 < 10 && v / 16 < 10
}

impl CpuRegisters {
    pub open spec fn wf(&self) -> bool {
        low_nibble_clear(self.rf)
    }

    pub open spec fn zf(&self) -> bool {
        flag_set(self.rf, 7)
    }

    pub open spec fn nf(&self) -> bool {
        flag_set(self.rf, 6)
    }

    pub open spec fn hf(&self) -> bool {
        flag_set(self.rf, 5)
    }

    pub open spec fn cf(&self) -> bool {
        flag_set(self.rf, 4)
    }

    pub open spec fn carry(&self) -> int {
        if self.cf() {
            1
        } else {
            0
        }
    }

    /// Everything but A and F is as in `o`.
    pub open spec fn same_but_af(&self, o: &CpuRegisters) -> bool {
        &&& self.rb == o.rb
        &&& self.rc == o.rc
        &&& self.rd == o.rd
        &&& self.re == o.re
        &&& self.rh == o.rh
        &&& self.rl == o.rl
        &&& self.sp == o.sp
        &&& self.pc == o.pc
        &&& self.ime == o.ime
        &&& self.debug == o.debug
        &&& self.halt == o.halt
    }

    /// Only F may differ from `o`.
    pub open spec fn same_but_f(&self, o: &CpuRegisters) -> bool {
        self.same_but_af(o) && self.ra == o.ra
    }

    pub fn new() -> (r: CpuRegisters)
        ensures
            r.wf(),
            r.ra == 0 && r.rf == 0 && r.rb == 0 && r.rc == 0 && r.rd == 0 && r.re == 0,
            r.rh == 0 && r.rl == 0 && r.pc == 0 && r.sp == 0,
            !r.ime && !r.debug && !r.halt,
    {
        proof {
            assert(0u8 & 0x0F == 0) by (bit_vector);
        }
        CpuRegisters {
            ra: 0,
            rf: 0,
            rb: 0,
            rc: 0,
            rd: 0,
            re: 0,
            rh: 0,
            rl: 0,
            pc: 0,
            sp: 0,
            ime: false,
            debug: false,
            halt: false,
        }
    }

    /// The registers as the boot ROM leaves them.
    pub fn atboot() -> (r: CpuRegisters)
        ensures
            r.wf(),
            r.ra == 0x01 && r.rf == 0xB0 && r.rb == 0x00 && r.rc == 0x13,
            r.rd == 0x00 && r.re == 0xD8 && r.rh == 0x01 && r.rl == 0x4D,
            r.pc == 0x0100 && r.sp == 0xFFFE,
            !r.ime && r.debug && !r.halt,
    {
        proof {
            assert(0xB0u8 & 0x0F == 0) by (bit_vector);
        }
        CpuRegisters {
            ra: 0x01,
            rf: 0xB0,
            rb: 0x00,
            rc: 0x13,
            rd: 0x00,
            re: 0xD8,
            rh: 0x01,
            rl: 0x4D,
            pc: 0x0100,
            sp: 0xFFFE,
            ime: false,
            debug: true,
            halt: false,
        }
    }

    pub fn set_flag(&mut self, flag: CFlag, val: u8)
        requires
            old(self).wf(),
        ensures
            final(self).wf(),
            final(self).same_but_f(old(self)),
            final(self).rf == spec_set_bit(old(self).rf, flag_pos(flag), val == 1),
            flag_set(final(self).rf, flag_pos(flag)) == (val == 1),
            forall|q: u8|
                4 <= q < 8 && q != flag_pos(flag) ==> flag_set(final(self).rf, q) == flag_set(
                    old(self).rf,
                    q,
                ),
    {
        let pos: u8 = match flag {
            CFlag::Z => 7,
            CFlag::S => 6,
            CFlag::H => 5,
            CFlag::CY => 4,
        };
        proof {
            lemma_set_flag(self.rf, pos, val == 1);
        }
        self.rf = set_bit(self.rf, pos, val == 1);
    }

    pub fn get_flag(&self, flag: CFlag) -> (r: u8)
        ensures
            r <= 1,
            (r == 1) == flag_set(self.rf, flag_pos(flag)),
    {
        let pos: u8 = match flag {
            CFlag::Z => 7,
            CFlag::S => 6,
            CFlag::H => 5,
            CFlag::CY => 4,
        };
        get_bit(self.rf as u16, pos)
    }

    pub fn bc(&self) -> (r: u16)
        ensures
            r == spec_join(self.rb, self.rc),
    {
        join_u8(self.rb, self.rc)
    }

    pub fn set_bc(&mut self, val: u16)
        ensures
            spec_join(final(self).rb, final(self).rc) == val,
            final(self).ra == old(self).ra && final(self).rf == old(self).rf,
            final(self).rd == old(self).rd && final(self).re == old(self).re,
            final(self).rh == old(self).rh && final(self).rl == old(self).rl,
            final(self).sp == old(self).sp && final(self).pc == old(self).pc,
            final(self).ime == old(self).ime && final(self).halt == old(self).halt,
            final(self).debug == old(self).debug,
    {
        let (h, l) = split_u16(val);
        self.rb = h;
        self.rc = l;
    }

    pub fn af(&self) -> (r: u16)
        ensures
            r == spec_join(self.ra, self.rf),
    {
        join_u8(self.ra, self.rf)
    }

    pub fn set_af(&mut self, val: u16)
        ensures
            final(self).wf(),
            final(self).ra as int == val as int / 256,
            final(self).rf == ((val % 256) as u8) & 0xF0,
            final(self).rb == old(self).rb && final(self).rc == old(self).rc,
            final(self).rd == old(self).rd && final(self).re == old(self).re,
            final(self).rh == old(self).rh && final(self).rl == old(self).rl,
            final(self).sp == old(self).sp && final(self).pc == old(self).pc,
            final(self).ime == old(self).ime && final(self).halt == old(self).halt,
            final(self).debug == old(self).debug,
    {
        let (h, l) = split_u16(val);
        self.ra = h;
        self.rf = l & 0xF0;
        proof {
            assert((l & 0xF0) & 0x0F == 0) by (bit_vector);
        }
    }

    pub fn de(&self) -> (r: u16)
        ensures
            r == spec_join(self.rd, self.re),
    {
        join_u8(self.rd, self.re)
    }

    pub fn set_de(&mut self, val: u16)
        ensures
            spec_join(final(self).rd, final(self).re) == val,
            final(self).ra == old(self).ra && final(self).rf == old(self).rf,
            final(self).rb == old(self).rb && final(self).rc == old(self).rc,
            final(self).rh == old(self).rh && final(self).rl == old(self).rl,
            final(self).sp == old(self).sp && final(self).pc == old(self).pc,
            final(self).ime == old(self).ime && final(self).halt == old(self).halt,
            final(self).debug == old(self).debug,
    {
        let (h, l) = split_u16(val);
        self.rd = h;
        self.re = l;
    }

    pub fn hl(&self) -> (r: u16)
        ensures
            r == spec_join(self.rh, self.rl),
    {
        join_u8(self.rh, self.rl)
    }

    pub fn set_hl(&mut self, val: u16)
        ensures
            spec_join(final(self).rh, final(self).rl) == val,
            final(self).ra == old(self).ra && final(self).rf == old(self).rf,
            final(self).rb == old(self).rb && final(self).rc == old(self).rc,
            final(self).rd == old(self).rd && final(self).re == old(self).re,
            final(self).sp == old(self).sp && final(self).pc == old(self).pc,
            final(self).ime == old(self).ime && final(self).halt == old(self).halt,
            final(self).debug == old(self).debug,
    {
        let (h, l) = split_u16(val);
        self.rh = h;
        self.rl = l;
    }

    pub fn daa(&mut self)
        requires
            old(self).wf(),
        ensures
            final(self).wf(),
            final(self).same_but_af(old(self)),
            (final(self).ra, final(self).cf()) == spec_daa(
                old(self).ra,
                old(self).nf(),
                old(self).hf(),
                old(self).cf(),
            ),
            final(self).rf == spec_flags(
                final(self).ra == 0,
                old(self).nf(),
                false,
                spec_daa(old(self).ra, old(self).nf(), old(self).hf(), old(self).cf()).1,
            ),
    {
        let h_flag = self.get_flag(CFlag::H) == 1;
        let c_flag = self.get_flag(CFlag::CY) == 1;
        let n_flag = self.get_flag(CFlag::S) == 1;
        let a = self.ra;
        let (res, cy) = if !n_flag {
            let a1: u8 = if c_flag || a > 0x99 { ((a as u16 + 0x60) % 256) as u8 } else { a };
            let a2: u8 = if h_flag || a1 % 16 > 9 { ((a1 as u16 + 6) % 256) as u8 } else { a1 };
            (a2, c_flag || a > 0x99)
        } else {
            let a1: u8 = if c_flag { ((a as u16 + 256 - 0x60) % 256) as u8 } else { a };
            let a2: u8 = if h_flag { ((a1 as u16 + 256 - 6) % 256) as u8 } else { a1 };
            (a2, c_flag)
        };
        self.ra = res;
        self.rf = flags_byte(res == 0, n_flag, false, cy);
    }

    pub fn rlc(&mut self, val: u8) -> (r: u8)
        requires
            old(self).wf(),
        ensures
            final(self).wf(),
            final(self).same_but_f(old(self)),
            r as int == (val as int * 2) % 256 + val as int / 128,
            r == rotl(val),
            final(self).rf == spec_flags(r == 0, false, false, val >= 128),
    {
        let msb = get_bit(val as u16, 7);
        proof {
            lemma_byte_arith(val);
        }
        let res = (val << 1) + msb;
        self.rf = flags_byte(res == 0, false, false, msb == 1);
        res
    }

    pub fn rl(&mut self, val: u8) -> (r: u8)
        requires
            old(self).wf(),
        ensures
            final(self).wf(),
            final(self).same_but_f(old(self)),
            r as int == (val as int * 2) % 256 + old(self).carry(),
            final(self).rf == spec_flags(r == 0, false, false, val >= 128),
    {
        let msb = get_bit(val as u16, 7);
        proof {
            lemma_byte_arith(val);
        }
        let res = (val << 1) + self.get_flag(CFlag::CY);
        self.rf = flags_byte(res == 0, false, false, msb == 1);
        res
    }

    pub fn sla(&mut self, val: u8) -> (r: u8)
        requires
            old(self).wf(),
        ensures
            final(self).wf(),
            final(self).same_but_f(old(self)),
            r as int == (val as int * 2) % 256,
            final(self).rf == spec_flags(r == 0, false, false, val >= 128),
    {
        let msb = get_bit(val as u16, 7);
        proof {
            lemma_byte_arith(val);
        }
        let res = val << 1;
        self.rf = flags_byte(res == 0, false, false, msb == 1);
        res
    }

    pub fn sra(&mut self, val: u8) -> (r: u8)
        requires
            old(self).wf(),
        ensures
            final(self).wf(),
            final(self).same_but_f(old(self)),
            r as int == val as int / 2 + (val as int / 128) * 128,
            final(self).rf == spec_flags(r == 0, false, false, val % 2 == 1),
    {
        let lsb = get_bit(val as u16, 0);
        let b7 = get_bit(val as u16, 7);
        proof {
            lemma_byte_arith(val);
        }
        let res = (val >> 1) + (b7 << 7);
        self.rf = flags_byte(res == 0, false, false, lsb == 1);
        res
    }

    pub fn bit(&mut self, val: u8, pos: u8)
        requires
            old(self).wf(),
            pos < 8,
        ensures
            final(self).wf(),
            final(self).same_but_f(old(self)),
            final(self).rf == spec_flags(
                spec_bit(val as u16, pos) == 0,
                false,
                true,
                old(self).cf(),
            ),
            final(self).cf() == old(self).cf(),
            final(self).hf(),
            final(self).zf() == (spec_bit(val as u16, pos) == 0),
    {
        let value = get_bit(val as u16, pos);
        let c = self.get_flag(CFlag::CY) == 1;
        self.rf = flags_byte(value == 0, false, true, c);
    }

    pub fn add_u16_i8(&mut self, a: u16, b: i8) -> (r: u16)
        requires
            old(self).wf(),
        ensures
            final(self).wf(),
            final(self).same_but_f(old(self)),
            r as int == (a as int + b as int) % 65536,
            final(self).rf == spec_flags(
                r == 0,
                false,
                (a as int % 16) + (low_byte(b) % 16) >= 16,
                (a as int % 256) + low_byte(b) >= 256,
            ),
    {
        let bl: u16 = if b >= 0 { b as u16 } else { (b as i16 + 256) as u16 };
        let res: u16 = if b >= 0 { a.wrapping_add(b as u16) } else { a.wrapping_sub((-(b as i16)) as u16) };
        let cy = (a % 256) + bl >= 256;
        let hc = (a % 16) + (bl % 16) >= 16;
        self.rf = flags_byte(res == 0, false, hc, cy);
        res
    }

    pub fn srl(&mut self, val: u8) -> (r: u8)
        requires
            old(self).wf(),
        ensures
            final(self).wf(),
            final(self).same_but_f(old(self)),
            r as int == val as int / 2,
            final(self).rf == spec_flags(r == 0, false, false, val % 2 == 1),
    {
        proof {
            lemma_byte_arith(val);
        }
        let lsb = val & 0x1;
        let val = val >> 1;
        self.rf = flags_byte(val == 0, false, false, lsb == 1);
        val
    }

    pub fn dec(&mut self, val: u8) -> (r: u8)
        requires
            old(self).wf(),
        ensures
            final(self).wf(),
            final(self).same_but_f(old(self)),
            r as int == (val as int + 255) % 256,
            final(self).rf == spec_flags(r == 0, true, val % 16 == 0, old(self).cf()),
    {
        let res = val.wrapping_sub(1);
        let c = self.get_flag(CFlag::CY) == 1;
        self.rf = flags_byte(res == 0, true, val % 16 == 0, c);
        res
    }

    /// ADD A, val.
    pub fn add_ra(&mut self, val: u8) -> (r: u8)
        requires
            old(self).wf(),
        ensures
            final(self).wf(),
            final(self).same_but_af(old(self)),
            final(self).ra as int == (old(self).ra as int + val as int) % 256,
            final(self).rf == spec_flags(
                final(self).ra == 0,
                false,
                old(self).ra as int % 16 + val as int % 16 >= 16,
                old(self).ra as int + val as int >= 256,
            ),
            r == 1,
    {
        let half_carry = (self.ra % 16) + (val % 16) >= 16;
        let res = self.ra as u16 + val as u16;
        self.ra = (res % 256) as u8;
        self.rf = flags_byte(self.ra == 0, false, half_carry, res >= 256);
        1
    }

    /// The result of SUB A, val; A itself is left to the caller.
    pub fn sub_ra(&mut self, val: u8) -> (r: u8)
        requires
            old(self).wf(),
        ensures
            final(self).wf(),
            final(self).same_but_f(old(self)),
            r as int == (old(self).ra as int - val as int + 256) % 256,
            final(self).rf == spec_flags(
                r == 0,
                true,
                old(self).ra as int % 16 < val as int % 16,
                old(self).ra < val,
            ),
    {
        let res = self.ra.wrapping_sub(val);
        let h = (self.ra % 16) < (val % 16);
        self.rf = flags_byte(res == 0, true, h, self.ra < val);
        res
    }

    /// The result of SBC A, val; A itself is left to the caller.
    pub fn sbc_ra(&mut self, val: u8) -> (r: u8)
        requires
            old(self).wf(),
        ensures
            final(self).wf(),
            final(self).same_but_f(old(self)),
            r as int == (old(self).ra as int - val as int - old(self).carry() + 512) % 256,
            final(self).rf == spec_flags(
                r == 0,
                true,
                old(self).ra as int % 16 < val as int % 16 + old(self).carry(),
                (old(self).ra as int) < val as int + old(self).carry(),
            ),
    {
        let res = self.ra.wrapping_sub(val);
        let cy = self.get_flag(CFlag::CY);
        let res = res.wrapping_sub(cy);
        let c = (self.ra as u16) < (val as u16 + cy as u16);
        let hc = (self.ra % 16) < ((val % 16) + cy);
        self.rf = flags_byte(res == 0, true, hc, c);
        res
    }

    /// ADC A, val.
    pub fn adc_ra(&mut self, val: u8) -> (r: u8)
        requires
            old(self).wf(),
        ensures
            final(self).wf(),
            final(self).same_but_af(old(self)),
            final(self).ra as int == (old(self).ra as int + val as int + old(self).carry()) % 256,
            final(self).rf == spec_flags(
                final(self).ra == 0,
                false,
                old(self).ra as int % 16 + val as int % 16 + old(self).carry() >= 16,
                old(self).ra as int + val as int + old(self).carry() >= 256,
            ),
            r == 1,
    {
        let cy = self.get_flag(CFlag::CY);
        let rem = (self.ra % 16) + (val % 16) + cy;
        let res = self.ra as u16 + val as u16 + cy as u16;
        self.ra = (res % 256) as u8;
        self.rf = flags_byte(self.ra == 0, false, rem >= 16, res >= 256);
        1
    }

    /// OR A, val.
    pub fn or_ra(&mut self, val: u8) -> (r: u8)
        requires
            old(self).wf(),
        ensures
            final(self).wf(),
            final(self).same_but_af(old(self)),
            final(self).ra == old(self).ra | val,
            final(self).rf == spec_flags(final(self).ra == 0, false, false, false),
            r == 1,
    {
        self.ra = self.ra | val;
        self.rf = flags_byte(self.ra == 0, false, false, false);
        1
    }

    /// CP A, val: the flags of SUB A, val, with A kept.
    pub fn cp_ra(&mut self, val: u8) -> (r: u8)
        requires
            old(self).wf(),
        ensures
            final(self).wf(),
            final(self).same_but_f(old(self)),
            final(self).rf == spec_flags(
                old(self).ra == val,
                true,
                old(self).ra as int % 16 < val as int % 16,
                old(self).ra < val,
            ),
            r == 1,
    {
        self.sub_ra(val);
        1
    }

    /// XOR A, val.
    pub fn xor_ra(&mut self, val: u8) -> (r: u8)
        requires
            old(self).wf(),
        ensures
            final(self).wf(),
            final(self).same_but_af(old(self)),
            final(self).ra == old(self).ra ^ val,
            final(self).rf == spec_flags(final(self).ra == 0, false, false, false),
            r == 1,
    {
        self.ra = self.ra ^ val;
        self.rf = flags_byte(self.ra == 0, false, false, false);
        1
    }

    pub fn rr(&mut self, val: u8) -> (r: u8)
        requires
            old(self).wf(),
        ensures
            final(self).wf(),
            final(self).same_but_f(old(self)),
            r as int == val as int / 2 + old(self).carry() * 128,
            final(self).rf == spec_flags(r == 0, false, false, val % 2 == 1),
    {
        proof {
            lemma_byte_arith(val);
        }
        let b0 = val & 0x1;
        let cy = self.get_flag(CFlag::CY);
        let res = (val >> 1) + cy * 128;
        self.rf = flags_byte(res == 0, false, false, b0 == 1);
        res
    }

    pub fn rrc(&mut self, val: u8) -> (r: u8)
        requires
            old(self).wf(),
        ensures
            final(self).wf(),
            final(self).same_but_f(old(self)),
            r as int == val as int / 2 + (val as int % 2) * 128,
            r == rotr(val),
            final(self).rf == spec_flags(r == 0, false, false, val % 2 == 1),
    {
        let lsb = get_bit(val as u16, 0);
        proof {
            lemma_byte_arith(val);
        }
        let res = (val >> 1) + (lsb << 7);
        self.rf = flags_byte(res == 0, false, false, lsb == 1);
        res
    }

    /// AND A, val.
    pub fn and_ra(&mut self, val: u8) -> (r: u8)
        requires
            old(self).wf(),
        ensures
            final(self).wf(),
            final(self).same_but_af(old(self)),
            final(self).ra == old(self).ra & val,
            final(self).rf == spec_flags(final(self).ra == 0, false, true, false),
            r == 1,
    {
        self.ra = self.ra & val;
        self.rf = flags_byte(self.ra == 0, false, true, false);
        1
    }

    /// LD A, val.
    pub fn ld_ra(&mut self, val: u8) -> (r: u8)
        ensures
            final(self).same_but_af(old(self)),
            final(self).rf == old(self).rf,
            final(self).ra == val,
            r == 1,
    {
        self.ra = val;
        1
    }

    pub fn swap(&mut self, val: u8) -> (r: u8)
        requires
            old(self).wf(),
        ensures
            final(self).wf(),
            final(self).same_but_f(old(self)),
            r == spec_swap(val),
            final(self).rf == spec_flags(r == 0, false, false, false),
    {
        proof {
            lemma_byte_arith(val);
        }
        let lower = val & 0b1111;
        let upper = val >> 4;
        let val = lower * 16 + upper;
        self.rf = flags_byte(val == 0, false, false, false);
        val
    }

    /// Relative jump by a signed offset.
    pub fn jr(&mut self, raddr: i8)
        ensures
            final(self).pc as int == (old(self).pc as int + raddr as int) % 65536,
            final(self).same_regs(old(self)),
    {
        self.pc = if raddr >= 0 {
            self.pc.wrapping_add(raddr as u16)
        } else {
            self.pc.wrapping_sub((-(raddr as i16)) as u16)
        };
    }

    pub fn inc(&mut self, val: u8) -> (r: u8)
        requires
            old(self).wf(),
        ensures
            final(self).wf(),
            final(self).same_but_f(old(self)),
            r as int == (val as int + 1) % 256,
            final(self).rf == spec_flags(r == 0, false, val % 16 == 15, old(self).cf()),
    {
        let res = val.wrapping_add(1);
        let c = self.get_flag(CFlag::CY) == 1;
        self.rf = flags_byte(res == 0, false, (val % 16) == 15, c);
        res
    }

    /// Everything but PC is as in `o`.
    pub open spec fn same_regs(&self, o: &CpuRegisters) -> bool {
        &&& self.ra == o.ra
        &&& self.rf == o.rf
        &&& self.rb == o.rb
        &&& self.rc == o.rc
        &&& self.rd == o.rd
        &&& self.re == o.re
        &&& self.rh == o.rh
        &&& self.rl == o.rl
        &&& self.sp == o.sp
        &&& self.ime == o.ime
        &&& self.debug == o.debug
        &&& self.halt == o.halt
    }
}

/// The byte rotated left by one bit.
pub open spec fn rotl(v: u8) -> u8 {
    (v << 1u8) | (v >> 7u8)
}

/// The byte rotated right by one bit.
pub open spec fn rotr(v: u8) -> u8 {
    (v >> 1u8) | (v << 7u8)
}

/// One RLC step on a byte and a carry: the rotated byte and the ejected bit 7.
pub open spec fn rlc_step(v: u8, c: bool) -> (u8, bool) {
    (rotl(v), v >= 128)
}

/// One RRC step on a byte and a carry: the rotated byte and the ejected bit 0.
pub open spec fn rrc_step(v: u8, c: bool) -> (u8, bool) {
    (rotr(v), v % 2 == 1)
}

/// `n` RLC steps.
pub open spec fn rlc_times(v: u8, c: bool, n: nat) -> (u8, bool)
    decreases n,
{
    if n == 0 {
        (v, c)
    } else {
        let p = rlc_times(v, c, (n - 1) as nat);
        rlc_step(p.0, p.1)
    }
}

/// `n` RRC steps.
pub open spec fn rrc_times(v: u8, c: bool, n: nat) -> (u8, bool)
    decreases n,
{
    if n == 0 {
        (v, c)
    } else {
        let p = rrc_times(v, c, (n - 1) as nat);
        rrc_step(p.0, p.1)
    }
}

proof fn lemma_rot_eight(v: u8)
    ensures
        rotl(rotl(rotl(rotl(rotl(rotl(rotl(rotl(v)))))))) == v,
        (rotl(rotl(rotl(rotl(rotl(rotl(rotl(v))))))) >= 128) == (v % 2 == 1),
        rotr(rotr(rotr(rotr(rotr(rotr(rotr(rotr(v)))))))) == v,
        (rotr(rotr(rotr(rotr(rotr(rotr(rotr(v))))))) % 2 == 1) == (v >= 128),
{
    assert(rotl(rotl(rotl(rotl(rotl(rotl(rotl(rotl(v)))))))) == v
        && (rotl(rotl(rotl(rotl(rotl(rotl(rotl(v))))))) >= 128) == (v % 2 == 1)
        && rotr(rotr(rotr(rotr(rotr(rotr(rotr(rotr(v)))))))) == v
        && (rotr(rotr(rotr(rotr(rotr(rotr(rotr(v))))))) % 2 == 1) == (v >= 128)) by (bit_vector);
}

/// SWAP undoes itself.
pub proof fn swap_self_inverse(x: u8)
    ensures
        spec_swap(spec_swap(x)) == x,
{
}

/// Eight RLC steps give the byte back; the carry they leave is the byte's bit 0, which is the
/// carry that any RLC leaves beside its result.
pub proof fn rlc_eight_cyclic(v: u8, c: bool)
    requires
        c == (v % 2 == 1),
    ensures
        rlc_times(v, c, 8) == (v, c),
{
    reveal_with_fuel(rlc_times, 9);
    lemma_rot_eight(v);
}

/// Eight RRC steps give the byte back; the carry they leave is the byte's bit 7, which is the
/// carry that any RRC leaves beside its result.
pub proof fn rrc_eight_cyclic(v: u8, c: bool)
    requires
        c == (v >= 128),
    ensures
        rrc_times(v, c, 8) == (v, c),
{
    reveal_with_fuel(rrc_times, 9);
    lemma_rot_eight(v);
}

/// DAA after an ADD of two operands whose nibbles are decimal digits gives such a byte again.
pub proof fn daa_after_add_is_bcd(a: u8, b: u8)
    requires
        bcd_valid(a),
        bcd_valid(b),
    ensures
        bcd_valid(
            spec_daa(
                ((a as int + b as int) % 256) as u8,
                false,
                a as int % 16 + b as int % 16 >= 16,
                a as int + b as int >= 256,
            ).0,
        ),
{
    let s: u8 = ((a as int + b as int) % 256) as u8;
    let h = a as int % 16 + b as int % 16 >= 16;
    assert(bcd_valid(spec_daa(s, false, h, false).0)) by (bit_vector)
        requires
            a % 16 < 10 && a / 16 < 10 && b % 16 < 10 && b / 16 < 10,
            s == ((a as u16 + b as u16) % 256) as u8,
            h == (a % 16 + b % 16 >= 16),
    ;
}

} // verus!
