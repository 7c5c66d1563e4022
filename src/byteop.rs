use vstd::prelude::*;

verus! {

/// The 16-bit value whose high byte is `h` and low byte is `l`.
pub open spec fn spec_join(h: u8, l: u8) -> u16 {
    (h as int * 256 + l as int) as u16
}

/// Bit `pos` of `v`, as 0 or 1.
pub open spec fn spec_bit(v: u16, pos: u8) -> u8 {
    ((v >> pos) & 1) as u8
}

/// `reg` with bit `pos` forced to `val`.
pub open spec fn spec_set_bit(reg: u8, pos: u8, val: bool) -> u8 {
    if val {
        reg | (1u8 << pos)
    } else {
        reg & !(1u8 << pos)
    }
}

/// The upper-case hexadecimal digit of a value below 16.
pub open spec fn hex_digit(d: u8) -> char {
    if d <= 9 {
        (d + 48) as char
    } else {
        (d + 55) as char
    }
}

/// The four upper-case hexadecimal digits of `v`, most significant first.
pub open spec fn hex4(v: u16) -> Seq<char> {
    seq![
        hex_digit((v / 4096) as u8),
        hex_digit(((v / 256) % 16) as u8),
        hex_digit(((v / 16) % 16) as u8),
        hex_digit((v % 16) as u8),
    ]
}

pub fn join_u8(h: u8, l: u8) -> (r: u16)
    ensures
        r == spec_join(h, l),
        r as int == h as int * 256 + l as int,
{
    (h as u16) * 256 + l as u16
}

pub fn split_u16(hl: u16) -> (r: (u8, u8))
    ensures
        r.0 as int == hl as int / 256,
        r.1 as int == hl as int % 256,
        spec_join(r.0, r.1) == hl,
{
    let l = (hl % 256) as u8;
    let h = (hl / 256) as u8;
    (h, l)
}

/// Get the nth bit of the register.
pub fn get_bit(reg: u16, pos: u8) -> (r: u8)
    requires
        pos < 16,
    ensures
        r == spec_bit(reg, pos),
        r <= 1,
{
    proof {
        assert(((reg >> pos) & 1) <= 1) by (bit_vector);
    }
    ((reg >> pos) & 1) as u8
}

pub fn set_bit(reg: u8, pos: u8, val: bool) -> (r: u8)
    requires
        pos < 8,
    ensures
        r == spec_set_bit(reg, pos, val),
{
    let mask: u8 = 1 << pos;
    if val {
        reg | mask
    } else {
        reg & !mask
    }
}

fn b_repr(byte: u8) -> (r: char)
    requires
        byte < 16,
    ensures
        r == hex_digit(byte),
{
    if byte <= 9 {
        (byte + 48) as char
    } else {
        (byte + 55) as char
    }
}

/// Relies on `String::from_iter`: the string holds the characters in order.
#[verifier::external_body]
fn string_of(chars: Vec<char>) -> (r: String)
    ensures
        r@ == chars@,
{
    String::from_iter(chars)
}

/// The value as four upper-case hexadecimal digits.
pub fn b64(arg: u16) -> (r: String)
    ensures
        r@ == hex4(arg),
{
    let mut chars: Vec<char> = Vec::new();
    chars.push(b_repr((arg / 4096) as u8));
    chars.push(b_repr(((arg / 256) % 16) as u8));
    chars.push(b_repr(((arg / 16) % 16) as u8));
    chars.push(b_repr((arg % 16) as u8));
    proof {
        assert(chars@ =~= hex4(arg));
    }
    string_of(chars)
}

/// The byte as two upper-case hexadecimal digits.
pub fn b64_u8(arg: u8) -> (r: String)
    ensures
        r@ == seq![hex_digit(arg / 16), hex_digit(arg % 16)],
{
    let mut chars: Vec<char> = Vec::new();
    chars.push(b_repr(arg / 16));
    chars.push(b_repr(arg % 16));
    proof {
        assert(chars@ =~= seq![hex_digit(arg / 16), hex_digit(arg % 16)]);
    }
    string_of(chars)
}

/// Rotates `reg` left through a carry `cy`: returns the ejected bit 7 and the result.
pub fn rl(cy: u8, reg: u8) -> (r: (u8, u8))
    requires
        cy <= 1,
    ensures
        r.0 as int == reg as int / 128,
        r.1 as int == (reg as int * 2) % 256 + cy as int,
{
    let msb = get_bit(reg as u16, 7);
    proof {
        assert(((reg as u16 >> 7u8) & 1) as int == reg as int / 128) by (bit_vector);
        assert((reg << 1u8) as int == (reg as int * 2) % 256) by (bit_vector);
    }
    (msb, (reg << 1) + cy)
}

pub fn res(reg: &mut u8, pos: u8) -> (r: u8)
    requires
        pos < 8,
    ensures
        *final(reg) == spec_set_bit(*old(reg), pos, false),
        r == 2,
{
    *reg = set_bit(*reg, pos, false);
    2
}

pub fn set(reg: &mut u8, pos: u8) -> (r: u8)
    requires
        pos < 8,
    ensures
        *final(reg) == spec_set_bit(*old(reg), pos, true),
        r == 2,
{
    *reg = set_bit(*reg, pos, true);
    2
}

} // verus!
