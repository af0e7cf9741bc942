//! Plain-text rendering of numbers and byte strings.
//!
//! Prompt bodies and the address part of a reply are ASCII byte strings;
//! these helpers produce them and are specified exactly.

use vstd::prelude::*;

verus! {

/// ASCII code of the lowercase hexadecimal digit for a value below sixteen.
pub open spec fn hex_digit(n: u8) -> u8
    recommends
        n < 16,
{
    if n < 10 {
        (0x30 + n) as u8
    } else {
        (0x57 + n) as u8
    }
}

/// Two lowercase hexadecimal characters per byte, in byte order.
pub open spec fn hex_bytes(s: Seq<u8>) -> Seq<u8>
    decreases s.len(),
{
    if s.len() == 0 {
        Seq::empty()
    } else {
        hex_bytes(s.drop_last()) + seq![hex_digit(s.last() / 16), hex_digit(s.last() % 16)]
    }
}

/// The decimal digits of `n` in ASCII, most significant first, no sign,
/// no leading zero except for `n == 0` itself.
pub open spec fn dec_digits(n: u64) -> Seq<u8>
    decreases n,
{
    if n < 10 {
        seq![(0x30 + n) as u8]
    } else {
        dec_digits(n / 10) + seq![(0x30 + n % 10) as u8]
    }
}

fn hex_digit_char(n: u8) -> (r: u8)
    requires
        n < 16,
    ensures
        r == hex_digit(n),
{
    if n < 10 {
        0x30 + n
    } else {
        0x57 + n
    }
}

/// Hexadecimal rendering of a byte string.
pub fn render_hex(s: &Vec<u8>) -> (r: Vec<u8>)
    ensures
        r@ == hex_bytes(s@),
{
    let mut r: Vec<u8> = Vec::new();
    let mut i: usize = 0;
    while i < s.len()
        invariant
            i <= s.len(),
            r@ == hex_bytes(s@.take(i as int)),
        decreases s.len() - i,
    {
        let b = s[i];
        r.push(hex_digit_char(b / 16));
        r.push(hex_digit_char(b % 16));
        proof {
            let t = s@.take(i + 1 as int);
            assert(t.drop_last() =~= s@.take(i as int));
            assert(t.last() == b);
        }
        i = i + 1;
    }
    proof {
        assert(s@.take(s@.len() as int) =~= s@);
    }
    r
}

/// Decimal rendering of an unsigned number.
pub fn render_dec(n: u64) -> (r: Vec<u8>)
    ensures
        r@ == dec_digits(n),
    decreases n,
{
    if n < 10 {
        let mut r: Vec<u8> = Vec::new();
        r.push(0x30 + n as u8);
        r
    } else {
        let mut r = render_dec(n / 10);
        r.push(0x30 + (n % 10) as u8);
        r
    }
}

} // verus!
