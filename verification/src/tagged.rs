//! Tagged value words of the JIT runtime.
//!
//! A runtime value is a 64-bit word. An integer `n` is stored as `2n + 1`
//! (low bit set); a word with the low bit clear is a heap reference, and 0
//! is `null`.

use vstd::prelude::*;
use crate::text::{decimal, signed_decimal, i64_to_text, string_of};

verus! {

/// The word that stores the integer `val`: shifted left once, low bit set.
pub open spec fn spec_encode_int(val: i64) -> u64 {
    ((val as u64) << 1u64) | 1u64
}

/// The integer a tagged word stores: the word read as signed, shifted right once.
pub open spec fn spec_decode_int(val: u64) -> i64 {
    (val as i64) >> 1i64
}

/// Whether `val` stores an integer (low bit set).
pub fn is_int(val: u64) -> (r: bool)
    ensures
        r == (val & 1u64 == 1u64),
{
    (val & 1u64) == 1u64
}

/// The integer stored in a tagged word.
pub fn decode_int(val: u64) -> (r: i64)
    ensures
        r == spec_decode_int(val),
{
    (val as i64) >> 1i64
}

/// The tagged word of an integer.
pub fn encode_int(val: i64) -> (r: u64)
    ensures
        r == spec_encode_int(val),
{
    ((val as u64) << 1u64) | 1u64
}

/// Every encoded integer is tagged as an integer, and an integer that fits
/// 63 signed bits is decoded back from its word.
pub proof fn law_int_roundtrip(val: i64)
    ensures
        spec_encode_int(val) & 1u64 == 1u64,
        -0x4000_0000_0000_0000 <= val < 0x4000_0000_0000_0000 ==> spec_decode_int(spec_encode_int(val)) == val,
{
    assert((((val as u64) << 1u64) | 1u64) & 1u64 == 1u64) by (bit_vector);
    assert(-0x4000_0000_0000_0000i64 <= val < 0x4000_0000_0000_0000i64 ==> (((((val as u64) << 1u64)
        | 1u64) as i64) >> 1i64) == val) by (bit_vector);
}

/// The lowercase hexadecimal digit of `d` (`d < 16`).
pub open spec fn hex_char(d: nat) -> char {
    if d < 10 { ((d + 48) as u32) as char } else { ((d + 87) as u32) as char }
}

/// The lowercase hexadecimal digits of `n`, without leading zeros.
pub open spec fn hex_digits(n: nat) -> Seq<char>
    decreases n,
{
    if n < 16 {
        seq![hex_char(n)]
    } else {
        hex_digits(n / 16).push(hex_char(n % 16))
    }
}

/// How the driver shows a value word: `null` for 0, the decimal integer for
/// a tagged integer, `0x` and the lowercase hex digits for a reference.
pub open spec fn rendered(val: u64) -> Seq<char> {
    if val == 0 {
        seq!['n', 'u', 'l', 'l']
    } else if val & 1u64 == 1u64 {
        signed_decimal(spec_decode_int(val) as int)
    } else {
        seq!['0', 'x'] + hex_digits(val as nat)
    }
}

fn hex_digit(d: u64) -> (c: char)
    requires
        d < 16,
    ensures
        c == hex_char(d as nat),
{
    if d < 10 {
        let c = (d as u8 + 48u8) as char;
        c
    } else {
        let c = (d as u8 + 87u8) as char;
        c
    }
}

pub(crate) fn hex_chars(n: u64) -> (v: Vec<char>)
    ensures
        v@ == hex_digits(n as nat),
    decreases n,
{
    if n < 16 {
        let mut v = Vec::new();
        v.push(hex_digit(n));
        v
    } else {
        let mut v = hex_chars(n / 16);
        v.push(hex_digit(n % 16));
        v
    }
}

/// Renders a value word for display.
pub fn render_encoded(val: u64) -> (s: String)
    ensures
        s@ == rendered(val),
{
    if val == 0 {
        let v = vec!['n', 'u', 'l', 'l'];
        assert(v@ =~= seq!['n', 'u', 'l', 'l']);
        return string_of(v.as_slice());
    }
    if (val & 1u64) == 1u64 {
        return i64_to_text(decode_int(val));
    }
    let mut v: Vec<char> = vec!['0', 'x'];
    let d = hex_chars(val);
    let mut i: usize = 0;
    while i < d.len()
        invariant
            0 <= i <= d.len(),
            v@ == seq!['0', 'x'] + d@.take(i as int),
        decreases d.len() - i,
    {
        v.push(d[i]);
        assert(d@.take(i + 1) =~= d@.take(i as int).push(d@[i as int]));
        i = i + 1;
    }
    assert(d@.take(d@.len() as int) =~= d@);
    string_of(v.as_slice())
}

} // verus!
