//! Numeric constants, which the front end and the IR hold as the bit pattern
//! of an IEEE-754 double: the double nearest to a decimal integer literal,
//! and the integer value of a double.

use vstd::prelude::*;
use vstd::arithmetic::power2::{pow2, lemma2_to64, lemma2_to64_rest, lemma_pow2_pos, lemma_pow2_strictly_increases};
use vstd::bits::{lemma_u64_shl_is_mul, lemma_u64_shr_is_div};

verus! {

/// `2^52`: the implicit leading bit of a normal double's significand.
pub open spec fn hidden_bit() -> int {
    0x10_0000_0000_0000
}

/// The integer that `as i64` gives for the double with bit pattern `bits`:
/// its value rounded toward zero and clamped to the range of `i64`, and zero
/// for a NaN.
pub open spec fn double_to_int(bits: u64) -> int {
    let neg = bits >= 0x8000_0000_0000_0000u64;
    let e = (bits / 0x10_0000_0000_0000u64) % 0x800;
    let m = bits % 0x10_0000_0000_0000u64;
    if e == 0x7ff && m != 0 {
        0
    } else {
        let mag: int = if e == 0x7ff {
            pow2(64) as int
        } else if e >= 1075 {
            (hidden_bit() + m) * pow2((e - 1075) as nat)
        } else {
            (hidden_bit() + m) / (pow2((1075 - e) as nat) as int)
        };
        if neg {
            if -mag < i64::MIN { i64::MIN as int } else { -mag }
        } else {
            if mag > i64::MAX { i64::MAX as int } else { mag }
        }
    }
}

/// `f64::from_bits(bits) as i64`, computed on the bit pattern.
pub fn double_to_i64(bits: u64) -> (r: i64)
    ensures
        r == double_to_int(bits),
{
    proof {
        lemma2_to64();
        lemma2_to64_rest();
    }
    let neg = bits >= 0x8000_0000_0000_0000u64;
    let e = (bits / 0x10_0000_0000_0000u64) % 0x800;
    let m = bits % 0x10_0000_0000_0000u64;
    let sig = 0x10_0000_0000_0000u64 + m;
    if e == 0x7ff {
        if m != 0 {
            0
        } else if neg {
            i64::MIN
        } else {
            i64::MAX
        }
    } else if e >= 1086 {
        proof {
            if e - 1075 > 11 {
                lemma_pow2_strictly_increases(11, (e - 1075) as nat);
            }
            assert(pow2(11) == 2048);
            assert(sig * pow2((e - 1075) as nat) >= 0x10_0000_0000_0000 * 2048) by (nonlinear_arith)
                requires
                    sig >= 0x10_0000_0000_0000,
                    pow2((e - 1075) as nat) >= 2048,
            ;
        }
        if neg {
            i64::MIN
        } else {
            i64::MAX
        }
    } else if e >= 1075 {
        let k = e - 1075;
        proof {
            if k < 10 {
                lemma_pow2_strictly_increases(k as nat, 10);
            }
            assert(sig * pow2(k as nat) <= 0x1f_ffff_ffff_ffff * 1024) by (nonlinear_arith)
                requires
                    sig <= 0x1f_ffff_ffff_ffff,
                    pow2(k as nat) <= 1024,
            ;
            lemma_u64_shl_is_mul(sig, k);
        }
        let mag = sig << k;
        if neg {
            -(mag as i64)
        } else {
            mag as i64
        }
    } else if 1075 - e >= 64 {
        proof {
            lemma_pow2_strictly_increases(54, (1075 - e) as nat);
            assert(pow2(54) == 0x40_0000_0000_0000);
            assert((sig as int) / (pow2((1075 - e) as nat) as int) == 0) by (nonlinear_arith)
                requires
                    0 <= sig < 0x20_0000_0000_0000,
                    pow2((1075 - e) as nat) > 0x20_0000_0000_0000,
            ;
        }
        0
    } else {
        let k = 1075 - e;
        proof {
            lemma_u64_shr_is_div(sig, k);
            lemma_pow2_pos(k as nat);
            assert((sig as int) / (pow2(k as nat) as int) <= sig) by (nonlinear_arith)
                requires
                    sig >= 0,
                    pow2(k as nat) >= 1,
            ;
        }
        let mag = sig >> k;
        if neg {
            -(mag as i64)
        } else {
            mag as i64
        }
    }
}


/// The bit pattern of positive infinity.
pub open spec fn infinity_bits() -> u64 {
    0x7ff0_0000_0000_0000
}

/// The value of a decimal digit character.
pub open spec fn digit_value(c: char) -> nat {
    ((c as u32) - 48) as nat
}

/// Whether `c` is one of `0`..`9`.
pub open spec fn is_digit(c: char) -> bool {
    '0' <= c && c <= '9'
}

/// The number written by a run of decimal digits.
pub open spec fn digits_value(d: Seq<char>) -> nat
    decreases d.len(),
{
    if d.len() == 0 {
        0
    } else {
        10 * digits_value(d.drop_last()) + digit_value(d.last())
    }
}

/// The number written by a sequence of digit values, most significant first.
pub open spec fn digit_seq_value(d: Seq<u8>) -> nat
    decreases d.len(),
{
    if d.len() == 0 {
        0
    } else {
        10 * digit_seq_value(d.drop_last()) + d.last() as nat
    }
}

/// `10^n`.
pub open spec fn pow10(n: nat) -> nat
    decreases n,
{
    if n == 0 {
        1
    } else {
        10 * pow10((n - 1) as nat)
    }
}

/// A nonzero significand `m` below `2^52` shifted left, and the exponent
/// `e` lowered, until its leading bit stands at position 52.
pub open spec fn normalize(m: nat, e: int) -> (nat, int)
    decreases (if m < 0x10_0000_0000_0000 { 0x10_0000_0000_0000 - m } else { 0 }) as nat,
{
    if m == 0 || m >= 0x10_0000_0000_0000 {
        (m, e)
    } else {
        normalize(2 * m, e - 1)
    }
}

/// The double `m * 2^(e - 52)` for a nonzero `m < 2^53`: its significand is
/// normalized, and an exponent past the largest finite one gives infinity.
pub open spec fn exact_double(m: nat, e: int) -> u64 {
    let (s, x) = normalize(m, e);
    if x + 1023 >= 2047 {
        infinity_bits()
    } else {
        ((x + 1023) * 0x10_0000_0000_0000 + (s - 0x10_0000_0000_0000)) as u64
    }
}

/// The double nearest to `q * 2^k`, where `sticky` tells that the true value
/// is a little above that (bits below `2^k` were dropped): `q` is halved,
/// remembering dropped bits, until it holds 54 bits; the last of them is the
/// rounding bit, and a tie goes to the even significand. A significand that
/// rounds up to `2^53` moves to the next exponent; past the largest finite
/// double the result is infinity.
pub open spec fn round_scaled(q: nat, k: nat, sticky: bool) -> u64
    decreases q,
{
    if q >= 0x40_0000_0000_0000 {
        round_scaled(q / 2, k + 1, sticky || q % 2 == 1)
    } else if q == 0 {
        0
    } else if q < 0x20_0000_0000_0000 {
        exact_double(q, 52 + k as int)
    } else {
        let half = q / 2;
        let up = q % 2 == 1 && (sticky || half % 2 == 1);
        let sig: nat = if up { half + 1 } else { half };
        if sig == 0x20_0000_0000_0000 {
            exact_double(0x10_0000_0000_0000, 54 + k as int)
        } else {
            exact_double(sig, 53 + k as int)
        }
    }
}

/// The bit pattern of the double nearest to `n` (ties to even), infinity
/// when `n` is past the largest finite double.
pub open spec fn nat_to_double(n: nat) -> u64 {
    round_scaled(n, 0, false)
}

proof fn lemma_digit_seq_bounds(d: Seq<u8>)
    requires
        forall|i: int| 0 <= i < d.len() ==> d[i] < 10,
    ensures
        digit_seq_value(d) < pow10(d.len()),
        d.len() > 0 && d[0] >= 1 ==> digit_seq_value(d) >= pow10((d.len() - 1) as nat),
    decreases d.len(),
{
    if d.len() > 0 {
        let p = d.drop_last();
        lemma_digit_seq_bounds(p);
        if d.len() > 1 {
            assert(p[0] == d[0]);
        }
    }
}

proof fn lemma_pow10_38()
    ensures
        pow10(38) == 100_000_000_000_000_000_000_000_000_000_000_000_000nat,
{
    reveal_with_fuel(pow10, 39);
}

proof fn lemma_pow10_mono(a: nat, b: nat)
    requires
        a <= b,
    ensures
        pow10(a) <= pow10(b),
    decreases b,
{
    if a < b {
        lemma_pow10_mono(a, (b - 1) as nat);
    }
}

/// An infinite result stays infinite: once the exponent is past the largest
/// finite one, more halving does not bring it back.
proof fn lemma_round_overflows(q: nat, k: nat, sticky: bool)
    requires
        q >= 0x20_0000_0000_0000,
        k >= 971,
    ensures
        round_scaled(q, k, sticky) == infinity_bits(),
    decreases q,
{
    if q >= 0x40_0000_0000_0000 {
        lemma_round_overflows(q / 2, k + 1, sticky || q % 2 == 1);
    } else {
        let half = q / 2;
        let up = q % 2 == 1 && (sticky || half % 2 == 1);
        let sig: nat = if up { half + 1 } else { half };
        assert(sig >= 0x10_0000_0000_0000);
        if sig == 0x20_0000_0000_0000 {
            assert(normalize(0x10_0000_0000_0000, 54 + k as int) == (0x10_0000_0000_0000nat, 54 + k as int));
        } else {
            assert(normalize(sig, 53 + k as int) == (sig, 53 + k as int));
        }
    }
}

/// Halves a nonzero decimal number given by its digits: the quotient's
/// digits, without a leading zero, and the remainder.
fn halve_digits(v: &Vec<u8>) -> (r: (Vec<u8>, u8))
    requires
        v@.len() > 0,
        v@[0] != 0,
        forall|i: int| 0 <= i < v@.len() ==> v@[i] < 10,
    ensures
        digit_seq_value(v@) == 2 * digit_seq_value(r.0@) + r.1,
        r.1 < 2,
        forall|i: int| 0 <= i < r.0@.len() ==> r.0@[i] < 10,
        r.0@.len() > 0 ==> r.0@[0] != 0,
        r.0@.len() + 1 >= v@.len(),
{
    let mut out: Vec<u8> = Vec::new();
    let mut rem: u8 = 0;
    let mut i: usize = 0;
    while i < v.len()
        invariant
            0 <= i <= v@.len(),
            v@.len() > 0,
            v@[0] != 0,
            forall|j: int| 0 <= j < v@.len() ==> v@[j] < 10,
            rem < 2,
            digit_seq_value(v@.take(i as int)) == 2 * digit_seq_value(out@) + rem,
            forall|j: int| 0 <= j < out@.len() ==> out@[j] < 10,
            out@.len() > 0 ==> out@[0] != 0,
            out@.len() + 1 >= i,
            i >= 1 && out@.len() == 0 ==> rem == 1,
            i == 0 ==> out@.len() == 0 && rem == 0,
        decreases v@.len() - i,
    {
        let x: u8 = rem * 10 + v[i];
        let ghost before = out@;
        if out.len() == 0 && x / 2 == 0 {
            assert(x == 1) by {
                if i >= 1 {
                    assert(rem == 1);
                } else {
                    assert(v@[0] != 0);
                }
            }
        } else {
            out.push(x / 2);
            assert(out@.drop_last() == before);
        }
        rem = x % 2;
        assert(v@.take(i + 1).drop_last() == v@.take(i as int));
        i = i + 1;
    }
    assert(v@.take(v@.len() as int) == v@);
    (out, rem)
}

/// The double nearest to the number written by the decimal digits `d`, as
/// `str::parse::<f64>` gives it for a digit string.
pub fn digits_to_double(d: &[char]) -> (r: u64)
    requires
        forall|i: int| 0 <= i < d@.len() ==> is_digit(#[trigger] d@[i]),
    ensures
        r == nat_to_double(digits_value(d@)),
{
    let mut v: Vec<u8> = Vec::new();
    let mut i: usize = 0;
    while i < d.len()
        invariant
            0 <= i <= d@.len(),
            forall|j: int| 0 <= j < d@.len() ==> is_digit(#[trigger] d@[j]),
            digit_seq_value(v@) == digits_value(d@.take(i as int)),
            forall|j: int| 0 <= j < v@.len() ==> v@[j] < 10,
            v@.len() > 0 ==> v@[0] != 0,
        decreases d@.len() - i,
    {
        assert(is_digit(d@[i as int]));
        let x: u8 = ((d[i] as u32) - 48) as u8;
        assert(d@.take(i + 1).drop_last() == d@.take(i as int));
        let ghost before = v@;
        if !(v.len() == 0 && x == 0) {
            v.push(x);
            assert(v@.drop_last() == before);
        }
        i = i + 1;
    }
    assert(d@.take(d@.len() as int) == d@);
    let ghost target = nat_to_double(digits_value(d@));
    let mut k: u64 = 0;
    let mut sticky = false;
    while v.len() > 38
        invariant
            forall|j: int| 0 <= j < v@.len() ==> v@[j] < 10,
            v@.len() > 0 ==> v@[0] != 0,
            k <= 2000,
            k < 2000 ==> round_scaled(digit_seq_value(v@), k as nat, sticky) == target,
            k == 2000 ==> target == infinity_bits() && digit_seq_value(v@) >= 0x20_0000_0000_0000,
        decreases digit_seq_value(v@),
    {
        let ghost q = digit_seq_value(v@);
        proof {
            lemma_digit_seq_bounds(v@);
            lemma_pow10_mono(38, (v@.len() - 1) as nat);
            lemma_pow10_38();
        }
        let (h, r) = halve_digits(&v);
        proof {
            assert(q / 2 == digit_seq_value(h@) && q % 2 == r as nat);
            if k < 2000 && k >= 971 {
                lemma_round_overflows(q, k as nat, sticky);
            }
        }
        sticky = sticky || r == 1;
        if k < 2000 {
            k = k + 1;
        }
        v = h;
    }
    proof {
        lemma_digit_seq_bounds(v@);
        lemma_pow10_mono(v@.len(), 38);
        lemma_pow10_38();
    }
    let mut q: u128 = 0;
    let mut j: usize = 0;
    while j < v.len()
        invariant
            0 <= j <= v@.len() <= 38,
            forall|t: int| 0 <= t < v@.len() ==> v@[t] < 10,
            q == digit_seq_value(v@.take(j as int)),
            q < pow10(j as nat),
        decreases v@.len() - j,
    {
        proof {
            lemma_pow10_mono((j + 1) as nat, 38);
            lemma_pow10_38();
        }
        assert(v@.take(j + 1).drop_last() == v@.take(j as int));
        q = q * 10 + v[j] as u128;
        j = j + 1;
    }
    assert(v@.take(v@.len() as int) == v@);
    while q >= 0x40_0000_0000_0000
        invariant
            k <= 2000,
            k < 2000 ==> round_scaled(q as nat, k as nat, sticky) == target,
            k == 2000 ==> target == infinity_bits() && q >= 0x20_0000_0000_0000,
        decreases q,
    {
        proof {
            if k < 2000 && k >= 971 {
                lemma_round_overflows(q as nat, k as nat, sticky);
            }
        }
        sticky = sticky || q % 2 == 1;
        q = q / 2;
        if k < 2000 {
            k = k + 1;
        }
    }
    if k == 2000 {
        return 0x7ff0_0000_0000_0000;
    }
    if q == 0 {
        return 0;
    }
    let mut m: u64;
    let mut e: u64;
    if q < 0x20_0000_0000_0000 {
        m = q as u64;
        e = 52 + k;
    } else {
        let half = (q / 2) as u64;
        let up = q % 2 == 1 && (sticky || half % 2 == 1);
        let sig = if up { half + 1 } else { half };
        if sig == 0x20_0000_0000_0000 {
            m = 0x10_0000_0000_0000;
            e = 54 + k;
        } else {
            m = sig;
            e = 53 + k;
        }
    }
    let ghost m0 = m as nat;
    let ghost e0 = e as int;
    assert(target == exact_double(m0, e0));
    let ghost mut shifts: nat = 0;
    proof {
        lemma2_to64();
    }
    while m < 0x10_0000_0000_0000
        invariant
            1 <= m < 0x20_0000_0000_0000,
            normalize(m as nat, e as int) == normalize(m0, e0),
            m >= pow2(shifts),
            e + shifts == e0,
            e0 >= 52,
        decreases 0x20_0000_0000_0000 - m,
    {
        proof {
            lemma2_to64_rest();
            if shifts > 52 {
                lemma_pow2_strictly_increases(52, shifts);
            }
            assert(pow2(52) == 0x10_0000_0000_0000);
            assert(shifts < 52);
            vstd::arithmetic::power2::lemma_pow2_unfold(shifts + 1);
        }
        m = m * 2;
        e = e - 1;
        proof {
            shifts = shifts + 1;
        }
    }
    assert(normalize(m as nat, e as int) == (m as nat, e as int));
    if e + 1023 >= 2047 {
        0x7ff0_0000_0000_0000
    } else {
        (e + 1023) * 0x10_0000_0000_0000 + (m - 0x10_0000_0000_0000)
    }
}


proof fn lemma_normalize(m: nat, e: int)
    requires
        1 <= m < 0x20_0000_0000_0000,
    ensures
        normalize(m, e).1 <= e,
        normalize(m, e).0 == m * pow2((e - normalize(m, e).1) as nat),
        0x10_0000_0000_0000 <= normalize(m, e).0 < 0x20_0000_0000_0000,
    decreases 0x20_0000_0000_0000 - m,
{
    if m < 0x10_0000_0000_0000 {
        lemma_normalize(2 * m, e - 1);
        let x = normalize(2 * m, e - 1).1;
        vstd::arithmetic::power2::lemma_pow2_unfold((e - x) as nat);
        assert(pow2((e - x) as nat) == 2 * pow2((e - 1 - x) as nat));
        assert(2 * m * pow2((e - 1 - x) as nat) == m * pow2((e - x) as nat)) by (nonlinear_arith)
            requires
                pow2((e - x) as nat) == 2 * pow2((e - 1 - x) as nat),
        ;
    } else {
        lemma2_to64();
        assert(m * pow2(0) == m);
    }
}

/// An integer literal below `2^53` reads back as itself: the double nearest
/// to it is exactly it, and turning that double into an integer gives it.
pub proof fn law_small_integers_round_trip(n: nat)
    requires
        n < 0x20_0000_0000_0000,
    ensures
        double_to_int(nat_to_double(n)) == n,
{
    lemma2_to64();
    lemma2_to64_rest();
    if n == 0 {
        assert(nat_to_double(0) == 0);
        lemma_pow2_strictly_increases(53, 1075);
        assert(0x10_0000_0000_0000int / (pow2(1075) as int) == 0) by (nonlinear_arith)
            requires
                pow2(1075) > 0x20_0000_0000_0000,
        ;
    } else {
        lemma_normalize(n, 52);
        let (s, x) = normalize(n, 52);
        let big_e: int = x + 1023;
        assert(0 <= x <= 52) by {
            if x < 0 {
                if 52 - x > 53 {
                    lemma_pow2_strictly_increases(53, (52 - x) as nat);
                }
                assert(n * pow2((52 - x) as nat) >= pow2((52 - x) as nat)) by (nonlinear_arith)
                    requires
                        n >= 1,
                        pow2((52 - x) as nat) >= 0,
                ;
            }
        }
        let bits: int = big_e * 0x10_0000_0000_0000 + (s - 0x10_0000_0000_0000);
        assert(nat_to_double(n) == bits as u64);
        assert(bits < 0x8000_0000_0000_0000);
        assert((bits as u64) as int == bits);
        assert(bits / 0x10_0000_0000_0000 == big_e);
        assert(bits % 0x10_0000_0000_0000 == s - 0x10_0000_0000_0000);
        let k = (52 - x) as nat;
        lemma_pow2_pos(k);
        if x == 52 {
            assert(pow2(0) == 1);
            assert(s == n * pow2(0));
            assert(s == n);
            assert((0x10_0000_0000_0000 + (s - 0x10_0000_0000_0000)) * pow2(0) == n);
        } else {
            assert(s == n * pow2(k));
            vstd::arithmetic::div_mod::lemma_div_by_multiple(n as int, pow2(k) as int);
            assert((0x10_0000_0000_0000 + (s - 0x10_0000_0000_0000)) / (pow2((1075 - big_e) as nat) as int) == n);
        }
    }
}

} // verus!
