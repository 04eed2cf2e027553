//! Whole numbers as floats, by their IEEE 754 bits.
//!
//! A float that is not below zero is its exponent and its significand, one behind the other, so the
//! order of the bits is that of the floats. A whole number becomes the float closest to it.
use vstd::arithmetic::power2::{
    lemma2_to64, lemma2_to64_rest, lemma_pow2_adds, lemma_pow2_pos, lemma_pow2_strictly_increases,
    lemma_pow2_unfold, pow2,
};
use vstd::prelude::*;

verus! {

/// The place of the highest bit that is set.
pub open spec fn top_bit(n: nat) -> nat
    decreases n,
{
    if n < 2 {
        0
    } else {
        1 + top_bit(n / 2)
    }
}

/// The whole number closest to `n / d`; of two that are as close, the even one.
pub open spec fn nearest(n: nat, d: nat) -> nat {
    let (below, rest) = (n / d, n % d);
    if 2 * rest > d || (2 * rest == d && below % 2 == 1) {
        below + 1
    } else {
        below
    }
}

/// The significand of a number above zero: its 53 highest bits, the rest rounded off.
pub open spec fn significand(n: nat) -> nat {
    let top = top_bit(n);
    if top <= 52 {
        n * pow2((52 - top) as nat)
    } else {
        nearest(n, pow2((top - 52) as nat))
    }
}

/// The bits of the float closest to `n`. The highest bit of the significand is not written: it adds
/// one to the exponent, and so does a significand that rounding made a bit longer.
pub open spec fn closest_float(n: nat) -> nat {
    if n == 0 {
        0
    } else {
        (1022 + top_bit(n)) * pow2(52) + significand(n)
    }
}

/// The bits of the float closest to a number of 64 bits.
pub open spec fn float_bits(n: u64) -> u64 {
    closest_float(n as nat) as u64
}

/// The bits of two to the 64th.
pub const MOST_BITS: u64 = 0x43f0_0000_0000_0000;

/// Up to here no two whole numbers are one float.
pub const EXACT_TO: u64 = 0x20_0000_0000_0000;

proof fn lemma_top_bit(n: nat)
    requires
        n > 0,
    ensures
        pow2(top_bit(n)) <= n < pow2(top_bit(n) + 1),
    decreases n,
{
    lemma2_to64();
    if n >= 2 {
        lemma_top_bit(n / 2);
        lemma_pow2_unfold(top_bit(n));
        lemma_pow2_unfold(top_bit(n) + 1);
    }
}

proof fn lemma_nearest(n: nat, d: nat, low: nat, high: nat)
    requires
        d > 0,
        low * d <= n < high * d,
    ensures
        low <= nearest(n, d) <= high,
{
    let q = n / d;
    vstd::arithmetic::div_mod::lemma_fundamental_div_mod(n as int, d as int);
    assert(low <= q) by (nonlinear_arith)
        requires
            low * d <= n,
            n == d * q + n % d,
            n % d < d,
            d > 0,
    ;
    assert(q < high) by (nonlinear_arith)
        requires
            n < high * d,
            n == d * q + n % d,
            0 <= n % d,
            d > 0,
    ;
}

proof fn lemma_nearest_in_order(a: nat, b: nat, d: nat)
    requires
        a <= b,
        d > 0,
    ensures
        nearest(a, d) <= nearest(b, d),
{
    vstd::arithmetic::div_mod::lemma_div_is_ordered(a as int, b as int, d as int);
    vstd::arithmetic::div_mod::lemma_fundamental_div_mod(a as int, d as int);
    vstd::arithmetic::div_mod::lemma_fundamental_div_mod(b as int, d as int);
    if a / d == b / d {
        assert(a % d <= b % d);
    }
}

proof fn lemma_significand(n: nat)
    requires
        n > 0,
    ensures
        pow2(52) <= significand(n) <= pow2(53),
        top_bit(n) <= 52 ==> significand(n) < pow2(53),
{
    let top = top_bit(n);
    lemma_top_bit(n);
    if top <= 52 {
        let s = (52 - top) as nat;
        lemma_pow2_pos(s);
        lemma_pow2_adds(top, s);
        lemma_pow2_adds(top + 1, s);
        assert(pow2(top) * pow2(s) <= n * pow2(s) < pow2(top + 1) * pow2(s)) by (nonlinear_arith)
            requires
                pow2(top) <= n < pow2(top + 1),
                pow2(s) > 0,
        ;
    } else {
        let s = (top - 52) as nat;
        lemma_pow2_pos(s);
        lemma_pow2_adds(52, s);
        lemma_pow2_adds(53, s);
        lemma_nearest(n, pow2(s), pow2(52), pow2(53));
    }
}

/// The float of a larger number is no smaller, and is larger where both are exact.
proof fn lemma_in_order(m: nat, n: nat)
    requires
        m <= n,
    ensures
        closest_float(m) <= closest_float(n),
        m < n <= EXACT_TO ==> closest_float(m) < closest_float(n),
{
    lemma2_to64();
    lemma2_to64_rest();
    lemma_pow2_unfold(53);
    if n > 0 {
        lemma_significand(n);
        lemma_top_bit(n);
    }
    if m > 0 {
        lemma_significand(m);
        lemma_top_bit(m);
        let (a, b) = (top_bit(m), top_bit(n));
        if b < a {
            lemma_pow2_increases(b + 1, a);
        }
        if m < EXACT_TO && a > 52 {
            lemma_pow2_increases(53, a);
        }
        if a == b {
            if a <= 52 {
                let p = pow2((52 - a) as nat);
                lemma_pow2_pos((52 - a) as nat);
                assert(m * p <= n * p && (m < n ==> m * p < n * p)) by (nonlinear_arith)
                    requires
                        m <= n,
                        p > 0,
                ;
            } else {
                lemma_pow2_pos((a - 52) as nat);
                lemma_nearest_in_order(m, n, pow2((a - 52) as nat));
            }
        }
    }
}

proof fn lemma_pow2_increases(a: nat, b: nat)
    requires
        a <= b,
    ensures
        pow2(a) <= pow2(b),
{
    if a < b {
        lemma_pow2_strictly_increases(a, b);
    }
}

/// The bits of a number of 64 bits are at most those of two to the 64th.
pub proof fn lemma_fits(n: u64)
    ensures
        closest_float(n as nat) <= MOST_BITS,
        float_bits(n) == closest_float(n as nat),
{
    lemma2_to64();
    lemma2_to64_rest();
    lemma_pow2_unfold(53);
    if n > 0 {
        lemma_top_bit(n as nat);
        lemma_significand(n as nat);
        if top_bit(n as nat) > 63 {
            lemma_pow2_increases(64, top_bit(n as nat));
        }
    }
}

/// Whole numbers keep their order as floats: a larger one is no smaller, and up to two to the 53rd
/// it is larger.
pub proof fn law_floats_keep_order(m: u64, n: u64)
    requires
        m <= n,
    ensures
        float_bits(m) <= float_bits(n),
        m < n <= EXACT_TO ==> float_bits(m) < float_bits(n),
{
    lemma_fits(m);
    lemma_fits(n);
    lemma_in_order(m as nat, n as nat);
}

} // verus!
