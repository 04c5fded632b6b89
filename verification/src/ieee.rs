//! Single-precision floating-point values carried as their IEEE-754 bit
//! patterns, with the comparisons the monitor makes on them.

use vstd::prelude::*;
use vstd::arithmetic::power2::{pow2, lemma_pow2_adds, lemma_pow2_unfold};
use crate::size::round_half_even;

verus! {

/// Bit pattern of the single-precision value `-1.0`.
pub const MINUS_ONE_BITS: u32 = 0xbf80_0000u32;

/// The sign bit of a bit pattern.
pub open spec fn sign_bit(b: u32) -> bool {
    b >= 0x8000_0000
}

/// The bit pattern without its sign bit: exponent and fraction fields.
pub open spec fn magnitude(b: u32) -> int {
    (b % 0x8000_0000) as int
}

/// A pattern is NaN when its exponent field is all ones and its fraction
/// field is not zero.
pub open spec fn is_nan(b: u32) -> bool {
    magnitude(b) > 0x7f80_0000
}

/// An integer that orders the non-NaN values as the reals (and the two
/// infinities) they stand for; both zeros map to `0`.
pub open spec fn order_key(b: u32) -> int {
    if sign_bit(b) {
        -magnitude(b)
    } else {
        magnitude(b)
    }
}

/// `a < b` on the values whose bit patterns are `a` and `b`: false as soon
/// as one of them is NaN.
pub open spec fn value_lt(a: u32, b: u32) -> bool {
    !is_nan(a) && !is_nan(b) && order_key(a) < order_key(b)
}

/// `a >= b` on the values whose bit patterns are `a` and `b`: false as
/// soon as one of them is NaN.
pub open spec fn value_ge(a: u32, b: u32) -> bool {
    !is_nan(a) && !is_nan(b) && !value_lt(a, b)
}

/// Whether the value is NaN.
pub fn bits_is_nan(b: u32) -> (r: bool)
    ensures
        r == is_nan(b),
{
    b % 0x8000_0000 > 0x7f80_0000
}

fn key_of(b: u32) -> (k: i64)
    ensures
        k == order_key(b),
{
    let m: i64 = (b % 0x8000_0000) as i64;
    if b >= 0x8000_0000 {
        -m
    } else {
        m
    }
}

/// `a < b` on the values whose bit patterns are `a` and `b`.
pub fn bits_lt(a: u32, b: u32) -> (r: bool)
    ensures
        r == value_lt(a, b),
{
    !bits_is_nan(a) && !bits_is_nan(b) && key_of(a) < key_of(b)
}

/// `v < 0.0` for the value whose bit pattern is `v`.
pub fn bits_is_negative(v: u32) -> (r: bool)
    ensures
        r == value_lt(v, 0),
{
    bits_lt(v, 0)
}

/// The biased exponent field of a bit pattern.
pub open spec fn exp_field(b: u32) -> nat {
    (magnitude(b) / 0x80_0000) as nat
}

/// The fraction field of a bit pattern.
pub open spec fn frac_field(b: u32) -> nat {
    (b % 0x80_0000) as nat
}

/// The absolute value of a finite pattern's value, times `2^149` (which makes
/// it an integer): `(2^23 + frac) * 2^(exp - 1)` for normal numbers,
/// `frac` for subnormal ones.
pub open spec fn scaled_abs_value(b: u32) -> nat {
    if exp_field(b) == 0 {
        frac_field(b)
    } else {
        (0x80_0000 + frac_field(b)) * pow2((exp_field(b) - 1) as nat)
    }
}

/// Spacing of the single-precision values around the integer `n`: the
/// smallest power of two `u` with `n / u < 2^24`.
pub open spec fn f32_spacing(n: nat) -> nat
    decreases n,
{
    if n < 0x100_0000 || n == 0 {
        1
    } else {
        2 * f32_spacing(n / 2)
    }
}

/// The single-precision value nearest to the integer `n`, ties to an even
/// significand.
pub open spec fn nearest_f32(n: nat) -> nat {
    round_half_even(n, f32_spacing(n)) * f32_spacing(n)
}

/// The absolute value of `v`.
pub open spec fn abs_i32(v: i32) -> nat {
    if v < 0 {
        (-v) as nat
    } else {
        v as nat
    }
}

/// The bit pattern of `v as f32`: a finite value with the sign of `v`
/// whose absolute value is `|v|` rounded to the nearest single-precision
/// value, ties to even (zero gives `+0.0`).
pub fn i32_to_f32_bits(v: i32) -> (r: u32)
    ensures
        exp_field(r) < 255,
        !is_nan(r),
        sign_bit(r) == (v < 0),
        scaled_abs_value(r) == nearest_f32(abs_i32(v)) * pow2(149),
{
    proof {
        vstd::arithmetic::power2::lemma2_to64();
    }
    if v == 0 {
        assert(exp_field(0) == 0);
        assert(f32_spacing(0) == 1);
        assert(round_half_even(0, 1) == 0);
        assert(nearest_f32(0) == 0);
        return 0;
    }
    let neg = v < 0;
    let n: u64 = if neg {
        (0 - (v as i64)) as u64
    } else {
        v as u64
    };
    assert(n == abs_i32(v));
    let sig: u64;
    let efield: u64;
    if n < 0x100_0000 {
        let mut s: u64 = n;
        let mut t: u64 = 0;
        while s < 0x80_0000
            invariant
                1 <= n < 0x100_0000,
                1 <= s < 0x100_0000,
                t <= 23,
                s == n * pow2(t as nat),
                s < 0x80_0000 ==> t < 23,
            decreases 23 - t,
        {
            proof {
                lemma_pow2_unfold((t + 1) as nat);
                assert(pow2(t as nat) * 2 <= 0x80_0000 * 2) by (nonlinear_arith)
                    requires
                        s == n * pow2(t as nat),
                        n >= 1,
                        s < 0x80_0000,
                ;
            }
            s = s * 2;
            t = t + 1;
            proof {
                assert(s == n * pow2(t as nat)) by (nonlinear_arith)
                    requires
                        s == 2 * (n * pow2((t - 1) as nat)),
                        pow2(t as nat) == 2 * pow2((t - 1) as nat),
                ;
                if t >= 23 {
                    lemma_pow2_unfold(23);
                    assert(pow2(23) == 0x80_0000) by {
                        vstd::arithmetic::power2::lemma2_to64();
                    }
                    assert(s >= 0x80_0000) by (nonlinear_arith)
                        requires
                            s == n * pow2(t as nat),
                            n >= 1,
                            t >= 23,
                            pow2(t as nat) >= pow2(23),
                            pow2(23) == 0x80_0000,
                    ;
                }
            }
        }
        sig = s;
        efield = 150 - t;
        proof {
            lemma_pow2_adds(t as nat, (149 - t) as nat);
            assert(f32_spacing(n as nat) == 1);
            assert(round_half_even(n as nat, 1) == n);
            assert(sig * pow2((efield - 1) as nat) == n * pow2(149)) by (nonlinear_arith)
                requires
                    sig == n * pow2(t as nat),
                    pow2(t as nat) * pow2((149 - t) as nat) == pow2(149),
                    efield - 1 == 149 - t,
            ;
        }
    } else {
        let mut m: u64 = n;
        let mut d: u64 = 1;
        let mut j: u64 = 0;
        while m >= 0x100_0000
            invariant
                0x100_0000 <= n <= 0x8000_0000,
                d == pow2(j as nat),
                1 <= d <= 256,
                j <= 8,
                m == n as nat / d as nat,
                m >= 0x80_0000,
                m >= 0x100_0000 ==> j < 8,
                d * f32_spacing(m as nat) == f32_spacing(n as nat),
            decreases m,
        {
            assert(d <= 128) by (nonlinear_arith)
                requires
                    m == n as nat / d as nat,
                    m >= 0x100_0000,
                    n <= 0x8000_0000,
                    d >= 1,
            ;
            proof {
                vstd::arithmetic::div_mod::lemma_div_denominator(n as int, d as int, 2);
                lemma_pow2_unfold((j + 1) as nat);
                assert(d * (2 * f32_spacing((m / 2) as nat)) == (2 * d) * f32_spacing((m / 2) as nat))
                    by (nonlinear_arith);
            }
            m = m / 2;
            d = d * 2;
            j = j + 1;
            proof {
                if j >= 8 {
                    assert(pow2(8) == 256) by {
                        vstd::arithmetic::power2::lemma2_to64();
                    }
                    assert(m < 0x100_0000) by (nonlinear_arith)
                        requires
                            m == n as nat / d as nat,
                            d == pow2(j as nat),
                            j == 8,
                            pow2(8) == 256,
                            n <= 0x8000_0000,
                    ;
                }
            }
        }
        assert(d == f32_spacing(n as nat)) by (nonlinear_arith)
            requires
                d * f32_spacing(m as nat) == f32_spacing(n as nat),
                f32_spacing(m as nat) == 1,
        ;
        let q0: u64 = n / d;
        let rem: u64 = n % d;
        let mut q: u64 = if 2 * rem > d || (2 * rem == d && q0 % 2 == 1) {
            q0 + 1
        } else {
            q0
        };
        assert(q == round_half_even(n as nat, d as nat));
        let ghost value = q * d;
        let mut jj: u64 = j;
        if q == 0x100_0000 {
            q = 0x80_0000;
            jj = jj + 1;
            proof {
                lemma_pow2_unfold(jj as nat);
            }
        }
        assert(q * pow2(jj as nat) == value);
        sig = q;
        efield = 150 + jj;
        proof {
            lemma_pow2_adds(149, jj as nat);
            assert(sig * pow2((efield - 1) as nat) == value * pow2(149)) by (nonlinear_arith)
                requires
                    sig * pow2(jj as nat) == value,
                    pow2((149 + jj) as nat) == pow2(149) * pow2(jj as nat),
                    efield - 1 == 149 + jj,
            ;
        }
    }
    let sign: u32 = if neg {
        0x8000_0000
    } else {
        0
    };
    let r: u32 = sign + (efield as u32) * 0x80_0000 + (sig - 0x80_0000) as u32;
    assert(magnitude(r) == efield * 0x80_0000 + (sig - 0x80_0000));
    assert(exp_field(r) == efield);
    assert(frac_field(r) == sig - 0x80_0000);
    r
}

/// Integers of magnitude below `2^24` are single-precision values
/// themselves: converting them loses nothing.
pub proof fn lemma_small_integers_exact(n: nat)
    requires
        n < 0x100_0000,
    ensures
        nearest_f32(n) == n,
{
    assert(f32_spacing(n) == 1);
}

} // verus!
