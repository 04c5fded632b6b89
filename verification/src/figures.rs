//! Rendering of single-precision figures (CPU and GPU loads) with one
//! decimal, as `{:.1}` prints them: the exact value rounded to tenths, ties
//! to even, with its sign; `NaN`, `inf` and `-inf` for the special values.

use vstd::prelude::*;
use vstd::arithmetic::power2::{pow2, lemma_pow2_adds, lemma_pow2_unfold, lemma_pow2_strictly_increases};
use crate::ieee::{exp_field, frac_field, is_nan, scaled_abs_value, sign_bit};
use crate::size::{round_half_even, round_half_even_exec};
use crate::text::{decimal, push_decimal};

verus! {

/// The absolute value of the finite pattern `b`, in tenths, rounded to the
/// nearest integer, ties to even.
pub open spec fn tenths(b: u32) -> nat {
    round_half_even(scaled_abs_value(b) * 10, pow2(149))
}

/// `b` rendered with one decimal: `NaN`; `inf` or `-inf`; else a minus sign
/// when the sign bit is set (negative zero and negative values that round
/// to zero included), the whole tenths, a point and the last tenth.
pub open spec fn one_decimal_spec(b: u32) -> Seq<char> {
    if is_nan(b) {
        seq!['N', 'a', 'N']
    } else {
        (if sign_bit(b) {
            seq!['-']
        } else {
            Seq::empty()
        }) + if exp_field(b) == 255 {
            seq!['i', 'n', 'f']
        } else {
            decimal(tenths(b) / 10) + seq!['.'] + decimal(tenths(b) % 10)
        }
    }
}

proof fn lemma_pow2_values()
    ensures
        pow2(24) == 0x100_0000,
        pow2(64) == 0x1_0000_0000_0000_0000,
        pow2(126) == 0x4000_0000_0000_0000_0000_0000_0000_0000,
        pow2(128) == 0x1_0000_0000_0000_0000_0000_0000_0000_0000,
{
    vstd::arithmetic::power2::lemma2_to64();
    vstd::arithmetic::power2::lemma2_to64_rest();
    lemma_pow2_adds(62, 64);
    lemma_pow2_adds(64, 64);
    assert(pow2(126) == 0x4000_0000_0000_0000 * 0x1_0000_0000_0000_0000) by (nonlinear_arith)
        requires
            pow2(126) == pow2(62) * pow2(64),
            pow2(62) == 0x4000_0000_0000_0000,
            pow2(64) == 0x1_0000_0000_0000_0000,
    ;
    assert(pow2(128) == 0x1_0000_0000_0000_0000 * 0x1_0000_0000_0000_0000) by (nonlinear_arith)
        requires
            pow2(128) == pow2(64) * pow2(64),
            pow2(64) == 0x1_0000_0000_0000_0000,
    ;
}

/// `2^k` as an integer.
fn pow2_exec(k: u32) -> (r: u128)
    requires
        k <= 120,
    ensures
        r == pow2(k as nat),
{
    proof {
        vstd::arithmetic::power2::lemma2_to64();
    }
    let mut r: u128 = 1;
    let mut i: u32 = 0;
    while i < k
        invariant
            i <= k <= 120,
            r == pow2(i as nat),
        decreases k - i,
    {
        proof {
            lemma_pow2_unfold((i + 1) as nat);
            lemma_pow2_strictly_increases((i + 1) as nat, 128);
            lemma_pow2_values();
        }
        r = r * 2;
        i = i + 1;
    }
    r
}

/// Scaling the dividend and the divisor by the same factor does not change
/// the rounded quotient.
proof fn lemma_round_scaled(a: nat, d: nat, c: nat)
    requires
        d > 0,
        c > 0,
    ensures
        round_half_even(a * c, d * c) == round_half_even(a, d),
{
    let q = a / d;
    let r = a % d;
    vstd::arithmetic::div_mod::lemma_fundamental_div_mod(a as int, d as int);
    assert(a * c == q * (d * c) + r * c) by (nonlinear_arith)
        requires
            a == d * q + r,
    ;
    assert(0 <= r * c < d * c) by (nonlinear_arith)
        requires
            0 <= r < d,
            c > 0,
    ;
    vstd::arithmetic::div_mod::lemma_fundamental_div_mod_converse(
        (a * c) as int,
        (d * c) as int,
        q as int,
        (r * c) as int,
    );
    assert((2 * (r * c) > d * c) == (2 * r > d)) by (nonlinear_arith)
        requires
            c > 0,
    ;
    assert((2 * (r * c) == d * c) == (2 * r == d)) by (nonlinear_arith)
        requires
            c > 0,
    ;
}

/// Rounding an exact multiple of the divisor gives the multiple.
proof fn lemma_round_exact(x: nat, d: nat)
    requires
        d > 0,
    ensures
        round_half_even(x * d, d) == x,
{
    vstd::arithmetic::div_mod::lemma_fundamental_div_mod_converse((x * d) as int, d as int, x as int, 0);
}

/// A dividend below half the divisor rounds to zero.
proof fn lemma_round_small(a: nat, d: nat)
    requires
        2 * a < d,
    ensures
        round_half_even(a, d) == 0,
{
    vstd::arithmetic::div_mod::lemma_fundamental_div_mod_converse(a as int, d as int, 0, a as int);
}

/// The whole tenths and the last tenth of a finite pattern.
fn tenths_parts(b: u32) -> (r: (u128, u128))
    requires
        !is_nan(b),
        exp_field(b) < 255,
    ensures
        r.0 == tenths(b) / 10,
        r.1 == tenths(b) % 10,
{
    proof {
        vstd::arithmetic::power2::lemma2_to64();
        lemma_pow2_values();
    }
    let e: u32 = (b % 0x8000_0000) / 0x80_0000;
    let frac: u32 = b % 0x80_0000;
    assert(e == exp_field(b));
    assert(frac == frac_field(b));
    if e == 0 {
        proof {
            lemma_pow2_strictly_increases(64, 149);
            lemma_round_small(scaled_abs_value(b) * 10, pow2(149));
        }
        return (0, 0);
    }
    let sig: u128 = 0x80_0000 + frac as u128;
    assert(scaled_abs_value(b) == sig * pow2((e - 1) as nat));
    if e >= 150 {
        let k: u32 = e - 150;
        let p = pow2_exec(k);
        proof {
            lemma_pow2_adds(149, k as nat);
            assert(scaled_abs_value(b) * 10 == (sig * 10 * p) * pow2(149)) by (nonlinear_arith)
                requires
                    scaled_abs_value(b) == sig * pow2((e - 1) as nat),
                    pow2((e - 1) as nat) == pow2(149) * p,
            ;
            lemma_pow2_strictly_increases(0, 149);
            lemma_round_exact((sig * 10 * p) as nat, pow2(149));
        }
        proof {
            if k < 104 {
                lemma_pow2_strictly_increases(k as nat, 104);
            }
            lemma_pow2_adds(104, 24);
        }
        assert(sig * p < 0x1_0000_0000_0000_0000_0000_0000_0000_0000) by (nonlinear_arith)
            requires
                sig < 0x100_0000,
                p == pow2(k as nat),
                k <= 104,
                pow2(k as nat) <= pow2(104),
                pow2(104) * 0x100_0000 == pow2(128),
                pow2(128) == 0x1_0000_0000_0000_0000_0000_0000_0000_0000,
        {
        }
        let whole = sig * p;
        assert(sig * 10 * p == whole * 10) by (nonlinear_arith)
            requires
                whole == sig * p,
        ;
        assert(tenths(b) == whole * 10);
        return (whole, 0);
    }
    let s: u32 = 150 - e;
    let a: u128 = sig * 10;
    proof {
        lemma_pow2_adds(s as nat, (e - 1) as nat);
        vstd::arithmetic::power2::lemma_pow2_pos(s as nat);
        vstd::arithmetic::power2::lemma_pow2_pos((e - 1) as nat);
        assert(scaled_abs_value(b) * 10 == a * pow2((e - 1) as nat)) by (nonlinear_arith)
            requires
                scaled_abs_value(b) == sig * pow2((e - 1) as nat),
                a == sig * 10,
        ;
        lemma_round_scaled(a as nat, pow2(s as nat), pow2((e - 1) as nat));
    }
    if s > 100 {
        proof {
            lemma_pow2_strictly_increases(64, s as nat);
            lemma_round_small(a as nat, pow2(s as nat));
        }
        return (0, 0);
    }
    let d = pow2_exec(s);
    proof {
        if s < 100 {
            lemma_pow2_strictly_increases(s as nat, 100);
        }
        lemma_pow2_strictly_increases(100, 126);
    }
    let t = round_half_even_exec(a, d);
    (t / 10, t % 10)
}

/// `b` rendered with one decimal, as `format!("{:.1}", f32::from_bits(b))`.
pub fn fmt_one_decimal(b: u32) -> (r: String)
    ensures
        r@ == one_decimal_spec(b),
{
    proof {
        reveal_strlit("NaN");
        reveal_strlit("-");
        reveal_strlit("inf");
        reveal_strlit(".");
    }
    if b % 0x8000_0000 > 0x7f80_0000 {
        let s = String::from_str("NaN");
        assert(s@ =~= one_decimal_spec(b));
        return s;
    }
    let mut s = String::new();
    if b >= 0x8000_0000 {
        s.append("-");
    }
    let ghost prefix = s@;
    assert(prefix =~= (if sign_bit(b) { seq!['-'] } else { Seq::<char>::empty() }));
    if (b % 0x8000_0000) / 0x80_0000 == 255 {
        s.append("inf");
    } else {
        let (whole, last) = tenths_parts(b);
        push_decimal(&mut s, whole);
        s.append(".");
        push_decimal(&mut s, last);
    }
    assert(s@ =~= one_decimal_spec(b));
    s
}

} // verus!
