//! Human-readable byte sizes: gibibytes with one decimal from 1 GiB up,
//! whole mebibytes below. The figures are what the double-precision
//! computation `b as f64 / 2^30` (or `/ 2^20`) printed with `{:.1}` (or
//! `{:.0}`) gives, computed exactly in integers.

use vstd::prelude::*;
use crate::text::{decimal, push_decimal};

verus! {

pub const MIB: u64 = 0x10_0000u64;

pub const GIB: u64 = 0x4000_0000u64;

/// Significands of doubles have 53 bits: integers below `2^53` are exact.
pub const F64_SIGNIFICAND_LIMIT: u64 = 0x20_0000_0000_0000u64;

/// `n / d` rounded to the nearest integer, ties to the even one.
pub open spec fn round_half_even(n: nat, d: nat) -> nat
    recommends
        d > 0,
{
    let q = n / d;
    let r = n % d;
    if 2 * r > d || (2 * r == d && q % 2 == 1) {
        q + 1
    } else {
        q
    }
}

/// Spacing of the doubles around `n`: the smallest power of two `u` with
/// `n / u < 2^53`.
pub open spec fn f64_spacing(n: nat) -> nat
    decreases n,
{
    if n < F64_SIGNIFICAND_LIMIT || n == 0 {
        1
    } else {
        2 * f64_spacing(n / 2)
    }
}

/// The double nearest to `n`, ties to an even significand: what `n as f64`
/// gives for an unsigned integer.
pub open spec fn nearest_f64(n: nat) -> nat {
    round_half_even(n, f64_spacing(n)) * f64_spacing(n)
}

/// `" GB"` and `" MB"` as character sequences.
pub open spec fn gb_suffix() -> Seq<char> {
    seq![' ', 'G', 'B']
}

pub open spec fn mb_suffix() -> Seq<char> {
    seq![' ', 'M', 'B']
}

/// The rendering of `b` bytes: from 1 GiB up, the size in GiB rounded to
/// tenths (ties to even) as `"<whole>.<tenth> GB"`; below, the size in MiB
/// rounded to a whole number (ties to even) as `"<whole> MB"`.
pub open spec fn fmt_bytes_spec(b: u64) -> Seq<char> {
    if b >= GIB {
        let tenths = round_half_even(nearest_f64(b as nat) * 10, GIB as nat);
        decimal(tenths / 10) + seq!['.'] + decimal(tenths % 10) + gb_suffix()
    } else {
        decimal(round_half_even(b as nat, MIB as nat)) + mb_suffix()
    }
}

pub(crate) fn round_half_even_exec(n: u128, d: u128) -> (r: u128)
    requires
        0 < d <= 0x4000_0000_0000_0000_0000_0000_0000_0000,
        n < 0x8000_0000_0000_0000_0000_0000_0000_0000,
    ensures
        r == round_half_even(n as nat, d as nat),
        r <= n / d + 1,
{
    let q = n / d;
    let rem = n % d;
    if 2 * rem > d || (2 * rem == d && q % 2 == 1) {
        q + 1
    } else {
        q
    }
}

/// `n as f64`, as the integer the double stands for.
fn nearest_f64_exec(n: u64) -> (r: u128)
    ensures
        r == nearest_f64(n as nat),
        r <= 0x1_0000_0000_0000_1000,
{
    let mut m: u64 = n;
    let mut d: u128 = 1;
    while m >= F64_SIGNIFICAND_LIMIT
        invariant
            1 <= d <= 0x1000,
            m == n as nat / d as nat,
            d * m <= n,
            d * f64_spacing(m as nat) == f64_spacing(n as nat),
        decreases m,
    {
        assert(d <= 0x800) by (nonlinear_arith)
            requires
                d * m <= n,
                m >= 0x20_0000_0000_0000u64,
                n <= 0xffff_ffff_ffff_ffffu64,
        ;
        proof {
            vstd::arithmetic::div_mod::lemma_div_denominator(n as int, d as int, 2);
            assert((2 * d) * (m / 2) <= d * m) by (nonlinear_arith)
                requires
                    d >= 1,
            ;
            assert(d * (2 * f64_spacing((m / 2) as nat)) == (2 * d) * f64_spacing((m / 2) as nat))
                by (nonlinear_arith);
        }
        m = m / 2;
        d = d * 2;
    }
    assert(f64_spacing(m as nat) == 1);
    let nn: u128 = n as u128;
    let q = round_half_even_exec(nn, d);
    proof {
        vstd::arithmetic::div_mod::lemma_fundamental_div_mod(nn as int, d as int);
    }
    assert(q * d <= 0x1_0000_0000_0000_1000) by (nonlinear_arith)
        requires
            q <= nn / d + 1,
            d >= 1,
            d <= 0x1000,
            nn <= 0xffff_ffff_ffff_ffffu128,
            d * (nn / d) <= nn,
    ;
    assert(d == f64_spacing(n as nat)) by (nonlinear_arith)
        requires
            d * f64_spacing(m as nat) == f64_spacing(n as nat),
            f64_spacing(m as nat) == 1,
    ;
    assert(q == round_half_even(n as nat, f64_spacing(n as nat)));
    q * d
}

/// The size `b` in bytes, rendered as the dashboard shows it.
pub fn fmt_bytes(b: u64) -> (r: String)
    ensures
        r@ == fmt_bytes_spec(b),
{
    let mut s = String::new();
    if b >= GIB {
        let f = nearest_f64_exec(b);
        let tenths = round_half_even_exec(f * 10, GIB as u128);
        push_decimal(&mut s, tenths / 10);
        proof { reveal_strlit("."); }
        s.append(".");
        push_decimal(&mut s, tenths % 10);
        proof { reveal_strlit(" GB"); }
        s.append(" GB");
    } else {
        let whole = round_half_even_exec(b as u128, MIB as u128);
        push_decimal(&mut s, whole);
        proof { reveal_strlit(" MB"); }
        s.append(" MB");
    }
    assert(s@ =~= fmt_bytes_spec(b));
    s
}

} // verus!
