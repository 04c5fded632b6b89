//! The accelerator's engine list, built from its performance statistics.

use vstd::prelude::*;
use vstd::arithmetic::power2::pow2;
use crate::ieee::lemma_small_integers_exact;
use crate::ieee::{
    abs_i32, exp_field, i32_to_f32_bits, is_nan, nearest_f32, scaled_abs_value, sign_bit,
    value_lt, bits_is_negative, MINUS_ONE_BITS,
};
use crate::metrics::GpuCore;

verus! {

/// Utilization readings, in percent, of the accelerator's engines, each
/// present when the statistics hold it.
#[derive(Clone, Copy, Debug, PartialEq, Eq)]
pub struct EngineReadings {
    pub device: Option<i32>,
    pub renderer: Option<i32>,
    pub tiler: Option<i32>,
}

/// `b` is the bit pattern of `v as f32`.
pub open spec fn is_f32_of(b: u32, v: i32) -> bool {
    &&& exp_field(b) < 255
    &&& !is_nan(b)
    &&& sign_bit(b) == (v < 0)
    &&& scaled_abs_value(b) == nearest_f32(abs_i32(v)) * pow2(149)
}

/// A reading, or `0` when the statistics lack it.
pub open spec fn reading_or_zero(r: Option<i32>) -> i32 {
    match r {
        Some(v) => v,
        None => 0,
    }
}

/// `c` is the engine `name` with the usage `v as f32`.
pub open spec fn is_engine(c: GpuCore, name: Seq<char>, v: i32) -> bool {
    c.name@ == name && is_f32_of(c.usage_bits, v)
}

/// The engines that the statistics describe: none without statistics;
/// else `Device`, `Renderer` and `Tiler` with their readings (`0` where a
/// reading is missing), then `ANE` with usage `-1`, which marks a figure
/// that cannot be read.
pub open spec fn engines_match(r: Seq<GpuCore>, stats: Option<EngineReadings>) -> bool {
    match stats {
        None => r.len() == 0,
        Some(s) => {
            &&& r.len() == 4
            &&& is_engine(r[0], seq!['D', 'e', 'v', 'i', 'c', 'e'], reading_or_zero(s.device))
            &&& is_engine(
                r[1],
                seq!['R', 'e', 'n', 'd', 'e', 'r', 'e', 'r'],
                reading_or_zero(s.renderer),
            )
            &&& is_engine(r[2], seq!['T', 'i', 'l', 'e', 'r'], reading_or_zero(s.tiler))
            &&& r[3].name@ == seq!['A', 'N', 'E']
            &&& r[3].usage_bits == MINUS_ONE_BITS
        },
    }
}

fn engine(name: &str, reading: Option<i32>) -> (c: GpuCore)
    ensures
        is_engine(c, name@, reading_or_zero(reading)),
{
    let v: i32 = match reading {
        Some(v) => v,
        None => 0,
    };
    GpuCore { name: String::from_str(name), usage_bits: i32_to_f32_bits(v) }
}

/// The engine list of the accelerator, from its performance statistics
/// (`None` when the registry holds none).
pub fn gpu_cores_from_stats(stats: Option<EngineReadings>) -> (r: Vec<GpuCore>)
    ensures
        engines_match(r@, stats),
        stats is None ==> r@.len() == 0,
        stats matches Some(s) ==> {
            &&& r@.len() == 4
            &&& is_f32_of(r@[0].usage_bits, reading_or_zero(s.device))
            &&& is_f32_of(r@[1].usage_bits, reading_or_zero(s.renderer))
            &&& is_f32_of(r@[2].usage_bits, reading_or_zero(s.tiler))
            &&& r@[3].usage_bits == MINUS_ONE_BITS
        },
{
    let mut cores: Vec<GpuCore> = Vec::new();
    match stats {
        None => {},
        Some(s) => {
            proof {
                reveal_strlit("Device");
                reveal_strlit("Renderer");
                reveal_strlit("Tiler");
                reveal_strlit("ANE");
                assert("Device"@ =~= seq!['D', 'e', 'v', 'i', 'c', 'e']);
                assert("Renderer"@ =~= seq!['R', 'e', 'n', 'd', 'e', 'r', 'e', 'r']);
                assert("Tiler"@ =~= seq!['T', 'i', 'l', 'e', 'r']);
                assert("ANE"@ =~= seq!['A', 'N', 'E']);
            }
            cores.push(engine("Device", s.device));
            cores.push(engine("Renderer", s.renderer));
            cores.push(engine("Tiler", s.tiler));
            cores.push(GpuCore { name: String::from_str("ANE"), usage_bits: MINUS_ONE_BITS });
        },
    }
    cores
}

impl GpuCore {
    /// The engine's usage can be shown: it is not negative (a negative
    /// usage marks a figure that could not be read).
    pub fn is_available(&self) -> (r: bool)
        ensures
            r == !value_lt(self.usage_bits, 0),
    {
        !bits_is_negative(self.usage_bits)
    }
}

/// Of the engines built from statistics, `ANE` is always shown as
/// unavailable, and an engine whose reading is missing or not negative is
/// always shown with its figure.
pub proof fn lemma_engine_availability(r: Seq<GpuCore>, s: EngineReadings)
    requires
        engines_match(r, Some(s)),
    ensures
        value_lt(r[3].usage_bits, 0),
        reading_or_zero(s.device) >= 0 ==> !value_lt(r[0].usage_bits, 0),
        reading_or_zero(s.renderer) >= 0 ==> !value_lt(r[1].usage_bits, 0),
        reading_or_zero(s.tiler) >= 0 ==> !value_lt(r[2].usage_bits, 0),
{
}

/// Each engine carries its own reading: the `Device`, `Renderer` and
/// `Tiler` entries stand for the statistics' device, renderer and tiler
/// readings (`0` where one is missing), whatever the other readings are.
/// Readings of magnitude below `2^24` (all percentages) are carried
/// exactly, with their sign.
pub proof fn lemma_engines_carry_their_readings(r: Seq<GpuCore>, s: EngineReadings)
    requires
        engines_match(r, Some(s)),
    ensures
        r.len() == 4,
        r[0].name@ == seq!['D', 'e', 'v', 'i', 'c', 'e'],
        r[1].name@ == seq!['R', 'e', 'n', 'd', 'e', 'r', 'e', 'r'],
        r[2].name@ == seq!['T', 'i', 'l', 'e', 'r'],
        r[3].name@ == seq!['A', 'N', 'E'],
        abs_i32(reading_or_zero(s.device)) < 0x100_0000 ==> sign_bit(r[0].usage_bits) == (
        reading_or_zero(s.device) < 0) && scaled_abs_value(r[0].usage_bits) == abs_i32(
            reading_or_zero(s.device),
        ) * pow2(149),
        abs_i32(reading_or_zero(s.renderer)) < 0x100_0000 ==> sign_bit(r[1].usage_bits) == (
        reading_or_zero(s.renderer) < 0) && scaled_abs_value(r[1].usage_bits) == abs_i32(
            reading_or_zero(s.renderer),
        ) * pow2(149),
        abs_i32(reading_or_zero(s.tiler)) < 0x100_0000 ==> sign_bit(r[2].usage_bits) == (
        reading_or_zero(s.tiler) < 0) && scaled_abs_value(r[2].usage_bits) == abs_i32(
            reading_or_zero(s.tiler),
        ) * pow2(149),
{
    if abs_i32(reading_or_zero(s.device)) < 0x100_0000 {
        lemma_small_integers_exact(abs_i32(reading_or_zero(s.device)));
    }
    if abs_i32(reading_or_zero(s.renderer)) < 0x100_0000 {
        lemma_small_integers_exact(abs_i32(reading_or_zero(s.renderer)));
    }
    if abs_i32(reading_or_zero(s.tiler)) < 0x100_0000 {
        lemma_small_integers_exact(abs_i32(reading_or_zero(s.tiler)));
    }
}

/// Two statistics with the same reading for an engine give that engine the
/// same value (sign and magnitude), whatever the other engines read.
pub proof fn lemma_engine_depends_on_its_reading_only(
    r1: Seq<GpuCore>,
    s1: EngineReadings,
    r2: Seq<GpuCore>,
    s2: EngineReadings,
)
    requires
        engines_match(r1, Some(s1)),
        engines_match(r2, Some(s2)),
    ensures
        reading_or_zero(s1.device) == reading_or_zero(s2.device) ==> sign_bit(r1[0].usage_bits)
            == sign_bit(r2[0].usage_bits) && scaled_abs_value(r1[0].usage_bits) == scaled_abs_value(
            r2[0].usage_bits,
        ),
        reading_or_zero(s1.renderer) == reading_or_zero(s2.renderer) ==> sign_bit(
            r1[1].usage_bits,
        ) == sign_bit(r2[1].usage_bits) && scaled_abs_value(r1[1].usage_bits) == scaled_abs_value(
            r2[1].usage_bits,
        ),
        reading_or_zero(s1.tiler) == reading_or_zero(s2.tiler) ==> sign_bit(r1[2].usage_bits)
            == sign_bit(r2[2].usage_bits) && scaled_abs_value(r1[2].usage_bits) == scaled_abs_value(
            r2[2].usage_bits,
        ),
{
}

} // verus!
