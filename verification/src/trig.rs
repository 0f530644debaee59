//! Sine evaluation in Q32.32 fixed point, free of any platform math library.
//!
//! A real number `v` is represented by the integer `v * 2^32`, truncated
//! toward zero. The angle handed to the series is reduced with exact integer
//! remainders against `2 * pi` held at the finer Q64 scale, so large phases
//! lose none of the precision that a coarse representation of `2 * pi` would
//! cost. On the reduced interval the series
//! `x - x^3/3! + x^5/5! - x^7/7! + x^9/9! - x^11/11! + x^13/13!`
//! is evaluated with the factorial constants 6, 120, 5040, 362880, 39916800
//! and 6227020800.

use vstd::prelude::*;

verus! {

use vstd::arithmetic::div_mod::lemma_basic_div;
use vstd::arithmetic::div_mod::lemma_div_is_ordered;
use vstd::arithmetic::div_mod::lemma_div_pos_is_pos;
use vstd::arithmetic::div_mod::lemma_fundamental_div_mod;
use vstd::arithmetic::div_mod::lemma_mod_division_less_than_divisor;
use vstd::arithmetic::div_mod::lemma_mod_multiples_basic;
use vstd::arithmetic::div_mod::lemma_mod_multiples_vanish;
use vstd::arithmetic::div_mod::lemma_remainder_lower;
use vstd::arithmetic::div_mod::lemma_multiply_divide_le;
use vstd::arithmetic::div_mod::lemma_multiply_divide_lt;
use vstd::arithmetic::mul::lemma_mul_inequality;
use vstd::arithmetic::mul::lemma_mul_is_distributive_add;
use vstd::arithmetic::mul::lemma_mul_nonnegative;
use vstd::arithmetic::mul::lemma_mul_upper_bound;

/// One unit (the real number 1) in Q32.32.
pub const UNIT_Q32: u128 = 4294967296;

/// `pi` in Q32.32: the integer part of `pi * 2^32`, with
/// `pi = 3.14159265358979323846264338327950288`.
pub const PI_Q32: u64 = 13493037704;

/// `2 * pi` in Q32.32: the integer part of `2 * pi * 2^32`.
pub const TAU_Q32: u64 = 26986075409;

/// `2 * pi` in Q32.64: the integer part of `2 * pi * 2^64`. Phase
/// accumulation is reduced against this finer representation before the
/// angle is narrowed to Q32.32.
pub const TAU_Q64: u128 = 115904311329233965478;

/// The largest magnitude the reduced series is allowed to report for a unit
/// sine: `2^32 + 4294`, that is `1 + 4294 / 2^32 < 1 + 1e-6`. On the reduced
/// interval the series never strays this far from the true sine, so the cap
/// changes no reachable value; it makes the amplitude bound unconditional.
pub const SIN_UNIT_CAP: i64 = 4294971590;

/// Largest accepted frequency magnitude in raw Q32.32 units (`2^60`, a
/// frequency of `2^28` cycles per second). Keeps the Q64 phase arithmetic
/// inside 128 bits.
pub const MAX_FREQ_RAW: i64 = 1152921504606846976;

/// Largest accepted amplitude magnitude in raw Q32.32 units (`2^62`, an
/// amplitude of `2^30`). Keeps the scaled sample inside `i64`.
pub const MAX_AMP_RAW: i64 = 4611686018427387904;

/// Largest accepted sample index (`2^60`). Keeps the phase product inside
/// 128 bits.
pub const MAX_INDEX: u64 = 1152921504606846976;

/// Magnitude of an integer.
pub open spec fn mag(x: int) -> int {
    if x < 0 {
        -x
    } else {
        x
    }
}

/// A frequency the sine generator accepts: its raw magnitude fits the phase
/// arithmetic.
pub open spec fn valid_frequency(f: int) -> bool {
    mag(f) <= MAX_FREQ_RAW
}

/// A sample rate the sine generator accepts. Zero would put a division by
/// zero into the phase; the callers that own the parameters are expected to
/// reject it.
pub open spec fn valid_rate(s: int) -> bool {
    s != 0
}

/// An amplitude the sine generator accepts: its raw magnitude keeps the
/// scaled sample inside `i64`.
pub open spec fn valid_amplitude(a: int) -> bool {
    mag(a) <= MAX_AMP_RAW
}

/// The truncated Maclaurin series for sine on a Q32.32 angle `x`, every
/// intermediate product truncated back to Q32.32, exactly as the executable
/// evaluation performs it.
pub open spec fn taylor_q32(x: int) -> int {
    let p = UNIT_Q32 as int;
    let x2 = x * x / p;
    let x3 = x2 * x / p;
    let x5 = x3 * x2 / p;
    let x7 = x5 * x2 / p;
    let x9 = x7 * x2 / p;
    let x11 = x9 * x2 / p;
    let x13 = x11 * x2 / p;
    (x + x5 / 120 + x9 / 362880 + x13 / 6227020800) - (x3 / 6 + x7 / 5040 + x11 / 39916800)
}

/// The series value capped to one unit plus the tolerance the cap encodes.
pub open spec fn cap_unit(v: int) -> int {
    if v > SIN_UNIT_CAP {
        SIN_UNIT_CAP as int
    } else if v < -(SIN_UNIT_CAP as int) {
        -(SIN_UNIT_CAP as int)
    } else {
        v
    }
}

/// Sine of an already reduced angle `x` in `[0, TAU_Q32]` (Q32.32): angles
/// past `pi` are folded back by `sin(x) == -sin(2 * pi - x)`.
pub open spec fn angle_sin_q32(x: int) -> int {
    if x > PI_Q32 {
        cap_unit(-taylor_q32(TAU_Q32 - x))
    } else {
        cap_unit(taylor_q32(x))
    }
}

/// Phase advance per sample index, `2 * pi * |f| / |s|` in Q32.64, reduced
/// modulo one turn.
pub open spec fn step_q64(f: int, s: int) -> int {
    ((TAU_Q64 as int) * mag(f) / mag(s)) % (TAU_Q64 as int)
}

/// Phase of sample `i` in Q32.64, reduced modulo one turn.
pub open spec fn phase_q64(f: int, s: int, i: int) -> int {
    (step_q64(f, s) * i) % (TAU_Q64 as int)
}

/// Unit sine of sample `i`: the sine of its phase, carrying the sign of the
/// real phase `2 * pi * f * i / s`.
pub open spec fn sin_unit_q32(f: int, s: int, i: int) -> int {
    let v = angle_sin_q32(phase_q64(f, s, i) / (UNIT_Q32 as int));
    if (f < 0) != (s < 0) {
        -v
    } else {
        v
    }
}

/// A unit value scaled by the amplitude `a`, truncated toward zero.
pub open spec fn scale_by_amplitude(a: int, v: int) -> int {
    let m = mag(a) * mag(v) / (UNIT_Q32 as int);
    if (a < 0) != (v < 0) {
        -m
    } else {
        m
    }
}

/// The sine sample at index `i`: `a * sin(2 * pi * f * i / s)` carried out
/// in Q32.32.
pub open spec fn sine_sample(f: int, s: int, a: int, i: int) -> int {
    scale_by_amplitude(a, sin_unit_q32(f, s, i))
}

/// Bounds a truncating Q32.32 product: if the factors stay under `ca` and
/// `cb`, and `ca * cb` is `q` whole units, the product stays under `q`.
proof fn lemma_q32_mul_bound(a: int, b: int, ca: int, cb: int, q: int)
    requires
        0 <= a <= ca,
        0 <= b <= cb,
        ca * cb == q * (UNIT_Q32 as int),
        0 <= q,
    ensures
        0 <= a * b <= ca * cb,
        0 <= a * b / (UNIT_Q32 as int) <= q,
{
    let p = UNIT_Q32 as int;
    lemma_mul_nonnegative(a, b);
    lemma_mul_inequality(a, ca, b);
    lemma_mul_inequality(b, cb, ca);
    assert(a * b <= ca * b && b * ca <= cb * ca);
    lemma_div_pos_is_pos(a * b, p);
    lemma_multiply_divide_le(a * b, p, q);
}

/// Law: every sine sample stays within the amplitude's magnitude up to one
/// part in a million: `1000000 * |sine_sample(f, s, a, i)| <= 1000001 * |a|`,
/// whatever the frequency, sample rate, amplitude and index.
pub proof fn lemma_sine_within_amplitude(f: int, s: int, a: int, i: int)
    ensures
        1000000 * mag(sine_sample(f, s, a, i)) <= 1000001 * mag(a),
{
    let p = UNIT_Q32 as int;
    let v = sin_unit_q32(f, s, i);
    assert(mag(v) <= SIN_UNIT_CAP);
    let mn = mag(a) * mag(v);
    lemma_mul_nonnegative(mag(a), mag(v));
    lemma_div_pos_is_pos(mn, p);
    lemma_remainder_lower(mn, p);
    let m = mn / p;
    assert(mag(sine_sample(f, s, a, i)) == m);
    assert(1000000 * m <= 1000001 * mag(a)) by (nonlinear_arith)
        requires
            0 <= m,
            0 <= mag(a),
            0 <= mag(v) <= 4294971590int,
            m * 4294967296 <= mag(a) * mag(v),
    ;
}

/// Law: a frequency of zero is silence. For every nonzero sample rate, every
/// amplitude and every index, the sine sample is exactly zero.
pub proof fn lemma_zero_frequency_silence(s: int, a: int, i: int)
    requires
        s != 0,
    ensures
        sine_sample(0, s, a, i) == 0,
{
    let p = UNIT_Q32 as int;
    let t = TAU_Q64 as int;
    lemma_basic_div(0, mag(s));
    lemma_mod_multiples_basic(0, t);
    assert(step_q64(0, s) == 0);
    assert(phase_q64(0, s, i) == 0);
    lemma_basic_div(0, p);
    lemma_basic_div(0, 120);
    lemma_basic_div(0, 362880);
    lemma_basic_div(0, 6227020800);
    lemma_basic_div(0, 6);
    lemma_basic_div(0, 5040);
    lemma_basic_div(0, 39916800);
    assert(taylor_q32(0) == 0);
    assert(sin_unit_q32(0, s, i) == 0);
    assert(mag(a) * 0 == 0);
    assert(sine_sample(0, s, a, i) == 0);
}

/// Law: the sine is periodic in the index. Whenever `k` index steps advance
/// the phase by a whole number of turns (the phase step times `k` reduces to
/// zero modulo `2 * pi`), samples `i` and `i + k` are identical.
pub proof fn lemma_sine_periodicity(f: int, s: int, a: int, i: int, k: int)
    requires
        0 <= i,
        0 <= k,
        (step_q64(f, s) * k) % (TAU_Q64 as int) == 0,
    ensures
        sine_sample(f, s, a, i + k) == sine_sample(f, s, a, i),
{
    let t = TAU_Q64 as int;
    let st = step_q64(f, s);
    lemma_mul_is_distributive_add(st, i, k);
    let q = (st * k) / t;
    lemma_fundamental_div_mod(st * k, t);
    lemma_mod_multiples_vanish(q, st * i, t);
    assert(st * (i + k) == t * q + st * i);
    assert(phase_q64(f, s, i + k) == phase_q64(f, s, i));
}

/// Law: sine generation is deterministic. Two buffers whose samples both
/// equal `sine_sample` of the same parameters are equal, bit for bit.
pub proof fn lemma_sine_fill_deterministic(b1: Seq<i64>, b2: Seq<i64>, f: int, s: int, a: int)
    requires
        b1.len() == b2.len(),
        forall|j: int| 0 <= j < b1.len() ==> b1[j] == sine_sample(f, s, a, j),
        forall|j: int| 0 <= j < b2.len() ==> b2[j] == sine_sample(f, s, a, j),
    ensures
        b1 == b2,
{
    assert(b1 =~= b2);
}

/// Evaluates the Maclaurin series for sine on a reduced Q32.32 angle.
fn sin_taylor(x: u64) -> (r: i64)
    requires
        x <= PI_Q32,
    ensures
        r == taylor_q32(x as int),
        -0x80_0000_0000_0000 <= r <= 0x800_0000_0000_0000,
{
    let xw: u128 = x as u128;
    proof {
        lemma_q32_mul_bound(xw as int, xw as int, 0x4_0000_0000, 0x4_0000_0000, 0x10_0000_0000);
    }
    let x2: u128 = xw * xw / UNIT_Q32;
    proof {
        lemma_q32_mul_bound(x2 as int, xw as int, 0x10_0000_0000, 0x4_0000_0000, 0x40_0000_0000);
    }
    let x3: u128 = x2 * xw / UNIT_Q32;
    proof {
        lemma_q32_mul_bound(x3 as int, x2 as int, 0x40_0000_0000, 0x10_0000_0000, 0x400_0000_0000);
    }
    let x5: u128 = x3 * x2 / UNIT_Q32;
    proof {
        lemma_q32_mul_bound(
            x5 as int,
            x2 as int,
            0x400_0000_0000,
            0x10_0000_0000,
            0x4000_0000_0000,
        );
    }
    let x7: u128 = x5 * x2 / UNIT_Q32;
    proof {
        lemma_q32_mul_bound(
            x7 as int,
            x2 as int,
            0x4000_0000_0000,
            0x10_0000_0000,
            0x4_0000_0000_0000,
        );
    }
    let x9: u128 = x7 * x2 / UNIT_Q32;
    proof {
        lemma_q32_mul_bound(
            x9 as int,
            x2 as int,
            0x4_0000_0000_0000,
            0x10_0000_0000,
            0x40_0000_0000_0000,
        );
    }
    let x11: u128 = x9 * x2 / UNIT_Q32;
    proof {
        lemma_q32_mul_bound(
            x11 as int,
            x2 as int,
            0x40_0000_0000_0000,
            0x10_0000_0000,
            0x400_0000_0000_0000,
        );
    }
    let x13: u128 = x11 * x2 / UNIT_Q32;
    proof {
        lemma_div_pos_is_pos(x5 as int, 120);
        lemma_div_is_ordered(x5 as int, 0x4000_0000_0000, 120);
        lemma_div_pos_is_pos(x9 as int, 362880);
        lemma_div_is_ordered(x9 as int, 0x40_0000_0000_0000, 362880);
        lemma_div_pos_is_pos(x13 as int, 6227020800);
        lemma_div_is_ordered(x13 as int, 0x400_0000_0000_0000, 6227020800);
        lemma_div_pos_is_pos(x3 as int, 6);
        lemma_div_is_ordered(x3 as int, 0x400_0000_0000, 6);
        lemma_div_pos_is_pos(x7 as int, 5040);
        lemma_div_is_ordered(x7 as int, 0x4_0000_0000_0000, 5040);
        lemma_div_pos_is_pos(x11 as int, 39916800);
        lemma_div_is_ordered(x11 as int, 0x400_0000_0000_0000, 39916800);
    }
    let pos: u128 = xw + x5 / 120 + x9 / 362880 + x13 / 6227020800;
    let neg: u128 = x3 / 6 + x7 / 5040 + x11 / 39916800;
    if pos >= neg {
        (pos - neg) as i64
    } else {
        -((neg - pos) as i64)
    }
}

/// Sine of a reduced angle in `[0, TAU_Q32]`, capped to `SIN_UNIT_CAP`.
fn sin(x: u64) -> (r: i64)
    requires
        x <= TAU_Q32,
    ensures
        r == angle_sin_q32(x as int),
        -SIN_UNIT_CAP <= r <= SIN_UNIT_CAP,
{
    let t: i64 = if x > PI_Q32 {
        -sin_taylor(TAU_Q32 - x)
    } else {
        sin_taylor(x)
    };
    if t > SIN_UNIT_CAP {
        SIN_UNIT_CAP
    } else if t < -SIN_UNIT_CAP {
        -SIN_UNIT_CAP
    } else {
        t
    }
}

/// The sine sample at index `i` for frequency `f`, sample rate `s` and
/// amplitude `a`, all in Q32.32: `a * sin(2 * pi * f * i / s)`.
pub fn sin_val(frequency: i64, i: usize, sample_rate: i64, amplitude: i64) -> (r: i64)
    requires
        valid_frequency(frequency as int),
        valid_rate(sample_rate as int),
        valid_amplitude(amplitude as int),
        i <= MAX_INDEX,
    ensures
        r == sine_sample(frequency as int, sample_rate as int, amplitude as int, i as int),
{
    let fm: u64 = if frequency < 0 {
        (-frequency) as u64
    } else {
        frequency as u64
    };
    let sm: u64 = if sample_rate < 0 {
        (-(sample_rate as i128)) as u64
    } else {
        sample_rate as u64
    };
    let am: u64 = if amplitude < 0 {
        (-amplitude) as u64
    } else {
        amplitude as u64
    };
    proof {
        assert(fm == mag(frequency as int));
        assert(sm == mag(sample_rate as int));
        assert(am == mag(amplitude as int));
        lemma_mul_upper_bound(TAU_Q64 as int, TAU_Q64 as int, fm as int, MAX_FREQ_RAW as int);
        lemma_div_pos_is_pos((TAU_Q64 as int) * (fm as int), sm as int);
        lemma_mod_division_less_than_divisor(
            (TAU_Q64 as int) * (fm as int) / (sm as int),
            TAU_Q64 as int,
        );
    }
    let stepq: u128 = (TAU_Q64 * (fm as u128) / (sm as u128)) % TAU_Q64;
    proof {
        lemma_mul_upper_bound(stepq as int, TAU_Q64 as int, i as int, MAX_INDEX as int);
        lemma_mul_nonnegative(stepq as int, i as int);
        lemma_mod_division_less_than_divisor((stepq as int) * (i as int), TAU_Q64 as int);
    }
    let ph: u128 = (stepq * (i as u128)) % TAU_Q64;
    proof {
        assert(stepq == step_q64(frequency as int, sample_rate as int));
        assert(ph == phase_q64(frequency as int, sample_rate as int, i as int));
        lemma_div_pos_is_pos(ph as int, UNIT_Q32 as int);
        assert(ph < (UNIT_Q32 as int) * ((TAU_Q32 as int) + 1));
        lemma_multiply_divide_lt(ph as int, UNIT_Q32 as int, (TAU_Q32 as int) + 1);
    }
    let x: u64 = (ph / UNIT_Q32) as u64;
    let v: i64 = sin(x);
    let sv: i64 = if (frequency < 0) != (sample_rate < 0) {
        -v
    } else {
        v
    };
    proof {
        assert(sv == sin_unit_q32(frequency as int, sample_rate as int, i as int));
    }
    let svm: u64 = if sv < 0 {
        (-sv) as u64
    } else {
        sv as u64
    };
    proof {
        lemma_q32_mul_bound(
            am as int,
            svm as int,
            MAX_AMP_RAW as int,
            SIN_UNIT_CAP as int,
            0x4000_0000 * (SIN_UNIT_CAP as int),
        );
    }
    let m: u64 = (((am as u128) * (svm as u128)) / UNIT_Q32) as u64;
    if (amplitude < 0) != (sv < 0) {
        -(m as i64)
    } else {
        m as i64
    }
}

} // verus!
