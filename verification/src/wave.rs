//! Buffer-filling waveform generators. Each call overwrites every position
//! of the caller's buffer in ascending index order; the value written at an
//! index is a function of the index and the parameters alone, so a fill
//! neither reads the buffer's prior contents nor keeps state between calls.

use vstd::prelude::*;

verus! {

use vstd::slice::SliceAdditionalExecFns;

use crate::trig::MAX_INDEX;
use crate::trig::sin_val;
use crate::trig::sine_sample;
use crate::trig::valid_amplitude;
use crate::trig::valid_frequency;
use crate::trig::valid_rate;

/// The square and triangle sample at index `i` for amplitude `a`: the wave
/// toggles on index parity, `+a` at even indices and `-a` at odd ones,
/// whatever the frequency and sample rate.
pub open spec fn parity_sample(a: int, i: int) -> int {
    if i % 2 == 0 {
        a
    } else {
        -a
    }
}

/// Law: a square or triangle sample is exactly `+a` or exactly `-a`.
pub proof fn lemma_parity_peak(a: int, i: int)
    ensures
        parity_sample(a, i) == a || parity_sample(a, i) == -a,
{
}

/// Law: square and triangle waves alternate. The samples at two adjacent
/// indices sum to exactly zero.
pub proof fn lemma_parity_alternation(a: int, i: int)
    ensures
        parity_sample(a, i) + parity_sample(a, i + 1) == 0,
{
}

/// Law: square and triangle generation is deterministic. Two buffers whose
/// samples both equal `parity_sample` of the same amplitude are equal, bit
/// for bit.
pub proof fn lemma_parity_fill_deterministic(b1: Seq<i64>, b2: Seq<i64>, a: int)
    requires
        b1.len() == b2.len(),
        forall|j: int| 0 <= j < b1.len() ==> b1[j] == parity_sample(a, j),
        forall|j: int| 0 <= j < b2.len() ==> b2[j] == parity_sample(a, j),
    ensures
        b1 == b2,
{
    assert(b1 =~= b2);
}

fn square_val(amplitude: i64, i: usize) -> (r: i64)
    requires
        amplitude > i64::MIN,
    ensures
        r == parity_sample(amplitude as int, i as int),
{
    if i % 2 == 0 {
        amplitude
    } else {
        -amplitude
    }
}

fn triangle_val(amplitude: i64, i: usize) -> (r: i64)
    requires
        amplitude > i64::MIN,
    ensures
        r == parity_sample(amplitude as int, i as int),
{
    if i % 2 == 0 {
        amplitude
    } else {
        -amplitude
    }
}

/// Fills `output` with the sine wave `a * sin(2 * pi * f * i / s)` in
/// Q32.32: sample `i` becomes `sine_sample(f, s, a, i)`.
pub fn generate_sine_wave(output: &mut [i64], frequency: i64, sample_rate: i64, amplitude: i64)
    requires
        valid_frequency(frequency as int),
        valid_rate(sample_rate as int),
        valid_amplitude(amplitude as int),
        old(output)@.len() <= MAX_INDEX,
    ensures
        final(output)@.len() == old(output)@.len(),
        forall|j: int|
            0 <= j < old(output)@.len() ==> final(output)@[j] == sine_sample(
                frequency as int,
                sample_rate as int,
                amplitude as int,
                j,
            ),
{
    let n: usize = output.len();
    let mut i: usize = 0;
    while i < n
        invariant
            i <= n,
            output@.len() == n,
            n <= MAX_INDEX,
            valid_frequency(frequency as int),
            valid_rate(sample_rate as int),
            valid_amplitude(amplitude as int),
            forall|j: int|
                0 <= j < i ==> output@[j] == sine_sample(
                    frequency as int,
                    sample_rate as int,
                    amplitude as int,
                    j,
                ),
        decreases n - i,
    {
        let v: i64 = sin_val(frequency, i, sample_rate, amplitude);
        output.set(i, v);
        i = i + 1;
    }
}

/// Fills `output` with the index-parity square wave: `+a` at even indices,
/// `-a` at odd ones. Frequency and sample rate play no part.
pub fn generate_square_wave(output: &mut [i64], amplitude: i64)
    requires
        amplitude > i64::MIN,
    ensures
        final(output)@.len() == old(output)@.len(),
        forall|j: int|
            0 <= j < old(output)@.len() ==> final(output)@[j] == parity_sample(
                amplitude as int,
                j,
            ),
{
    let n: usize = output.len();
    let mut i: usize = 0;
    while i < n
        invariant
            i <= n,
            output@.len() == n,
            amplitude > i64::MIN,
            forall|j: int| 0 <= j < i ==> output@[j] == parity_sample(amplitude as int, j),
        decreases n - i,
    {
        let v: i64 = square_val(amplitude, i);
        output.set(i, v);
        i = i + 1;
    }
}

/// Fills `output` with the triangle menu entry's wave, which shares the
/// square wave's index-parity shape: `+a` at even indices, `-a` at odd ones.
pub fn generate_triangle_wave(output: &mut [i64], amplitude: i64)
    requires
        amplitude > i64::MIN,
    ensures
        final(output)@.len() == old(output)@.len(),
        forall|j: int|
            0 <= j < old(output)@.len() ==> final(output)@[j] == parity_sample(
                amplitude as int,
                j,
            ),
{
    let n: usize = output.len();
    let mut i: usize = 0;
    while i < n
        invariant
            i <= n,
            output@.len() == n,
            amplitude > i64::MIN,
            forall|j: int| 0 <= j < i ==> output@[j] == parity_sample(amplitude as int, j),
        decreases n - i,
    {
        let v: i64 = triangle_val(amplitude, i);
        output.set(i, v);
        i = i + 1;
    }
}

} // verus!
