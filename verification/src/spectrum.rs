//! Frequency buckets and the spectrum layout that a forward discrete
//! transform of a sample buffer induces.
use vstd::prelude::*;
use vstd::arithmetic::div_mod::{lemma_fundamental_div_mod, lemma_mod_bound};
use vstd::arithmetic::mul::{lemma_mul_inequality, lemma_mul_is_associative, lemma_mul_nonnegative};

verus! {

/// One discretized frequency band of a spectrum: the half-open range
/// `[min_freq, max_freq)` in the fixed-point unit of the sample rate,
/// together with the signed intensity the transform assigned to it.
#[derive(Clone, Copy, Debug, PartialEq, Eq, Structural)]
pub struct FrequencyBucket {
    pub min_freq: u64,
    pub max_freq: u64,
    pub intensity: i64,
}

/// A bucket whose bounds are ordered and whose center frequency can be
/// computed without overflow, with an intensity the estimator's sums
/// can absorb.
pub open spec fn bucket_wf(b: FrequencyBucket) -> bool {
    &&& b.min_freq <= b.max_freq
    &&& b.min_freq + b.max_freq <= u64::MAX
    &&& -crate::MAX_INTENSITY <= b.intensity <= crate::MAX_INTENSITY
}

pub open spec fn spectrum_wf(s: Seq<FrequencyBucket>) -> bool {
    forall|i: int| 0 <= i < s.len() ==> #[trigger] bucket_wf(s[i])
}

impl FrequencyBucket {
    /// Center frequency of the band, rounded down.
    pub fn ave_freq(&self) -> (r: u64)
        requires
            self.min_freq + self.max_freq <= u64::MAX,
        ensures
            r == (self.min_freq + self.max_freq) / 2,
    {
        (self.min_freq + self.max_freq) / 2
    }
}

/// Width of each bucket for an `n`-point transform: the Nyquist band
/// `[0, sample_rate / 2)` split into `n` slots, rounded down.
pub open spec fn spec_resolution(n: int, sample_rate: u64) -> int {
    sample_rate as int / (2 * n)
}

/// The spectrum a forward transform of `n` coefficients at
/// `sample_rate` induces: bucket `i` spans
/// `[i * resolution, (i + 1) * resolution)` and carries coefficient
/// `i` as its intensity.
pub open spec fn is_spectrum_of(
    s: Seq<FrequencyBucket>,
    coefficients: Seq<i64>,
    sample_rate: u64,
) -> bool {
    let res = spec_resolution(coefficients.len() as int, sample_rate);
    &&& s.len() == coefficients.len()
    &&& forall|i: int|
        0 <= i < s.len() ==> #[trigger] s[i] == (FrequencyBucket {
            min_freq: (i * res) as u64,
            max_freq: ((i + 1) * res) as u64,
            intensity: coefficients[i],
        })
}

/// Build the bucket sequence for one transform output: bucket `i`
/// spans `[i * resolution, (i + 1) * resolution)` where `resolution`
/// is `sample_rate / (2 * n)`, and its intensity is coefficient `i`.
///
/// The bounds tile `[0, n * resolution)` contiguously: each bucket's
/// `max_freq` is the next bucket's `min_freq`, and the first starts
/// at zero.
pub fn make_buckets(coefficients: &Vec<i64>, sample_rate: u64) -> (r: Vec<FrequencyBucket>)
    requires
        0 < coefficients@.len() <= crate::MAX_SAMPLES,
        sample_rate > 0,
        forall|i: int|
            0 <= i < coefficients@.len() ==> -crate::MAX_INTENSITY
                <= #[trigger] coefficients@[i] <= crate::MAX_INTENSITY,
    ensures
        is_spectrum_of(r@, coefficients@, sample_rate),
        spectrum_wf(r@),
        r@[0].min_freq == 0,
        forall|i: int| 0 <= i < r@.len() - 1 ==> #[trigger] r@[i].max_freq == r@[i + 1].min_freq,
{
    let n = coefficients.len();
    let resolution = sample_rate / (2 * (n as u64));
    proof {
        let res = spec_resolution(n as int, sample_rate);
        lemma_fundamental_div_mod(sample_rate as int, 2 * (n as int));
        lemma_mod_bound(sample_rate as int, 2 * (n as int));
        lemma_mul_is_associative(2, n as int, res);
        assert((n as int) * res <= sample_rate as int / 2);
    }
    let mut out: Vec<FrequencyBucket> = Vec::new();
    let mut i: usize = 0;
    while i < n
        invariant
            0 < n == coefficients@.len() <= crate::MAX_SAMPLES,
            resolution == spec_resolution(n as int, sample_rate),
            (n as int) * (resolution as int) <= sample_rate as int / 2,
            i <= n,
            out@.len() == i,
            forall|j: int|
                0 <= j < i ==> #[trigger] out@[j] == (FrequencyBucket {
                    min_freq: (j * resolution) as u64,
                    max_freq: ((j + 1) * resolution) as u64,
                    intensity: coefficients@[j],
                }),
            forall|i2: int|
                0 <= i2 < coefficients@.len() ==> -crate::MAX_INTENSITY
                    <= #[trigger] coefficients@[i2] <= crate::MAX_INTENSITY,
        decreases n - i,
    {
        proof {
            lemma_mul_inequality(i as int + 1, n as int, resolution as int);
            lemma_mul_inequality(i as int, i as int + 1, resolution as int);
            lemma_mul_nonnegative(i as int, resolution as int);
        }
        let min = (i as u64) * resolution;
        let max = (i as u64 + 1) * resolution;
        out.push(FrequencyBucket { min_freq: min, max_freq: max, intensity: coefficients[i] });
        i = i + 1;
    }
    proof {
        assert forall|i2: int| 0 <= i2 < out@.len() implies #[trigger] bucket_wf(out@[i2]) by {
            lemma_mul_inequality(i2 + 1, n as int, resolution as int);
            lemma_mul_inequality(i2, i2 + 1, resolution as int);
            lemma_mul_nonnegative(i2, resolution as int);
        }
        assert forall|i2: int| 0 <= i2 < out@.len() - 1 implies #[trigger] out@[i2].max_freq
            == out@[i2 + 1].min_freq by {
            assert(out@[i2].max_freq == ((i2 + 1) * (resolution as int)) as u64);
            assert(out@[i2 + 1].min_freq == ((i2 + 1) * (resolution as int)) as u64);
        }
    }
    out
}

/// Sum of a sample sequence.
pub open spec fn sum_of(s: Seq<i64>) -> int
    decreases s.len(),
{
    if s.len() == 0 {
        0
    } else {
        sum_of(s.drop_last()) + s.last()
    }
}

/// Round-toward-zero integer division, as `/` on machine integers
/// computes it.
pub open spec fn trunc_div(a: int, b: int) -> int {
    if a >= 0 {
        a / b
    } else {
        -((-a) / b)
    }
}

/// The arithmetic mean of the samples, rounded toward zero.
pub open spec fn spec_mean(s: Seq<i64>) -> int {
    trunc_div(sum_of(s), s.len() as int)
}

proof fn lemma_sum_take_step(s: Seq<i64>, i: int)
    requires
        0 <= i < s.len(),
    ensures
        sum_of(s.take(i + 1)) == sum_of(s.take(i)) + s[i],
{
    assert(s.take(i + 1).drop_last() =~= s.take(i));
    assert(s.take(i + 1).last() == s[i]);
}

/// Subtract the arithmetic mean from every sample (DC removal), so
/// that a constant offset does not show up as a zero-frequency spike.
pub fn center_samples(samples: &Vec<i64>) -> (r: Vec<i64>)
    requires
        0 < samples@.len() <= crate::MAX_SAMPLES,
        forall|i: int|
            0 <= i < samples@.len() ==> -crate::MAX_AMPLITUDE <= #[trigger] samples@[i]
                <= crate::MAX_AMPLITUDE,
    ensures
        r@.len() == samples@.len(),
        forall|i: int| 0 <= i < r@.len() ==> #[trigger] r@[i] == samples@[i] - spec_mean(samples@),
{
    let n = samples.len();
    let mut sum: i64 = 0;
    let mut i: usize = 0;
    while i < n
        invariant
            0 < n == samples@.len() <= crate::MAX_SAMPLES,
            forall|j: int|
                0 <= j < n ==> -crate::MAX_AMPLITUDE <= #[trigger] samples@[j]
                    <= crate::MAX_AMPLITUDE,
            i <= n,
            sum == sum_of(samples@.take(i as int)),
            -((i as int) * crate::MAX_AMPLITUDE) <= sum <= (i as int) * crate::MAX_AMPLITUDE,
        decreases n - i,
    {
        proof {
            lemma_sum_take_step(samples@, i as int);
        }
        sum = sum + samples[i];
        i = i + 1;
    }
    proof {
        assert(samples@.take(n as int) =~= samples@);
    }
    let mean: i64 = if sum >= 0 {
        ((sum as u64) / (n as u64)) as i64
    } else {
        proof {
            vstd::arithmetic::div_mod::lemma_div_is_ordered(
                -(sum as int),
                (n as int) * crate::MAX_AMPLITUDE,
                n as int,
            );
            vstd::arithmetic::div_mod::lemma_div_multiples_vanish(
                crate::MAX_AMPLITUDE as int,
                n as int,
            );
        }
        -((((-sum) as u64) / (n as u64)) as i64)
    };
    proof {
        if sum >= 0 {
            vstd::arithmetic::div_mod::lemma_div_is_ordered(
                sum as int,
                (n as int) * crate::MAX_AMPLITUDE,
                n as int,
            );
            vstd::arithmetic::div_mod::lemma_div_multiples_vanish(
                crate::MAX_AMPLITUDE as int,
                n as int,
            );
        }
        assert(mean == spec_mean(samples@));
        assert(-crate::MAX_AMPLITUDE <= mean <= crate::MAX_AMPLITUDE);
    }
    let mut out: Vec<i64> = Vec::new();
    let mut i: usize = 0;
    while i < n
        invariant
            0 < n == samples@.len() <= crate::MAX_SAMPLES,
            forall|j: int|
                0 <= j < n ==> -crate::MAX_AMPLITUDE <= #[trigger] samples@[j]
                    <= crate::MAX_AMPLITUDE,
            -crate::MAX_AMPLITUDE <= mean <= crate::MAX_AMPLITUDE,
            mean == spec_mean(samples@),
            i <= n,
            out@.len() == i,
            forall|j: int| 0 <= j < i ==> #[trigger] out@[j] == samples@[j] - spec_mean(samples@),
        decreases n - i,
    {
        out.push(samples[i] - mean);
        i = i + 1;
    }
    out
}

/// Bucket tiling: in any spectrum, the buckets are contiguous — each
/// bucket's upper bound is the next one's lower bound — and the first
/// bucket starts at frequency zero.
pub proof fn lemma_spectrum_tiles(
    s: Seq<FrequencyBucket>,
    coefficients: Seq<i64>,
    sample_rate: u64,
)
    requires
        is_spectrum_of(s, coefficients, sample_rate),
        s.len() > 0,
    ensures
        s[0].min_freq == 0,
        forall|i: int| 0 <= i < s.len() - 1 ==> #[trigger] s[i].max_freq == s[i + 1].min_freq,
{
    let res = spec_resolution(coefficients.len() as int, sample_rate);
    assert forall|i: int| 0 <= i < s.len() - 1 implies #[trigger] s[i].max_freq == s[i
        + 1].min_freq by {
        assert(s[i].max_freq == ((i + 1) * res) as u64);
        assert(s[i + 1].min_freq == ((i + 1) * res) as u64);
    }
}

/// The transform adapter is a pure function: its contract pins every
/// field of every bucket, so two spectra built from the same
/// coefficients and sample rate are identical.
pub proof fn lemma_spectrum_deterministic(
    s1: Seq<FrequencyBucket>,
    s2: Seq<FrequencyBucket>,
    coefficients: Seq<i64>,
    sample_rate: u64,
)
    requires
        is_spectrum_of(s1, coefficients, sample_rate),
        is_spectrum_of(s2, coefficients, sample_rate),
    ensures
        s1 == s2,
{
    assert(s1 =~= s2);
}

} // verus!
