//! Spectral fundamental-frequency estimation: peak picking over the
//! significant buckets of a spectrum.
use vstd::prelude::*;
use crate::spectrum::{bucket_wf, spectrum_wf, FrequencyBucket};

verus! {

/// Sum of the positive intensities of a spectrum.
pub open spec fn pos_sum(s: Seq<FrequencyBucket>) -> int
    decreases s.len(),
{
    if s.len() == 0 {
        0
    } else {
        pos_sum(s.drop_last()) + if s.last().intensity > 0 {
            s.last().intensity as int
        } else {
            0
        }
    }
}

/// The significance threshold: the positive intensities averaged over
/// the full bucket count (not just the positive ones), rounded down.
/// For integer intensities, exceeding this rounded-down average is the
/// same as exceeding the exact one.
pub open spec fn spec_threshold(s: Seq<FrequencyBucket>) -> int {
    pos_sum(s) / (s.len() as int)
}

/// Bucket `i` is significant when its intensity is positive and above
/// the average positive intensity.
pub open spec fn is_significant(s: Seq<FrequencyBucket>, i: int) -> bool {
    &&& 0 <= i < s.len()
    &&& s[i].intensity > 0
    &&& s[i].intensity > spec_threshold(s)
}

/// Bucket `i` is the one the estimator reports: significant, of
/// maximal intensity, and the first bucket (in ascending frequency
/// order) with that intensity.
pub open spec fn is_best_bucket(s: Seq<FrequencyBucket>, i: int) -> bool {
    &&& is_significant(s, i)
    &&& forall|j: int| #[trigger] is_significant(s, j) ==> s[j].intensity <= s[i].intensity
    &&& forall|j: int| j < i && #[trigger] is_significant(s, j) ==> s[j].intensity < s[i].intensity
}

proof fn lemma_pos_sum_take_step(s: Seq<FrequencyBucket>, i: int)
    requires
        0 <= i < s.len(),
    ensures
        pos_sum(s.take(i + 1)) == pos_sum(s.take(i)) + if s[i].intensity > 0 {
            s[i].intensity as int
        } else {
            0
        },
{
    assert(s.take(i + 1).drop_last() =~= s.take(i));
    assert(s.take(i + 1).last() == s[i]);
}

/// Estimate the fundamental frequency of a spectrum: among the
/// significant buckets, report the center frequency of the most
/// intense one (the first such bucket on a tie), or `None` when no
/// bucket rises above the average positive intensity.
pub fn find_fundamental_frequency(spectrum: &Vec<FrequencyBucket>) -> (r: Option<u64>)
    requires
        spectrum@.len() <= crate::MAX_SAMPLES,
        spectrum_wf(spectrum@),
    ensures
        r is Some <==> exists|i: int| is_significant(spectrum@, i),
        r is Some ==> exists|i: int|
            #[trigger] is_best_bucket(spectrum@, i) && r->Some_0 == (spectrum@[i].min_freq
                + spectrum@[i].max_freq) / 2,
{
    let n = spectrum.len();
    if n == 0 {
        assert(forall|i: int| !is_significant(spectrum@, i));
        return None;
    }
    let mut sum: u64 = 0;
    let mut i: usize = 0;
    while i < n
        invariant
            0 < n == spectrum@.len() <= crate::MAX_SAMPLES,
            spectrum_wf(spectrum@),
            i <= n,
            sum == pos_sum(spectrum@.take(i as int)),
            sum <= (i as int) * crate::MAX_INTENSITY,
        decreases n - i,
    {
        proof {
            lemma_pos_sum_take_step(spectrum@, i as int);
            assert(bucket_wf(spectrum@[i as int]));
        }
        let b = &spectrum[i];
        if b.intensity > 0 {
            sum = sum + (b.intensity as u64);
        }
        i = i + 1;
    }
    proof {
        assert(spectrum@.take(n as int) =~= spectrum@);
        vstd::arithmetic::div_mod::lemma_div_is_ordered(
            sum as int,
            (n as int) * crate::MAX_INTENSITY,
            n as int,
        );
        vstd::arithmetic::div_mod::lemma_div_multiples_vanish(crate::MAX_INTENSITY as int, n as int);
        vstd::arithmetic::div_mod::lemma_div_pos_is_pos(sum as int, n as int);
    }
    let threshold: i64 = (sum / (n as u64)) as i64;
    proof {
        assert(threshold == spec_threshold(spectrum@));
    }
    let mut found = false;
    let mut best_i: usize = 0;
    let mut best_val: i64 = 0;
    let mut i: usize = 0;
    while i < n
        invariant
            0 < n == spectrum@.len() <= crate::MAX_SAMPLES,
            spectrum_wf(spectrum@),
            threshold == spec_threshold(spectrum@),
            i <= n,
            found <==> exists|j: int| j < i && #[trigger] is_significant(spectrum@, j),
            found ==> {
                &&& is_significant(spectrum@, best_i as int)
                &&& best_i < i
                &&& best_val == spectrum@[best_i as int].intensity
                &&& forall|j: int|
                    j < i && #[trigger] is_significant(spectrum@, j) ==> spectrum@[j].intensity
                        <= best_val
                &&& forall|j: int|
                    j < best_i && #[trigger] is_significant(spectrum@, j) ==> spectrum@[j].intensity
                        < best_val
            },
        decreases n - i,
    {
        let b = &spectrum[i];
        if b.intensity > 0 && b.intensity > threshold {
            assert(is_significant(spectrum@, i as int));
            if !found || b.intensity > best_val {
                found = true;
                best_i = i;
                best_val = b.intensity;
            }
        }
        i = i + 1;
    }
    if found {
        proof {
            assert(bucket_wf(spectrum@[best_i as int]));
            assert(is_best_bucket(spectrum@, best_i as int));
        }
        Some(spectrum[best_i].ave_freq())
    } else {
        None
    }
}

/// A spectrum with no positive intensity (an all-zero or non-positive
/// spectrum) has no significant bucket, so the estimator yields
/// `None`.
pub proof fn lemma_no_positive_intensity_no_estimate(s: Seq<FrequencyBucket>)
    requires
        forall|i: int| 0 <= i < s.len() ==> #[trigger] s[i].intensity <= 0,
    ensures
        forall|i: int| !is_significant(s, i),
{
}

} // verus!
