//! Time-domain fundamental-frequency estimation: the lag with the
//! strongest autocorrelation, after suppressing the trivial peak at
//! lag zero, gives the period of the signal.
use vstd::prelude::*;

verus! {

/// Sum of the first `n` products `s[i] * s[i + lag]`.
pub open spec fn corr_prefix(s: Seq<i64>, lag: int, n: int) -> int
    decreases n,
{
    if n <= 0 {
        0
    } else {
        corr_prefix(s, lag, n - 1) + s[n - 1] * s[n - 1 + lag]
    }
}

/// Unnormalized autocorrelation of `s` at `lag`: the window shrinks as
/// the lag grows.
pub open spec fn corr_at(s: Seq<i64>, lag: int) -> int {
    corr_prefix(s, lag, s.len() - lag)
}

/// The whole correlation curve, one value per lag in `0 .. s.len()`.
pub open spec fn corr_curve(s: Seq<i64>) -> Seq<int> {
    Seq::new(s.len(), |lag: int| corr_at(s, lag))
}

/// First position `o` at or after `from` where the curve rises
/// (`c[o - 1] < c[o]`), or `c.len()` when it never does.
pub open spec fn first_rise_from(c: Seq<int>, from: int) -> int
    recommends
        1 <= from,
    decreases c.len() - from,
{
    if from < 1 || from >= c.len() {
        c.len() as int
    } else if c[from - 1] < c[from] {
        from
    } else {
        first_rise_from(c, from + 1)
    }
}

/// How many leading values the zero-lag suppression clears: every lag
/// before the curve first rises, save the one the rise was detected
/// at.
pub open spec fn zeroed_count(c: Seq<int>) -> int {
    if c.len() == 0 {
        0
    } else {
        first_rise_from(c, 1) - 1
    }
}

/// The correlation curve after zero-lag suppression: the non-increasing
/// head of the curve is cleared, up to the point where it starts
/// climbing toward the first genuine peak.
pub open spec fn suppressed(c: Seq<int>) -> Seq<int> {
    Seq::new(c.len(), |i: int| if i < zeroed_count(c) { 0 } else { c[i] })
}

/// Running-max scan of the first `n` curve values, starting from the
/// candidate `(lag 0, value 0)`: yields the first lag holding the
/// largest positive value, or lag 0 when no value is positive.
pub open spec fn peak_prefix(c: Seq<int>, n: int) -> (int, int)
    decreases n,
{
    if n <= 0 {
        (0, 0)
    } else {
        let prev = peak_prefix(c, n - 1);
        if c[n - 1] > prev.1 {
            (n - 1, c[n - 1])
        } else {
            prev
        }
    }
}

/// The lag the estimator reports for `s`: the peak of the suppressed
/// correlation curve. Lag 0 stands for "no periodic peak".
pub open spec fn peak_lag(s: Seq<i64>) -> int {
    peak_prefix(suppressed(corr_curve(s)), s.len() as int).0
}

/// What the running-max scan yields: a non-negative value at least as
/// large as every scanned one and, when positive, attained first at
/// the reported position.
pub proof fn lemma_peak_is_max(c: Seq<int>, n: int)
    requires
        0 <= n <= c.len(),
    ensures
        peak_prefix(c, n).1 >= 0,
        0 <= peak_prefix(c, n).0 <= n,
        forall|j: int| 0 <= j < n ==> c[j] <= peak_prefix(c, n).1,
        peak_prefix(c, n).1 > 0 ==> {
            let (p, v) = peak_prefix(c, n);
            &&& p < n
            &&& c[p] == v
            &&& forall|j: int| 0 <= j < p ==> c[j] < v
        },
    decreases n,
{
    if n > 0 {
        lemma_peak_is_max(c, n - 1);
    }
}

/// The view of a machine-integer sequence as mathematical integers.
pub open spec fn int_view(c: Seq<i64>) -> Seq<int> {
    Seq::new(c.len(), |i: int| c[i] as int)
}

/// Estimate the fundamental frequency of a raw sample buffer: correlate
/// the buffer with itself at every lag, suppress the trivial peak at
/// lag zero, and report `sample_rate / peak_lag` — the reciprocal of
/// the peak lag's period. Yields `None` when no lag beyond the
/// suppressed region carries a positive peak (silence, or a signal
/// with no periodicity).
pub fn find_fundamental_frequency_correlation(samples: &Vec<i64>, sample_rate: u64) -> (r: Option<
    u64,
>)
    requires
        samples@.len() <= crate::MAX_SAMPLES,
        sample_rate > 0,
        forall|i: int|
            0 <= i < samples@.len() ==> -crate::MAX_AMPLITUDE <= #[trigger] samples@[i]
                <= crate::MAX_AMPLITUDE,
    ensures
        r is Some <==> peak_lag(samples@) != 0,
        r is Some ==> r->Some_0 == sample_rate as int / peak_lag(samples@),
{
    let n = samples.len();
    let mut correlation: Vec<i64> = Vec::new();
    let mut offset: usize = 0;
    while offset < n
        invariant
            n == samples@.len() <= crate::MAX_SAMPLES,
            forall|k: int|
                0 <= k < n ==> -crate::MAX_AMPLITUDE <= #[trigger] samples@[k]
                    <= crate::MAX_AMPLITUDE,
            offset <= n,
            correlation@.len() == offset,
            forall|l: int| 0 <= l < offset ==> #[trigger] correlation@[l] == corr_at(samples@, l),
        decreases n - offset,
    {
        let mut c: i64 = 0;
        let mut i: usize = 0;
        while i < n - offset
            invariant
                n == samples@.len() <= crate::MAX_SAMPLES,
                forall|k: int|
                    0 <= k < n ==> -crate::MAX_AMPLITUDE <= #[trigger] samples@[k]
                        <= crate::MAX_AMPLITUDE,
                offset < n,
                i <= n - offset,
                c == corr_prefix(samples@, offset as int, i as int),
                -((i as int) * 0x100000000000) <= c <= (i as int) * 0x100000000000,
            decreases n - offset - i,
        {
            let x = samples[i];
            let y = samples[i + offset];
            proof {
                assert(-0x100000000000 <= (x as int) * (y as int) <= 0x100000000000)
                    by (nonlinear_arith)
                    requires
                        -crate::MAX_AMPLITUDE <= x <= crate::MAX_AMPLITUDE,
                        -crate::MAX_AMPLITUDE <= y <= crate::MAX_AMPLITUDE,
                ;
            }
            c = c + x * y;
            i = i + 1;
        }
        correlation.push(c);
        offset = offset + 1;
    }
    let ghost c0 = corr_curve(samples@);
    proof {
        assert(int_view(correlation@) =~= c0);
    }
    if n == 0 {
        return None;
    }
    let mut offset: usize = 1;
    while offset < n && correlation[offset - 1] >= correlation[offset]
        invariant
            0 < n == c0.len() == correlation@.len(),
            1 <= offset <= n,
            forall|j: int| offset - 1 <= j < n ==> #[trigger] correlation@[j] as int == c0[j],
            forall|j: int| 0 <= j < offset - 1 ==> #[trigger] correlation@[j] == 0i64,
            first_rise_from(c0, offset as int) == first_rise_from(c0, 1),
        decreases n - offset,
    {
        correlation.set(offset - 1, 0);
        offset = offset + 1;
    }
    proof {
        if offset < n {
            assert(c0[offset as int - 1] < c0[offset as int]);
            assert(first_rise_from(c0, offset as int) == offset);
        }
        assert(zeroed_count(c0) == offset - 1);
        assert(int_view(correlation@) =~= suppressed(c0));
    }
    let ghost d = suppressed(c0);
    let mut peak_index: usize = 0;
    let mut peak_value: i64 = 0;
    let mut i: usize = 0;
    while i < n
        invariant
            0 < n == correlation@.len() == d.len(),
            int_view(correlation@) =~= d,
            i <= n,
            peak_index <= i,
            (peak_index as int, peak_value as int) == peak_prefix(d, i as int),
        decreases n - i,
    {
        if correlation[i] > peak_value {
            peak_index = i;
            peak_value = correlation[i];
        }
        i = i + 1;
    }
    if peak_index == 0 {
        None
    } else {
        Some(sample_rate / (peak_index as u64))
    }
}

/// An all-zero (silent) buffer has an all-zero correlation curve, so
/// no lag carries a positive peak and the estimator yields `None`.
pub proof fn lemma_silence_has_no_peak(s: Seq<i64>)
    requires
        forall|i: int| 0 <= i < s.len() ==> #[trigger] s[i] == 0i64,
    ensures
        peak_lag(s) == 0,
{
    assert forall|lag: int| 0 <= lag < s.len() implies #[trigger] corr_at(s, lag) == 0 by {
        lemma_zero_corr_prefix(s, lag, s.len() - lag);
    }
    let d = suppressed(corr_curve(s));
    assert forall|i: int| 0 <= i < d.len() implies #[trigger] d[i] == 0 by {}
    lemma_zero_peak_prefix(d, s.len() as int);
}

proof fn lemma_zero_corr_prefix(s: Seq<i64>, lag: int, n: int)
    requires
        forall|i: int| 0 <= i < s.len() ==> #[trigger] s[i] == 0i64,
        0 <= lag,
        n + lag <= s.len(),
    ensures
        corr_prefix(s, lag, n) == 0,
    decreases n,
{
    if n > 0 {
        lemma_zero_corr_prefix(s, lag, n - 1);
    }
}

proof fn lemma_zero_peak_prefix(c: Seq<int>, n: int)
    requires
        0 <= n <= c.len(),
        forall|i: int| 0 <= i < c.len() ==> #[trigger] c[i] == 0,
    ensures
        peak_prefix(c, n) == (0int, 0int),
    decreases n,
{
    if n > 0 {
        lemma_zero_peak_prefix(c, n - 1);
    }
}

} // verus!
