use pitch_core::autocorrelation::find_fundamental_frequency_correlation;
use pitch_core::spectral::find_fundamental_frequency;
use pitch_core::spectrum::{center_samples, make_buckets, FrequencyBucket};
use std::f64::consts::PI;

const SAMPLE_RATE: f64 = 44100.0;
const RATE_MILLIHZ: u64 = 44_100_000;
const FRAMES: usize = 512;
const SCALE: f64 = 1_000_000.0;

fn frequency_resolution() -> f64 {
    SAMPLE_RATE / 2.0 / FRAMES as f64
}

fn sin_arg(f: f64, t: f64, phase: f64) -> f64 {
    2.0 * PI * f * t + phase
}

fn sample_sinusoud(amplitude: f64, frequency: f64, phase: f64) -> Vec<f64> {
    (0..FRAMES)
        .map(|x| {
            let t = x as f64 / SAMPLE_RATE;
            sin_arg(frequency, t, phase).sin() * amplitude
        })
        .collect()
}

fn to_fixed(samples: &[f64]) -> Vec<i64> {
    samples.iter().map(|&x| (x * SCALE).round() as i64).collect()
}

/// The full transform: fixed-point DC removal, the forward discrete
/// Fourier transform (floating point, outside the library), and the
/// verified bucket construction, with frequencies in millihertz.
fn transform(samples: &[f64]) -> Vec<FrequencyBucket> {
    let fixed = to_fixed(samples);
    let centered = center_samples(&fixed);
    let mut data: Vec<f64> = centered.iter().map(|&x| x as f64 / SCALE).collect();
    let plan = dft::Plan::new(dft::Operation::Forward, data.len());
    dft::transform(&mut data, &plan);
    let coefficients: Vec<i64> = data.iter().map(|&v| (v * SCALE).round() as i64).collect();
    make_buckets(&coefficients, RATE_MILLIHZ)
}

#[test]
fn fft_on_sine_wave() {
    let frequency = 440.0_f64; //concert A

    let samples = sample_sinusoud(1.0, frequency, 0.0);
    let frequency_domain = transform(&samples);
    let fundamental = find_fundamental_frequency(&frequency_domain).unwrap() as f64 / 1000.0;

    assert!(
        (fundamental - frequency).abs() < frequency_resolution(),
        "expected={}, actual={}",
        frequency,
        fundamental
    );
}

#[test]
fn fft_on_two_sine_waves() {
    //Unfortunately, real signals won't be this neat
    let samples1a = sample_sinusoud(2.0, 440.0, 0.0);
    let samples2a = sample_sinusoud(1.0, 880.0, 0.0);
    let expected_fundamental = 440.0;

    let samples: Vec<f64> = samples1a.iter().zip(samples2a.iter()).map(|(a, b)| a + b).collect();
    let frequency_domain = transform(&samples);

    let fundamental = find_fundamental_frequency(&frequency_domain).unwrap() as f64 / 1000.0;

    assert!(
        (fundamental - expected_fundamental).abs() < frequency_resolution(),
        "expected_fundamental={}, actual={}",
        expected_fundamental,
        fundamental
    );
}

#[test]
fn correlation_on_sine_wave() {
    let frequency = 440.0_f64; //concert A

    let samples = sample_sinusoud(1.0, frequency, 0.0);
    let fundamental =
        find_fundamental_frequency_correlation(&to_fixed(&samples), RATE_MILLIHZ).unwrap() as f64
            / 1000.0;
    assert!(
        (fundamental - frequency).abs() < frequency_resolution(),
        "expected={}, actual={}",
        frequency,
        fundamental
    );
}

#[test]
fn correlation_on_two_sine_waves() {
    //Unfortunately, real signals won't be this neat
    let samples1a = sample_sinusoud(2.0, 440.0, 0.0);
    let samples2a = sample_sinusoud(1.0, 880.0, 0.0);
    let expected_fundamental = 440.0;

    let samples: Vec<f64> = samples1a.iter().zip(samples2a.iter()).map(|(a, b)| a + b).collect();

    let fundamental =
        find_fundamental_frequency_correlation(&to_fixed(&samples), RATE_MILLIHZ).unwrap() as f64
            / 1000.0;

    assert!(
        (fundamental - expected_fundamental).abs() < frequency_resolution(),
        "expected_fundamental={}, actual={}",
        expected_fundamental,
        fundamental
    );
}

#[test]
fn transform_is_deterministic() {
    let samples = sample_sinusoud(1.0, 440.0, 0.25);
    let first = transform(&samples);
    let second = transform(&samples);
    assert_eq!(first, second);
}

#[test]
fn all_zero_buffer_gives_no_estimate() {
    let samples = vec![0.0_f64; FRAMES];
    let frequency_domain = transform(&samples);
    assert_eq!(find_fundamental_frequency(&frequency_domain), None);
    assert_eq!(find_fundamental_frequency_correlation(&to_fixed(&samples), RATE_MILLIHZ), None);
}

#[test]
fn buckets_tile_the_band() {
    let samples = sample_sinusoud(1.0, 440.0, 0.0);
    let frequency_domain = transform(&samples);
    assert_eq!(frequency_domain[0].min_freq, 0);
    for pair in frequency_domain.windows(2) {
        assert_eq!(pair[0].max_freq, pair[1].min_freq);
        assert!(pair[0].min_freq < pair[0].max_freq);
    }
}

#[test]
fn make_buckets_lays_out_bands_exactly() {
    let coefficients = vec![5, -3, 7];
    let buckets = make_buckets(&coefficients, 6000);
    assert_eq!(
        buckets,
        vec![
            FrequencyBucket { min_freq: 0, max_freq: 1000, intensity: 5 },
            FrequencyBucket { min_freq: 1000, max_freq: 2000, intensity: -3 },
            FrequencyBucket { min_freq: 2000, max_freq: 3000, intensity: 7 },
        ]
    );
    assert_eq!(buckets[1].ave_freq(), 1500);
}

#[test]
fn center_samples_subtracts_the_mean() {
    assert_eq!(center_samples(&vec![1, 2, 3, 4]), vec![-1, 0, 1, 2]);
    // the mean rounds toward zero, as the sample division does
    assert_eq!(center_samples(&vec![-5, -5, -6]), vec![0, 0, -1]);
}

fn flat_spectrum(intensities: &[i64]) -> Vec<FrequencyBucket> {
    make_buckets(&intensities.to_vec(), 2000 * intensities.len() as u64)
}

#[test]
fn flat_spectrum_has_no_significant_bucket() {
    // nothing exceeds the average positive intensity
    let spectrum = flat_spectrum(&[5, 5, 5]);
    assert_eq!(find_fundamental_frequency(&spectrum), None);
}

#[test]
fn spectral_peak_picks_most_intense_bucket() {
    // positive sum 14 over 3 buckets: threshold 4, only 10 is above it
    let spectrum = flat_spectrum(&[1, 10, 3]);
    assert_eq!(find_fundamental_frequency(&spectrum), Some(spectrum[1].ave_freq()));
}

#[test]
fn spectral_tie_keeps_first_bucket() {
    let spectrum = flat_spectrum(&[0, 7, 7]);
    assert_eq!(find_fundamental_frequency(&spectrum), Some(spectrum[1].ave_freq()));
}

#[test]
fn empty_spectrum_gives_no_estimate() {
    assert_eq!(find_fundamental_frequency(&Vec::new()), None);
}

#[test]
fn correlation_peak_lag_sets_the_frequency() {
    // period-two signal: the suppressed curve peaks at lag 2
    let samples: Vec<i64> = vec![1_000_000, 0, 1_000_000, 0, 1_000_000, 0];
    assert_eq!(find_fundamental_frequency_correlation(&samples, 1000), Some(500));
}

#[test]
fn fully_decreasing_curve_keeps_only_its_tail() {
    // correlation [14, 8, 3] (in units of 10^12): the suppression walk
    // clears lags 0 and 1, so the surviving lag 2 wins
    let samples: Vec<i64> = vec![3_000_000, 2_000_000, 1_000_000];
    assert_eq!(find_fundamental_frequency_correlation(&samples, 1000), Some(500));
}

#[test]
fn single_sample_gives_no_estimate() {
    // the only peak is at lag zero, which has no period
    let samples: Vec<i64> = vec![1_000_000];
    assert_eq!(find_fundamental_frequency_correlation(&samples, 1000), None);
}
