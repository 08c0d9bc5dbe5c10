use rustfft::num_complex::Complex;
use rustfft::FftPlanner;

use spectrogram::engine::{fill_map, retained_bins, window_buffers};
use spectrogram::extract::extract_channel;
use spectrogram::map::{Amplifier, NormalizedMap, TransformMap, NORM_ONE};
use spectrogram::plan::{plan_windows, TimingParams, WindowPlan};
use spectrogram::store::SampleStore;
use spectrogram::TransformError;

/// The forward transform of one buffer, reduced to the real components:
/// what the library's accumulation stage consumes.
fn dft_re(buffer: &[i64], planner: &mut FftPlanner<f64>) -> Vec<i64> {
    let fft = planner.plan_fft_forward(buffer.len());
    let mut data: Vec<Complex<f64>> = buffer
        .iter()
        .map(|&s| Complex::new(s as f64, 0.0))
        .collect();
    fft.process(&mut data);
    data.iter().map(|c| c.re as i64).collect()
}

/// The whole pipeline on decoded samples: plan, extract, transform,
/// accumulate — everything up to (and not including) normalization.
fn accumulate(
    samples: Vec<i64>,
    channel_count: u16,
    rate: u32,
    params: &TimingParams,
    keep_divisor: usize,
) -> (WindowPlan, TransformMap) {
    let store = SampleStore::new(samples, channel_count, rate).unwrap();
    let plan = plan_windows(params, rate, store.len()).unwrap();
    let buffers = window_buffers(&store, &plan);
    let mut planner = FftPlanner::new();
    let spectra: Vec<Vec<i64>> = buffers.iter().map(|b| dft_re(b, &mut planner)).collect();
    let height = retained_bins(plan.window_length(), keep_divisor);
    let map = fill_map(&plan, channel_count, height, &spectra).unwrap();
    (plan, map)
}

fn default_params() -> TimingParams {
    TimingParams { start_time_ms: 0, window_length_ms: 100, step_ms: None, duration_ms: None }
}

fn norm_cells(n: &NormalizedMap) -> Vec<Vec<u64>> {
    (0..n.width())
        .map(|x| (0..n.height()).map(|k| n.value(x, k)).collect())
        .collect()
}

#[test]
fn impulse_scenario_broadband_row() {
    // one second of silence at 8 kHz except a unit impulse at sample 4000:
    // ten windows; the window starting at 4000 sees the impulse at its
    // first sample, which spreads energy evenly across every bin, and all
    // other windows stay entirely zero
    let mut samples = vec![0i64; 8000];
    samples[4000] = 1000;
    let (plan, map) = accumulate(samples, 1, 8000, &default_params(), 1);
    assert_eq!(plan.len(), 10);
    assert_eq!(plan.position(5), 4000);
    let height = retained_bins(plan.window_length(), 1);
    assert_eq!(height, 400);
    assert_eq!(map.global_max(), 1000);

    let normalized = map.normalize(&Amplifier::Identity);
    let cells = norm_cells(&normalized);
    for (x, row) in cells.iter().enumerate() {
        assert_eq!(row[0], 0);
        for &v in &row[1..] {
            if x == 5 {
                assert_eq!(v, NORM_ONE);
            } else {
                assert_eq!(v, 0);
            }
        }
    }
}

#[test]
fn transform_is_deterministic() {
    // the same input and configuration twice: bit-identical output
    let samples: Vec<i64> = (0..8000)
        .map(|j| ((j * 37) % 401) as i64 - 200)
        .collect();
    let params = default_params();
    let (_, m1) = accumulate(samples.clone(), 1, 8000, &params, 10);
    let (_, m2) = accumulate(samples, 1, 8000, &params, 10);
    let n1 = norm_cells(&m1.normalize(&Amplifier::Identity));
    let n2 = norm_cells(&m2.normalize(&Amplifier::Identity));
    assert_eq!(n1, n2);
}

#[test]
fn normalization_range_and_peak() {
    // every normalized cell is in the unit range, and a non-silent input
    // puts at least one cell at exactly full scale
    let samples: Vec<i64> = (0..8000)
        .map(|j| (((j as f64) * 0.05).sin() * 500.0) as i64)
        .collect();
    let (_, map) = accumulate(samples, 1, 8000, &default_params(), 10);
    assert!(map.global_max() > 0);
    let cells = norm_cells(&map.normalize(&Amplifier::Identity));
    let mut peak = 0u64;
    for row in &cells {
        for &v in row {
            assert!(v <= NORM_ONE);
            peak = peak.max(v);
        }
    }
    assert_eq!(peak, NORM_ONE);
}

#[test]
fn dc_bin_is_always_zero() {
    // a strong constant offset lands entirely in bin 0 of the spectrum,
    // which the map never populates
    let samples = vec![1000i64; 8000];
    let (_, map) = accumulate(samples, 1, 8000, &default_params(), 10);
    let cells = norm_cells(&map.normalize(&Amplifier::Identity));
    for row in &cells {
        assert_eq!(row[0], 0);
    }
}

#[test]
fn silence_yields_all_zero_map() {
    // an all-zero store: every cell is zero after normalization, with no
    // division-by-zero anywhere
    let samples = vec![0i64; 8000];
    let (_, map) = accumulate(samples, 1, 8000, &default_params(), 10);
    assert_eq!(map.global_max(), 0);
    let cells = norm_cells(&map.normalize(&Amplifier::Identity));
    for row in &cells {
        for &v in row {
            assert_eq!(v, 0);
        }
    }
}

#[test]
fn silent_channel_contributes_nothing() {
    // an interleaved two-channel stream: channel 0 carries a pure tone,
    // channel 1 is silent. Accumulating both channels gives exactly the
    // magnitudes of the tone channel alone: a silent channel adds zero,
    // never less and never a product.
    let tone = |j: usize| (((j as f64) * std::f64::consts::TAU * 3.0 / 800.0).cos() * 400.0) as i64;
    let stereo: Vec<i64> = (0..8000).flat_map(|j| [tone(j), 0]).collect();
    let store = SampleStore::new(stereo, 2, 8000).unwrap();
    let plan = plan_windows(&default_params(), 8000, store.len()).unwrap();
    let height = retained_bins(plan.window_length(), 10);
    let mut planner = FftPlanner::new();

    // both channels, through the engine
    let buffers = window_buffers(&store, &plan);
    let spectra: Vec<Vec<i64>> = buffers.iter().map(|b| dft_re(b, &mut planner)).collect();
    let both = fill_map(&plan, 2, height, &spectra).unwrap();

    // the tone channel alone
    let mut alone = TransformMap::new(plan.len(), height, plan.window_length());
    for x in 0..plan.len() {
        let buf = extract_channel(&store, plan.position(x), 0, plan.window_length());
        let spectrum = dft_re(&buf, &mut planner);
        alone.accumulate_spectrum(x, &spectrum).unwrap();
    }

    assert!(both.global_max() > 0);
    assert_eq!(both.global_max(), alone.global_max());
    for x in 0..both.width() {
        for k in 0..both.height() {
            assert_eq!(both.cell(x, k), alone.cell(x, k));
        }
    }
}

#[test]
fn accumulate_rejects_wrong_length_spectrum() {
    let mut map = TransformMap::new(1, 2, 4);
    let short = vec![0i64, 7];
    assert_eq!(
        map.accumulate_spectrum(0, &short).unwrap_err(),
        TransformError::InvalidState
    );
    let right = vec![0i64, 7, 0, 0];
    map.accumulate_spectrum(0, &right).unwrap();
    assert_eq!(map.global_max(), 7);
}

#[test]
fn fill_map_rejects_wrong_spectra_count() {
    let params = default_params();
    let plan = plan_windows(&params, 8000, 8000).unwrap();
    let spectra = vec![vec![0i64; plan.window_length()]; plan.len() - 1];
    assert_eq!(
        fill_map(&plan, 1, 400, &spectra).unwrap_err(),
        TransformError::InvalidState
    );
}

#[test]
fn accumulation_is_additive_across_channels() {
    // two spectra into the same window row: magnitudes add, and signs
    // vanish under the absolute value
    let mut map = TransformMap::new(1, 3, 6);
    map.accumulate_spectrum(0, &vec![9, 5, -2, 0, 0, 0]).unwrap();
    map.accumulate_spectrum(0, &vec![4, -1, 3, 0, 0, 0]).unwrap();
    // bin 0 skipped entirely, bin 1 = 5 + 1, bin 2 = 2 + 3
    assert_eq!(map.global_max(), 6);
    let n = map.normalize(&Amplifier::Identity);
    assert_eq!(n.value(0, 0), 0);
    assert_eq!(n.value(0, 1), NORM_ONE);
    assert_eq!(n.value(0, 2), 5 * NORM_ONE / 6);
}

#[test]
fn square_gain_amplifier_exact_values() {
    // rows with maxima 7 and 3: the ratio of the second row is
    // 3_000_000 / 7 = 428571, and the square-law amplifier maps it to
    // (g·428571)² / 1_000_000, clamped to full scale
    let mut map = TransformMap::new(2, 2, 4);
    map.accumulate_spectrum(0, &vec![0, 7, 0, 0]).unwrap();
    map.accumulate_spectrum(1, &vec![0, 3, 0, 0]).unwrap();

    let identity = norm_cells(&map.clone().normalize(&Amplifier::Identity));
    assert_eq!(identity[0][1], NORM_ONE);
    assert_eq!(identity[1][1], 428_571);

    let g1 = norm_cells(&map.clone().normalize(&Amplifier::SquareGain(1)));
    assert_eq!(g1[0][1], NORM_ONE);
    assert_eq!(g1[1][1], 183_673);

    let g2 = norm_cells(&map.normalize(&Amplifier::SquareGain(2)));
    assert_eq!(g2[0][1], NORM_ONE);
    assert_eq!(g2[1][1], 734_692);
}
