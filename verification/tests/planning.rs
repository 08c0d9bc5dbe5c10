use spectrogram::plan::{plan_windows, TimingParams};
use spectrogram::store::SampleStore;
use spectrogram::extract::extract_channel;
use spectrogram::TransformError;

fn params(start_ms: u64, window_ms: u64, step_ms: Option<u64>, duration_ms: Option<u64>) -> TimingParams {
    TimingParams { start_time_ms: start_ms, window_length_ms: window_ms, step_ms, duration_ms }
}

#[test]
fn plan_positions_non_empty_increasing_bounded() {
    // a second of audio at 8 kHz, 100 ms non-overlapping windows
    let p = plan_windows(&params(0, 100, None, None), 8000, 8000).unwrap();
    assert!(p.len() >= 1);
    let mut prev = p.position(0);
    for i in 1..p.len() {
        let cur = p.position(i);
        assert!(cur > prev);
        prev = cur;
    }
    assert!(p.position(p.len() - 1) <= 8000 - 1);
}

#[test]
fn plan_edge_scenario_width_and_positions() {
    // 8000 samples at 8000 Hz, 0.1 s windows and stride: ten windows,
    // the sixth starting exactly at sample 4000
    let p = plan_windows(&params(0, 100, None, None), 8000, 8000).unwrap();
    assert_eq!(p.window_length(), 800);
    assert_eq!(p.len(), 10);
    assert_eq!(p.position(0), 0);
    assert_eq!(p.position(5), 4000);
    assert_eq!(p.position(9), 7200);
}

#[test]
fn plan_overlap_scenario_stride_and_width() {
    // stride shorter than the window: positions advance by the stride and
    // width = floor((end - start) / step) + 1
    let p = plan_windows(&params(0, 100, Some(50), None), 8000, 8000).unwrap();
    assert_eq!(p.window_length(), 800);
    let step = 400;
    assert_eq!(p.len(), (8000 - 1) / step + 1);
    for i in 0..p.len() {
        assert_eq!(p.position(i), i * step);
    }
}

#[test]
fn plan_single_sample_range_still_has_one_window() {
    // start time beyond the end clamps to the last sample; the plan still
    // holds one window
    let p = plan_windows(&params(10_000, 100, None, None), 8000, 8000).unwrap();
    assert_eq!(p.len(), 1);
    assert_eq!(p.position(0), 7999);
}

#[test]
fn plan_duration_caps_the_range() {
    // a 300 ms duration at 8 kHz covers samples 0..=2400: four windows of
    // stride 800 starting at 0, 800, 1600, 2400
    let p = plan_windows(&params(0, 100, None, Some(300)), 8000, 8000).unwrap();
    assert_eq!(p.len(), 4);
    assert_eq!(p.position(3), 2400);
}

#[test]
fn plan_empty_stream_is_rejected() {
    let e = plan_windows(&params(0, 100, None, None), 8000, 0).unwrap_err();
    assert_eq!(e, TransformError::EmptyInput);
}

#[test]
fn plan_zero_window_is_invalid_parameter() {
    // 0 ms window rounds to zero samples
    let e = plan_windows(&params(0, 0, None, None), 8000, 8000).unwrap_err();
    assert_eq!(e, TransformError::InvalidParameter);
}

#[test]
fn plan_zero_step_is_invalid_parameter() {
    let e = plan_windows(&params(0, 100, Some(0), None), 8000, 8000).unwrap_err();
    assert_eq!(e, TransformError::InvalidParameter);
}

#[test]
fn store_rejects_zero_channel_count_and_rate() {
    assert_eq!(
        SampleStore::new(vec![1, 2, 3], 0, 8000).unwrap_err(),
        TransformError::InvalidParameter
    );
    assert_eq!(
        SampleStore::new(vec![1, 2, 3], 1, 0).unwrap_err(),
        TransformError::InvalidParameter
    );
    let s = SampleStore::new(vec![1, 2, 3], 1, 8000).unwrap();
    assert_eq!(s.len(), 3);
    assert_eq!(s.channel_count(), 1);
    assert_eq!(s.sampling_rate(), 8000);
    assert_eq!(s.sample(2), 3);
}

#[test]
fn extract_length_is_exact_at_both_edges() {
    let samples: Vec<i64> = (0..100).collect();
    let store = SampleStore::new(samples, 1, 8000).unwrap();
    // first window
    let first = extract_channel(&store, 0, 0, 32);
    assert_eq!(first.len(), 32);
    // last window runs past the end of the store and is zero-padded
    let last = extract_channel(&store, 96, 0, 32);
    assert_eq!(last.len(), 32);
    assert_eq!(&last[0..4], &[96, 97, 98, 99]);
    assert!(last[4..].iter().all(|&v| v == 0));
    // a window entirely past the end is all padding
    let past = extract_channel(&store, 1000, 0, 32);
    assert_eq!(past.len(), 32);
    assert!(past.iter().all(|&v| v == 0));
}

#[test]
fn extract_deinterleaves_channels() {
    // two channels interleaved: channel 0 holds 10,20,30, channel 1 holds -1,-2,-3
    let samples: Vec<i64> = vec![10, -1, 20, -2, 30, -3];
    let store = SampleStore::new(samples, 2, 8000).unwrap();
    let c0 = extract_channel(&store, 0, 0, 3);
    let c1 = extract_channel(&store, 0, 1, 3);
    assert_eq!(c0, vec![10, 20, 30]);
    assert_eq!(c1, vec![-1, -2, -3]);
    // offset window picks up mid-stream and pads
    let c0_off = extract_channel(&store, 2, 0, 3);
    assert_eq!(c0_off, vec![20, 30, 0]);
}

#[test]
fn extract_tolerates_trailing_partial_frame() {
    // seven samples over two channels: the trailing half-frame is read for
    // channel 0 and padded for channel 1
    let samples: Vec<i64> = vec![1, 2, 3, 4, 5, 6, 7];
    let store = SampleStore::new(samples, 2, 8000).unwrap();
    let c0 = extract_channel(&store, 0, 0, 4);
    let c1 = extract_channel(&store, 0, 1, 4);
    assert_eq!(c0, vec![1, 3, 5, 7]);
    assert_eq!(c1, vec![2, 4, 6, 0]);
}
