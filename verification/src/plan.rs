//! Window planning: from timing parameters and the stream length, compute
//! the fixed analysis-window length in samples and the ordered sequence of
//! window start offsets.
//!
//! Times are given in milliseconds and converted to sample counts by
//! rounding `ms * rate / 1000` to the nearest integer. The window stride
//! defaults to the window length (non-overlapping windows) and the planned
//! range defaults to the rest of the stream.

use vstd::prelude::*;

use crate::TransformError;

verus! {

/// Timing parameters of one transform run, in milliseconds.
///
/// `step_ms` is the time between successive window starts; when it is
/// `None` it defaults to `window_length_ms`, i.e. non-overlapping windows.
/// `duration_ms` caps the planned range; when it is `None` the range runs
/// to the end of the stream.
#[derive(Clone, Copy, PartialEq, Eq, Structural, Debug)]
pub struct TimingParams {
    pub start_time_ms: u64,
    pub window_length_ms: u64,
    pub step_ms: Option<u64>,
    pub duration_ms: Option<u64>,
}

impl TimingParams {
    /// The stride actually used: `step_ms`, defaulting to the window length.
    pub open spec fn spec_effective_step_ms(&self) -> u64 {
        match self.step_ms {
            Some(s) => s,
            None => self.window_length_ms,
        }
    }

    /// The stride actually used: `step_ms`, defaulting to the window length.
    pub fn effective_step_ms(&self) -> (r: u64)
        ensures
            r == self.spec_effective_step_ms(),
    {
        match self.step_ms {
            Some(s) => s,
            None => self.window_length_ms,
        }
    }
}

/// A duration in milliseconds rounded to the nearest whole number of
/// samples at the given sampling rate.
pub open spec fn spec_round_to_samples(ms: int, rate: int) -> int {
    (ms * rate + 500) / 1000
}

/// The planned window length in samples.
pub open spec fn spec_window_length(params: TimingParams, rate: int) -> int {
    spec_round_to_samples(params.window_length_ms as int, rate)
}

/// The planned stride between window starts, in samples.
pub open spec fn spec_step(params: TimingParams, rate: int) -> int {
    spec_round_to_samples(params.spec_effective_step_ms() as int, rate)
}

/// The first window offset: the requested start time in samples, clamped
/// to the last valid sample index.
pub open spec fn spec_start_sample(params: TimingParams, rate: int, stream_length: int) -> int {
    vstd::math::min(spec_round_to_samples(params.start_time_ms as int, rate), stream_length - 1)
}

/// The end of the planned range: the start plus the requested duration,
/// clamped to the last valid sample index; without a duration, the last
/// valid sample index itself.
pub open spec fn spec_end_sample(params: TimingParams, rate: int, stream_length: int) -> int {
    match params.duration_ms {
        Some(d) => vstd::math::min(
            spec_start_sample(params, rate, stream_length) + spec_round_to_samples(d as int, rate),
            stream_length - 1,
        ),
        None => stream_length - 1,
    }
}

/// How many windows the plan holds: one for each stride that starts within
/// the planned range, plus the window at the start itself (so the plan is
/// never empty, even when the range is a single sample).
pub open spec fn spec_window_count(params: TimingParams, rate: int, stream_length: int) -> int {
    (spec_end_sample(params, rate, stream_length) - spec_start_sample(params, rate, stream_length))
        / spec_step(params, rate) + 1
}

/// Rounds `ms` milliseconds to whole samples at `rate` Hz, in arithmetic
/// wide enough that no intermediate value can overflow.
fn round_ms_to_samples(ms: u64, rate: u32) -> (r: u128)
    ensures
        r == spec_round_to_samples(ms as int, rate as int),
        r <= u64::MAX as int * u32::MAX as int,
{
    proof {
        vstd::arithmetic::mul::lemma_mul_upper_bound(
            ms as int,
            u64::MAX as int,
            rate as int,
            u32::MAX as int,
        );
        let p = ms as int * rate as int;
        assert((p + 500) / 1000 <= p) by (nonlinear_arith)
            requires
                p >= 0,
        ;
    }
    ((ms as u128) * (rate as u128) + 500) / 1000
}

/// The planned window length in samples and the ordered window start
/// offsets, derived once per run by [`plan_windows`].
#[derive(Clone, Debug)]
pub struct WindowPlan {
    window_length: usize,
    positions: Vec<usize>,
}

impl WindowPlan {
    /// The fixed length in samples of every analysis window.
    pub closed spec fn spec_window_length(&self) -> usize {
        self.window_length
    }

    /// The ordered window start offsets.
    pub closed spec fn spec_positions(&self) -> Seq<usize> {
        self.positions@
    }

    /// A usable plan: a positive window length and a non-empty, strictly
    /// increasing sequence of window offsets.
    pub open spec fn wf(&self) -> bool {
        &&& self.spec_window_length() >= 1
        &&& self.spec_positions().len() >= 1
        &&& forall|i: int, j: int|
            0 <= i < j < self.spec_positions().len() ==> self.spec_positions()[i]
                < self.spec_positions()[j]
    }

    /// The fixed length in samples of every analysis window.
    pub fn window_length(&self) -> (r: usize)
        ensures
            r == self.spec_window_length(),
    {
        self.window_length
    }

    /// The number of planned windows.
    pub fn len(&self) -> (r: usize)
        ensures
            r == self.spec_positions().len(),
    {
        self.positions.len()
    }

    /// The start offset of window `i`.
    pub fn position(&self, i: usize) -> (r: usize)
        requires
            i < self.spec_positions().len(),
        ensures
            r == self.spec_positions()[i as int],
    {
        self.positions[i]
    }
}

/// Plans the analysis windows for a stream of `stream_length` interleaved
/// samples at `sampling_rate` Hz.
///
/// Fails with `EmptyInput` on an empty stream and with `InvalidParameter`
/// on parameters whose rounded window length or stride is zero; otherwise
/// the plan holds `(end - start) / step + 1` offsets `start + i * step`,
/// which are strictly increasing and never exceed `stream_length - 1`.
pub fn plan_windows(params: &TimingParams, sampling_rate: u32, stream_length: usize) -> (r: Result<
    WindowPlan,
    TransformError,
>)
    requires
        sampling_rate >= 1,
        spec_window_length(*params, sampling_rate as int) <= usize::MAX,
        spec_step(*params, sampling_rate as int) <= usize::MAX,
    ensures
        r is Err <==> stream_length == 0 || spec_window_length(*params, sampling_rate as int) == 0
            || spec_step(*params, sampling_rate as int) == 0,
        r is Err ==> r->Err_0 == (if stream_length == 0 {
            TransformError::EmptyInput
        } else {
            TransformError::InvalidParameter
        }),
        r is Ok ==> ({
            let plan = r->Ok_0;
            let rate = sampling_rate as int;
            let start = spec_start_sample(*params, rate, stream_length as int);
            let step = spec_step(*params, rate);
            let count = spec_window_count(*params, rate, stream_length as int);
            &&& plan.wf()
            &&& plan.spec_window_length() == spec_window_length(*params, rate)
            &&& plan.spec_positions().len() == count
            &&& plan.spec_positions().len() >= 1
            &&& forall|i: int|
                0 <= i < count ==> plan.spec_positions()[i] == start + i * step
            &&& forall|i: int|
                0 <= i < count - 1 ==> #[trigger] plan.spec_positions()[i + 1]
                    - plan.spec_positions()[i] == step
            &&& plan.spec_positions()[count - 1] <= stream_length - 1
        }),
{
    let wl128 = round_ms_to_samples(params.window_length_ms, sampling_rate);
    let step128 = round_ms_to_samples(params.effective_step_ms(), sampling_rate);

    if stream_length == 0 {
        return Err(TransformError::EmptyInput);
    }
    if wl128 == 0 || step128 == 0 {
        return Err(TransformError::InvalidParameter);
    }

    let window_length = wl128 as usize;
    let step = step128 as usize;
    let last = stream_length - 1;

    let start128 = round_ms_to_samples(params.start_time_ms, sampling_rate);
    let start = if start128 > last as u128 {
        last
    } else {
        start128 as usize
    };

    let end = match params.duration_ms {
        Some(d) => {
            let end128: u128 = start as u128 + round_ms_to_samples(d, sampling_rate);
            if end128 > last as u128 {
                last
            } else {
                end128 as usize
            }
        },
        None => last,
    };
    assert(start <= end);
    assert(start == spec_start_sample(*params, sampling_rate as int, stream_length as int));
    assert(end == spec_end_sample(*params, sampling_rate as int, stream_length as int));
    assert(step == spec_step(*params, sampling_rate as int));
    assert(window_length == spec_window_length(*params, sampling_rate as int));

    let count = (end - start) / step + 1;
    proof {
        let x = (end - start) as int;
        let d = step as int;
        vstd::arithmetic::div_mod::lemma_fundamental_div_mod(x, d);
        vstd::arithmetic::div_mod::lemma_mod_bound(x, d);
        assert(x == d * (x / d) + x % d);
        assert(0 <= x % d);
        assert(d * (x / d) <= x);
        assert(count - 1 == x / d);
        assert((count - 1) * step <= end - start);
    }

    let mut positions: Vec<usize> = Vec::new();
    let mut i: usize = 0;
    while i < count
        invariant
            1 <= count,
            (count - 1) * step <= end - start,
            end <= stream_length - 1,
            step >= 1,
            i <= count,
            positions@.len() == i,
            forall|j: int| 0 <= j < i ==> positions@[j] == start + j * step,
        decreases count - i,
    {
        proof {
            vstd::arithmetic::mul::lemma_mul_inequality(i as int, (count - 1) as int, step as int);
        }
        positions.push(start + i * step);
        i = i + 1;
    }

    let plan = WindowPlan { window_length, positions };
    proof {
        assert forall|a: int, b: int|
            0 <= a < b < plan.spec_positions().len() implies plan.spec_positions()[a]
            < plan.spec_positions()[b] by {
            vstd::arithmetic::mul::lemma_mul_inequality(a + 1, b, step as int);
            assert((a + 1) * step == a * step + step) by (nonlinear_arith);
        }
        assert forall|i: int| 0 <= i < count - 1 implies #[trigger] plan.spec_positions()[i + 1]
            - plan.spec_positions()[i] == step as int by {
            assert((i + 1) * step == i * step + step) by (nonlinear_arith);
        }
    }
    Ok(plan)
}

} // verus!
