//! The transform engine: the per-window, per-channel orchestration of the
//! pipeline, split at the discrete Fourier transform.
//!
//! [`window_buffers`] extracts every channel buffer of every planned
//! window, in window-major order. The caller runs the forward transform of
//! size `window_length` over each buffer — one reusable plan for the whole
//! run, since every buffer has the same length — and hands the spectra
//! back, in the same order, to [`fill_map`], which accumulates them into a
//! [`TransformMap`]. Accumulation is additive across channels and strictly
//! window-ordered; normalization is a separate, later pass on the map.

use vstd::prelude::*;

use crate::TransformError;
use crate::extract::{extract_channel, spec_channel_buffer};
use crate::map::{spec_abs, TransformMap, MAX_CELL};
use crate::plan::WindowPlan;
use crate::store::SampleStore;

verus! {

/// The buffer that belongs at index `i` of the window-major buffer list:
/// window `i / channel_count`, channel `i % channel_count`.
pub open spec fn spec_buffer_at(
    samples: Seq<i64>,
    channel_count: int,
    positions: Seq<usize>,
    window_length: nat,
    i: int,
) -> Seq<i64> {
    spec_channel_buffer(
        samples,
        channel_count,
        positions[i / channel_count] as int,
        i % channel_count,
        window_length,
    )
}

/// Extracts the channel buffers of every planned window, window-major:
/// entry `x * channel_count + c` is channel `c` of the window starting at
/// `positions[x]`. Every buffer has length exactly `window_length`.
pub fn window_buffers(store: &SampleStore, plan: &WindowPlan) -> (r: Vec<Vec<i64>>)
    requires
        store.wf(),
        plan.wf(),
        plan.spec_positions().len() * store.spec_channel_count() <= usize::MAX,
    ensures
        r@.len() == plan.spec_positions().len() * store.spec_channel_count(),
        forall|i: int|
            0 <= i < r@.len() ==> #[trigger] r@[i]@ == spec_buffer_at(
                store@,
                store.spec_channel_count() as int,
                plan.spec_positions(),
                plan.spec_window_length() as nat,
                i,
            ),
        forall|i: int|
            0 <= i < r@.len() ==> (#[trigger] r@[i]@).len() == plan.spec_window_length(),
{
    let cc = store.channel_count();
    let width = plan.len();
    let window_length = plan.window_length();
    let mut r: Vec<Vec<i64>> = Vec::new();
    let mut x: usize = 0;
    while x < width
        invariant
            x <= width,
            store.wf(),
            plan.wf(),
            cc == store.spec_channel_count(),
            width == plan.spec_positions().len(),
            window_length == plan.spec_window_length(),
            width * cc <= usize::MAX,
            r@.len() == x * cc,
            forall|i: int|
                0 <= i < r@.len() ==> #[trigger] r@[i]@ == spec_buffer_at(
                    store@,
                    cc as int,
                    plan.spec_positions(),
                    window_length as nat,
                    i,
                ),
        decreases width - x,
    {
        proof {
            vstd::arithmetic::mul::lemma_mul_inequality(x as int + 1, width as int, cc as int);
            assert((x + 1) * cc == x * cc + cc) by (nonlinear_arith);
        }
        let pos = plan.position(x);
        let mut c: u16 = 0;
        while c < cc
            invariant
                c <= cc,
                store.wf(),
                plan.wf(),
                cc == store.spec_channel_count(),
                x < width,
                width == plan.spec_positions().len(),
                window_length == plan.spec_window_length(),
                pos == plan.spec_positions()[x as int],
                x * cc + cc <= usize::MAX,
                r@.len() == x * cc + c,
                forall|i: int|
                    0 <= i < r@.len() ==> #[trigger] r@[i]@ == spec_buffer_at(
                        store@,
                        cc as int,
                        plan.spec_positions(),
                        window_length as nat,
                        i,
                    ),
            decreases cc - c,
        {
            let buf = extract_channel(store, pos, c, window_length);
            proof {
                vstd::arithmetic::div_mod::lemma_fundamental_div_mod_converse(
                    x as int * cc as int + c as int,
                    cc as int,
                    x as int,
                    c as int,
                );
            }
            r.push(buf);
            c = c + 1;
        }
        x = x + 1;
    }
    proof {
        vstd::arithmetic::mul::lemma_mul_inequality(1, width as int, cc as int);
    }
    r
}

/// The per-spectrum views of a list of spectra, for the contracts below.
pub open spec fn spec_views(s: Seq<Vec<i64>>) -> Seq<Seq<i64>> {
    s.map_values(|v: Vec<i64>| v@)
}

/// The magnitude accumulated into cell `(x, k)` by the first `c` channels
/// of window `x`: the sum of the absolute values of entry `k` of the
/// window's first `c` spectra.
pub open spec fn spec_channel_sum(
    spectra: Seq<Seq<i64>>,
    x: int,
    channel_count: int,
    c: int,
    k: int,
) -> int
    decreases c,
{
    if c <= 0 {
        0
    } else {
        spec_channel_sum(spectra, x, channel_count, c - 1, k) + spec_abs(
            spectra[x * channel_count + (c - 1)][k],
        )
    }
}

/// The channel sum is non-negative and grows by at most one spectrum
/// entry's magnitude per channel.
pub proof fn lemma_channel_sum_bound(
    spectra: Seq<Seq<i64>>,
    x: int,
    channel_count: int,
    c: int,
    k: int,
)
    requires
        c >= 0,
    ensures
        0 <= spec_channel_sum(spectra, x, channel_count, c, k) <= c * (i64::MAX as int + 1),
    decreases c,
{
    if c > 0 {
        lemma_channel_sum_bound(spectra, x, channel_count, c - 1, k);
        assert(c * (i64::MAX as int + 1) == (c - 1) * (i64::MAX as int + 1) + (i64::MAX as int
            + 1)) by (nonlinear_arith);
    }
}

/// The number of frequency bins retained in the output map: half the
/// window length — the upper half of a real signal's spectrum mirrors the
/// lower half — further truncated by the configured keep divisor (a
/// divisor of ten keeps the lowest tenth of the half-spectrum).
pub fn retained_bins(window_length: usize, keep_divisor: usize) -> (r: usize)
    requires
        keep_divisor >= 1,
    ensures
        r == (window_length / 2) as int / keep_divisor as int,
        2 * r <= window_length,
{
    let r = (window_length / 2) / keep_divisor;
    proof {
        vstd::arithmetic::div_mod::lemma_fundamental_div_mod(
            (window_length / 2) as int,
            keep_divisor as int,
        );
        vstd::arithmetic::div_mod::lemma_mod_bound(
            (window_length / 2) as int,
            keep_divisor as int,
        );
        vstd::arithmetic::mul::lemma_mul_inequality(1, keep_divisor as int, r as int);
    }
    r
}

/// Silence accumulates to silence: when every entry of every spectrum of
/// window `x`'s channels is zero, the accumulated channel sum is zero at
/// every bin.
pub proof fn lemma_channel_sum_of_silence(
    spectra: Seq<Seq<i64>>,
    x: int,
    channel_count: int,
    c: int,
    k: int,
)
    requires
        0 <= k,
        0 <= x * channel_count,
        x * channel_count + c <= spectra.len(),
        forall|i: int| 0 <= i < spectra.len() ==> k < (#[trigger] spectra[i]).len(),
        forall|i: int, j: int|
            0 <= i < spectra.len() && 0 <= j < spectra[i].len() ==> #[trigger] spectra[i][j] == 0,
    ensures
        spec_channel_sum(spectra, x, channel_count, c, k) == 0,
    decreases c,
{
    if c > 0 {
        lemma_channel_sum_of_silence(spectra, x, channel_count, c - 1, k);
        assert(spectra[x * channel_count + (c - 1)][k] == 0);
    }
}

/// Silence propagates to the output: a map that accumulated all-zero
/// spectra — what the Fourier transform returns for the all-zero buffers
/// of a silent store — is zero in every cell, and normalization keeps
/// every cell at zero: the divisor floor of one stops the zero global
/// maximum from dividing by zero.
pub proof fn lemma_silent_spectra_normalize_to_zero(
    m: Seq<Seq<u128>>,
    spectra: Seq<Seq<i64>>,
    channel_count: int,
    width: int,
    height: int,
    a: crate::map::Amplifier,
)
    requires
        channel_count >= 0,
        m.len() == width,
        forall|x: int| 0 <= x < width ==> (#[trigger] m[x]).len() == height,
        forall|x: int, k: int|
            0 <= x < width && 1 <= k < height ==> #[trigger] m[x][k] == spec_channel_sum(
                spectra,
                x,
                channel_count,
                channel_count,
                k,
            ),
        forall|x: int| 0 <= x < width && height > 0 ==> (#[trigger] m[x])[0] == 0,
        spectra.len() == width * channel_count,
        forall|i: int| 0 <= i < spectra.len() ==> height <= (#[trigger] spectra[i]).len(),
        forall|i: int, j: int|
            0 <= i < spectra.len() && 0 <= j < spectra[i].len() ==> #[trigger] spectra[i][j] == 0,
    ensures
        forall|x: int, k: int|
            0 <= x < width && 0 <= k < height ==> #[trigger] m[x][k] == 0,
        forall|x: int, k: int|
            0 <= x < m.len() && 0 <= k < m[x].len() ==> #[trigger] crate::map::spec_normalized_cell(
                a,
                m[x][k] as int,
                crate::map::spec_norm_divisor(m),
            ) == 0,
{
    assert forall|x: int, k: int|
        0 <= x < width && 0 <= k < height implies #[trigger] m[x][k] == 0 by {
        if k >= 1 {
            vstd::arithmetic::mul::lemma_mul_nonnegative(x, channel_count);
            vstd::arithmetic::mul::lemma_mul_inequality(x + 1, width, channel_count);
            assert((x + 1) * channel_count == x * channel_count + channel_count)
                by (nonlinear_arith);
            lemma_channel_sum_of_silence(spectra, x, channel_count, channel_count, k);
        }
    }
    crate::map::lemma_silence_normalizes_to_zero(a, m);
}

/// Silent channels contribute zero, additively: with two channels whose
/// second spectrum is all zeros, every accumulated cell of window `x`
/// equals the cell a single-channel run accumulates from the first
/// spectrum alone — never less, never a product.
pub proof fn lemma_silent_channel_additive(two: Seq<Seq<i64>>, one: Seq<Seq<i64>>, x: int, k: int)
    requires
        0 <= x,
        0 <= k,
        x * 2 + 1 < two.len(),
        x < one.len(),
        one[x] == two[x * 2],
        k < two[x * 2 + 1].len(),
        forall|j: int| 0 <= j < two[x * 2 + 1].len() ==> #[trigger] two[x * 2 + 1][j] == 0,
    ensures
        spec_channel_sum(two, x, 2, 2, k) == spec_channel_sum(one, x, 1, 1, k),
{
    assert(two[x * 2 + 1][k] == 0);
    assert(spec_channel_sum(two, x, 2, 0, k) == 0);
    assert(spec_channel_sum(two, x, 2, 1, k) == spec_channel_sum(two, x, 2, 0, k) + spec_abs(
        two[x * 2 + 0][k],
    ));
    assert(spec_channel_sum(two, x, 2, 2, k) == spec_channel_sum(two, x, 2, 1, k) + spec_abs(
        two[x * 2 + 1][k],
    ));
    assert(x * 1 + 0 == x) by (nonlinear_arith);
    assert(spec_channel_sum(one, x, 1, 0, k) == 0);
    assert(spec_channel_sum(one, x, 1, 1, k) == spec_channel_sum(one, x, 1, 0, k) + spec_abs(
        one[x * 1 + 0][k],
    ));
}

/// Accumulation is deterministic: two maps that both satisfy the
/// per-cell description of [`fill_map`] for the same spectra, channel
/// count and dimensions are one and the same map. Together with
/// `lemma_normalize_deterministic`, running the transform twice on
/// identical input and configuration yields an identical map.
pub proof fn lemma_fill_deterministic(
    m1: Seq<Seq<u128>>,
    m2: Seq<Seq<u128>>,
    spectra: Seq<Seq<i64>>,
    channel_count: int,
    width: int,
    height: int,
)
    requires
        m1.len() == width,
        m2.len() == width,
        forall|x: int|
            0 <= x < width ==> (#[trigger] m1[x]).len() == height && (#[trigger] m2[x]).len()
                == height,
        forall|x: int, k: int|
            0 <= x < width && 1 <= k < height ==> #[trigger] m1[x][k] == spec_channel_sum(
                spectra,
                x,
                channel_count,
                channel_count,
                k,
            ),
        forall|x: int, k: int|
            0 <= x < width && 1 <= k < height ==> #[trigger] m2[x][k] == spec_channel_sum(
                spectra,
                x,
                channel_count,
                channel_count,
                k,
            ),
        forall|x: int| 0 <= x < width && height > 0 ==> (#[trigger] m1[x])[0] == 0,
        forall|x: int| 0 <= x < width && height > 0 ==> (#[trigger] m2[x])[0] == 0,
    ensures
        m1 == m2,
{
    assert forall|x: int| 0 <= x < width implies #[trigger] m1[x] == m2[x] by {
        assert forall|k: int| 0 <= k < height implies m1[x][k] == m2[x][k] by {
            if k >= 1 {
                assert(m1[x][k] == spec_channel_sum(spectra, x, channel_count, channel_count, k));
            }
        }
        assert(m1[x] =~= m2[x]);
    }
    assert(m1 =~= m2);
}

/// Accumulates the spectra of every planned window into a fresh transform
/// map: one row per window, `height` retained bins per row, cell `(x, k)`
/// the sum over the window's channels of the absolute value of spectrum
/// entry `k`, with bin 0 always left at zero.
///
/// `spectra` is window-major: the buffers of [`window_buffers`],
/// transformed one by one in order. Fails with `InvalidState`, before
/// accumulating anything, when the number of spectra is not `windows ×
/// channels` or some spectrum's length is not the window length.
pub fn fill_map(
    plan: &WindowPlan,
    channel_count: u16,
    height: usize,
    spectra: &Vec<Vec<i64>>,
) -> (r: Result<TransformMap, TransformError>)
    requires
        plan.wf(),
        channel_count >= 1,
        2 * height <= plan.spec_window_length(),
        plan.spec_positions().len() * channel_count <= usize::MAX,
    ensures
        r is Ok <==> spectra@.len() == plan.spec_positions().len() * channel_count && (forall|
            i: int,
        |
            0 <= i < spectra@.len() ==> (#[trigger] spectra@[i]@).len()
                == plan.spec_window_length()),
        r is Err ==> r->Err_0 == TransformError::InvalidState,
        r is Ok ==> ({
            let m = r->Ok_0;
            &&& m.wf()
            &&& m.spec_width() == plan.spec_positions().len()
            &&& m.spec_height() == height
            &&& m.spec_window_length() == plan.spec_window_length()
            &&& m@.len() == plan.spec_positions().len()
            &&& forall|x: int, k: int|
                0 <= x < m@.len() && 1 <= k < height ==> #[trigger] m@[x][k] == spec_channel_sum(
                    spec_views(spectra@),
                    x,
                    channel_count as int,
                    channel_count as int,
                    k,
                )
            &&& forall|x: int|
                0 <= x < m@.len() && height > 0 ==> (#[trigger] m@[x])[0] == 0
        }),
{
    let cc = channel_count;
    let width = plan.len();
    let window_length = plan.window_length();
    proof {
        vstd::arithmetic::mul::lemma_mul_inequality(1, width as int, cc as int);
    }
    let ccu = cc as usize;
    let total = width * ccu;
    if spectra.len() != total {
        return Err(TransformError::InvalidState);
    }
    let mut i: usize = 0;
    while i < total
        invariant
            i <= total,
            spectra@.len() == total,
            window_length == plan.spec_window_length(),
            forall|j: int| 0 <= j < i ==> (#[trigger] spectra@[j]@).len() == window_length,
        decreases total - i,
    {
        if spectra[i].len() != window_length {
            return Err(TransformError::InvalidState);
        }
        i = i + 1;
    }

    let mut m = TransformMap::new(width, height, window_length);
    let mut x: usize = 0;
    while x < width
        invariant
            x <= width,
            plan.wf(),
            cc >= 1,
            width == plan.spec_positions().len(),
            window_length == plan.spec_window_length(),
            width * cc <= usize::MAX,
            total == width * cc,
            spectra@.len() == total,
            forall|j: int| 0 <= j < total ==> (#[trigger] spectra@[j]@).len() == window_length,
            m.wf(),
            m.spec_width() == width,
            m.spec_height() == height,
            m.spec_window_length() == window_length,
            m@.len() == width,
            forall|y: int, k: int|
                0 <= y < x && 1 <= k < height ==> #[trigger] m@[y][k] == spec_channel_sum(
                    spec_views(spectra@),
                    y,
                    cc as int,
                    cc as int,
                    k,
                ),
            forall|y: int, k: int|
                x <= y < width && 0 <= k < height ==> #[trigger] m@[y][k] == 0,
            forall|y: int|
                0 <= y < x && height > 0 ==> (#[trigger] m@[y])[0] == 0,
        decreases width - x,
    {
        proof {
            vstd::arithmetic::mul::lemma_mul_inequality(x as int + 1, width as int, cc as int);
            assert((x + 1) * cc == x * cc + cc) by (nonlinear_arith);
        }
        let mut c: u16 = 0;
        while c < cc
            invariant
                c <= cc,
                x < width,
                plan.wf(),
                cc >= 1,
                width == plan.spec_positions().len(),
                window_length == plan.spec_window_length(),
                x * cc + cc <= usize::MAX,
                total == width * cc,
                spectra@.len() == total,
                forall|j: int| 0 <= j < total ==> (#[trigger] spectra@[j]@).len() == window_length,
                m.wf(),
                m.spec_width() == width,
                m.spec_height() == height,
                m.spec_window_length() == window_length,
                m@.len() == width,
                forall|y: int, k: int|
                    0 <= y < x && 1 <= k < height ==> #[trigger] m@[y][k] == spec_channel_sum(
                        spec_views(spectra@),
                        y,
                        cc as int,
                        cc as int,
                        k,
                    ),
                forall|k: int|
                    1 <= k < height ==> #[trigger] m@[x as int][k] == spec_channel_sum(
                        spec_views(spectra@),
                        x as int,
                        cc as int,
                        c as int,
                        k,
                    ),
                height > 0 ==> m@[x as int][0] == 0,
                forall|y: int|
                    0 <= y < x && height > 0 ==> (#[trigger] m@[y])[0] == 0,
                forall|y: int, k: int|
                    x < y < width && 0 <= k < height ==> #[trigger] m@[y][k] == 0,
            decreases cc - c,
        {
            proof {
                vstd::arithmetic::mul::lemma_mul_inequality(x as int, width as int - 1, cc as int);
                assert((width - 1) * cc + cc == width * cc) by (nonlinear_arith);
            }
            let idx = x * (cc as usize) + (c as usize);
            let spectrum = &spectra[idx];
            proof {
                assert forall|k: int|
                    1 <= k < height implies m@[x as int][k] + spec_abs(
                    #[trigger] spectrum@[k],
                ) <= MAX_CELL by {
                    lemma_channel_sum_bound(spec_views(spectra@), x as int, cc as int, c as int, k);
                    vstd::arithmetic::mul::lemma_mul_inequality(
                        c as int,
                        u16::MAX as int,
                        i64::MAX as int + 1,
                    );
                }
            }
            let ghost m_pre = m;
            let res = m.accumulate_spectrum(x, spectrum);
            proof {
                assert(res is Ok);
                assert forall|y: int, k: int|
                    0 <= y < x && 1 <= k < height implies #[trigger] m@[y][k] == spec_channel_sum(
                    spec_views(spectra@),
                    y,
                    cc as int,
                    cc as int,
                    k,
                ) by {
                    assert(m@[y] == m_pre@[y]);
                    assert(m_pre@[y][k] == spec_channel_sum(
                        spec_views(spectra@),
                        y,
                        cc as int,
                        cc as int,
                        k,
                    ));
                }
                assert forall|y: int, k: int|
                    x < y < width && 0 <= k < height implies #[trigger] m@[y][k] == 0 by {
                    assert(m@[y] == m_pre@[y]);
                    assert(m_pre@[y][k] == 0);
                }
                assert forall|y: int|
                    0 <= y < x && height > 0 implies (#[trigger] m@[y])[0] == 0 by {
                    assert(m@[y] == m_pre@[y]);
                    assert((m_pre@[y])[0] == 0);
                }
                assert forall|k: int|
                    1 <= k < height implies #[trigger] m@[x as int][k] == spec_channel_sum(
                    spec_views(spectra@),
                    x as int,
                    cc as int,
                    c as int + 1,
                    k,
                ) by {
                    assert(m@[x as int][k] == m_pre@[x as int][k] + spec_abs(spectrum@[k]));
                    assert(spec_views(spectra@)[x as int * cc as int + c as int] == spectrum@);
                }
            }
            match res {
                Ok(()) => {},
                Err(e) => {
                    return Err(e);
                },
            }
            c = c + 1;
        }
        x = x + 1;
    }
    Ok(m)
}

} // verus!
