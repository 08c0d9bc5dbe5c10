//! Channel extraction: for one analysis window and one channel, gather the
//! channel's samples from the interleaved stream into a buffer of exactly
//! the window length, zero-padded where the window runs past the end of
//! the stream.

use vstd::prelude::*;

use crate::store::SampleStore;

verus! {

/// The sample at absolute index `i`, or zero outside the stream: the
/// named clamping policy of the extractor — an out-of-range index never
/// reads, it contributes silence.
pub open spec fn spec_sample_or_zero(samples: Seq<i64>, i: int) -> i64 {
    if 0 <= i < samples.len() {
        samples[i]
    } else {
        0i64
    }
}

/// The buffer extracted for one channel of one window: entry `j` is the
/// sample at interleaved absolute index `pos + channel + j * channel_count`,
/// or zero where that index runs past the end of the stream.
pub open spec fn spec_channel_buffer(
    samples: Seq<i64>,
    channel_count: int,
    pos: int,
    channel: int,
    window_length: nat,
) -> Seq<i64> {
    Seq::new(
        window_length,
        |j: int| spec_sample_or_zero(samples, pos + channel + j * channel_count),
    )
}

/// Extracts the buffer for one channel of the window starting at `pos`:
/// samples at stride `channel_count` starting from `pos + channel`, cast
/// to the transform's input domain, right-padded with zeros to exactly
/// `window_length` entries. Always returns a buffer of exactly
/// `window_length` samples; edge positions are handled by padding, never
/// by failure.
pub fn extract_channel(store: &SampleStore, pos: usize, channel: u16, window_length: usize) -> (buf:
    Vec<i64>)
    requires
        store.wf(),
        channel < store.spec_channel_count(),
    ensures
        buf@.len() == window_length,
        buf@ == spec_channel_buffer(
            store@,
            store.spec_channel_count() as int,
            pos as int,
            channel as int,
            window_length as nat,
        ),
{
    let cc = store.channel_count();
    let n = store.len();
    let mut buf: Vec<i64> = Vec::new();
    let mut j: usize = 0;
    while j < window_length
        invariant
            j <= window_length,
            buf@.len() == j,
            cc == store.spec_channel_count(),
            cc >= 1,
            channel < cc,
            n == store@.len(),
            forall|i: int|
                0 <= i < j ==> #[trigger] buf@[i] == spec_sample_or_zero(
                    store@,
                    pos + channel + i * cc,
                ),
        decreases window_length - j,
    {
        proof {
            vstd::arithmetic::mul::lemma_mul_upper_bound(
                j as int,
                usize::MAX as int,
                cc as int,
                u16::MAX as int,
            );
        }
        let idx: u128 = pos as u128 + channel as u128 + (j as u128) * (cc as u128);
        let v = if idx < n as u128 {
            store.sample(idx as usize)
        } else {
            0i64
        };
        buf.push(v);
        j = j + 1;
    }
    proof {
        assert(buf@ =~= spec_channel_buffer(
            store@,
            store.spec_channel_count() as int,
            pos as int,
            channel as int,
            window_length as nat,
        ));
    }
    buf
}

/// A silent stream extracts to silent buffers: every entry of every
/// channel buffer of an all-zero sample sequence is zero, whatever the
/// window position and length.
pub proof fn lemma_silent_stream_extracts_zero(
    samples: Seq<i64>,
    channel_count: int,
    pos: int,
    channel: int,
    window_length: nat,
)
    requires
        forall|i: int| 0 <= i < samples.len() ==> #[trigger] samples[i] == 0,
    ensures
        forall|j: int|
            0 <= j < window_length ==> #[trigger] spec_channel_buffer(
                samples,
                channel_count,
                pos,
                channel,
                window_length,
            )[j] == 0,
{
}

} // verus!
