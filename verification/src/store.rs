//! The sample store: an immutable, channel-interleaved PCM sample stream
//! together with its channel count and sampling rate.
//!
//! Samples are plain integers. A decoder hands the stream over either in its
//! native fixed-point PCM range or after scaling real-valued samples to such
//! a range; the transform only reads the values, so the choice of range is
//! the decoder's.

use vstd::prelude::*;

use crate::TransformError;

verus! {

/// An in-memory, channel-interleaved sequence of decoded PCM samples plus
/// the stream's channel count and sampling rate. Immutable once
/// constructed; the transform only reads it.
#[derive(Clone, Debug)]
pub struct SampleStore {
    samples: Vec<i64>,
    channel_count: u16,
    sampling_rate: u32,
}

impl View for SampleStore {
    type V = Seq<i64>;

    closed spec fn view(&self) -> Seq<i64> {
        self.samples@
    }
}

impl SampleStore {
    /// Both counts are positive; the sample sequence itself may be empty
    /// (emptiness is rejected later, when a window plan is requested).
    pub closed spec fn wf(&self) -> bool {
        self.channel_count >= 1 && self.sampling_rate >= 1
    }

    pub closed spec fn spec_channel_count(&self) -> u16 {
        self.channel_count
    }

    pub closed spec fn spec_sampling_rate(&self) -> u32 {
        self.sampling_rate
    }

    /// Builds a store from decoded samples. Rejects a zero channel count or
    /// a zero sampling rate with `InvalidParameter`; accepts any sample
    /// sequence, including one whose length is not a multiple of the
    /// channel count (a trailing partial frame is tolerated and zero-padded
    /// downstream).
    pub fn new(samples: Vec<i64>, channel_count: u16, sampling_rate: u32) -> (r: Result<
        SampleStore,
        TransformError,
    >)
        ensures
            r is Ok <==> channel_count >= 1 && sampling_rate >= 1,
            r is Err ==> r->Err_0 == TransformError::InvalidParameter,
            r is Ok ==> {
                &&& r->Ok_0@ == samples@
                &&& r->Ok_0.spec_channel_count() == channel_count
                &&& r->Ok_0.spec_sampling_rate() == sampling_rate
                &&& r->Ok_0.wf()
            },
    {
        if channel_count == 0 || sampling_rate == 0 {
            Err(TransformError::InvalidParameter)
        } else {
            Ok(SampleStore { samples, channel_count, sampling_rate })
        }
    }

    /// Number of samples in the stream, all channels interleaved.
    pub fn len(&self) -> (r: usize)
        ensures
            r == self@.len(),
    {
        self.samples.len()
    }

    pub fn channel_count(&self) -> (r: u16)
        ensures
            r == self.spec_channel_count(),
    {
        self.channel_count
    }

    pub fn sampling_rate(&self) -> (r: u32)
        ensures
            r == self.spec_sampling_rate(),
    {
        self.sampling_rate
    }

    /// The sample at index `i`.
    pub fn sample(&self, i: usize) -> (r: i64)
        requires
            i < self@.len(),
        ensures
            r == self@[i as int],
    {
        self.samples[i]
    }
}

} // verus!
