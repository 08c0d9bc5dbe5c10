//! Spectral transform engine: turns an interleaved PCM sample stream into a
//! normalized time-frequency magnitude map.
//!
//! The pipeline has four stages, each a component of this crate:
//! window planning ([`plan`]), per-channel buffer extraction ([`extract`]),
//! magnitude accumulation into a dense map, and a single global
//! normalization pass ([`map`]). The discrete Fourier transform itself is a
//! floating-point computation performed by the caller between extraction and
//! accumulation; every stage here works on plain integers (samples and
//! magnitudes in fixed point) and is verified.

use vstd::prelude::*;

pub mod engine;
pub mod extract;
pub mod map;
pub mod plan;
pub mod store;

verus! {

/// Errors of the transform engine.
///
/// `InvalidParameter` rejects timing parameters that would produce a
/// zero-length window or a zero stride. `EmptyInput` rejects a sample store
/// with no samples, before any window is planned. `InvalidState` reports an
/// internal contract violation, such as a spectrum whose length does not
/// match the planned window length.
#[derive(Clone, Copy, PartialEq, Eq, Structural, Debug)]
pub enum TransformError {
    InvalidParameter,
    EmptyInput,
    InvalidState,
}

} // verus!

