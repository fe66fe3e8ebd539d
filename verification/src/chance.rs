//! Chance. Raw draws come from the `rand` crate; everything made of a draw is
//! computed here from the raw value, so that it holds for every draw.

use vstd::prelude::*;

verus! {

/// Parts in ten thousand: the unit of every probability and percentage held by
/// this crate (`10_000` is 100%).
pub const FULL_SCALE: u32 = 10_000;

/// A raw draw from `rand::random`.
///
/// Trusted: the value is random, so nothing is claimed of it. The crate
/// itself stops the program where it cannot seed its generator.
#[verifier::external_body]
pub(crate) fn draw() -> (raw: u64) {
    rand::random::<u64>()
}

/// The value in `[0, span)` that a raw draw stands for.
pub open spec fn spread(raw: u64, span: u32) -> int {
    raw as int % span as int
}

/// Maps a raw draw onto `[0, span)`.
pub fn sample(raw: u64, span: u32) -> (v: u32)
    requires
        span > 0,
    ensures
        v == spread(raw, span),
        v < span,
{
    (raw % (span as u64)) as u32
}

/// Whether a raw draw falls under a probability given in parts of
/// `FULL_SCALE`.
pub open spec fn falls_under(raw: u64, threshold: u32) -> bool {
    spread(raw, FULL_SCALE) < threshold
}

/// Tests a raw draw against a probability given in parts of `FULL_SCALE`.
pub fn happens(raw: u64, threshold: u32) -> (b: bool)
    ensures
        b == falls_under(raw, threshold),
{
    sample(raw, FULL_SCALE) < threshold
}

} // verus!
