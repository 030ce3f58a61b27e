//! Conversions at the edges of the pipeline, from what the collaborators
//! report to the fixed-point units used inside.

use crate::binary32::{scaled, to_scaled};
use crate::filter::MICROS_PER_SECOND;
use crate::sample::RATIO_ONE;
use vstd::prelude::*;

verus! {

/// Millionths of one in a hundredth: the scale from percent to ratio.
pub const RATIO_PER_PERCENT: u64 = 10_000;

/// The ratio, in millionths, that a percentage stands for, the percentage
/// being given as a binary32 pattern: rounded down and kept within zero and
/// one. What is no number counts as zero.
pub open spec fn ratio_of_percent(bits: u32) -> u32 {
    scaled(bits, RATIO_PER_PERCENT, RATIO_ONE as u64) as u32
}

/// The whole microseconds in a time given in seconds as a binary32 pattern.
/// A negative time, or what is no number, counts as zero.
pub open spec fn micros_of_seconds(bits: u32) -> u64 {
    scaled(bits, MICROS_PER_SECOND as u64, u64::MAX) as u64
}

/// Computes [`ratio_of_percent`].
pub fn percent_to_ratio(bits: u32) -> (ratio: u32)
    ensures
        ratio == ratio_of_percent(bits),
        ratio <= RATIO_ONE,
{
    to_scaled(bits, RATIO_PER_PERCENT, RATIO_ONE as u64) as u32
}

/// Computes [`micros_of_seconds`].
pub fn seconds_to_micros(bits: u32) -> (micros: u64)
    ensures
        micros == micros_of_seconds(bits),
{
    to_scaled(bits, MICROS_PER_SECOND as u64, u64::MAX)
}

} // verus!
