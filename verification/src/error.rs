//! Reasons for refusing a configuration.

use vstd::prelude::*;

verus! {

/// Why a configuration request was refused.
#[derive(Debug, Clone, Copy, PartialEq, Eq, Structural)]
pub enum Error {
    /// The acceleration or speed asked for is too slow: the delay that it
    /// needs does not fit the 16-bit timer.
    TooSlow,
    /// The speed asked for is too fast: the delay that it needs leaves no
    /// time to compute the next one.
    TooFast,
    /// A target step was given before both an acceleration and a target
    /// speed were set.
    SpeedAccelerationNotSet,
}

} // verus!
