//! Real-time speed ramps for stepper motors.
//!
//! The crate turns an acceleration, a cruise speed and a target position into
//! the sequence of delays between motor pulses: a ramp up from rest, a cruise
//! at the configured speed, and a ramp down that ends on the target step.
//! Each request for a delay costs a fixed, small number of integer
//! operations, so it can be served from a timer interrupt.
//!
//! [`Stepgen`] is the generator. [`ramp::Ramp`] is its mathematical model,
//! and every function of the generator is verified to do what the model says.
//! [`laws`] holds what is proved of the model itself: that a run ends on its
//! target step, that delays fall on the way up the ramp and rise on the way
//! down, that a stopped machine stays stopped. [`timing`] has the fixed-point
//! formulas and [`sqrt`] the integer square root behind the first delay.

pub mod error;
pub mod generator;
pub mod laws;
pub mod ramp;
pub mod sqrt;
pub mod timing;

pub use crate::error::Error;
pub use crate::generator::Stepgen;
pub use crate::sqrt::u64sqrt;
