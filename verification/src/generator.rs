//! The executable ramp generator.

use crate::error::Error;
use crate::laws::{lemma_acceleration_keeps_wf, lemma_speed_estimate_fits, lemma_step_keeps_wf};
use crate::ramp::Ramp;
use crate::sqrt::u64sqrt;
use crate::timing::{slowdown, speedup, DELAY_LIMIT, FASTEST_DELAY, FRACTION, RAMP_SEED};
use vstd::prelude::*;

verus! {

/// A ramp generator for one stepper motor, bound to one timer frequency.
///
/// Set an acceleration and a target speed, then a target step, and pull the
/// delays one by one with [`Stepgen::next`]: arm the timer with the delay,
/// pulse the motor when it fires, pull again, and stop pulsing at `None`.
/// The target speed and the target step may be changed between any two pulls.
///
/// The view of a generator is its [`Ramp`], and each method states what it
/// does in terms of that model. A generator is always in a state that
/// [`Ramp::wf`] admits, so no method has a precondition.
#[derive(Debug)]
pub struct Stepgen {
    // Steps taken so far.
    current_step: u32,
    // Acceleration steps away from rest; 0 at rest.
    speed: u32,
    // Delay at the present place on the ramp, 16.16.
    delay: u32,
    // Cruise delay while cruising, else 0; 16.16.
    slewing_delay: u32,
    // Timer ticks per second.
    ticks_per_second: u32,
    // Delay of the first step from rest, 16.16.
    first_delay: u32,
    // Step to stop at.
    target_step: u32,
    // Delay at cruise speed, 16.16.
    target_delay: u32,
}

impl View for Stepgen {
    type V = Ramp;

    closed spec fn view(&self) -> Ramp {
        Ramp {
            ticks_per_second: self.ticks_per_second as nat,
            first_delay: self.first_delay as nat,
            target_delay: self.target_delay as nat,
            target_step: self.target_step as nat,
            current_step: self.current_step as nat,
            speed: self.speed as nat,
            delay: self.delay as nat,
            slewing_delay: self.slewing_delay as nat,
        }
    }
}

impl Stepgen {
    /// Only valid states of the model are ever held.
    #[verifier::type_invariant]
    spec fn inv(self) -> bool {
        self@.wf()
    }

    /// A generator for a timer that counts `ticks_per_second` ticks a second:
    /// at step 0, at rest, with nothing configured.
    pub fn new(ticks_per_second: u32) -> (stepgen: Stepgen)
        ensures
            stepgen@ == Ramp::fresh(ticks_per_second as nat),
            stepgen@.wf(),
    {
        Stepgen {
            current_step: 0,
            speed: 0,
            delay: 0,
            slewing_delay: 0,
            ticks_per_second,
            first_delay: 0,
            target_step: 0,
            target_delay: 0,
        }
    }

    /// Sets the acceleration, in steps per second per second, 24.8 format.
    ///
    /// This fixes the delay of the first step from rest. It costs one square
    /// root: call it rarely. An acceleration of zero, or one whose first delay
    /// does not fit the timer, is refused as too slow and changes nothing.
    pub fn set_acceleration(&mut self, acceleration: u32) -> (result: Result<(), Error>)
        ensures
            old(self)@.wf(),
            final(self)@.wf(),
            result == old(self)@.check_acceleration(acceleration as nat),
            final(self)@ == old(self)@.with_acceleration(acceleration as nat),
    {
        proof {
            use_type_invariant(&*self);
            lemma_acceleration_keeps_wf(self@, acceleration as nat);
        }
        if acceleration == 0 {
            return Err(Error::TooSlow);
        }
        let radicand: u64 = RAMP_SEED / (acceleration as u64);
        let root = u64sqrt(radicand);
        assert(root <= 0x4000_0000) by (nonlinear_arith)
            requires
                root * root - root <= radicand,
                radicand <= 0xdf2_2000_0000_0000,
        ;
        let ticks: u64 = self.ticks_per_second as u64;
        assert(ticks * root <= 0xffff_ffff * 0x4000_0000) by (nonlinear_arith)
            requires
                ticks <= 0xffff_ffff,
                root <= 0x4000_0000,
        ;
        let first: u64 = ticks * root / 1000 / (FRACTION as u64);
        if first >= DELAY_LIMIT {
            return Err(Error::TooSlow);
        }
        self.first_delay = (first as u32) * FRACTION;
        Ok(())
    }

    /// Sets the step at which to come to rest.
    ///
    /// Any step is accepted, behind the present one too: the machine then
    /// brakes as fast as the ramp allows. Refused, with nothing changed, until
    /// both an acceleration and a target speed have been set.
    pub fn set_target_step(&mut self, target_step: u32) -> (result: Result<(), Error>)
        ensures
            old(self)@.wf(),
            final(self)@.wf(),
            result == old(self)@.check_target_step(),
            final(self)@ == old(self)@.with_target_step(target_step as nat),
    {
        proof {
            use_type_invariant(&*self);
        }
        if self.target_delay == 0 || self.first_delay == 0 {
            return Err(Error::SpeedAccelerationNotSet);
        }
        self.target_step = target_step;
        Ok(())
    }

    /// Sets the cruise speed, in steps per second, 24.8 format.
    ///
    /// A speed of zero, or one whose delay does not fit the timer, is refused
    /// as too slow; one whose delay is `FASTEST_DELAY` ticks or less as too
    /// fast. A refusal changes nothing. The new speed is in force from the
    /// next delay on.
    pub fn set_target_speed(&mut self, target_speed: u32) -> (result: Result<(), Error>)
        ensures
            old(self)@.wf(),
            final(self)@.wf(),
            result == old(self)@.check_target_speed(target_speed as nat),
            final(self)@ == old(self)@.with_target_speed(target_speed as nat),
    {
        proof {
            use_type_invariant(&*self);
        }
        if target_speed == 0 {
            return Err(Error::TooSlow);
        }
        let delay: u64 = (self.ticks_per_second as u64) * 65536 / (target_speed as u64);
        if delay >= DELAY_LIMIT {
            return Err(Error::TooSlow);
        }
        if delay <= (FASTEST_DELAY as u64) * (FRACTION as u64) {
            return Err(Error::TooFast);
        }
        self.target_delay = (delay as u32) * FRACTION;
        Ok(())
    }

    /// The number of steps taken so far.
    pub fn current_step(&self) -> (step: u32)
        ensures
            step == self@.current_step,
            self@.wf(),
    {
        proof {
            use_type_invariant(self);
        }
        self.current_step
    }

    /// The step at which the machine is to come to rest.
    pub fn target_step(&self) -> (step: u32)
        ensures
            step == self@.target_step,
            self@.wf(),
    {
        proof {
            use_type_invariant(self);
        }
        self.target_step
    }

    /// The delay of the first step from rest, in 16.16 format; 0 until an
    /// acceleration is set.
    pub fn first_delay(&self) -> (delay: u32)
        ensures
            delay == self@.first_delay,
            self@.wf(),
    {
        proof {
            use_type_invariant(self);
        }
        self.first_delay
    }

    /// The delay at cruise speed, in 16.16 format; 0 until a target speed is set.
    pub fn target_delay(&self) -> (delay: u32)
        ensures
            delay == self@.target_delay,
            self@.wf(),
    {
        proof {
            use_type_invariant(self);
        }
        self.target_delay
    }

    /// The place on the ramp, in acceleration steps from rest; 0 at rest.
    pub fn ramp_steps(&self) -> (steps: u32)
        ensures
            steps == self@.speed,
            self@.wf(),
    {
        proof {
            use_type_invariant(self);
        }
        self.speed
    }

    /// The estimated speed, in steps per second, 24.8 format: 0 at rest, else
    /// the speed that belongs to the delay in force, which is the cruise delay
    /// while cruising and the ramp's delay otherwise.
    pub fn current_speed(&self) -> (speed: u32)
        ensures
            speed == self@.speed_estimate(),
            self@.wf(),
    {
        proof {
            use_type_invariant(self);
            lemma_speed_estimate_fits(self@);
        }
        if self.speed == 0 {
            return 0;
        }
        let delay = if self.slewing_delay != 0 {
            self.slewing_delay
        } else {
            self.delay
        };
        let delay = delay / FRACTION;
        let speed: u64 = (self.ticks_per_second as u64) * 65536 / (delay as u64);
        speed as u32
    }

    /// Takes one step, or signals that the machine has stopped.
    ///
    /// Returns the delay until the step after this one, in timer ticks, 16.8
    /// format, and 0 as the stop signal: a delay is never 0. Once stopped the
    /// machine stays stopped until a farther target step is set.
    pub fn next_delay(&mut self) -> (delay: u32)
        ensures
            old(self)@.wf(),
            final(self)@.wf(),
            final(self)@ == old(self)@.step(),
            match old(self)@.pulse() {
                Some(d) => delay == d && delay != 0,
                None => delay == 0,
            },
    {
        proof {
            use_type_invariant(&*self);
            lemma_step_keeps_wf(self@);
        }
        let target_step = self.target_step;
        let target_delay = self.target_delay;
        let st = self.current_step;

        // At or past the target, and slow enough to halt.
        if st >= target_step && self.speed <= 1 {
            self.speed = 0;
            return 0;
        }
        // A cruise ends when the target speed has changed under it.
        let kept: u32 = if self.slewing_delay != 0 && self.slewing_delay != target_delay {
            0
        } else {
            self.slewing_delay
        };

        if self.speed == 0 {
            if target_delay > self.first_delay {
                // The cruise delay is longer than the first ramp delay: no ramp.
                self.slewing_delay = kept;
                self.current_step = st + 1;
                return target_delay / FRACTION;
            }
            // First step of the ramp.
            let first = self.first_delay;
            *self = Stepgen {
                current_step: st + 1,
                speed: 1,
                delay: first,
                slewing_delay: kept,
                ..*self
            };
            return first / FRACTION;
        }
        // Where the machine would come to rest if it began to brake now.
        let est_stop: u64 = st as u64 + self.speed as u64;
        let speed: u32;
        let delay: u32;
        let slewing: u32;
        if est_stop == target_step as u64 {
            // Braking now would stop one step early: keep the delay once more.
            speed = self.speed;
            delay = self.delay;
            slewing = kept;
        } else if est_stop > target_step as u64 {
            // Brake to stop at the target. This is no cruise, even if the
            // delay passes the cruise delay on the way down.
            speed = self.speed - 1;
            delay = slowdown(self.delay, speed);
            slewing = 0;
        } else if kept == 0 && self.delay < target_delay {
            // Too fast: slow down, and cruise once slow enough.
            speed = self.speed - 1;
            delay = slowdown(self.delay, speed);
            slewing = if delay >= target_delay {
                target_delay
            } else {
                0
            };
        } else if kept == 0 && self.delay > target_delay {
            // Too slow: speed up, and cruise once fast enough.
            speed = self.speed + 1;
            delay = speedup(self.delay, self.speed);
            slewing = if delay <= target_delay {
                target_delay
            } else {
                0
            };
        } else {
            speed = self.speed;
            delay = self.delay;
            slewing = kept;
        }
        *self = Stepgen {
            current_step: st + 1,
            speed,
            delay,
            slewing_delay: slewing,
            ..*self
        };
        // The cruise delay and the ramp's may differ by accumulated rounding.
        let active = if slewing != 0 {
            slewing
        } else {
            delay
        };
        active / FRACTION
    }

    /// Takes one step and returns the delay that follows it, in timer ticks,
    /// 16.8 format, or `None` once the machine has stopped.
    ///
    /// Each delay goes with exactly one step, and a stop leaves the step
    /// count as it is.
    pub fn next(&mut self) -> (pulse: Option<u32>)
        ensures
            old(self)@.wf(),
            final(self)@.wf(),
            final(self)@ == old(self)@.step(),
            old(self)@.pulse() == match pulse {
                Some(d) => Some(d as nat),
                None => None,
            },
            pulse matches Some(d) ==> d != 0 && final(self)@.current_step == old(self)@.current_step
                + 1,
            pulse is None ==> final(self)@ == (Ramp { speed: 0, ..old(self)@ }),
    {
        let delay = self.next_delay();
        if delay == 0 {
            None
        } else {
            Some(delay)
        }
    }
}

} // verus!
