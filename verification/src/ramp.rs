//! The mathematical model of the ramp generator.
//!
//! A [`Ramp`] is the state of a generator with every field an unbounded
//! natural number. [`Ramp::step`] and [`Ramp::pulse`] say what one request for
//! a delay does to it and what it yields; the executable generator is proved
//! to follow them exactly.

use crate::error::Error;
use crate::timing::{
    cruise_delay, first_step_delay, slowed_down, sped_up, speed_at, DELAY_LIMIT, FASTEST_DELAY,
    MIN_CRUISE_DELAY, MIN_RAMP_DELAY, TICKS_LIMIT,
};
use vstd::prelude::*;

verus! {

/// State of a ramp generator. All delays are in 16.16 format.
pub struct Ramp {
    /// Timer ticks per second; fixed for the life of the generator.
    pub ticks_per_second: nat,
    /// Delay of the first step from rest; 0 until an acceleration is set.
    pub first_delay: nat,
    /// Delay at cruise speed; 0 until a target speed is set.
    pub target_delay: nat,
    /// Step at which to come to rest.
    pub target_step: nat,
    /// Steps taken so far.
    pub current_step: nat,
    /// Position on the ramp, counted in acceleration steps from rest; 0 at rest.
    pub speed: nat,
    /// Delay of the ramp at its present position.
    pub delay: nat,
    /// The cruise delay while cruising, 0 otherwise.
    pub slewing_delay: nat,
}

/// What the generator does when asked for the next delay.
pub enum Move {
    /// At or past the target and slow enough to halt: no step.
    Stop,
    /// From rest, towards a cruise speed slower than the first ramp step:
    /// step at the cruise delay and stay off the ramp.
    Creep,
    /// From rest onto the first step of the ramp.
    Start,
    /// Braking now would end one step short: repeat the delay once.
    Hold,
    /// Braking has to begin, or go on, to end at the target.
    Brake,
    /// Faster than the cruise speed: come down the ramp towards it.
    EaseOff,
    /// Slower than the cruise speed: climb the ramp towards it.
    Accelerate,
    /// Keep the present delay.
    Cruise,
}

impl Ramp {
    /// A generator fresh from construction: at step 0, at rest, nothing configured.
    pub open spec fn fresh(ticks_per_second: nat) -> Ramp {
        Ramp {
            ticks_per_second,
            first_delay: 0,
            target_delay: 0,
            target_step: 0,
            current_step: 0,
            speed: 0,
            delay: 0,
            slewing_delay: 0,
        }
    }

    /// The states that a generator can be in.
    ///
    /// Every field fits 32 bits. A cruise delay, once set, is longer than the
    /// fastest delay allowed, and a target step is only ever set after a cruise
    /// delay. A machine that has ever had an acceleration accepted has a timer
    /// slow enough for one. On a ramp the delay stays above a floor, and the
    /// ramp can be walked down to rest without running out of step numbers.
    /// During a cruise the ramp's own delay keeps track of the cruise delay:
    /// if it is shorter, one braking step makes up for that.
    pub open spec fn wf(self) -> bool {
        &&& self.ticks_per_second <= u32::MAX
        &&& self.first_delay <= u32::MAX
        &&& self.target_delay <= u32::MAX
        &&& self.target_step <= u32::MAX
        &&& self.current_step <= u32::MAX
        &&& self.speed <= u32::MAX
        &&& self.delay <= u32::MAX
        &&& self.slewing_delay <= u32::MAX
        &&& self.target_delay != 0 ==> self.target_delay >= MIN_CRUISE_DELAY
        &&& self.slewing_delay != 0 ==> self.slewing_delay >= MIN_CRUISE_DELAY
        &&& self.target_step != 0 ==> self.target_delay != 0
        &&& self.first_delay != 0 || self.target_step != 0 || self.speed != 0
            ==> self.ticks_per_second <= TICKS_LIMIT
        &&& self.speed != 0 ==> self.delay >= MIN_RAMP_DELAY
        &&& self.stop_point() <= u32::MAX
        &&& self.cruising() ==> self.delay >= self.slewing_delay || slowed_down(
            self.delay,
            (self.speed - 1) as nat,
        ) >= self.slewing_delay
    }

    /// Both an acceleration and a target speed have been set.
    pub open spec fn configured(self) -> bool {
        self.first_delay != 0 && self.target_delay != 0
    }

    /// The answer to a request for an acceleration, in 24.8 format: too slow
    /// if it is zero or if the first delay that it gives does not fit the timer.
    pub open spec fn check_acceleration(self, acceleration: nat) -> Result<(), Error> {
        if acceleration == 0 || first_step_delay(self.ticks_per_second, acceleration)
            >= DELAY_LIMIT {
            Err(Error::TooSlow)
        } else {
            Ok(())
        }
    }

    /// The state after a request for an acceleration: the first delay is
    /// replaced if the request is accepted, and nothing changes if it is not.
    pub open spec fn with_acceleration(self, acceleration: nat) -> Ramp {
        if self.check_acceleration(acceleration) is Ok {
            Ramp {
                first_delay: first_step_delay(self.ticks_per_second, acceleration) * 256,
                ..self
            }
        } else {
            self
        }
    }

    /// The answer to a request for a cruise speed, in 24.8 format: too slow
    /// if it is zero or if its delay does not fit the timer, too fast if its
    /// delay is `FASTEST_DELAY` ticks or less.
    pub open spec fn check_target_speed(self, speed: nat) -> Result<(), Error> {
        if speed == 0 || cruise_delay(self.ticks_per_second, speed) >= DELAY_LIMIT {
            Err(Error::TooSlow)
        } else if cruise_delay(self.ticks_per_second, speed) <= FASTEST_DELAY * 256 {
            Err(Error::TooFast)
        } else {
            Ok(())
        }
    }

    /// The state after a request for a cruise speed: the target delay is
    /// replaced if the request is accepted, and nothing changes if it is not.
    pub open spec fn with_target_speed(self, speed: nat) -> Ramp {
        if self.check_target_speed(speed) is Ok {
            Ramp { target_delay: cruise_delay(self.ticks_per_second, speed) * 256, ..self }
        } else {
            self
        }
    }

    /// The answer to a request for a target step: refused until both an
    /// acceleration and a target speed are set.
    pub open spec fn check_target_step(self) -> Result<(), Error> {
        if self.configured() {
            Ok(())
        } else {
            Err(Error::SpeedAccelerationNotSet)
        }
    }

    /// The state after a request for a target step: the step is stored if
    /// the request is accepted, and nothing changes if it is not.
    pub open spec fn with_target_step(self, step: nat) -> Ramp {
        if self.check_target_step() is Ok {
            Ramp { target_step: step, ..self }
        } else {
            self
        }
    }

    /// The machine is at rest: not on the ramp.
    pub open spec fn at_rest(self) -> bool {
        self.speed == 0
    }

    /// The machine is moving at the cruise delay.
    pub open spec fn cruising(self) -> bool {
        self.speed != 0 && self.slewing_delay != 0
    }

    /// The machine is moving along the ramp, not cruising.
    pub open spec fn ramping(self) -> bool {
        self.speed != 0 && self.slewing_delay == 0
    }

    /// The delay in force: the cruise delay while cruising, else the ramp's.
    pub open spec fn active_delay(self) -> nat {
        if self.slewing_delay != 0 {
            self.slewing_delay
        } else {
            self.delay
        }
    }

    /// The estimated speed in 24.8 format: 0 at rest, else the speed that
    /// belongs to the delay in force.
    pub open spec fn speed_estimate(self) -> nat {
        if self.speed == 0 {
            0
        } else {
            speed_at(self.ticks_per_second, self.active_delay() / 256)
        }
    }

    /// The machine is at or past its target and slow enough to halt.
    pub open spec fn arrived(self) -> bool {
        self.current_step >= self.target_step && self.speed <= 1
    }

    /// The first step at which the machine can be at rest: where it is if it
    /// can halt at once, else one step further for each ramp step that has to
    /// be walked down.
    pub open spec fn stop_point(self) -> nat {
        if self.speed <= 1 {
            self.current_step
        } else {
            (self.current_step + self.speed - 1) as nat
        }
    }

    /// The step at which the machine comes to rest if nothing is reconfigured:
    /// the target step, or the first step at which it can be at rest if that
    /// lies beyond the target.
    pub open spec fn landing(self) -> nat {
        if self.stop_point() >= self.target_step {
            self.stop_point()
        } else {
            self.target_step
        }
    }

    /// The cruise delay as the next request finds it: a cruise whose delay is
    /// no longer the target delay is over.
    pub open spec fn kept_slewing_delay(self) -> nat {
        if self.slewing_delay == self.target_delay {
            self.slewing_delay
        } else {
            0
        }
    }

    /// The decision that the next request for a delay takes.
    ///
    /// It is taken on the state as the request finds it: the step count is
    /// the one before the step, and with it the machine would come to rest
    /// at `current_step + speed` if it began to brake now.
    pub open spec fn decide(self) -> Move {
        if self.arrived() {
            Move::Stop
        } else if self.speed == 0 {
            if self.target_delay > self.first_delay {
                Move::Creep
            } else {
                Move::Start
            }
        } else if self.current_step + self.speed == self.target_step {
            Move::Hold
        } else if self.current_step + self.speed > self.target_step {
            Move::Brake
        } else if self.kept_slewing_delay() == 0 && self.delay < self.target_delay {
            Move::EaseOff
        } else if self.kept_slewing_delay() == 0 && self.delay > self.target_delay {
            Move::Accelerate
        } else {
            Move::Cruise
        }
    }

    /// The state after the next request for a delay. A stop only puts the
    /// machine at rest; every other move takes one step and ends a cruise
    /// whose delay is no longer the target delay.
    pub open spec fn step(self) -> Ramp {
        let moved = Ramp {
            current_step: self.current_step + 1,
            slewing_delay: self.kept_slewing_delay(),
            ..self
        };
        match self.decide() {
            Move::Stop => Ramp { speed: 0, ..self },
            Move::Creep | Move::Hold | Move::Cruise => moved,
            Move::Start => Ramp { speed: 1, delay: self.first_delay, ..moved },
            Move::Brake => Ramp {
                speed: (self.speed - 1) as nat,
                delay: slowed_down(self.delay, (self.speed - 1) as nat),
                slewing_delay: 0,
                ..moved
            },
            Move::EaseOff => {
                let delay = slowed_down(self.delay, (self.speed - 1) as nat);
                Ramp {
                    speed: (self.speed - 1) as nat,
                    delay,
                    slewing_delay: if delay >= self.target_delay {
                        self.target_delay
                    } else {
                        0
                    },
                    ..moved
                }
            },
            Move::Accelerate => {
                let delay = sped_up(self.delay, self.speed);
                Ramp {
                    speed: self.speed + 1,
                    delay,
                    slewing_delay: if delay <= self.target_delay {
                        self.target_delay
                    } else {
                        0
                    },
                    ..moved
                }
            },
        }
    }

    /// What the next request for a delay yields: the delay of the step taken,
    /// in 16.8 format, or `None` for the stop signal.
    pub open spec fn pulse(self) -> Option<nat> {
        match self.decide() {
            Move::Stop => None,
            Move::Creep => Some(self.target_delay / 256),
            Move::Start => Some(self.first_delay / 256),
            _ => Some(self.step().active_delay() / 256),
        }
    }

    /// The state after `n` requests in a row, with no reconfiguration between them.
    pub open spec fn run(self, n: nat) -> Ramp
        decreases n,
    {
        if n == 0 {
            self
        } else {
            self.run((n - 1) as nat).step()
        }
    }
}

} // verus!
