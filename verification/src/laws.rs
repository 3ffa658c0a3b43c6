//! What holds of every ramp: theorems about the model in [`crate::ramp`].
//!
//! The executable generator follows the model step for step, so each of
//! these is a statement about what a motor driven by it is told to do.

use crate::ramp::{Move, Ramp};
use crate::timing::{
    cruise_delay, lemma_first_step_delay_bounds_ticks, lemma_slowed_down_bounds,
    lemma_slowed_down_undoes_sped_up, lemma_sped_up_bounds, lemma_speed_at_fits,
};
use vstd::prelude::*;

verus! {

/// A request for an acceleration, accepted or not, leaves a valid state.
pub proof fn lemma_acceleration_keeps_wf(r: Ramp, acceleration: nat)
    requires
        r.wf(),
        acceleration <= u32::MAX,
    ensures
        r.with_acceleration(acceleration).wf(),
{
    if r.check_acceleration(acceleration) is Ok {
        lemma_first_step_delay_bounds_ticks(r.ticks_per_second, acceleration);
    }
}

/// A request for a cruise speed, accepted or not, leaves a valid state, and
/// an accepted one leaves a cruise delay that is not zero.
pub proof fn lemma_target_speed_keeps_wf(r: Ramp, speed: nat)
    requires
        r.wf(),
    ensures
        r.with_target_speed(speed).wf(),
        r.check_target_speed(speed) is Ok ==> r.with_target_speed(speed).target_delay != 0,
{
}

/// A request for a target step, accepted or not, leaves a valid state.
pub proof fn lemma_target_step_keeps_wf(r: Ramp, step: nat)
    requires
        r.wf(),
        step <= u32::MAX,
    ensures
        r.with_target_step(step).wf(),
{
}

/// A request for a delay leaves a valid state.
pub proof fn lemma_step_keeps_wf(r: Ramp)
    requires
        r.wf(),
    ensures
        r.step().wf(),
{
    if r.speed >= 1 {
        lemma_sped_up_bounds(r.delay, r.speed);
        lemma_slowed_down_undoes_sped_up(r.delay, r.speed);
        lemma_slowed_down_bounds(r.delay, (r.speed - 1) as nat);
    }
}

/// Any number of requests for a delay in a row leaves a valid state.
pub proof fn lemma_run_keeps_wf(r: Ramp, n: nat)
    requires
        r.wf(),
    ensures
        r.run(n).wf(),
    decreases n,
{
    if n > 0 {
        lemma_run_keeps_wf(r, (n - 1) as nat);
        lemma_step_keeps_wf(r.run((n - 1) as nat));
    }
}

/// Asking for the same acceleration a second time changes nothing more.
pub proof fn lemma_acceleration_is_idempotent(r: Ramp, acceleration: nat)
    ensures
        r.with_acceleration(acceleration).check_acceleration(acceleration)
            == r.check_acceleration(acceleration),
        r.with_acceleration(acceleration).with_acceleration(acceleration) == r.with_acceleration(
            acceleration,
        ),
{
}

/// A request for a delay never touches the configuration.
pub proof fn lemma_step_keeps_configuration(r: Ramp)
    ensures
        r.step().ticks_per_second == r.ticks_per_second,
        r.step().first_delay == r.first_delay,
        r.step().target_delay == r.target_delay,
        r.step().target_step == r.target_step,
{
}

/// Each delay goes with exactly one step, and no delay is zero. The stop
/// signal goes with none: it changes nothing but to put the machine at rest.
pub proof fn lemma_pulse_takes_one_step(r: Ramp)
    requires
        r.wf(),
    ensures
        match r.pulse() {
            Some(delay) => delay > 0 && r.step().current_step == r.current_step + 1,
            None => r.step() == (Ramp { speed: 0, ..r }),
        },
{
    lemma_step_keeps_wf(r);
}

/// The step count never goes down.
pub proof fn lemma_run_never_steps_back(r: Ramp, n: nat)
    requires
        r.wf(),
    ensures
        r.run(n).current_step >= r.current_step,
    decreases n,
{
    if n > 0 {
        lemma_run_never_steps_back(r, (n - 1) as nat);
        lemma_run_keeps_wf(r, (n - 1) as nat);
        lemma_pulse_takes_one_step(r.run((n - 1) as nat));
    }
}

/// One request moves the machine along the ramp by one ramp step at most.
pub proof fn lemma_step_changes_speed_by_one_at_most(r: Ramp)
    requires
        r.wf(),
    ensures
        r.speed <= r.step().speed + 1,
        r.step().speed <= r.speed + 1,
{
}

/// A machine that can no longer stop before its target step does nothing
/// but brake: each request takes it one step down the ramp, until it stops.
pub proof fn lemma_late_machine_brakes(r: Ramp)
    requires
        r.wf(),
        r.stop_point() >= r.target_step,
    ensures
        r.decide() is Stop || r.decide() is Brake,
        r.decide() is Brake ==> r.step().speed + 1 == r.speed,
{
}

/// A machine at rest starts again as soon as a target step beyond its own
/// is accepted.
pub proof fn lemma_farther_target_restarts(r: Ramp, step: nat)
    requires
        r.wf(),
        r.configured(),
        r.current_step < step,
    ensures
        r.with_target_step(step).pulse() is Some,
        r.with_target_step(step).step().current_step == r.current_step + 1,
{
}

/// A request for a delay does not move the step at which the machine will
/// come to rest. As long as the target can still be met, each step keeps it
/// so; once it cannot, the machine walks straight down the ramp.
pub proof fn lemma_step_keeps_landing(r: Ramp)
    requires
        r.wf(),
    ensures
        r.step().landing() == r.landing(),
        r.stop_point() <= r.step().stop_point(),
{
}

/// The stop signal comes exactly when the machine stands on its landing
/// step: never before the target step, and on the target step itself
/// whenever the machine could still stop there.
pub proof fn lemma_stops_on_landing(r: Ramp)
    requires
        r.wf(),
    ensures
        r.pulse() is None <==> r.current_step == r.landing(),
        r.current_step <= r.landing(),
        r.landing() >= r.target_step,
        r.stop_point() <= r.target_step ==> r.landing() == r.target_step,
{
}

/// Left alone, the machine takes exactly the steps up to its landing step,
/// one for each delay, and stops there for good: after `n` requests it
/// stands `n` steps further, or on its landing step if that is nearer, and
/// it gives the stop signal from then on and not before.
pub proof fn lemma_run_reaches_landing(r: Ramp, n: nat)
    requires
        r.wf(),
    ensures
        r.run(n).wf(),
        r.run(n).landing() == r.landing(),
        r.run(n).target_step == r.target_step,
        r.run(n).current_step == (if r.current_step + n <= r.landing() {
            r.current_step + n
        } else {
            r.landing()
        }),
        r.run(n).pulse() is None <==> r.current_step + n >= r.landing(),
    decreases n,
{
    if n > 0 {
        let before = r.run((n - 1) as nat);
        lemma_run_reaches_landing(r, (n - 1) as nat);
        lemma_stops_on_landing(before);
        lemma_pulse_takes_one_step(before);
        lemma_step_keeps_landing(before);
        lemma_step_keeps_wf(before);
    }
    lemma_stops_on_landing(r.run(n));
}

/// A run towards a target step that the machine can meet ends on that very
/// step: the stop signal comes after as many delays as there were steps to
/// go, and after no fewer.
pub proof fn lemma_run_stops_on_target(r: Ramp, n: nat)
    requires
        r.wf(),
        r.stop_point() <= r.target_step,
    ensures
        r.run(n).pulse() is None <==> r.current_step + n >= r.target_step,
        r.run(n).pulse() is None ==> r.run(n).current_step == r.target_step,
        r.run(n).stop_point() <= r.target_step,
{
    lemma_run_reaches_landing(r, n);
    lemma_stops_on_landing(r.run(n));
}

/// A run towards a target step that the machine can no longer meet ends on
/// the first step at which it can be at rest.
pub proof fn lemma_run_stops_at_stop_point(r: Ramp, n: nat)
    requires
        r.wf(),
        r.stop_point() >= r.target_step,
    ensures
        r.run(n).pulse() is None <==> r.current_step + n >= r.stop_point(),
        r.run(n).pulse() is None ==> r.run(n).current_step == r.stop_point(),
{
    lemma_run_reaches_landing(r, n);
}

/// Once the machine has given the stop signal, it gives nothing else and
/// does not move, however often it is asked.
pub proof fn lemma_stopped_stays_stopped(r: Ramp, n: nat)
    requires
        r.wf(),
        r.pulse() is None,
    ensures
        r.run(n).pulse() is None,
        r.run(n).current_step == r.current_step,
        r.run(n).speed == (if n == 0 {
            r.speed
        } else {
            0
        }),
        n >= 1 ==> r.run(n) == r.step(),
    decreases n,
{
    if n > 0 {
        lemma_stopped_stays_stopped(r, (n - 1) as nat);
    }
}

/// From one delay to the next, with nothing reconfigured in between: while
/// the machine accelerates the delays fall, while it slows down they rise,
/// and on the way to the cruise speed they never pass the cruise delay.
pub proof fn lemma_ramp_delays_are_monotonic(q: Ramp)
    requires
        q.wf(),
        q.pulse() is Some,
        q.step().pulse() is Some,
    ensures
        ({
            let r = q.step();
            let before = q.pulse()->Some_0;
            let after = r.pulse()->Some_0;
            match r.decide() {
                Move::Accelerate => r.target_delay / 256 <= after <= before,
                Move::EaseOff => before <= after <= r.target_delay / 256,
                Move::Brake => before <= after,
                _ => true,
            }
        }),
{
    let r = q.step();
    lemma_step_keeps_wf(q);
    lemma_step_keeps_wf(r);
    if r.speed >= 1 {
        lemma_sped_up_bounds(r.delay, r.speed);
        lemma_slowed_down_bounds(r.delay, (r.speed - 1) as nat);
    }
}

/// The same, told of one state: on the ramp, where the last delay issued is
/// the ramp's own, the next delay lies on the side of it that the move says.
pub proof fn lemma_ramp_delay_moves_towards_target(r: Ramp)
    requires
        r.wf(),
        r.ramping(),
    ensures
        match r.decide() {
            Move::Accelerate => r.pulse() matches Some(d) && r.target_delay / 256 <= d <= r.delay
                / 256,
            Move::EaseOff => r.pulse() matches Some(d) && r.delay / 256 <= d <= r.target_delay
                / 256,
            Move::Brake => r.pulse() matches Some(d) && r.delay / 256 <= d,
            Move::Hold | Move::Cruise => r.pulse() == Some(r.delay / 256),
            Move::Stop => r.pulse() is None,
            Move::Creep | Move::Start => false,
        },
{
    lemma_sped_up_bounds(r.delay, r.speed);
    lemma_slowed_down_bounds(r.delay, (r.speed - 1) as nat);
}

/// While the machine moves, its estimated speed fits 32 bits.
pub proof fn lemma_speed_estimate_fits(r: Ramp)
    requires
        r.wf(),
    ensures
        r.speed_estimate() <= u32::MAX,
        r.at_rest() ==> r.speed_estimate() == 0,
{
    if r.speed != 0 {
        lemma_speed_at_fits(r.ticks_per_second, r.active_delay() / 256);
    }
}

/// During a cruise the estimated speed is the tick rate over the cruise
/// delay, rounded down to a whole 24.8 unit.
pub proof fn lemma_cruise_speed_matches_delay(r: Ramp)
    requires
        r.wf(),
        r.cruising(),
    ensures
        ({
            let delay = r.slewing_delay / 256;
            let speed = r.speed_estimate();
            delay > 0 && speed * delay <= r.ticks_per_second * 65536 < (speed + 1) * delay
        }),
{
    let delay = r.slewing_delay / 256;
    let scaled = r.ticks_per_second * 65536;
    let speed = scaled / delay;
    assert(speed * delay <= scaled < (speed + 1) * delay) by (nonlinear_arith)
        requires
            delay > 0,
            speed == scaled / delay,
    ;
}

/// A cruise at an accepted target speed is estimated at that speed or just
/// above it: the estimate exceeds the target speed by less than one part in
/// as many as the cruise delay has 16.8 units.
pub proof fn lemma_cruise_speed_is_target_speed(r: Ramp, speed: nat)
    requires
        r.wf(),
        r.cruising(),
        r.check_target_speed(speed) is Ok,
        r.slewing_delay == r.with_target_speed(speed).target_delay,
    ensures
        speed <= r.speed_estimate() <= u32::MAX,
        (r.speed_estimate() - speed) * cruise_delay(r.ticks_per_second, speed) < speed,
{
    lemma_speed_estimate_fits(r);
    let scaled = r.ticks_per_second * 65536;
    let delay = scaled / speed;
    let estimate = scaled / delay;
    assert(r.active_delay() / 256 == delay);
    assert(speed <= estimate && (estimate - speed) * delay < speed) by (nonlinear_arith)
        requires
            speed > 0,
            delay > 0,
            delay == scaled / speed,
            estimate == scaled / delay,
    {
        assert(delay * speed <= scaled < (delay + 1) * speed);
        assert(estimate * delay <= scaled < (estimate + 1) * delay);
        if estimate < speed {
            assert((estimate + 1) * delay <= speed * delay);
        }
        assert((estimate - speed) * delay == estimate * delay - speed * delay);
    }
}

} // verus!
