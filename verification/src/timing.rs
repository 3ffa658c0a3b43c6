//! Fixed-point timing formulas.
//!
//! Three formats are in play. Accelerations and speeds come in with 8
//! fractional bits ("24.8"). Delays go out in timer ticks with 8 fractional
//! bits ("16.8"); their whole part has to fit the 16-bit timer register. The
//! ramp itself is carried with 16 fractional bits ("16.16"), so that rounding
//! errors stay small over a long ramp.

use crate::sqrt::{
    is_rounded_sqrt, lemma_rounded_sqrt_exists, lemma_rounded_sqrt_monotonic, rounded_sqrt,
};
use vstd::arithmetic::div_mod::lemma_div_is_ordered_by_denominator;
use vstd::prelude::*;

verus! {

/// One tick in 16.8 format, and the factor between the 16.16 and 16.8 formats.
pub const FRACTION: u32 = 256;

/// First 16.8 delay that no longer fits the timer: 16 bits of ticks, 8 of fraction.
pub const DELAY_LIMIT: u64 = 0x100_0000;

/// Shortest delay, in whole ticks, that leaves time to compute the next one.
/// A cruise delay has to be longer than this.
pub const FASTEST_DELAY: u32 = 30;

/// Smallest 16.16 cruise delay that configuration accepts: one 16.8 unit
/// above `FASTEST_DELAY` ticks.
pub const MIN_CRUISE_DELAY: u32 = 1_966_336;

/// Lower bound of the 16.16 delay anywhere on a ramp. A ramp starts at or
/// above the cruise delay, and one acceleration step keeps at least three
/// fifths of the delay.
pub const MIN_RAMP_DELAY: u32 = 1_179_648;

/// `2 * 0.676 * 0.676`, scaled by `10^6 * 2^40`: the radicand of the first
/// delay for an acceleration of one 24.8 unit. The factor 0.676 corrects the
/// error that the ramp recurrence makes on its first step.
pub const RAMP_SEED: u64 = 0xdf2_2000_0000_0000;

/// Fastest timer, in ticks per second, on which some 32-bit acceleration is
/// accepted. On a faster one even the largest acceleration has a first delay
/// too long for the timer.
pub const TICKS_LIMIT: u32 = 280_790_225;

/// The quotient `n / d` rounded to the nearest integer, halves upwards.
pub open spec fn div_round(n: nat, d: nat) -> nat
    recommends
        d > 0,
{
    (n + d / 2) / d
}

/// The 16.8 delay of the first step from rest for an acceleration given in
/// 24.8 format: `ticks_per_second * 0.676 * sqrt(2 / acceleration)` ticks,
/// with everything but the tick rate gathered under one rounded square root
/// before the single division.
pub open spec fn first_step_delay(ticks_per_second: nat, acceleration: nat) -> nat
    recommends
        acceleration > 0,
{
    ticks_per_second * rounded_sqrt(RAMP_SEED as nat / acceleration) / 1000 / 256
}

/// The 16.8 delay between steps at a speed given in 24.8 format:
/// `ticks_per_second / speed` ticks, rounded down.
pub open spec fn cruise_delay(ticks_per_second: nat, speed: nat) -> nat
    recommends
        speed > 0,
{
    ticks_per_second * 65536 / speed
}

/// The 24.8 speed at which steps follow each other with the given 16.8
/// delay, rounded down.
pub open spec fn speed_at(ticks_per_second: nat, delay: nat) -> nat
    recommends
        delay > 0,
{
    ticks_per_second * 65536 / delay
}

/// The delay after one acceleration step taken `speed` ramp steps from rest:
/// `delay - round(2 * delay / (4 * speed + 1))`.
pub open spec fn sped_up(delay: nat, speed: nat) -> nat {
    (delay - div_round(2 * delay, 4 * speed + 1)) as nat
}

/// The delay after one deceleration step that arrives `speed` ramp steps from
/// rest: `delay + round(2 * delay / (4 * speed - 1))`, held at the largest
/// 32-bit value. Arriving at rest leaves the delay as it is.
pub open spec fn slowed_down(delay: nat, speed: nat) -> nat {
    if speed == 0 {
        delay
    } else {
        let longer = delay + div_round(2 * delay, (4 * speed - 1) as nat);
        if longer <= u32::MAX {
            longer
        } else {
            u32::MAX as nat
        }
    }
}

/// A timer for which some 32-bit acceleration is accepted ticks no faster
/// than `TICKS_LIMIT`: the largest acceleration has the shortest first delay,
/// and that one has to fit.
pub proof fn lemma_first_step_delay_bounds_ticks(ticks_per_second: nat, acceleration: nat)
    requires
        0 < acceleration <= u32::MAX,
        first_step_delay(ticks_per_second, acceleration) < DELAY_LIMIT,
    ensures
        ticks_per_second <= TICKS_LIMIT,
{
    let radicand = RAMP_SEED as nat / acceleration;
    let root = rounded_sqrt(radicand);
    lemma_div_is_ordered_by_denominator(RAMP_SEED as int, acceleration as int, u32::MAX as int);
    assert(RAMP_SEED as int / (u32::MAX as int) == 233_971_712);
    lemma_rounded_sqrt_exists(radicand);
    assert(is_rounded_sqrt(233_971_712, 15_296)) by (nonlinear_arith);
    lemma_rounded_sqrt_monotonic(233_971_712, radicand, 15_296, root);
    assert(ticks_per_second * root < 4_294_967_296_000);
    assert(ticks_per_second * 15_296 <= ticks_per_second * root) by (nonlinear_arith)
        requires
            15_296 <= root,
    ;
}

/// On a timer no faster than `TICKS_LIMIT`, the speed that belongs to a
/// delay on the ramp fits 32 bits.
pub proof fn lemma_speed_at_fits(ticks_per_second: nat, delay: nat)
    requires
        ticks_per_second <= TICKS_LIMIT,
        delay >= MIN_RAMP_DELAY / 256,
    ensures
        speed_at(ticks_per_second, delay) <= u32::MAX,
{
    assert(ticks_per_second * 65536 / delay <= 0xffff_ffff) by (nonlinear_arith)
        requires
            ticks_per_second <= 280_790_225,
            delay >= 4608,
    {
        assert(ticks_per_second * 65536 < 0x1_0000_0000 * 4608);
        assert(0x1_0000_0000 * 4608 <= 0x1_0000_0000 * delay);
        if ticks_per_second * 65536 / delay >= 0x1_0000_0000 {
            assert((ticks_per_second * 65536 / delay) * delay >= 0x1_0000_0000 * delay);
            assert((ticks_per_second * 65536 / delay) * delay <= ticks_per_second * 65536);
        }
    }
}

/// An acceleration step shortens the delay, by at most two fifths and half a unit.
pub proof fn lemma_sped_up_bounds(delay: nat, speed: nat)
    requires
        speed >= 1,
    ensures
        div_round(2 * delay, 4 * speed + 1) <= delay,
        sped_up(delay, speed) <= delay,
        5 * sped_up(delay, speed) + 2 >= 3 * delay,
{
    let denom = 4 * speed + 1;
    let cut = div_round(2 * delay, denom);
    assert(5 * cut <= 2 * delay + 2) by (nonlinear_arith)
        requires
            denom >= 5,
            cut == (2 * delay + denom / 2) / denom,
    {
        assert(cut * denom <= 2 * delay + denom / 2);
        if cut >= 1 {
            assert(cut * denom >= 5 * cut + (denom - 5));
        }
    }
}

/// A deceleration step back to where an acceleration step was taken undoes
/// it, up to one unit of rounding.
pub proof fn lemma_slowed_down_undoes_sped_up(delay: nat, speed: nat)
    requires
        speed >= 1,
        delay <= u32::MAX,
    ensures
        slowed_down(sped_up(delay, speed), speed) + 1 >= delay,
{
    lemma_sped_up_bounds(delay, speed);
    let up = 4 * speed + 1;
    let down = (4 * speed - 1) as nat;
    let cut = div_round(2 * delay, up);
    let faster = sped_up(delay, speed);
    let gain = div_round(2 * faster, down);
    assert(gain + 1 >= cut) by (nonlinear_arith)
        requires
            speed >= 1,
            up == 4 * speed + 1,
            down == 4 * speed - 1,
            cut == (2 * delay + up / 2) / up,
            faster == delay - cut,
            gain == (2 * faster + down / 2) / down,
    {
        assert(cut * up <= 2 * delay + up / 2);
        assert((cut - 1) * down == cut * up - 2 * cut - up + 2);
        assert((cut - 1) * down <= 2 * faster + down / 2);
        if gain < cut - 1 {
            assert((gain + 1) * down <= (cut - 1) * down);
            assert((gain + 1) * down > 2 * faster + down / 2);
        }
    }
}

/// A deceleration step never shortens the delay.
pub proof fn lemma_slowed_down_bounds(delay: nat, speed: nat)
    requires
        delay <= u32::MAX,
    ensures
        delay <= slowed_down(delay, speed) <= u32::MAX,
{
}

/// One acceleration step: the delay that follows `delay` at ramp step `speed`.
/// The ramp is climbed from its first step on, so `speed` is at least 1.
pub fn speedup(delay: u32, speed: u32) -> (faster: u32)
    requires
        speed >= 1,
    ensures
        faster == sped_up(delay as nat, speed as nat),
        faster <= delay,
{
    let denom: u64 = 4 * (speed as u64) + 1;
    let cut: u64 = (2 * (delay as u64) + denom / 2) / denom;
    proof {
        lemma_sped_up_bounds(delay as nat, speed as nat);
    }
    delay - (cut as u32)
}

/// One deceleration step: the delay that follows `delay` when the ramp comes
/// down to step `speed`.
pub fn slowdown(delay: u32, speed: u32) -> (slower: u32)
    ensures
        slower == slowed_down(delay as nat, speed as nat),
        slower >= delay,
{
    if speed == 0 {
        return delay;
    }
    let denom: u64 = 4 * (speed as u64) - 1;
    let longer: u64 = delay as u64 + (2 * (delay as u64) + denom / 2) / denom;
    if longer <= u32::MAX as u64 {
        longer as u32
    } else {
        u32::MAX
    }
}

} // verus!
