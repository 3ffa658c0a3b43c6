use stepgen::{Error, Stepgen};

const FREQUENCY: u32 = 1_000_000;

#[test]
fn new_generator_is_at_rest_and_unconfigured() {
    let mut stepgen = Stepgen::new(FREQUENCY);
    assert_eq!(0, stepgen.current_step());
    assert_eq!(0, stepgen.target_step());
    assert_eq!(0, stepgen.current_speed());
    assert_eq!(0, stepgen.first_delay());
    assert_eq!(0, stepgen.target_delay());
    assert_eq!(0, stepgen.ramp_steps());
    assert_eq!(None, stepgen.next());
    assert_eq!(0, stepgen.next_delay());
    assert_eq!(0, stepgen.current_step());
}

#[test]
fn acceleration_sets_the_first_delay() {
    // 1_000_000 * 0.676 * sqrt(2 / 1000) = 30232 ticks
    let mut stepgen = Stepgen::new(FREQUENCY);
    assert_eq!(Ok(()), stepgen.set_acceleration(1000 << 8));
    assert_eq!(1_981_260_800, stepgen.first_delay());
    assert_eq!(30_232, (stepgen.first_delay() + 0x8000) >> 16);
    assert_eq!(Ok(()), stepgen.set_acceleration(1200 << 8));
    assert_eq!(1_808_634_880, stepgen.first_delay());
    // Nothing else is touched.
    assert_eq!(0, stepgen.target_delay());
    assert_eq!(0, stepgen.target_step());
    assert_eq!(0, stepgen.current_step());
}

#[test]
fn acceleration_is_idempotent() {
    let mut stepgen = Stepgen::new(FREQUENCY);
    stepgen.set_acceleration(1000 << 8).unwrap();
    let first = stepgen.first_delay();
    stepgen.set_acceleration(1000 << 8).unwrap();
    assert_eq!(first, stepgen.first_delay());
}

#[test]
fn acceleration_of_zero_is_too_slow() {
    let mut stepgen = Stepgen::new(FREQUENCY);
    assert_eq!(Err(Error::TooSlow), stepgen.set_acceleration(0));
    assert_eq!(0, stepgen.first_delay());
}

#[test]
fn slowest_acceleration_that_fits_the_timer() {
    let mut stepgen = Stepgen::new(FREQUENCY);
    assert_eq!(Err(Error::TooSlow), stepgen.set_acceleration(54_475));
    assert_eq!(0, stepgen.first_delay());
    assert_eq!(Ok(()), stepgen.set_acceleration(54_476));
    assert_eq!(16_777_183 << 8, stepgen.first_delay());
}

#[test]
fn refused_acceleration_keeps_the_old_one() {
    let mut stepgen = Stepgen::new(FREQUENCY);
    stepgen.set_acceleration(1000 << 8).unwrap();
    assert_eq!(Err(Error::TooSlow), stepgen.set_acceleration(1 << 8));
    assert_eq!(1_981_260_800, stepgen.first_delay());
    assert_eq!(Err(Error::TooSlow), stepgen.set_acceleration(0));
    assert_eq!(1_981_260_800, stepgen.first_delay());
}

#[test]
fn fastest_timer_that_takes_an_acceleration() {
    let mut stepgen = Stepgen::new(280_790_225);
    assert_eq!(Ok(()), stepgen.set_acceleration(u32::MAX));
    assert_eq!(0xffff_ff00, stepgen.first_delay());
    let mut stepgen = Stepgen::new(280_790_226);
    assert_eq!(Err(Error::TooSlow), stepgen.set_acceleration(u32::MAX));
}

#[test]
fn target_speed_sets_the_cruise_delay() {
    // 1_000_000 / 800 = 1250 ticks
    let mut stepgen = Stepgen::new(FREQUENCY);
    assert_eq!(Ok(()), stepgen.set_target_speed(800 << 8));
    assert_eq!(1250 << 16, stepgen.target_delay());
    assert_eq!(Ok(()), stepgen.set_target_speed(5120));
    assert_eq!(3_276_800_000, stepgen.target_delay());
    assert_eq!(0, stepgen.first_delay());
}

#[test]
fn slowest_target_speed_that_fits_the_timer() {
    let mut stepgen = Stepgen::new(FREQUENCY);
    assert_eq!(Ok(()), stepgen.set_target_speed(3907));
    assert_eq!(4_294_142_720, stepgen.target_delay());
    assert_eq!(Err(Error::TooSlow), stepgen.set_target_speed(3906));
    assert_eq!(4_294_142_720, stepgen.target_delay());
}

#[test]
fn fastest_target_speed_that_leaves_time() {
    // The delay has to be longer than 30 ticks, which is 7680 in 16.8.
    let mut stepgen = Stepgen::new(FREQUENCY);
    assert_eq!(Ok(()), stepgen.set_target_speed(8_532_222));
    assert_eq!(7681 << 8, stepgen.target_delay());
    assert_eq!(Err(Error::TooFast), stepgen.set_target_speed(8_532_223));
    assert_eq!(Err(Error::TooFast), stepgen.set_target_speed(8_533_333));
    assert_eq!(Err(Error::TooFast), stepgen.set_target_speed(u32::MAX));
    assert_eq!(7681 << 8, stepgen.target_delay());
}

#[test]
fn target_speed_of_one_step_per_second_is_too_slow() {
    let mut stepgen = Stepgen::new(FREQUENCY);
    assert_eq!(Err(Error::TooSlow), stepgen.set_target_speed(1 << 8));
    assert_eq!(0, stepgen.target_delay());
}

#[test]
fn target_speed_of_one_step_per_tick_is_too_fast() {
    let mut stepgen = Stepgen::new(FREQUENCY);
    assert_eq!(Err(Error::TooFast), stepgen.set_target_speed(1_000_000 << 8));
    assert_eq!(0, stepgen.target_delay());
}

#[test]
fn timer_that_never_ticks_takes_no_target_speed() {
    let mut stepgen = Stepgen::new(0);
    assert_eq!(Err(Error::TooFast), stepgen.set_target_speed(5));
    assert_eq!(Err(Error::TooSlow), stepgen.set_target_speed(0));
}

#[test]
fn target_step_before_any_configuration() {
    let mut stepgen = Stepgen::new(FREQUENCY);
    assert_eq!(Err(Error::SpeedAccelerationNotSet), stepgen.set_target_step(1000));
    assert_eq!(0, stepgen.target_step());
    assert_eq!(None, stepgen.next());
}

#[test]
fn target_step_after_a_refused_configuration() {
    let mut stepgen = Stepgen::new(FREQUENCY);
    stepgen.set_acceleration(1000 << 8).unwrap();
    assert_eq!(Err(Error::TooSlow), stepgen.set_target_speed(1 << 8));
    assert_eq!(Err(Error::SpeedAccelerationNotSet), stepgen.set_target_step(1000));
    assert_eq!(0, stepgen.target_step());
}

#[test]
fn target_step_is_stored_once_configured() {
    let mut stepgen = Stepgen::new(FREQUENCY);
    stepgen.set_acceleration(1000 << 8).unwrap();
    stepgen.set_target_speed(800 << 8).unwrap();
    assert_eq!(Ok(()), stepgen.set_target_step(1000));
    assert_eq!(1000, stepgen.target_step());
    assert_eq!(Ok(()), stepgen.set_target_step(u32::MAX));
    assert_eq!(u32::MAX, stepgen.target_step());
    assert_eq!(Ok(()), stepgen.set_target_step(0));
    assert_eq!(0, stepgen.target_step());
    assert_eq!(0, stepgen.current_step());
}

#[test]
fn first_delay_of_zero_counts_as_not_set() {
    // On a timer this slow the first delay of a large acceleration rounds to
    // nothing, and a target step is refused as if none had been set.
    let mut stepgen = Stepgen::new(16);
    assert_eq!(Ok(()), stepgen.set_acceleration(u32::MAX));
    assert_eq!(0, stepgen.first_delay());
    assert_eq!(Ok(()), stepgen.set_target_speed(100));
    assert_eq!(2_684_160, stepgen.target_delay());
    assert_eq!(Err(Error::SpeedAccelerationNotSet), stepgen.set_target_step(5));
}

#[test]
fn errors_compare_and_print() {
    assert_eq!(Error::TooSlow, Error::TooSlow);
    assert_ne!(Error::TooSlow, Error::TooFast);
    assert_ne!(Error::TooFast, Error::SpeedAccelerationNotSet);
    assert_eq!("TooSlow", format!("{:?}", Error::TooSlow));
    assert_eq!("SpeedAccelerationNotSet", format!("{:?}", Error::SpeedAccelerationNotSet));
}
