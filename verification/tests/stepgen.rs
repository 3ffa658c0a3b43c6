use stepgen::{u64sqrt, Error, Stepgen};

const FREQUENCY: u32 = 1_000_000; // the timer ticks once a microsecond

fn round(delay: u32) -> u32 {
    (delay + 128) >> 8
}

#[test]
fn sqrt_works() {
    assert_eq!(0, u64sqrt(0));
    assert_eq!(1, u64sqrt(1));
    assert_eq!(2, u64sqrt(4));
    assert_eq!(3, u64sqrt(10));
    assert_eq!(4, u64sqrt(15));
    assert_eq!(0x80_00_00_00u64, u64sqrt(0x4000_0000_0000_0000u64));
    assert_eq!(0x1_00_00_00_00u64, u64sqrt(0xffff_ffff_ffff_ffffu64));
}

#[test]
fn acceleration_too_slow() {
    let mut stepgen = Stepgen::new(FREQUENCY);
    assert_eq!(Err(Error::TooSlow), stepgen.set_acceleration(1 << 8));
}

#[test]
fn too_slow() {
    let mut stepgen = Stepgen::new(FREQUENCY);
    assert_eq!(Err(Error::TooSlow), stepgen.set_target_speed(1 << 8));
}

#[test]
fn too_slow_2() {
    let mut stepgen = Stepgen::new(FREQUENCY);
    stepgen.set_target_speed(3907).unwrap();
    assert_eq!(Err(Error::TooSlow), stepgen.set_target_speed(3906));
}

#[test]
fn too_slow_zero() {
    let mut stepgen = Stepgen::new(FREQUENCY);
    assert_eq!(Err(Error::TooSlow), stepgen.set_target_speed(0));
}

#[test]
fn slower_than_first_step_after_accel() {
    // Setting very slow speed after acceleration is OK
    let mut stepgen = Stepgen::new(FREQUENCY);
    stepgen.set_acceleration(1000 << 8).unwrap();
    stepgen.set_target_speed(5120).unwrap(); // 20 pulses per second = 50_000 delay
    stepgen.set_target_step(3).unwrap();
    assert!(stepgen.first_delay() < stepgen.target_delay());

    // Walk three steps
    assert_eq!(50_000 << 8, stepgen.next().unwrap());
    assert_eq!(0, stepgen.ramp_steps());
    assert_eq!(50_000 << 8, stepgen.next().unwrap());
    assert_eq!(0, stepgen.ramp_steps());
    assert_eq!(50_000 << 8, stepgen.next().unwrap());
    assert_eq!(0, stepgen.ramp_steps());
    assert!(stepgen.next().is_none());
}

#[test]
fn slower_than_first_step_before_accel() {
    // Setting acceleration after setting slow speed is also OK
    let mut stepgen = Stepgen::new(FREQUENCY);
    stepgen.set_target_speed(5120).unwrap();
    stepgen.set_acceleration(1000 << 8).unwrap();
    stepgen.set_target_step(3).unwrap();
    assert!(stepgen.first_delay() < stepgen.target_delay());

    // Walk three steps
    assert_eq!(50_000 << 8, stepgen.next().unwrap());
    assert_eq!(0, stepgen.ramp_steps());
    assert_eq!(50_000 << 8, stepgen.next().unwrap());
    assert_eq!(0, stepgen.ramp_steps());
    assert_eq!(50_000 << 8, stepgen.next().unwrap());
    assert_eq!(0, stepgen.ramp_steps());
    assert!(stepgen.next().is_none());
}

#[test]
fn too_fast() {
    let mut stepgen = Stepgen::new(FREQUENCY);
    assert_eq!(Err(Error::TooFast), stepgen.set_target_speed(1_000_000 << 8));
}

#[test]
fn slow_during_acceleration() {
    let mut stepgen = Stepgen::new(FREQUENCY);
    stepgen.set_target_speed(800 << 8).unwrap();
    stepgen.set_acceleration(1000 << 8).unwrap();
    stepgen.set_target_step(u32::MAX).unwrap();

    assert_eq!(0, stepgen.current_speed());

    assert_eq!(30232, round(stepgen.next().unwrap()));
    assert_eq!(18139, round(stepgen.next().unwrap()));
    assert_eq!(14108, round(stepgen.next().unwrap()));
    assert_eq!(11938, round(stepgen.next().unwrap()));

    // Update target speed, want to run slower
    stepgen.set_target_speed(50 << 8).unwrap();
    assert_eq!(14108, round(stepgen.next().unwrap()));
    assert_eq!(18139, round(stepgen.next().unwrap()));
    assert_eq!(20000, round(stepgen.next().unwrap())); // 20000 = 1_000_000 / 50
    assert_eq!(50 << 8, stepgen.current_speed());

    // Slow a little bit more
    stepgen.set_target_speed(40 << 8).unwrap();
    assert_eq!(25000, round(stepgen.next().unwrap())); // 25000 = 1_000_000 / 40
    assert_eq!(40 << 8, stepgen.current_speed());
}

#[test]
fn no_speed_set() {
    let mut stepgen = Stepgen::new(FREQUENCY);
    stepgen.set_acceleration(1000 << 8).unwrap();
    assert_eq!(Err(Error::SpeedAccelerationNotSet), stepgen.set_target_step(1000_000_000));
}

#[test]
fn no_acceleration_set() {
    let mut stepgen = Stepgen::new(FREQUENCY);
    stepgen.set_target_speed(800 << 8).unwrap();
    assert_eq!(Err(Error::SpeedAccelerationNotSet), stepgen.set_target_step(1000_000_000));
}
