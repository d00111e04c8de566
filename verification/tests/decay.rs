use htlc_reputation::decaying_average::{
    DecayingAverage, DecayingAverageStart, ErrDecayingAverage, SignedValue,
};

fn zero_start(now: u64) -> DecayingAverageStart {
    DecayingAverageStart { last_update: now, value: SignedValue::zero() }
}

#[test]
fn test_decaying_average() {
    let now: u64 = 1_000;
    let decaying_average_start = zero_start(now);
    let decaying_average = DecayingAverage::new(0, decaying_average_start, now);
    let _ = decaying_average;
}

#[test]
fn test_decaying_average_add_time() {
    let now: u64 = 1_000;
    let decaying_average_start = zero_start(now);
    let mut decaying_average = DecayingAverage::new(0, decaying_average_start, now);
    let ret = decaying_average.add_time(SignedValue::new(false, 1), now + 1);
    assert_eq!(ret.is_ok(), true);
}

#[test]
fn add_time_before_last_update_fails() {
    let now: u64 = 1_000;
    let mut avg = DecayingAverage::new(200, zero_start(now), now);
    let ret = avg.add_time(SignedValue::new(false, 1), now - 1);
    assert_eq!(ret.unwrap_err(), ErrDecayingAverage::TimeAdditionError);
    // The value and clock are untouched by the failed write.
    assert_eq!(avg.get_value(now), SignedValue::zero());
}

#[test]
fn decay_half_life() {
    // A period of 200 seconds halves the value every 100 seconds.
    let mut avg = DecayingAverage::new(200, zero_start(0), 0);
    avg.add(SignedValue::new(false, 1_000), 0);
    let v = avg.get_value(100);
    assert_eq!(v, SignedValue::new(false, 500));
    // Another half-life halves it again.
    let v = avg.get_value(200);
    assert_eq!(v, SignedValue::new(false, 250));
}

#[test]
fn decay_interpolates_within_half_life() {
    let mut avg = DecayingAverage::new(200, zero_start(0), 0);
    avg.add(SignedValue::new(false, 1_000), 0);
    // After half of a half-life a quarter of the value is gone:
    // 1000 - (1000 / 200) * 50 = 750.
    let v = avg.get_value(50);
    assert_eq!(v, SignedValue::new(false, 750));
}

#[test]
fn zero_period_decays_immediately() {
    let mut avg = DecayingAverage::new(0, zero_start(0), 0);
    avg.add(SignedValue::new(false, 1_000), 0);
    assert_eq!(avg.get_value(0), SignedValue::new(false, 1_000));
    assert_eq!(avg.get_value(1), SignedValue::zero());
}

#[test]
fn nonzero_start_is_adopted() {
    let start = DecayingAverageStart {
        last_update: 400,
        value: SignedValue::new(false, 640),
    };
    let mut avg = DecayingAverage::new(200, start, 999);
    // The start's own clock counts: 100 seconds after 400, half is left.
    assert_eq!(avg.get_value(500), SignedValue::new(false, 320));
}

#[test]
fn negative_values_decay_by_magnitude() {
    let mut avg = DecayingAverage::new(200, zero_start(0), 0);
    avg.add(SignedValue::new(true, 1_000), 0);
    assert_eq!(avg.get_value(100), SignedValue::new(true, 500));
}

#[test]
fn adds_accumulate_with_sign() {
    let now: u64 = 50;
    let mut avg = DecayingAverage::new(1_000_000, zero_start(now), now);
    avg.add(SignedValue::new(false, 300), now);
    avg.add(SignedValue::new(true, 500), now);
    assert_eq!(avg.get_value(now), SignedValue::new(true, 200));
}

#[test]
fn lagging_clock_does_not_rewind_the_average() {
    let now: u64 = 1_000;
    let mut avg = DecayingAverage::new(200, zero_start(now), now);
    avg.add(SignedValue::new(false, 100), now);
    // An earlier wall clock adds at the last update instead.
    avg.add(SignedValue::new(false, 100), now - 500);
    assert_eq!(avg.get_value(now), SignedValue::new(false, 200));
}
