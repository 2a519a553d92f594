use gain_to_zero::db_text::{format_db, parse_db, DB_MAX, DB_MIN};
use gain_to_zero::params::{smoothing_steps, ThresholdParam};
use gain_to_zero::meter::{metering_value, Meter};

#[test]
fn format_examples() {
    assert_eq!(format_db(-350), "-3.50 dB");
    assert_eq!(format_db(0), "0.00 dB");
    assert_eq!(format_db(DB_MAX), "36.00 dB");
    assert_eq!(format_db(DB_MIN), "-36.00 dB");
    assert_eq!(format_db(1234), "12.34 dB");
    assert_eq!(format_db(-5), "-0.05 dB");
    assert_eq!(format_db(999), "9.99 dB");
    assert_eq!(format_db(1000), "10.00 dB");
}

#[test]
fn parse_examples() {
    assert_eq!(parse_db("-3.50 dB"), Some(-350));
    assert_eq!(parse_db("0.00 dB"), Some(0));
    assert_eq!(parse_db("36.00 dB"), Some(3600));
    assert_eq!(parse_db("-36.00 dB"), Some(-3600));
    assert_eq!(parse_db("9.99 dB"), Some(999));
}

#[test]
fn parse_rejects_non_canonical() {
    assert_eq!(parse_db(""), None);
    assert_eq!(parse_db("loud"), None);
    assert_eq!(parse_db("-0.00 dB"), None);
    assert_eq!(parse_db("05.00 dB"), None);
    assert_eq!(parse_db("3.5 dB"), None);
    assert_eq!(parse_db("99.99 dB"), None);
    assert_eq!(parse_db("-99.99 dB"), None);
    assert_eq!(parse_db("3.50dB"), None);
    assert_eq!(parse_db("3.50 db"), None);
    assert_eq!(parse_db("+3.50 dB"), None);
}

#[test]
fn round_trip_all_values() {
    // Formatting any representable value and parsing it back is the
    // identity, across the whole parameter domain.
    let mut v = DB_MIN;
    while v <= DB_MAX {
        assert_eq!(parse_db(format_db(v).as_str()), Some(v));
        v += 1;
    }
}

#[test]
fn smoothing_window_steps() {
    assert_eq!(smoothing_steps(44100), 2205);
    assert_eq!(smoothing_steps(48000), 2400);
    assert_eq!(smoothing_steps(0), 0);
}

#[test]
fn smoother_reaches_target_without_overshoot() {
    let mut p = ThresholdParam::new(0);
    p.set_target(-3600, 7);
    let mut prev = p.current_value();
    for _ in 0..7 {
        let v = p.next_value();
        assert!(v <= prev);
        assert!(v >= -3600);
        prev = v;
    }
    assert_eq!(p.current_value(), -3600);
    // At rest, further frames stay on the target.
    assert_eq!(p.next_value(), -3600);
}

#[test]
fn smoother_moves_up_as_well() {
    let mut p = ThresholdParam::new(-1200);
    p.set_target(600, 4);
    let mut prev = p.current_value();
    for _ in 0..4 {
        let v = p.next_value();
        assert!(v >= prev);
        assert!(v <= 600);
        prev = v;
    }
    assert_eq!(p.current_value(), 600);
}

#[test]
fn smoother_jumps_with_zero_steps() {
    let mut p = ThresholdParam::new(0);
    p.set_target(250, 0);
    assert_eq!(p.current_value(), 250);
    assert_eq!(p.target_value(), 250);
}

#[test]
fn meter_publishes_only_with_observer() {
    let meter = Meter::new();
    assert_eq!(meter.read(), gain_to_zero::GAIN_ONE);
    meter.publish(false, 123_456);
    assert_eq!(meter.read(), gain_to_zero::GAIN_ONE);
    meter.publish(true, 123_456);
    assert_eq!(meter.read(), 123_456);
    assert_eq!(metering_value(true, 777), Some(777));
    assert_eq!(metering_value(false, 777), None);
}

#[test]
fn threshold_param_default_is_zero_db() {
    let p = ThresholdParam::default();
    assert_eq!(p.current_value(), 0);
    assert_eq!(p.target_value(), 0);
    assert_eq!(format_db(p.current_value()), "0.00 dB");
}
