use gain_to_zero::gain_curve::{gain_units, GAIN_CEIL, GAIN_FLOOR};
use gain_to_zero::meter::Meter;
use gain_to_zero::processor::Processor;
use gain_to_zero::GAIN_ONE;

const UNIT: i64 = GAIN_ONE as i64;

#[test]
fn gain_curve_landmarks() {
    // 0 dB is unity, +20 dB is exactly ten times, the range ends sit on
    // the published floor and ceiling.
    assert_eq!(gain_units(0), GAIN_ONE);
    assert_eq!(gain_units(2000), 10_000_000);
    assert_eq!(gain_units(-2000), 100_000);
    assert_eq!(gain_units(3600), GAIN_CEIL);
    assert_eq!(gain_units(-3600), GAIN_FLOOR);
    assert_eq!(gain_units(-350), 668_343);
    assert_eq!(gain_units(600), 1_995_262);
}

#[test]
fn gain_curve_is_monotone() {
    let mut prev = gain_units(-3600);
    let mut v = -3599;
    while v <= 3600 {
        let g = gain_units(v);
        assert!(g >= prev);
        assert!((GAIN_FLOOR..=GAIN_CEIL).contains(&g));
        prev = g;
        v += 1;
    }
}

#[test]
fn processor_clamps_at_steady_threshold() {
    // Threshold at rest on 0 dB: a 2.0 sample halves the attenuation and
    // lands exactly on the threshold.
    let mut p = Processor::new(0);
    let meter = Meter::new();
    let mut frames = vec![vec![2 * UNIT, UNIT / 4]];
    p.process(&mut frames, false, &meter, true);
    assert_eq!(p.attenuation(), 500_000);
    assert_eq!(frames[0], vec![UNIT, 125_000]);
    // The meter saw the attenuation because an observer was attached.
    assert_eq!(meter.read(), 500_000);
}

#[test]
fn processor_skips_meter_without_observer() {
    let mut p = Processor::new(0);
    let meter = Meter::new();
    let mut frames = vec![vec![2 * UNIT]];
    p.process(&mut frames, false, &meter, false);
    assert_eq!(p.attenuation(), 500_000);
    assert_eq!(meter.read(), GAIN_ONE);
}

#[test]
fn processor_reset_restores_unity() {
    let mut p = Processor::new(0);
    let meter = Meter::new();
    let mut frames = vec![vec![5 * UNIT]];
    p.process(&mut frames, false, &meter, false);
    assert_eq!(p.attenuation(), 200_000);
    let mut frame2 = vec![vec![5 * UNIT]];
    p.process(&mut frame2, true, &meter, false);
    assert_eq!(p.attenuation(), GAIN_ONE);
    assert_eq!(frame2[0], vec![5 * UNIT]);
}

#[test]
fn processor_smooths_threshold_between_blocks() {
    // Raising the target from 0 dB to +12 dB over four frames: a steady
    // 1.5 signal stops clamping once the smoothed threshold passes it.
    let mut p = Processor::new(0);
    let meter = Meter::new();
    p.set_threshold_target(1200, 4);
    let mut frames = vec![vec![UNIT + UNIT / 2]; 6];
    p.process(&mut frames, false, &meter, false);
    // First frame: threshold 10^(300/2000) ~ 1.4125 < 1.5, so it clamps;
    // later frames see thresholds above 1.5 and pass scaled samples.
    assert!(p.attenuation() < GAIN_ONE);
    let atten_after = p.attenuation();
    let mut more = vec![vec![UNIT + UNIT / 2]; 4];
    p.process(&mut more, false, &meter, false);
    // No further clamping at the settled +12 dB threshold.
    assert_eq!(p.attenuation(), atten_after);
}
