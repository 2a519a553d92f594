use gain_to_zero::engine::Engine;
use gain_to_zero::GAIN_ONE;

// Amplitudes are fixed-point: 1.0 is GAIN_ONE units.
const UNIT: i64 = GAIN_ONE as i64;

#[test]
fn basic_clamp() {
    // Threshold 1.0, attenuation 1.0, input 2.0: attenuation drops to 0.5
    // and the output sits exactly on the threshold.
    let mut e = Engine::new();
    let mut frame = vec![2 * UNIT];
    e.process_frame(&mut frame, GAIN_ONE, false);
    assert_eq!(e.attenuation(), 500_000);
    assert_eq!(frame, vec![UNIT]);
}

#[test]
fn sub_threshold_pass_through() {
    // Continuing from the clamp above, a 0.3 sample at attenuation 0.5
    // scales to 0.15 and leaves the attenuation untouched.
    let mut e = Engine::new();
    let mut frame = vec![2 * UNIT];
    e.process_frame(&mut frame, GAIN_ONE, false);
    let mut next = vec![300_000];
    e.process_frame(&mut next, GAIN_ONE, false);
    assert_eq!(e.attenuation(), 500_000);
    assert_eq!(next, vec![150_000]);
}

#[test]
fn sign_preservation() {
    // Input -2.0 clamps to 0.5 and the output is -1.0: the sign survives.
    let mut e = Engine::new();
    let mut frame = vec![-2 * UNIT];
    e.process_frame(&mut frame, GAIN_ONE, false);
    assert_eq!(e.attenuation(), 500_000);
    assert_eq!(frame, vec![-UNIT]);
}

#[test]
fn reset_overrides_history() {
    // Attenuation at 0.2 from prior clamping; with reset active a 5.0 input
    // passes unmodified and the attenuation jumps back to exactly 1.0.
    let mut e = Engine::new();
    let mut prior = vec![5 * UNIT];
    e.process_frame(&mut prior, GAIN_ONE, false);
    assert_eq!(e.attenuation(), 200_000);
    let mut frame = vec![5 * UNIT];
    e.process_frame(&mut frame, GAIN_ONE, true);
    assert_eq!(frame, vec![5 * UNIT]);
    assert_eq!(e.attenuation(), GAIN_ONE);
}

#[test]
fn cross_channel_coupling() {
    // Threshold 1.0, frame [3.0, 0.5]: the first channel clamps the shared
    // attenuation to 1/3, which also scales the second channel of the same
    // frame: outputs [~1.0, ~0.1667].
    let mut e = Engine::new();
    let mut frame = vec![3 * UNIT, 500_000];
    e.process_frame(&mut frame, GAIN_ONE, false);
    assert_eq!(e.attenuation(), 333_333);
    assert_eq!(frame, vec![999_999, 166_666]);
}

#[test]
fn zero_sample_never_clamps() {
    let mut e = Engine::new();
    let mut frame = vec![0, 0];
    e.process_frame(&mut frame, 1, false);
    assert_eq!(e.attenuation(), GAIN_ONE);
    assert_eq!(frame, vec![0, 0]);
}

#[test]
fn clamp_bound_over_a_block() {
    // Every output magnitude stays within the frame's threshold, and the
    // attenuation never increases while no reset is seen.
    let mut e = Engine::new();
    let meter = gain_to_zero::meter::Meter::new();
    let mut frames = vec![
        vec![2 * UNIT, -3 * UNIT],
        vec![UNIT / 2, UNIT / 4],
        vec![-4 * UNIT, 4 * UNIT],
    ];
    let thresholds = vec![GAIN_ONE, GAIN_ONE, 500_000];
    let resets = vec![false, false, false];
    let mut last = e.attenuation();
    e.process_block(&mut frames, &thresholds, &resets, &meter, false);
    for (i, frame) in frames.iter().enumerate() {
        for &s in frame {
            assert!(s.unsigned_abs() <= thresholds[i]);
        }
    }
    assert!(e.attenuation() <= last);
    // Monotone per frame as well.
    let mut e2 = Engine::new();
    last = e2.attenuation();
    for i in 0..3 {
        let mut frame = vec![2 * UNIT, -3 * UNIT];
        e2.process_frame(&mut frame, thresholds[i], false);
        assert!(e2.attenuation() <= last);
        last = e2.attenuation();
    }
}

#[test]
fn idempotent_when_no_clamp() {
    // A frame that cannot trigger the clamp leaves the attenuation exactly
    // as it was.
    let mut e = Engine::new();
    let mut first = vec![2 * UNIT];
    e.process_frame(&mut first, GAIN_ONE, false);
    let before = e.attenuation();
    let mut quiet = vec![UNIT, -UNIT, 0];
    e.process_frame(&mut quiet, GAIN_ONE, false);
    assert_eq!(e.attenuation(), before);
}

#[test]
fn reset_in_mid_block() {
    // A reset frame inside a block restores unity for the frames after it.
    let mut e = Engine::new();
    let meter = gain_to_zero::meter::Meter::new();
    let mut frames = vec![vec![4 * UNIT], vec![3 * UNIT], vec![500_000]];
    let thresholds = vec![GAIN_ONE, GAIN_ONE, GAIN_ONE];
    let resets = vec![false, true, false];
    e.process_block(&mut frames, &thresholds, &resets, &meter, false);
    // Frame 0 clamps to 0.25; frame 1 passes through untouched under reset;
    // frame 2 starts again from unity.
    assert_eq!(frames[0], vec![UNIT]);
    assert_eq!(frames[1], vec![3 * UNIT]);
    assert_eq!(frames[2], vec![500_000]);
    assert_eq!(e.attenuation(), GAIN_ONE);
}
