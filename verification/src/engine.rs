//! The attenuation engine: a single scalar gain, shared across channels,
//! that is clamped downward whenever a sample would exceed the threshold.

use vstd::prelude::*;
use vstd::arithmetic::div_mod::{
    lemma_div_by_self, lemma_div_is_ordered, lemma_div_multiples_vanish, lemma_div_pos_is_pos,
    lemma_fundamental_div_mod, lemma_multiply_divide_lt, lemma_remainder_lower,
};
use crate::GAIN_ONE;
use crate::meter::Meter;

verus! {

/// Largest accepted threshold, one hundred times unity gain.
pub const THRESHOLD_MAX: u64 = 100_000_000;

/// A threshold is a strictly positive linear gain in fixed-point units.
pub open spec fn valid_threshold(t: u64) -> bool {
    1 <= t <= THRESHOLD_MAX
}

/// The attenuation scalar stays in (0, 1]: positive, never above unity.
pub open spec fn valid_attenuation(a: u64) -> bool {
    1 <= a <= GAIN_ONE
}

/// Magnitude of a sample, as a mathematical integer.
pub open spec fn abs_val(s: int) -> int {
    if s >= 0 { s } else { -s }
}

/// A sample the engine accepts for a given threshold: its magnitude is small
/// enough that the clamp quotient `threshold * GAIN_ONE / |s|` never rounds
/// down to zero, which keeps the attenuation strictly positive.
pub open spec fn sample_in_domain(s: i64, t: u64) -> bool {
    abs_val(s as int) <= t * GAIN_ONE
}

pub open spec fn frame_in_domain(frame: Seq<i64>, t: u64) -> bool {
    forall|j: int| 0 <= j < frame.len() ==> sample_in_domain(frame[j], t)
}

/// One clamp decision: if the sample, scaled by the current attenuation,
/// would exceed the threshold, lower the attenuation to exactly the value
/// that maps the sample onto the threshold.
pub open spec fn clamp_step(a: int, t: int, s: int) -> int {
    if abs_val(s) * a > t * GAIN_ONE {
        (t * GAIN_ONE) / abs_val(s)
    } else {
        a
    }
}

/// A sample scaled by an attenuation, rounding the magnitude down.
pub open spec fn scaled_sample(s: int, a: int) -> int {
    if s >= 0 {
        (s * a) / (GAIN_ONE as int)
    } else {
        -((-s * a) / (GAIN_ONE as int))
    }
}

/// The attenuation after the first `n` channels of a frame have been
/// processed in order, starting from attenuation `a`.
pub open spec fn atten_prefix(a: int, t: int, frame: Seq<i64>, n: int) -> int
    decreases n,
{
    if n <= 0 {
        a
    } else {
        clamp_step(atten_prefix(a, t, frame, n - 1), t, frame[n - 1] as int)
    }
}

/// The attenuation after a whole frame, reset considered.
pub open spec fn frame_result_atten(a: int, t: int, reset: bool, frame: Seq<i64>) -> int {
    if reset {
        GAIN_ONE as int
    } else {
        atten_prefix(a, t, frame, frame.len() as int)
    }
}

/// The attenuation after the first `n` frames of a block, each frame with
/// its own smoothed threshold and reset flag.
pub open spec fn block_atten_prefix(
    a: int,
    thresholds: Seq<u64>,
    resets: Seq<bool>,
    frames: Seq<Vec<i64>>,
    n: int,
) -> int
    decreases n,
{
    if n <= 0 {
        a
    } else {
        frame_result_atten(
            block_atten_prefix(a, thresholds, resets, frames, n - 1),
            thresholds[n - 1] as int,
            resets[n - 1],
            frames[n - 1]@,
        )
    }
}

/// A whole block the engine accepts: one threshold and one reset flag per
/// frame, every threshold valid, every sample within its frame's domain.
pub open spec fn block_in_domain(
    thresholds: Seq<u64>,
    resets: Seq<bool>,
    frames: Seq<Vec<i64>>,
) -> bool {
    &&& thresholds.len() == frames.len()
    &&& resets.len() == frames.len()
    &&& forall|i: int|
        0 <= i < frames.len() ==> valid_threshold(thresholds[i]) && frame_in_domain(
            frames[i]@,
            thresholds[i],
        )
}

/// No channel of the frame would trigger the clamp at attenuation `a`.
pub open spec fn no_clamp(a: int, t: int, frame: Seq<i64>) -> bool {
    forall|j: int| 0 <= j < frame.len() ==> abs_val(frame[j] as int) * a <= t * GAIN_ONE
}

/// Bounding a product by the product of the bounds.
pub proof fn lemma_mul_le(x: int, xb: int, y: int, yb: int)
    requires
        0 <= x <= xb,
        0 <= y <= yb,
    ensures
        x * y <= xb * yb,
{
    assert(x * y <= xb * yb) by (nonlinear_arith)
        requires
            0 <= x <= xb,
            0 <= y <= yb,
    ;
}

/// What one clamp decision guarantees: the attenuation stays in (0, 1] and
/// never increases, the scaled sample stays within the threshold, and an
/// in-bounds sample leaves the attenuation untouched.
pub proof fn lemma_clamp_step_props(a: int, t: int, s: int)
    requires
        1 <= a <= GAIN_ONE,
        1 <= t,
        abs_val(s) <= t * GAIN_ONE,
    ensures
        1 <= clamp_step(a, t, s) <= a,
        abs_val(s) * clamp_step(a, t, s) <= t * GAIN_ONE,
        abs_val(s) * a <= t * GAIN_ONE ==> clamp_step(a, t, s) == a,
{
    let m = abs_val(s);
    let lim = t * GAIN_ONE;
    if m * a > lim {
        // The clamp fires; m >= 1 because 0 * a could not exceed the limit.
        assert(m >= 1) by (nonlinear_arith)
            requires
                m * a > lim,
                lim >= 1,
                m >= 0,
        ;
        let q = lim / m;
        // q >= 1 because the limit is at least m.
        lemma_div_by_self(m);
        lemma_div_is_ordered(m, lim, m);
        assert(q >= 1);
        // q < a because lim < m * a.
        lemma_multiply_divide_lt(lim, m, a);
        assert(q < a);
        // m * q <= lim, from the division identity with a nonnegative remainder.
        lemma_fundamental_div_mod(lim, m);
        lemma_remainder_lower(lim, m);
        assert(m * q <= lim) by (nonlinear_arith)
            requires
                lim == m * (lim / m) + lim % m,
                q == lim / m,
                lim % m >= 0,
        ;
    }
}

/// The scaled sample's magnitude stays within the threshold whenever the
/// attenuation already maps the sample's magnitude under the limit.
pub proof fn lemma_scaled_sample_bound(t: int, s: int, a: int)
    requires
        a >= 0,
        t >= 0,
        abs_val(s) * a <= t * GAIN_ONE,
    ensures
        abs_val(scaled_sample(s, a)) <= t,
{
    let m = abs_val(s);
    assert(m * a >= 0) by (nonlinear_arith)
        requires
            m >= 0,
            a >= 0,
    ;
    lemma_div_pos_is_pos(m * a, GAIN_ONE as int);
    lemma_div_is_ordered(m * a, t * GAIN_ONE, GAIN_ONE as int);
    lemma_div_multiples_vanish(t, GAIN_ONE as int);
    assert((t * GAIN_ONE) / (GAIN_ONE as int) == t);
    if s >= 0 {
        assert(scaled_sample(s, a) == (m * a) / (GAIN_ONE as int));
    } else {
        assert(scaled_sample(s, a) == -((m * a) / (GAIN_ONE as int)));
    }
}

/// Processing a prefix of a frame never raises the attenuation, and keeps it
/// in (0, 1].
pub proof fn lemma_atten_prefix_props(a: int, t: int, frame: Seq<i64>, n: int)
    requires
        1 <= a <= GAIN_ONE,
        1 <= t,
        forall|j: int| 0 <= j < frame.len() ==> abs_val(frame[j] as int) <= t * GAIN_ONE,
        n <= frame.len(),
    ensures
        1 <= atten_prefix(a, t, frame, n) <= a,
    decreases n,
{
    if n > 0 {
        lemma_atten_prefix_props(a, t, frame, n - 1);
        lemma_clamp_step_props(atten_prefix(a, t, frame, n - 1), t, frame[n - 1] as int);
    }
}

/// A frame with no clamping sample leaves the attenuation exactly unchanged.
pub proof fn lemma_atten_prefix_no_clamp(a: int, t: int, frame: Seq<i64>, n: int)
    requires
        1 <= a <= GAIN_ONE,
        1 <= t,
        forall|j: int| 0 <= j < frame.len() ==> abs_val(frame[j] as int) <= t * GAIN_ONE,
        no_clamp(a, t, frame),
        n <= frame.len(),
    ensures
        atten_prefix(a, t, frame, n) == a,
    decreases n,
{
    if n > 0 {
        lemma_atten_prefix_no_clamp(a, t, frame, n - 1);
    }
}

/// Across a block, the attenuation stays in (0, 1] however many frames have
/// been processed.
pub proof fn lemma_block_atten_wf(
    a: int,
    thresholds: Seq<u64>,
    resets: Seq<bool>,
    frames: Seq<Vec<i64>>,
    n: int,
)
    requires
        1 <= a <= GAIN_ONE,
        block_in_domain(thresholds, resets, frames),
        n <= frames.len(),
    ensures
        1 <= block_atten_prefix(a, thresholds, resets, frames, n) <= GAIN_ONE,
    decreases n,
{
    if n > 0 {
        lemma_block_atten_wf(a, thresholds, resets, frames, n - 1);
        let prev = block_atten_prefix(a, thresholds, resets, frames, n - 1);
        if !resets[n - 1] {
            lemma_atten_prefix_props(
                prev,
                thresholds[n - 1] as int,
                frames[n - 1]@,
                frames[n - 1]@.len() as int,
            );
        }
    }
}

/// Between consecutive frames of a block the attenuation can only fall or
/// stay equal — unless the frame is a reset frame, which restores exactly
/// unity, whatever the attenuation was before it.
pub proof fn lemma_block_atten_step(
    a: int,
    thresholds: Seq<u64>,
    resets: Seq<bool>,
    frames: Seq<Vec<i64>>,
    i: int,
)
    requires
        1 <= a <= GAIN_ONE,
        block_in_domain(thresholds, resets, frames),
        0 <= i < frames.len(),
    ensures
        !resets[i] ==> block_atten_prefix(a, thresholds, resets, frames, i + 1)
            <= block_atten_prefix(a, thresholds, resets, frames, i),
        resets[i] ==> block_atten_prefix(a, thresholds, resets, frames, i + 1) == GAIN_ONE,
{
    lemma_block_atten_wf(a, thresholds, resets, frames, i);
    let prev = block_atten_prefix(a, thresholds, resets, frames, i);
    if !resets[i] {
        lemma_atten_prefix_props(prev, thresholds[i] as int, frames[i]@, frames[i]@.len() as int);
    }
}

/// The stateful core: holds the current attenuation scalar, in (0, 1].
pub struct Engine {
    attenuation: u64,
}

impl Engine {
    /// The current attenuation, for contracts.
    pub closed spec fn atten(self) -> u64 {
        self.attenuation
    }

    pub open spec fn wf(self) -> bool {
        valid_attenuation(self.atten())
    }

    /// A fresh engine passes the signal through unchanged: unity attenuation.
    pub fn new() -> (e: Engine)
        ensures
            e.wf(),
            e.atten() == GAIN_ONE,
    {
        Engine { attenuation: GAIN_ONE }
    }

    /// Read the current attenuation.
    pub fn attenuation(&self) -> (a: u64)
        ensures
            a == self.atten(),
    {
        self.attenuation
    }

    /// Process one frame, one sample per channel, in channel order.
    ///
    /// With the reset control active the attenuation jumps back to unity and
    /// the samples pass through untouched. Otherwise every channel is scaled
    /// by the shared attenuation, which is first clamped down whenever the
    /// scaled sample would exceed the threshold — so an early channel's clamp
    /// lowers the gain applied to the later channels of the same frame, and
    /// every output magnitude stays within the threshold.
    pub fn process_frame(&mut self, frame: &mut Vec<i64>, threshold: u64, reset: bool)
        requires
            old(self).wf(),
            valid_threshold(threshold),
            frame_in_domain(old(frame)@, threshold),
        ensures
            final(self).wf(),
            final(frame)@.len() == old(frame)@.len(),
            final(self).atten() as int == frame_result_atten(
                old(self).atten() as int,
                threshold as int,
                reset,
                old(frame)@,
            ),
            reset ==> final(frame)@ == old(frame)@ && final(self).atten() == GAIN_ONE,
            !reset ==> forall|j: int|
                0 <= j < old(frame)@.len() ==> final(frame)@[j] as int == scaled_sample(
                    old(frame)@[j] as int,
                    atten_prefix(old(self).atten() as int, threshold as int, old(frame)@, j + 1),
                ),
            !reset ==> forall|j: int|
                0 <= j < final(frame)@.len() ==> abs_val(final(frame)@[j] as int) <= threshold,
            !reset ==> final(self).atten() <= old(self).atten(),
            !reset && no_clamp(old(self).atten() as int, threshold as int, old(frame)@)
                ==> final(self).atten() == old(self).atten(),
    {
        if reset {
            self.attenuation = GAIN_ONE;
            return;
        }
        let ghost frame0 = old(frame)@;
        let ghost a0 = old(self).atten() as int;
        let ghost t = threshold as int;
        let n = frame.len();
        let mut j: usize = 0;
        while j < n
            invariant
                j <= n,
                t == threshold as int,
                a0 == old(self).atten() as int,
                frame0 == old(frame)@,
                n == frame0.len(),
                frame@.len() == n,
                1 <= t <= THRESHOLD_MAX,
                1 <= a0 <= GAIN_ONE,
                forall|k: int| 0 <= k < n ==> abs_val(frame0[k] as int) <= t * GAIN_ONE,
                self.attenuation as int == atten_prefix(a0, t, frame0, j as int),
                1 <= self.attenuation as int <= a0,
                forall|k: int| j <= k < n ==> frame@[k] == frame0[k],
                forall|k: int|
                    0 <= k < j ==> frame@[k] as int == scaled_sample(
                        frame0[k] as int,
                        atten_prefix(a0, t, frame0, k + 1),
                    ),
                forall|k: int| 0 <= k < j ==> abs_val(frame@[k] as int) <= t,
                no_clamp(a0, t, frame0) ==> self.attenuation as int == a0,
            decreases n - j,
        {
            let s: i64 = frame[j];
            assert(s == frame0[j as int]);
            assert(abs_val(s as int) <= t * GAIN_ONE);
            assert(t * GAIN_ONE <= 100_000_000_000_000int);
            let sa: u64 = if s >= 0 {
                s as u64
            } else {
                (-s) as u64
            };
            assert(sa as int == abs_val(s as int));
            let ghost a_before = self.attenuation as int;
            proof {
                lemma_clamp_step_props(a_before, t, s as int);
                lemma_mul_le(sa as int, 100_000_000_000_000, self.attenuation as int, 1_000_000);
                lemma_mul_le(threshold as int, THRESHOLD_MAX as int, GAIN_ONE as int, 1_000_000);
            }
            let prod: u128 = (sa as u128) * (self.attenuation as u128);
            let lim: u128 = (threshold as u128) * (GAIN_ONE as u128);
            if prod > lim {
                let q: u128 = lim / (sa as u128);
                assert(q == clamp_step(a_before, t, s as int));
                self.attenuation = q as u64;
            }
            assert(self.attenuation as int == clamp_step(a_before, t, s as int));
            proof {
                lemma_scaled_sample_bound(t, s as int, self.attenuation as int);
                lemma_mul_le(sa as int, 100_000_000_000_000, self.attenuation as int, 1_000_000);
            }
            let scaled_mag: u128 = (sa as u128) * (self.attenuation as u128) / (GAIN_ONE
                as u128);
            assert(scaled_mag as int == (abs_val(s as int) * (self.attenuation as int)) / (
            GAIN_ONE as int));
            assert(scaled_mag <= t);
            let out: i64 = if s >= 0 {
                scaled_mag as i64
            } else {
                -(scaled_mag as i64)
            };
            assert(out as int == scaled_sample(s as int, self.attenuation as int));
            frame[j] = out;
            j += 1;
        }
    }

    /// Process a block of frames, as the audio callback hands it over: for
    /// each frame in order, take that frame's smoothed threshold and reset
    /// flag, update the shared attenuation while rewriting the samples in
    /// place, then publish the new attenuation to the metering slot while an
    /// observer is attached.
    pub fn process_block(
        &mut self,
        frames: &mut Vec<Vec<i64>>,
        thresholds: &Vec<u64>,
        resets: &Vec<bool>,
        meter: &Meter,
        observer_attached: bool,
    )
        requires
            old(self).wf(),
            block_in_domain(thresholds@, resets@, old(frames)@),
        ensures
            final(self).wf(),
            final(frames)@.len() == old(frames)@.len(),
            final(self).atten() as int == block_atten_prefix(
                old(self).atten() as int,
                thresholds@,
                resets@,
                old(frames)@,
                old(frames)@.len() as int,
            ),
            forall|i: int|
                0 <= i < old(frames)@.len() ==> final(frames)@[i]@.len() == old(
                    frames,
                )@[i]@.len(),
            forall|i: int|
                0 <= i < old(frames)@.len() && resets@[i] ==> final(frames)@[i]@ == old(
                    frames,
                )@[i]@,
            forall|i: int, j: int|
                0 <= i < old(frames)@.len() && !resets@[i] && 0 <= j < old(frames)@[i]@.len()
                    ==> final(frames)@[i]@[j] as int == scaled_sample(
                    old(frames)@[i]@[j] as int,
                    atten_prefix(
                        block_atten_prefix(
                            old(self).atten() as int,
                            thresholds@,
                            resets@,
                            old(frames)@,
                            i,
                        ),
                        thresholds@[i] as int,
                        old(frames)@[i]@,
                        j + 1,
                    ),
                ),
            forall|i: int, j: int|
                0 <= i < old(frames)@.len() && !resets@[i] && 0 <= j < final(frames)@[i]@.len()
                    ==> abs_val(final(frames)@[i]@[j] as int) <= thresholds@[i],
            (forall|i: int| 0 <= i < resets@.len() ==> !resets@[i]) ==> final(self).atten()
                <= old(self).atten(),
            old(frames)@.len() > 0 && resets@[old(frames)@.len() - 1] ==> final(self).atten()
                == GAIN_ONE,
    {
        let ghost frames0 = old(frames)@;
        let ghost a0 = old(self).atten() as int;
        let n = frames.len();
        let mut i: usize = 0;
        while i < n
            invariant
                i <= n,
                a0 == old(self).atten() as int,
                frames0 == old(frames)@,
                n == frames0.len(),
                frames@.len() == n,
                thresholds@.len() == n,
                resets@.len() == n,
                block_in_domain(thresholds@, resets@, frames0),
                self.wf(),
                self.atten() as int == block_atten_prefix(a0, thresholds@, resets@, frames0, i as int),
                forall|k: int| i <= k < n ==> frames@[k] == frames0[k],
                forall|k: int| 0 <= k < i ==> frames@[k]@.len() == frames0[k]@.len(),
                forall|k: int| 0 <= k < i && resets@[k] ==> frames@[k]@ == frames0[k]@,
                forall|k: int, j: int|
                    0 <= k < i && !resets@[k] && 0 <= j < frames0[k]@.len() ==> frames@[k]@[j]
                        as int == scaled_sample(
                        frames0[k]@[j] as int,
                        atten_prefix(
                            block_atten_prefix(a0, thresholds@, resets@, frames0, k),
                            thresholds@[k] as int,
                            frames0[k]@,
                            j + 1,
                        ),
                    ),
                forall|k: int, j: int|
                    0 <= k < i && !resets@[k] && 0 <= j < frames@[k]@.len() ==> abs_val(
                        frames@[k]@[j] as int,
                    ) <= thresholds@[k],
                (forall|k: int| 0 <= k < i ==> !resets@[k]) ==> self.atten() <= a0,
            decreases n - i,
        {
            let threshold: u64 = thresholds[i];
            let reset: bool = resets[i];
            let frame = &mut frames[i];
            self.process_frame(frame, threshold, reset);
            meter.publish(observer_attached, self.attenuation());
            i += 1;
        }
    }
}

} // verus!
