//! The smoothed threshold parameter.
//!
//! The parameter lives in hundredths of a decibel. Smoothing advances the
//! current value toward the target in equal decibel steps over a fixed
//! wall-clock window, which is a logarithmic (multiplicative) curve in the
//! linear gain domain: sudden target changes never produce a jump in the
//! value the engine reads per frame.

use vstd::prelude::*;
use crate::db_text::{DB_MAX, DB_MIN, valid_db};

verus! {

/// The smoothing window, in milliseconds of wall-clock time.
pub const SMOOTHING_MS: u64 = 50;

/// How many frames the smoothing window spans at a given sample rate.
pub fn smoothing_steps(sample_rate: u32) -> (n: u32)
    ensures
        n == sample_rate as int * SMOOTHING_MS as int / 1000,
{
    ((sample_rate as u64) * SMOOTHING_MS / 1000) as u32
}

/// One smoothing step as a function of the parameter state: the new current
/// value and the new step count. The value moves one truncated share of the
/// remaining distance, and the last step lands exactly on the target.
pub open spec fn advance_db(current: int, target: int, steps: int) -> (int, int) {
    if steps <= 0 {
        (current, 0int)
    } else if steps == 1 {
        (target, 0int)
    } else {
        let d = target - current;
        let st = if d >= 0 {
            d / steps
        } else {
            -((-d) / steps)
        };
        (current + st, steps - 1)
    }
}

/// Distance between a value and the target it moves toward.
pub open spec fn db_distance(v: int, target: int) -> int {
    if v >= target {
        v - target
    } else {
        target - v
    }
}

/// The threshold parameter: a current smoothed value, read once per frame by
/// the engine, and a target set asynchronously by the host or the user.
pub struct ThresholdParam {
    current: i64,
    target: i64,
    steps_left: u32,
}

impl Default for ThresholdParam {
    /// The registry's default: unity gain, zero decibels, at rest.
    fn default() -> (p: ThresholdParam)
        ensures
            p.wf(),
            p.current_db() == 0,
            p.target_db() == 0,
            p.steps_remaining() == 0,
    {
        ThresholdParam { current: 0, target: 0, steps_left: 0 }
    }
}

impl ThresholdParam {
    /// The smoothed value, in hundredths of a decibel.
    pub closed spec fn current_db(self) -> i64 {
        self.current
    }

    /// The target the smoothed value moves toward.
    pub closed spec fn target_db(self) -> i64 {
        self.target
    }

    /// Frames left until the target is reached.
    pub closed spec fn steps_remaining(self) -> u32 {
        self.steps_left
    }

    pub open spec fn wf(self) -> bool {
        &&& valid_db(self.current_db())
        &&& valid_db(self.target_db())
        &&& (self.steps_remaining() == 0 ==> self.current_db() == self.target_db())
    }

    /// A fresh parameter, at rest on its initial value.
    pub fn new(initial_db: i64) -> (p: ThresholdParam)
        requires
            valid_db(initial_db),
        ensures
            p.wf(),
            p.current_db() == initial_db,
            p.target_db() == initial_db,
            p.steps_remaining() == 0,
    {
        ThresholdParam { current: initial_db, target: initial_db, steps_left: 0 }
    }

    /// The current smoothed value, without advancing it.
    pub fn current_value(&self) -> (v: i64)
        ensures
            v == self.current_db(),
    {
        self.current
    }

    /// The target value.
    pub fn target_value(&self) -> (v: i64)
        ensures
            v == self.target_db(),
    {
        self.target
    }

    /// Point the parameter at a new target, to be reached over the given
    /// number of frames. A zero step count jumps there at once.
    pub fn set_target(&mut self, target_db: i64, steps: u32)
        requires
            old(self).wf(),
            valid_db(target_db),
        ensures
            final(self).wf(),
            final(self).target_db() == target_db,
            steps == 0 ==> final(self).current_db() == target_db,
            steps > 0 ==> final(self).current_db() == old(self).current_db(),
            steps > 0 && old(self).current_db() != target_db ==> final(self).steps_remaining()
                == steps,
    {
        self.target = target_db;
        if steps == 0 || self.current == target_db {
            self.current = target_db;
            self.steps_left = 0;
        } else {
            self.steps_left = steps;
        }
    }

    /// Advance the smoothed value one frame toward the target and read it.
    ///
    /// The value never overshoots: it stays between the old value and the
    /// target, its distance to the target never grows, and once the step
    /// budget is spent it sits exactly on the target.
    pub fn next_value(&mut self) -> (v: i64)
        requires
            old(self).wf(),
        ensures
            final(self).wf(),
            v == final(self).current_db(),
            final(self).target_db() == old(self).target_db(),
            (final(self).current_db() as int, final(self).steps_remaining() as int)
                == advance_db(
                old(self).current_db() as int,
                old(self).target_db() as int,
                old(self).steps_remaining() as int,
            ),
            old(self).current_db() <= old(self).target_db() ==> old(self).current_db() <= v
                <= old(self).target_db(),
            old(self).target_db() <= old(self).current_db() ==> old(self).target_db() <= v
                <= old(self).current_db(),
            db_distance(v as int, old(self).target_db() as int) <= db_distance(
                old(self).current_db() as int,
                old(self).target_db() as int,
            ),
            old(self).steps_remaining() == 0 ==> v == old(self).current_db(),
            old(self).steps_remaining() > 0 ==> final(self).steps_remaining() == old(
                self,
            ).steps_remaining() - 1,
            final(self).steps_remaining() == 0 ==> v == final(self).target_db(),
    {
        if self.steps_left == 0 {
            return self.current;
        }
        if self.steps_left == 1 {
            self.current = self.target;
            self.steps_left = 0;
            return self.current;
        }
        let diff: i64 = self.target - self.current;
        let nsteps: u64 = self.steps_left as u64;
        let step: i64 = if diff >= 0 {
            ((diff as u64) / nsteps) as i64
        } else {
            -((((-diff) as u64) / nsteps) as i64)
        };
        proof {
            if diff >= 0 {
                vstd::arithmetic::div_mod::lemma_div_is_ordered_by_denominator(
                    diff as int,
                    1,
                    nsteps as int,
                );
                vstd::arithmetic::div_mod::lemma_div_pos_is_pos(diff as int, nsteps as int);
            } else {
                vstd::arithmetic::div_mod::lemma_div_is_ordered_by_denominator(
                    -(diff as int),
                    1,
                    nsteps as int,
                );
                vstd::arithmetic::div_mod::lemma_div_pos_is_pos(-(diff as int), nsteps as int);
            }
        }
        self.current = self.current + step;
        self.steps_left = self.steps_left - 1;
        self.current
    }
}

} // verus!
