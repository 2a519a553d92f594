//! The whole audio-path cycle: the smoothed threshold parameter, the
//! attenuation engine and the metering publisher, composed per frame the
//! way the host's callback drives them.

use vstd::prelude::*;
use crate::db_text::valid_db;
use crate::engine::{
    block_atten_prefix, block_in_domain, frame_in_domain, valid_threshold, Engine,
};
use crate::gain_curve::{gain_units, gain_units_spec, GAIN_FLOOR};
use crate::meter::Meter;
use crate::params::{advance_db, ThresholdParam};
use crate::GAIN_ONE;

verus! {

/// The parameter state after `k` smoothing steps from current value `c`,
/// target `t` and step count `s`: the new current value and step count.
pub open spec fn param_iter(c: int, t: int, s: int, k: int) -> (int, int)
    decreases k,
{
    if k <= 0 {
        (c, s)
    } else {
        let prev = param_iter(c, t, s, k - 1);
        advance_db(prev.0, t, prev.1)
    }
}

/// The threshold the engine reads for frame `k` of a block: the gain of the
/// smoothed value after `k + 1` steps.
pub open spec fn smoothed_threshold(c: int, t: int, s: int, k: int) -> int {
    gain_units_spec(param_iter(c, t, s, k + 1).0)
}

/// The per-frame thresholds of a whole block.
pub open spec fn smoothed_thresholds(c: int, t: int, s: int, n: int) -> Seq<u64> {
    Seq::new(n as nat, |k: int| smoothed_threshold(c, t, s, k) as u64)
}

/// The engine with its parameters: the complete core of the effect.
pub struct Processor {
    engine: Engine,
    threshold: ThresholdParam,
}

impl Processor {
    pub closed spec fn atten(self) -> u64 {
        self.engine.atten()
    }

    pub closed spec fn threshold_param(self) -> ThresholdParam {
        self.threshold
    }

    pub open spec fn wf(self) -> bool {
        &&& crate::engine::valid_attenuation(self.atten())
        &&& self.threshold_param().wf()
    }

    /// A fresh processor: unity attenuation, threshold at rest on its
    /// initial value.
    pub fn new(initial_db: i64) -> (p: Processor)
        requires
            valid_db(initial_db),
        ensures
            p.wf(),
            p.atten() == GAIN_ONE,
            p.threshold_param().current_db() == initial_db,
            p.threshold_param().target_db() == initial_db,
    {
        Processor { engine: Engine::new(), threshold: ThresholdParam::new(initial_db) }
    }

    /// Read the current attenuation, for the metering side.
    pub fn attenuation(&self) -> (a: u64)
        ensures
            a == self.atten(),
    {
        self.engine.attenuation()
    }

    /// Point the threshold parameter at a new target.
    pub fn set_threshold_target(&mut self, target_db: i64, steps: u32)
        requires
            old(self).wf(),
            valid_db(target_db),
        ensures
            final(self).wf(),
            final(self).atten() == old(self).atten(),
            final(self).threshold_param().target_db() == target_db,
    {
        self.threshold.set_target(target_db, steps);
    }

    /// One audio callback: process a block of frames in place.
    ///
    /// For each frame in order the processor advances the smoothed
    /// threshold one step, reads it as a linear gain, feeds the frame and
    /// the reset flag through the attenuation engine, and publishes the new
    /// attenuation to the metering slot while an observer is attached. The
    /// attenuation and the rewritten samples are exactly the block fold of
    /// the engine under the smoothed per-frame thresholds.
    pub fn process(
        &mut self,
        frames: &mut Vec<Vec<i64>>,
        reset: bool,
        meter: &Meter,
        observer_attached: bool,
    )
        requires
            old(self).wf(),
            forall|i: int|
                0 <= i < old(frames)@.len() ==> frame_in_domain(old(frames)@[i]@, GAIN_FLOOR),
        ensures
            final(self).wf(),
            final(frames)@.len() == old(frames)@.len(),
            forall|i: int|
                0 <= i < old(frames)@.len() ==> final(frames)@[i]@.len() == old(
                    frames,
                )@[i]@.len(),
            ({
                let c = old(self).threshold_param().current_db() as int;
                let t = old(self).threshold_param().target_db() as int;
                let s = old(self).threshold_param().steps_remaining() as int;
                let n = old(frames)@.len() as int;
                let ts = smoothed_thresholds(c, t, s, n);
                let rs = Seq::new(n as nat, |k: int| reset);
                &&& final(self).atten() as int == block_atten_prefix(
                    old(self).atten() as int,
                    ts,
                    rs,
                    old(frames)@,
                    n,
                )
                &&& (final(self).threshold_param().current_db() as int,
                final(self).threshold_param().steps_remaining() as int) == param_iter(c, t, s, n)
                &&& final(self).threshold_param().target_db() == old(
                    self,
                ).threshold_param().target_db()
                &&& (reset ==> forall|i: int|
                    0 <= i < old(frames)@.len() ==> final(frames)@[i]@ == old(frames)@[i]@)
                &&& (reset && n > 0 ==> final(self).atten() == GAIN_ONE)
                &&& (!reset ==> forall|i: int, j: int|
                    0 <= i < old(frames)@.len() && 0 <= j < final(frames)@[i]@.len()
                        ==> crate::engine::abs_val(final(frames)@[i]@[j] as int) <= ts[i])
                &&& (!reset ==> final(self).atten() <= old(self).atten())
            }),
    {
        let ghost c = old(self).threshold_param().current_db() as int;
        let ghost t = old(self).threshold_param().target_db() as int;
        let ghost s = old(self).threshold_param().steps_remaining() as int;
        let n = frames.len();
        let ghost ts = smoothed_thresholds(c, t, s, n as int);
        let ghost rs = Seq::new(n as nat, |k: int| reset);
        let mut thresholds: Vec<u64> = Vec::new();
        let mut resets: Vec<bool> = Vec::new();
        let mut i: usize = 0;
        while i < n
            invariant
                i <= n,
                c == old(self).threshold_param().current_db() as int,
                t == old(self).threshold_param().target_db() as int,
                s == old(self).threshold_param().steps_remaining() as int,
                ts == smoothed_thresholds(c, t, s, n as int),
                self.engine == old(self).engine,
                self.threshold.wf(),
                self.threshold.target_db() as int == t,
                (self.threshold.current_db() as int, self.threshold.steps_remaining() as int)
                    == param_iter(c, t, s, i as int),
                thresholds@.len() == i,
                resets@.len() == i,
                forall|k: int|
                    0 <= k < i ==> thresholds@[k] as int == smoothed_threshold(c, t, s, k)
                        && valid_threshold(thresholds@[k]) && thresholds@[k] >= GAIN_FLOOR,
                forall|k: int| 0 <= k < i ==> resets@[k] == reset,
            decreases n - i,
        {
            let v: i64 = self.threshold.next_value();
            let g: u64 = gain_units(v);
            thresholds.push(g);
            resets.push(reset);
            i += 1;
        }
        proof {
            assert(resets@ =~= rs);
            assert forall|k: int| 0 <= k < n implies frame_in_domain(
                frames@[k]@,
                thresholds@[k],
            ) by {
                assert(frame_in_domain(frames@[k]@, GAIN_FLOOR));
                assert(thresholds@[k] as int * GAIN_ONE >= GAIN_FLOOR as int * GAIN_ONE);
            }
            assert(block_in_domain(thresholds@, resets@, frames@));
        }
        let ghost a0 = self.engine.atten() as int;
        self.engine.process_block(frames, &thresholds, &resets, meter, observer_attached);
        proof {
            assert(thresholds@ =~= ts);
            if !reset {
                assert forall|k: int| 0 <= k < n implies !rs[k] by {}
            }
        }
    }
}

} // verus!
