//! A limiter core that keeps a stereo signal below a user-set threshold by
//! tracking a single attenuation scalar.
//!
//! All amplitudes are fixed-point values in units of one millionth: a gain of
//! `1.0` is `GAIN_ONE` units. The engine clamps the attenuation downward
//! whenever a sample would exceed the threshold, a reset control forces it
//! back to unity, and a metering slot exposes the current attenuation to a
//! display thread through a relaxed atomic store.

use vstd::prelude::*;

pub mod db_text;
pub mod engine;
pub mod gain_curve;
pub mod meter;
pub mod params;
pub mod processor;

verus! {

/// Unity gain in fixed-point units: one millionth per unit.
pub const GAIN_ONE: u64 = 1_000_000;

} // verus!
