//! The metering slot: the engine's attenuation, exposed to a display thread.
//!
//! A single writer (the audio path) stores into one atomic word with relaxed
//! ordering, and a single logical reader (the display) loads from it; the
//! reader tolerates staleness, so no stronger ordering is wanted. The slot's
//! cross-thread contents are therefore deliberately left unspecified here;
//! what is specified is the publishing decision: which value is offered to
//! the slot, and that nothing is written while no observer is attached.

use vstd::prelude::*;
use core::sync::atomic::AtomicU64;
use core::sync::atomic::Ordering;
use crate::GAIN_ONE;

verus! {

/// The value the engine offers to the slot after a frame: the current
/// attenuation while an observer is attached, nothing otherwise.
pub open spec fn published_value(observer_attached: bool, attenuation: u64) -> Option<u64> {
    if observer_attached {
        Some(attenuation)
    } else {
        None
    }
}

/// Decide what to publish for a frame.
pub fn metering_value(observer_attached: bool, attenuation: u64) -> (r: Option<u64>)
    ensures
        r == published_value(observer_attached, attenuation),
{
    if observer_attached {
        Some(attenuation)
    } else {
        None
    }
}

/// The shared slot. It holds the most recent attenuation published while an
/// observer was attached, in fixed-point units.
pub struct Meter {
    slot: AtomicU64,
}

impl Meter {
    /// A fresh slot, primed with unity attenuation.
    pub fn new() -> (m: Meter) {
        Meter { slot: AtomicU64::new(GAIN_ONE) }
    }

    /// Publish the attenuation for one frame: a relaxed store when an
    /// observer is attached, no write at all otherwise.
    pub fn publish(&self, observer_attached: bool, attenuation: u64) {
        match metering_value(observer_attached, attenuation) {
            Some(v) => self.slot.store(v, Ordering::Relaxed),
            None => {},
        }
    }

    /// The observer's side: a relaxed load of the latest published value.
    pub fn read(&self) -> u64 {
        self.slot.load(Ordering::Relaxed)
    }
}

} // verus!
