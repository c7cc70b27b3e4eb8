//! Scripted input-replay engine: human-like pointer motion planning and a
//! deadline-bounded event loop, with all decision logic verified.
//!
//! The crate plans every primitive input action (pointer moves along a cubic
//! curve, clicks, key presses, randomized sleeps) as plain data; an unverified
//! shell delivers the primitives to the host and reports the wall clock back.

pub mod curve;
pub mod event;
pub mod plan;
pub mod geom;
pub mod rng;
pub mod runloop;

use vstd::prelude::*;

verus! {

/// Run configuration: path of the script file, runtime budget in seconds,
/// and whether debug logging is enabled.
pub struct BotConfig {
    pub script: String,
    pub runtime: u64,
    pub debug: bool,
}

impl BotConfig {
    /// The runtime budget in milliseconds, saturating at the largest `u64`.
    pub fn budget_millis(&self) -> (ms: u64)
        ensures
            self.runtime <= u64::MAX as int / 1000 ==> ms == self.runtime * 1000,
            self.runtime > u64::MAX as int / 1000 ==> ms == u64::MAX,
    {
        if self.runtime <= u64::MAX / 1000 {
            self.runtime * 1000
        } else {
            u64::MAX
        }
    }
}

} // verus!
