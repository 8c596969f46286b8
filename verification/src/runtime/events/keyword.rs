//! Keywords that switch groups of runtime events on.
use vstd::prelude::*;

verus! {

/// GC events, including allocation ticks and suspension.
pub const GC: u64 = 0x1;

/// Lock contention start/stop.
pub const CONTENTION: u64 = 0x4000;

/// Thrown exceptions.
pub const EXCEPTION: u64 = 0x8000;

} // verus!
