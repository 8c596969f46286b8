//! Commands of the EventPipe set.
use vstd::prelude::*;

verus! {

pub const STOP_TRACING: u8 = 0x01;

/// Command ids run one ahead of the version number: CollectTracing2 is 0x03.
pub const COLLECT_TRACING2: u8 = 0x03;

} // verus!
