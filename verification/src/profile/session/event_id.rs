//! The numbers that profiling events go by.
use vstd::prelude::*;

verus! {

/// The sampling profiler's only event: a thread sample, carrying a stack id.
pub const THREAD_SAMPLE: i32 = 0;

/// First of the event ids carrying a method's address range and name.
///
/// The runtime and rundown providers number these differently and the numbering has shifted
/// between versions, so this is a range rather than a fixed pair: `MethodLoadVerbose`,
/// `MethodUnloadVerbose` and the `MethodDCStart/EndVerbose` rundown records all share one
/// payload shape. Records that do not decode to a plausible method are discarded, so casting
/// the net a little wide is safe.
pub const METHOD_VERBOSE_FIRST: i32 = 141;

/// Last of the event ids carrying a method's address range and name.
pub const METHOD_VERBOSE_LAST: i32 = 144;

} // verus!
