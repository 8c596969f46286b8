//! The numbers runtime events go by.
use vstd::prelude::*;

verus! {

pub const GC_START: i32 = 1;

pub const GC_END: i32 = 2;

pub const GC_RESTART_EE_END: i32 = 3;

pub const GC_HEAP_STATS: i32 = 4;

pub const GC_SUSPEND_EE_BEGIN: i32 = 9;

pub const GC_ALLOCATION_TICK: i32 = 10;

pub const EXCEPTION_THROWN: i32 = 80;

pub const CONTENTION_START: i32 = 81;

pub const CONTENTION_STOP: i32 = 91;

} // verus!
