//! Commands of the process set.
use vstd::prelude::*;

verus! {

pub const PROCESS_INFO: u8 = 0x00;

pub const PROCESS_INFO2: u8 = 0x04;

pub const PROCESS_INFO3: u8 = 0x08;

} // verus!
