//! The command sets of the protocol.
use vstd::prelude::*;

verus! {

pub const EVENTPIPE: u8 = 0x02;

pub const PROCESS: u8 = 0x04;

pub const SERVER: u8 = 0xFF;

} // verus!
