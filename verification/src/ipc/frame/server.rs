//! Replies of the server.
use vstd::prelude::*;

verus! {

pub const OK: u8 = 0x00;

pub const ERROR: u8 = 0xFF;

} // verus!
