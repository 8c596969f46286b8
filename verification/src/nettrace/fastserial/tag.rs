//! The tag bytes that delimit serialized objects.
use vstd::prelude::*;

verus! {

pub const NULL_REFERENCE: u8 = 1;

pub const BEGIN_PRIVATE_OBJECT: u8 = 5;

pub const END_OBJECT: u8 = 6;

} // verus!
