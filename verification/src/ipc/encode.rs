//! Payload encoding for the Diagnostics IPC protocol.
//!
//! Everything is little-endian. The only subtle part is `string`, which is an `i32` count of
//! UTF-16 code units *including* the NUL terminator, followed by that many UTF-16LE units,
//! terminator included.
use vstd::prelude::*;

use crate::bytes::{store_u16, store_u32, store_u64, u16_bytes, u32_bytes, u64_bytes};
use crate::text::{encode_utf16, utf16_of};

verus! {

/// UTF-16 units in their stored form.
pub open spec fn unit_bytes(units: Seq<u16>) -> Seq<u8>
    decreases units.len(),
{
    if units.len() == 0 {
        Seq::empty()
    } else {
        unit_bytes(units.drop_last()) + u16_bytes(units.last())
    }
}

/// A text in its stored form.
pub open spec fn string_bytes(s: Seq<char>) -> Seq<u8> {
    u32_bytes(((utf16_of(s).len() + 1) % 0x1_0000_0000) as u32) + unit_bytes(utf16_of(s))
        + u16_bytes(0)
}

/// A truth value in its stored form.
pub open spec fn bool_bytes(v: bool) -> Seq<u8> {
    seq![
        if v {
            1u8
        } else {
            0u8
        },
    ]
}

/// Builds a command payload. Numbers are little-endian; see module docs for string rules.
#[derive(Debug)]
pub struct PayloadWriter {
    buf: Vec<u8>,
}

impl View for PayloadWriter {
    type V = Seq<u8>;

    closed spec fn view(&self) -> Seq<u8> {
        self.buf@
    }
}

impl Default for PayloadWriter {
    fn default() -> (w: Self)
        ensures
            w@ == Seq::<u8>::empty(),
    {
        PayloadWriter::new()
    }
}

impl PayloadWriter {
    pub fn new() -> (w: Self)
        ensures
            w@ == Seq::<u8>::empty(),
    {
        PayloadWriter { buf: Vec::new() }
    }

    pub fn u32(&mut self, v: u32) -> (w: &mut Self)
        ensures
            w@ == old(self)@ + u32_bytes(v),
            *final(self) == *final(w),
    {
        store_u32(&mut self.buf, v);
        self
    }

    pub fn u64(&mut self, v: u64) -> (w: &mut Self)
        ensures
            w@ == old(self)@ + u64_bytes(v),
            *final(self) == *final(w),
    {
        store_u64(&mut self.buf, v);
        self
    }

    pub fn bool(&mut self, v: bool) -> (w: &mut Self)
        ensures
            w@ == old(self)@ + bool_bytes(v),
            *final(self) == *final(w),
    {
        let ghost before = self.buf@;
        self.buf.push(
            if v {
                1
            } else {
                0
            },
        );
        assert(self.buf@ =~= before + bool_bytes(v));
        self
    }

    /// A non-null string. Note that `""` encodes to 6 bytes (length 1, one lone NUL), not 4:
    /// the 4-byte form means *null*. The 6-byte form is what stands for an absent filterData.
    pub fn string(&mut self, s: &str) -> (w: &mut Self)
        ensures
            w@ == old(self)@ + string_bytes(s@),
            *final(self) == *final(w),
    {
        let ghost before = self.buf@;
        let units = encode_utf16(s);
        // Length counts UTF-16 code units, so a non-BMP char counts as 2.
        store_u32(&mut self.buf, ((units.len() as u128 + 1) % 0x1_0000_0000) as u32);
        let ghost start = self.buf@;
        let mut i: usize = 0;
        assert(units@.take(0) =~= Seq::<u16>::empty());
        while i < units.len()
            invariant
                i <= units@.len(),
                self.buf@ == start + unit_bytes(units@.take(i as int)),
            decreases units@.len() - i,
        {
            store_u16(&mut self.buf, units[i]);
            proof {
                let longer = units@.take(i + 1);
                assert(longer.drop_last() =~= units@.take(i as int));
                assert(self.buf@ =~= start + unit_bytes(longer));
            }
            i += 1;
        }
        assert(units@.take(units@.len() as int) =~= units@);
        store_u16(&mut self.buf, 0);
        assert(self.buf@ =~= before + string_bytes(s@));
        self
    }

    /// An explicit null string: just a zero length, with nothing following.
    pub fn null_string(&mut self) -> (w: &mut Self)
        ensures
            w@ == old(self)@ + u32_bytes(0),
            *final(self) == *final(w),
    {
        self.u32(0)
    }

    pub fn len(&self) -> (n: usize)
        ensures
            n == self@.len(),
    {
        self.buf.len()
    }

    pub fn is_empty(&self) -> (empty: bool)
        ensures
            empty == (self@.len() == 0),
    {
        self.buf.is_empty()
    }

    pub fn into_bytes(self) -> (bytes: Vec<u8>)
        ensures
            bytes@ == self@,
    {
        self.buf
    }
}

} // verus!
