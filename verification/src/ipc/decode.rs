//! Reading command *response* payloads. Same wire format as [`super::encode`], in reverse.
use vstd::prelude::*;
use vstd::slice::slice_subrange;

use super::encode::{string_bytes, unit_bytes};
use crate::bytes::{
    load_u16, load_u32, load_u64, u16_at, u16_bytes, u16_round_trip, u32_at, u32_bytes,
    u32_round_trip, u64_at, u64_bytes, u64_round_trip,
};
use crate::nettrace::event::sixteen;
use crate::text::{
    decimal, decode_utf16, push_decimal, text_of_utf16, utf16_of, utf16_round_trip,
};

verus! {

#[derive(Debug, Clone, Copy, PartialEq, Eq, Structural)]
pub struct TruncatedPayload {
    pub wanted: usize,
    pub remaining: usize,
}

impl TruncatedPayload {
    /// The error in words.
    pub open spec fn words(self) -> Seq<char> {
        "truncated response payload: wanted "@ + decimal(self.wanted as nat) + " more bytes, "@
            + decimal(self.remaining as nat) + " remain"@
    }

    pub fn describe(&self) -> (s: String)
        ensures
            s@ == self.words(),
    {
        let mut s = "truncated response payload: wanted ".to_owned();
        push_decimal(&mut s, self.wanted as u64);
        s.append(" more bytes, ");
        push_decimal(&mut s, self.remaining as u64);
        s.append(" remain");
        s
    }
}

pub type Result<T> = core::result::Result<T, TruncatedPayload>;

/// What reading at some position gives: a value or an error, and the position afterwards.
pub struct Piece<T> {
    pub result: Result<T>,
    pub pos: int,
}

/// A read that wants more than is left. What it wants is reported as far as a length can say it.
pub open spec fn short_of<T>(b: Seq<u8>, p: int, wanted: int) -> Piece<T> {
    Piece {
        result: Err(
            TruncatedPayload {
                wanted: if wanted <= usize::MAX {
                    wanted as usize
                } else {
                    usize::MAX
                },
                remaining: (b.len() - p) as usize,
            },
        ),
        pos: p,
    }
}

pub open spec fn piece<T>(value: T, pos: int) -> Piece<T> {
    Piece { result: Ok(value), pos }
}

pub open spec fn piece_u32(b: Seq<u8>, p: int) -> Piece<u32> {
    if b.len() - p < 4 {
        short_of(b, p, 4)
    } else {
        piece(u32_at(b, p), p + 4)
    }
}

pub open spec fn piece_u64(b: Seq<u8>, p: int) -> Piece<u64> {
    if b.len() - p < 8 {
        short_of(b, p, 8)
    } else {
        piece(u64_at(b, p), p + 8)
    }
}

pub open spec fn piece_guid(b: Seq<u8>, p: int) -> Piece<Seq<u8>> {
    if b.len() - p < 16 {
        short_of(b, p, 16)
    } else {
        piece(b.subrange(p, p + 16), p + 16)
    }
}

/// `n` UTF-16 units from `p` on.
pub open spec fn units_at(b: Seq<u8>, p: int, n: nat) -> Seq<u16> {
    Seq::new(n, |i: int| u16_at(b, p + 2 * i))
}

/// A length, then that many units, of which the last is dropped. No units at all stand for null,
/// which comes out as the empty text.
pub open spec fn piece_string(b: Seq<u8>, p: int) -> Piece<Seq<char>> {
    let len = piece_u32(b, p);
    match len.result {
        Err(e) => Piece { result: Err(e), pos: len.pos },
        Ok(n) => if n == 0 {
            piece(Seq::empty(), len.pos)
        } else if b.len() - len.pos < 2 * n {
            short_of(b, len.pos, 2 * n)
        } else {
            piece(text_of_utf16(units_at(b, len.pos, (n - 1) as nat), 0), len.pos + 2 * n)
        },
    }
}

/// A buffer and how far into it reading has come.
pub struct Place {
    pub bytes: Seq<u8>,
    pub pos: int,
}

pub struct PayloadReader<'a> {
    buf: &'a [u8],
    pos: usize,
}

impl<'a> PayloadReader<'a> {
    pub closed spec fn view(&self) -> Place {
        Place { bytes: self.buf@, pos: self.pos as int }
    }

    pub open spec fn wf(&self) -> bool {
        0 <= self@.pos <= self@.bytes.len() <= usize::MAX
    }

    pub fn new(buf: &'a [u8]) -> (r: Self)
        ensures
            r.wf(),
            r@ == (Place { bytes: buf@, pos: 0 }),
    {
        assert(buf.len() <= usize::MAX);
        PayloadReader { buf, pos: 0 }
    }

    pub fn remaining(&self) -> (n: usize)
        requires
            self.wf(),
        ensures
            n == self@.bytes.len() - self@.pos,
    {
        self.buf.len() - self.pos
    }

    pub fn is_empty(&self) -> (empty: bool)
        requires
            self.wf(),
        ensures
            empty == (self@.pos == self@.bytes.len()),
    {
        self.remaining() == 0
    }

    fn take(&mut self, n: usize) -> (r: Result<&'a [u8]>)
        requires
            old(self).wf(),
        ensures
            final(self).wf(),
            final(self)@.bytes == old(self)@.bytes,
            match r {
                Ok(slice) => {
                    &&& old(self)@.bytes.len() - old(self)@.pos >= n
                    &&& slice@ == old(self)@.bytes.subrange(old(self)@.pos, old(self)@.pos + n)
                    &&& final(self)@.pos == old(self)@.pos + n
                },
                Err(e) => {
                    &&& old(self)@.bytes.len() - old(self)@.pos < n
                    &&& e == (TruncatedPayload {
                        wanted: n,
                        remaining: (old(self)@.bytes.len() - old(self)@.pos) as usize,
                    })
                    &&& final(self)@ == old(self)@
                },
            },
    {
        if self.remaining() < n {
            return Err(TruncatedPayload { wanted: n, remaining: self.remaining() });
        }
        let slice = slice_subrange(self.buf, self.pos, self.pos + n);
        self.pos = self.pos + n;
        Ok(slice)
    }

    pub fn u32(&mut self) -> (r: Result<u32>)
        requires
            old(self).wf(),
        ensures
            final(self).wf(),
            ({
                let want = piece_u32(old(self)@.bytes, old(self)@.pos);
                r == want.result && final(self)@ == (Place { pos: want.pos, ..old(self)@ })
            }),
    {
        let b = self.take(4)?;
        Ok(load_u32(b, 0))
    }

    pub fn u64(&mut self) -> (r: Result<u64>)
        requires
            old(self).wf(),
        ensures
            final(self).wf(),
            ({
                let want = piece_u64(old(self)@.bytes, old(self)@.pos);
                r == want.result && final(self)@ == (Place { pos: want.pos, ..old(self)@ })
            }),
    {
        let b = self.take(8)?;
        Ok(load_u64(b, 0))
    }

    /// A .NET GUID: 16 raw bytes, not RFC-4122 byte order.
    pub fn guid(&mut self) -> (r: Result<[u8; 16]>)
        requires
            old(self).wf(),
        ensures
            final(self).wf(),
            ({
                let want = piece_guid(old(self)@.bytes, old(self)@.pos);
                &&& match (r, want.result) {
                    (Ok(a), Ok(s)) => a@ == s,
                    (Err(e), Err(f)) => e == f,
                    _ => false,
                }
                &&& final(self)@ == (Place { pos: want.pos, ..old(self)@ })
            }),
    {
        let b = self.take(16)?;
        Ok(sixteen(b))
    }

    /// Length-prefixed UTF-16LE, where the length counts code units including the terminator.
    /// A length of 0 means null, which comes out as an empty string.
    pub fn string(&mut self) -> (r: Result<String>)
        requires
            old(self).wf(),
        ensures
            final(self).wf(),
            ({
                let want = piece_string(old(self)@.bytes, old(self)@.pos);
                &&& match (r, want.result) {
                    (Ok(a), Ok(s)) => a@ == s,
                    (Err(e), Err(f)) => e == f,
                    _ => false,
                }
                &&& final(self)@ == (Place { pos: want.pos, ..old(self)@ })
            }),
    {
        let count: u32 = self.u32()?;
        if count == 0 {
            return Ok(String::new());
        }
        if count as u64 * 2 > usize::MAX as u64 {
            return Err(TruncatedPayload { wanted: usize::MAX, remaining: self.remaining() });
        }
        let len: usize = count as usize;
        let ghost at = self@.pos;
        let ghost b = self@.bytes;
        let bytes = self.take(len * 2)?;
        let ghost all = units_at(b, at, (len - 1) as nat);
        let mut units: Vec<u16> = Vec::new();
        let mut i: usize = 0;
        while i < len - 1
            invariant
                1 <= len,
                2 * len <= usize::MAX,
                i <= len - 1,
                bytes@.len() == 2 * len,
                bytes@ == b.subrange(at, at + 2 * len),
                0 <= at,
                at + 2 * len <= b.len(),
                all == units_at(b, at, (len - 1) as nat),
                units@ == all.take(i as int),
            decreases len - i,
        {
            units.push(load_u16(bytes, 2 * i));
            assert(all.take(i + 1) =~= all.take(i as int).push(all[i as int]));
            i += 1;
        }
        assert(all.take(len - 1) =~= all);
        Ok(decode_utf16(units.as_slice()))
    }
}

/// Numbers read back as they were written.
pub proof fn scalars_round_trip(front: Seq<u8>, a: u32, b: u64, back: Seq<u8>)
    ensures
        piece_u32(front + u32_bytes(a) + back, front.len() as int) == piece(
            a,
            front.len() as int + 4,
        ),
        piece_u64(front + u64_bytes(b) + back, front.len() as int) == piece(
            b,
            front.len() as int + 8,
        ),
{
    u32_round_trip(front, a, back);
    u64_round_trip(front, b, back);
}

/// A text reads back as it was written, and nothing behind it is consumed.
pub proof fn string_round_trip(front: Seq<u8>, s: Seq<char>, back: Seq<u8>)
    requires
        utf16_of(s).len() < u32::MAX,
    ensures
        piece_string(front + string_bytes(s) + back, front.len() as int) == piece(
            s,
            (front.len() + string_bytes(s).len()) as int,
        ),
{
    let units = utf16_of(s);
    let n = (units.len() + 1) as u32;
    let all = front + string_bytes(s) + back;
    let p = front.len() as int;
    let tail = unit_bytes(units) + u16_bytes(0) + back;
    assert(all =~= front + u32_bytes(n) + tail);
    u32_round_trip(front, n, tail);
    unit_bytes_length(units);
    let head = front + u32_bytes(n);
    let rest = u16_bytes(0) + back;
    assert(all =~= head + unit_bytes(units) + rest);
    units_read_back(head, units, rest);
    assert(units_at(all, p + 4, units.len()) =~= units);
    utf16_round_trip(s);
}

proof fn unit_bytes_length(units: Seq<u16>)
    ensures
        unit_bytes(units).len() == 2 * units.len(),
    decreases units.len(),
{
    if units.len() > 0 {
        unit_bytes_length(units.drop_last());
    }
}

proof fn units_read_back(front: Seq<u8>, units: Seq<u16>, back: Seq<u8>)
    ensures
        forall|i: int|
            0 <= i < units.len() ==> u16_at(
                front + unit_bytes(units) + back,
                front.len() + 2 * i,
            ) == #[trigger] units[i],
    decreases units.len(),
{
    if units.len() > 0 {
        let rest = units.drop_last();
        let last = u16_bytes(units.last());
        let all = front + unit_bytes(units) + back;
        unit_bytes_length(rest);
        assert(all =~= front + unit_bytes(rest) + (last + back));
        assert(all =~= (front + unit_bytes(rest)) + last + back);
        units_read_back(front, rest, last + back);
        u16_round_trip(front + unit_bytes(rest), units.last(), back);
        assert forall|i: int| 0 <= i < units.len() implies u16_at(all, front.len() + 2 * i)
            == #[trigger] units[i] by {
            if i < rest.len() {
                assert(rest[i] == units[i]);
            }
        }
    }
}

} // verus!
