//! Byte-level reading primitives for the nettrace stream.
//!
//! Two readers, because the format needs both:
//!
//! * [`StreamReader`] holds what has arrived of a stream and does the outer framing. It tracks the
//!   absolute stream offset, which block padding is computed from.
//! * [`Reader`] parses a block's contents once they are in memory.
use vstd::prelude::*;
use vstd::arithmetic::div_mod::lemma_mod_mod;
use vstd::slice::{slice_subrange, slice_to_vec};
use vstd::utf8::{char_is_scalar, char_u32_cast};

use crate::bytes::{
    load_u16, load_u32, load_u64, signed16, signed32, signed64, store_bytes, to_signed16,
    to_signed32, to_signed64, u16_at, u16_bytes, u16_round_trip, u32_at, u64_at,
};
use crate::text::{
    decimal, decode_utf16, push_decimal, text_of_utf16, utf16_of, utf16_of_char,
    utf16_round_trip,
};

verus! {

/// What went wrong beneath the format: in the transport.
#[derive(Debug, Clone, PartialEq, Eq)]
pub enum IoError {
    /// The stream closed before a read was satisfied.
    UnexpectedEof,
    /// Any other failure, in the transport's own words.
    Other(String),
}

impl View for IoError {
    type V = Option<Seq<char>>;

    /// `None` for the end of the stream, otherwise the transport's words.
    open spec fn view(&self) -> Option<Seq<char>> {
        match self {
            IoError::UnexpectedEof => None,
            IoError::Other(text) => Some(text@),
        }
    }
}

impl IoError {
    /// The failure in words.
    pub open spec fn words(e: Option<Seq<char>>) -> Seq<char> {
        match e {
            None => "failed to fill whole buffer"@,
            Some(text) => text,
        }
    }

    pub fn describe(&self) -> (s: String)
        ensures
            s@ == IoError::words(self@),
    {
        match self {
            IoError::UnexpectedEof => "failed to fill whole buffer".to_owned(),
            IoError::Other(text) => text.clone(),
        }
    }
}

#[derive(Debug, Clone, PartialEq, Eq)]
pub enum ParseError {
    Io(IoError),
    /// The stream is still open and has not delivered enough yet. Nothing was consumed: the same
    /// read succeeds once `missing` more bytes have arrived.
    Incomplete { missing: usize },
    /// Ran out of bytes mid-structure.
    Truncated { what: &'static str, wanted: usize, remaining: usize },
    /// A varint ran past its maximum encoded length.
    MalformedVarint,
    /// A structural byte was not one of the values the format allows.
    Unexpected { what: &'static str, got: String },
}

/// A [`ParseError`] with its texts as character sequences.
pub enum Fault {
    Io(Option<Seq<char>>),
    Incomplete { missing: nat },
    Truncated { what: Seq<char>, wanted: nat, remaining: nat },
    MalformedVarint,
    Unexpected { what: Seq<char>, got: Seq<char> },
}

impl View for ParseError {
    type V = Fault;

    open spec fn view(&self) -> Fault {
        match self {
            ParseError::Io(e) => Fault::Io(e@),
            ParseError::Incomplete { missing } => Fault::Incomplete { missing: *missing as nat },
            ParseError::Truncated { what, wanted, remaining } => Fault::Truncated {
                what: what@,
                wanted: *wanted as nat,
                remaining: *remaining as nat,
            },
            ParseError::MalformedVarint => Fault::MalformedVarint,
            ParseError::Unexpected { what, got } => Fault::Unexpected { what: what@, got: got@ },
        }
    }
}

impl Fault {
    /// The error in words.
    pub open spec fn words(self) -> Seq<char> {
        match self {
            Fault::Io(e) => "nettrace stream I/O failed: "@ + IoError::words(e),
            Fault::Incomplete { missing } => "nettrace stream is waiting for "@ + decimal(missing)
                + " more bytes"@,
            Fault::Truncated { what, wanted, remaining } => "truncated nettrace stream reading "@
                + what + ": wanted "@ + decimal(wanted) + " bytes, "@ + decimal(remaining)
                + " remain"@,
            Fault::MalformedVarint => "malformed varint in nettrace stream"@,
            Fault::Unexpected { what, got } => "unexpected "@ + what + " in nettrace stream: "@
                + got,
        }
    }
}

impl ParseError {
    /// The error in words, for a person to read.
    pub fn describe(&self) -> (s: String)
        ensures
            s@ == self@.words(),
    {
        match self {
            ParseError::Io(e) => {
                let mut s = "nettrace stream I/O failed: ".to_owned();
                s.append(e.describe().as_str());
                s
            },
            ParseError::Incomplete { missing } => {
                let mut s = "nettrace stream is waiting for ".to_owned();
                push_decimal(&mut s, *missing as u64);
                s.append(" more bytes");
                s
            },
            ParseError::Truncated { what, wanted, remaining } => {
                let mut s = "truncated nettrace stream reading ".to_owned();
                s.append(what);
                s.append(": wanted ");
                push_decimal(&mut s, *wanted as u64);
                s.append(" bytes, ");
                push_decimal(&mut s, *remaining as u64);
                s.append(" remain");
                s
            },
            ParseError::MalformedVarint => "malformed varint in nettrace stream".to_owned(),
            ParseError::Unexpected { what, got } => {
                let mut s = "unexpected ".to_owned();
                s.append(what);
                s.append(" in nettrace stream: ");
                s.append(got.as_str());
                s
            },
        }
    }
}

pub type Result<T> = core::result::Result<T, ParseError>;

/// What reading at some position gives: a value or a fault, and the position afterwards.
pub struct Parsed<T> {
    pub result: core::result::Result<T, Fault>,
    pub pos: int,
}

/// Whether a call returned what the model of the read says.
pub open spec fn says<T: DeepView>(
    got: Result<T>,
    want: core::result::Result<<T as DeepView>::V, Fault>,
) -> bool {
    match (got, want) {
        (Ok(a), Ok(b)) => a.deep_view() == b,
        (Err(e), Err(f)) => e@ == f,
        _ => false,
    }
}

pub open spec fn good<T>(value: T, pos: int) -> Parsed<T> {
    Parsed { result: Ok(value), pos }
}

pub open spec fn bad<T>(fault: Fault, pos: int) -> Parsed<T> {
    Parsed { result: Err(fault), pos }
}

// ---------------------------------------------------------------------------------------------
// The stream

/// A stream as its reader sees it: bytes that have arrived, how many of them have been read, the
/// offset of the first of them, and whether more may arrive.
pub struct Stream {
    pub data: Seq<u8>,
    pub at: int,
    pub base: int,
    pub open: bool,
}

impl Stream {
    /// The bytes that have arrived and are not yet read.
    pub open spec fn pending(self) -> Seq<u8> {
        self.data.skip(self.at)
    }

    /// How many bytes have arrived and are not yet read.
    pub open spec fn left(self) -> int {
        self.data.len() - self.at
    }

    /// The offset from the start of the stream.
    pub open spec fn pos(self) -> int {
        self.base + self.at
    }

    /// Why a read of `n` bytes cannot be satisfied now.
    pub open spec fn shortage(self, n: int) -> Fault {
        if self.open {
            Fault::Incomplete { missing: (n - self.left()) as nat }
        } else {
            Fault::Io(None)
        }
    }

    /// The stream with `n` more bytes read.
    pub open spec fn after(self, n: int) -> Stream {
        Stream { at: self.at + n, ..self }
    }

    /// Positions are in range, and offsets fit their type.
    pub open spec fn valid(self) -> bool {
        &&& 0 <= self.at <= self.data.len() <= usize::MAX
        &&& 0 <= self.base
        &&& self.base + self.data.len() <= u64::MAX
    }
}

/// Reads the outer stream, tracking absolute position for alignment arithmetic.
///
/// The bytes are handed over as they arrive, with [`StreamReader::feed`]. A read that needs more
/// than has arrived changes nothing and says how much is missing, or that the stream has ended.
pub struct StreamReader {
    data: Vec<u8>,
    at: usize,
    base: u64,
    open: bool,
}

/// How much of a stream is passed over at a time.
pub const SKIP_CHUNK: usize = 4096;

/// How much of `left` bytes whole chunks take up.
pub open spec fn whole_chunks(left: int) -> int {
    left - left % SKIP_CHUNK as int
}

impl StreamReader {
    pub closed spec fn view(&self) -> Stream {
        Stream {
            data: self.data@,
            at: self.at as int,
            base: self.base as int,
            open: self.open,
        }
    }

    pub open spec fn wf(&self) -> bool {
        self@.valid()
    }

    /// A stream that is complete: these bytes and no more.
    pub fn new(data: Vec<u8>) -> (r: Self)
        ensures
            r.wf(),
            r@ == (Stream { data: data@, at: 0, base: 0, open: false }),
    {
        assert(data.len() <= usize::MAX);
        StreamReader { data, at: 0, base: 0, open: false }
    }

    /// A stream of which nothing has arrived yet.
    pub fn live() -> (r: Self)
        ensures
            r.wf(),
            r@ == (Stream { data: Seq::empty(), at: 0, base: 0, open: true }),
    {
        StreamReader { data: Vec::new(), at: 0, base: 0, open: true }
    }

    /// More of the stream has arrived. What has been read of it is let go.
    pub fn feed(&mut self, bytes: &[u8])
        requires
            old(self).wf(),
            old(self)@.pos() + old(self)@.left() + bytes@.len() <= u64::MAX,
        ensures
            final(self).wf(),
            final(self)@ == (Stream {
                data: old(self)@.pending() + bytes@,
                at: 0,
                base: old(self)@.pos(),
                open: old(self)@.open,
            }),
    {
        let ghost before = *self;
        let mut data: Vec<u8> = slice_to_vec(
            slice_subrange(self.data.as_slice(), self.at, self.data.len()),
        );
        assert(data@ =~= before@.pending());
        store_bytes(&mut data, bytes);
        assert(data.len() <= usize::MAX);
        self.data = data;
        self.base = self.base + self.at as u64;
        self.at = 0;
    }

    /// Nothing more will arrive.
    pub fn close(&mut self)
        requires
            old(self).wf(),
        ensures
            final(self).wf(),
            final(self)@ == (Stream { open: false, ..old(self)@ }),
    {
        self.open = false;
    }

    /// Absolute byte offset from the start of the stream. Block padding is computed from this.
    pub fn position(&self) -> (pos: u64)
        requires
            self.wf(),
        ensures
            pos == self@.pos(),
    {
        self.base + self.at as u64
    }

    /// Go back to an offset that was read since bytes last arrived.
    pub fn rewind(&mut self, position: u64)
        requires
            old(self).wf(),
            old(self)@.base <= position <= old(self)@.pos(),
        ensures
            final(self).wf(),
            final(self)@ == (Stream { at: position - old(self)@.base, ..old(self)@ }),
    {
        self.at = (position - self.base) as usize;
    }

    fn shortage(&self, n: usize) -> (e: ParseError)
        requires
            self.wf(),
            n > self@.left(),
        ensures
            e@ == self@.shortage(n as int),
    {
        if self.open {
            ParseError::Incomplete { missing: n - (self.data.len() - self.at) }
        } else {
            ParseError::Io(IoError::UnexpectedEof)
        }
    }

    pub fn read_exact_bytes(&mut self, n: usize) -> (r: Result<Vec<u8>>)
        requires
            old(self).wf(),
        ensures
            final(self).wf(),
            match r {
                Ok(bytes) => {
                    &&& n <= old(self)@.left()
                    &&& bytes@ == old(self)@.data.subrange(old(self)@.at, old(self)@.at + n)
                    &&& final(self)@ == old(self)@.after(n as int)
                },
                Err(e) => {
                    &&& n > old(self)@.left()
                    &&& e@ == old(self)@.shortage(n as int)
                    &&& final(self)@ == old(self)@
                },
            },
    {
        if n > self.data.len() - self.at {
            return Err(self.shortage(n));
        }
        let bytes: Vec<u8> = slice_to_vec(
            slice_subrange(self.data.as_slice(), self.at, self.at + n),
        );
        self.at = self.at + n;
        Ok(bytes)
    }

    /// Pass over `n` bytes. A stream that ends before is passed over by whole chunks; one of which
    /// more is to come stays where it is.
    pub fn skip(&mut self, n: usize) -> (r: Result<()>)
        requires
            old(self).wf(),
        ensures
            final(self).wf(),
            match r {
                Ok(_) => {
                    &&& n <= old(self)@.left()
                    &&& final(self)@ == old(self)@.after(n as int)
                },
                Err(e) => {
                    &&& n > old(self)@.left()
                    &&& e@ == old(self)@.shortage(n as int)
                    &&& final(self)@ == (if old(self)@.open {
                        old(self)@
                    } else {
                        old(self)@.after(whole_chunks(old(self)@.left()))
                    })
                },
            },
    {
        let left: usize = self.data.len() - self.at;
        if n > left {
            let e = self.shortage(n);
            if !self.open {
                self.at = self.at + (left - left % SKIP_CHUNK);
            }
            return Err(e);
        }
        self.at = self.at + n;
        Ok(())
    }

    pub fn u8(&mut self) -> (r: Result<u8>)
        requires
            old(self).wf(),
        ensures
            final(self).wf(),
            match r {
                Ok(byte) => {
                    &&& 1 <= old(self)@.left()
                    &&& byte == old(self)@.data[old(self)@.at]
                    &&& final(self)@ == old(self)@.after(1)
                },
                Err(e) => {
                    &&& 1 > old(self)@.left()
                    &&& e@ == old(self)@.shortage(1)
                    &&& final(self)@ == old(self)@
                },
            },
    {
        if self.data.len() == self.at {
            return Err(self.shortage(1));
        }
        let byte: u8 = self.data[self.at];
        self.at = self.at + 1;
        Ok(byte)
    }

    pub fn i32(&mut self) -> (r: Result<i32>)
        requires
            old(self).wf(),
        ensures
            final(self).wf(),
            match r {
                Ok(v) => {
                    &&& 4 <= old(self)@.left()
                    &&& v == signed32(u32_at(old(self)@.data, old(self)@.at))
                    &&& final(self)@ == old(self)@.after(4)
                },
                Err(e) => {
                    &&& 4 > old(self)@.left()
                    &&& e@ == old(self)@.shortage(4)
                    &&& final(self)@ == old(self)@
                },
            },
    {
        if self.data.len() - self.at < 4 {
            return Err(self.shortage(4));
        }
        let v: u32 = load_u32(self.data.as_slice(), self.at);
        self.at = self.at + 4;
        Ok(to_signed32(v))
    }
}

// ---------------------------------------------------------------------------------------------
// A buffer

/// A read that wants more than is left.
pub open spec fn short<T>(b: Seq<u8>, p: int, what: Seq<char>, wanted: int) -> Parsed<T> {
    bad(
        Fault::Truncated { what, wanted: wanted as nat, remaining: (b.len() - p) as nat },
        p,
    )
}

pub open spec fn take_bytes(b: Seq<u8>, p: int, n: int, what: Seq<char>) -> Parsed<Seq<u8>> {
    if b.len() - p < n {
        short(b, p, what, n)
    } else {
        good(b.subrange(p, p + n), p + n)
    }
}

pub open spec fn take_u8(b: Seq<u8>, p: int) -> Parsed<u8> {
    if b.len() - p < 1 {
        short(b, p, "u8"@, 1)
    } else {
        good(b[p], p + 1)
    }
}

pub open spec fn take_i16(b: Seq<u8>, p: int) -> Parsed<i16> {
    if b.len() - p < 2 {
        short(b, p, "i16"@, 2)
    } else {
        good(signed16(u16_at(b, p)), p + 2)
    }
}

pub open spec fn take_u16(b: Seq<u8>, p: int) -> Parsed<u16> {
    if b.len() - p < 2 {
        short(b, p, "u16"@, 2)
    } else {
        good(u16_at(b, p), p + 2)
    }
}

pub open spec fn take_i32(b: Seq<u8>, p: int) -> Parsed<i32> {
    if b.len() - p < 4 {
        short(b, p, "i32"@, 4)
    } else {
        good(signed32(u32_at(b, p)), p + 4)
    }
}

/// An unsigned read reports itself under the signed type's name.
pub open spec fn take_u32(b: Seq<u8>, p: int) -> Parsed<u32> {
    if b.len() - p < 4 {
        short(b, p, "i32"@, 4)
    } else {
        good(u32_at(b, p), p + 4)
    }
}

pub open spec fn take_i64(b: Seq<u8>, p: int) -> Parsed<i64> {
    if b.len() - p < 8 {
        short(b, p, "i64"@, 8)
    } else {
        good(signed64(u64_at(b, p)), p + 8)
    }
}

/// An unsigned read reports itself under the signed type's name.
pub open spec fn take_u64(b: Seq<u8>, p: int) -> Parsed<u64> {
    if b.len() - p < 8 {
        short(b, p, "i64"@, 8)
    } else {
        good(u64_at(b, p), p + 8)
    }
}

/// An unsigned LEB128 number of at most `groups` bytes: seven bits per byte, the lowest first, the
/// high bit set on every byte but the last.
pub open spec fn take_leb(b: Seq<u8>, p: int, groups: nat) -> Parsed<nat>
    decreases groups,
{
    if groups == 0 {
        bad(Fault::MalformedVarint, p)
    } else if b.len() - p < 1 {
        short(b, p, "u8"@, 1)
    } else if b[p] < 0x80 {
        good(b[p] as nat, p + 1)
    } else {
        let rest = take_leb(b, p + 1, (groups - 1) as nat);
        match rest.result {
            Ok(v) => good((b[p] - 0x80 + 0x80 * v) as nat, rest.pos),
            Err(f) => bad(f, rest.pos),
        }
    }
}

/// How many seven-bit groups start below a shift of `max_shift`.
pub open spec fn leb_groups(max_shift: u32) -> nat {
    ((max_shift + 6) / 7) as nat
}

pub open spec fn take_varuint(b: Seq<u8>, p: int, max_shift: u32) -> Parsed<u64> {
    let leb = take_leb(b, p, leb_groups(max_shift));
    match leb.result {
        Ok(v) => good((v % 0x1_0000_0000_0000_0000) as u64, leb.pos),
        Err(f) => bad(f, leb.pos),
    }
}

pub open spec fn take_varuint32(b: Seq<u8>, p: int) -> Parsed<u32> {
    let leb = take_leb(b, p, 5);
    match leb.result {
        Ok(v) => good((v % 0x1_0000_0000) as u32, leb.pos),
        Err(f) => bad(f, leb.pos),
    }
}

pub open spec fn take_varuint64(b: Seq<u8>, p: int) -> Parsed<u64> {
    take_varuint(b, p, 70)
}

/// UTF-16 units up to the zero unit that ends them.
pub open spec fn take_units(b: Seq<u8>, p: int) -> Parsed<Seq<u16>>
    decreases b.len() - p,
{
    if b.len() - p < 2 {
        short(b, p, "u16"@, 2)
    } else if u16_at(b, p) == 0 {
        good(Seq::empty(), p + 2)
    } else {
        let rest = take_units(b, p + 2);
        match rest.result {
            Ok(units) => good(seq![u16_at(b, p)] + units, rest.pos),
            Err(f) => bad(f, rest.pos),
        }
    }
}

pub open spec fn take_utf16_nul_string(b: Seq<u8>, p: int) -> Parsed<Seq<char>> {
    let units = take_units(b, p);
    match units.result {
        Ok(u) => good(text_of_utf16(u, 0), units.pos),
        Err(f) => bad(f, units.pos),
    }
}

/// A buffer and how far into it reading has come.
pub struct Cursor {
    pub bytes: Seq<u8>,
    pub pos: int,
}

impl Cursor {
    pub open spec fn moved_to(self, pos: int) -> Cursor {
        Cursor { bytes: self.bytes, pos }
    }
}

/// Parses an in-memory buffer: a block's contents, or one event's payload.
pub struct Reader<'a> {
    buf: &'a [u8],
    pos: usize,
}

impl<'a> Reader<'a> {
    pub closed spec fn view(&self) -> Cursor {
        Cursor { bytes: self.buf@, pos: self.pos as int }
    }

    pub open spec fn wf(&self) -> bool {
        0 <= self@.pos <= self@.bytes.len() <= usize::MAX
    }

    pub fn new(buf: &'a [u8]) -> (r: Self)
        ensures
            r.wf(),
            r@ == (Cursor { bytes: buf@, pos: 0 }),
    {
        assert(buf.len() <= usize::MAX);
        Reader { buf, pos: 0 }
    }

    pub fn remaining(&self) -> (n: usize)
        requires
            self.wf(),
        ensures
            n == self@.bytes.len() - self@.pos,
    {
        self.buf.len() - self.pos
    }

    pub fn is_empty(&self) -> (empty: bool)
        requires
            self.wf(),
        ensures
            empty == (self@.pos == self@.bytes.len()),
    {
        self.remaining() == 0
    }

    pub fn position(&self) -> (pos: usize)
        ensures
            pos == self@.pos,
    {
        self.pos
    }

    pub fn bytes(&mut self, n: usize, what: &'static str) -> (r: Result<&'a [u8]>)
        requires
            old(self).wf(),
        ensures
            final(self).wf(),
            ({
                let want = take_bytes(old(self)@.bytes, old(self)@.pos, n as int, what@);
                &&& match (r, want.result) {
                    (Ok(slice), Ok(bytes)) => slice@ == bytes,
                    (Err(e), Err(f)) => e@ == f,
                    _ => false,
                }
                &&& final(self)@ == old(self)@.moved_to(want.pos)
            }),
    {
        if self.remaining() < n {
            return Err(ParseError::Truncated { what, wanted: n, remaining: self.remaining() });
        }
        let slice = slice_subrange(self.buf, self.pos, self.pos + n);
        self.pos = self.pos + n;
        Ok(slice)
    }

    pub fn skip(&mut self, n: usize, what: &'static str) -> (r: Result<()>)
        requires
            old(self).wf(),
        ensures
            final(self).wf(),
            ({
                let want = take_bytes(old(self)@.bytes, old(self)@.pos, n as int, what@);
                &&& match (r, want.result) {
                    (Ok(_), Ok(_)) => true,
                    (Err(e), Err(f)) => e@ == f,
                    _ => false,
                }
                &&& final(self)@ == old(self)@.moved_to(want.pos)
            }),
    {
        match self.bytes(n, what) {
            Ok(_) => Ok(()),
            Err(e) => Err(e),
        }
    }

    pub fn u8(&mut self) -> (r: Result<u8>)
        requires
            old(self).wf(),
        ensures
            final(self).wf(),
            ({
                let want = take_u8(old(self)@.bytes, old(self)@.pos);
                says(r, want.result) && final(self)@ == old(self)@.moved_to(want.pos)
            }),
    {
        let b = self.bytes(1, "u8")?;
        Ok(b[0])
    }

    pub fn i16(&mut self) -> (r: Result<i16>)
        requires
            old(self).wf(),
        ensures
            final(self).wf(),
            ({
                let want = take_i16(old(self)@.bytes, old(self)@.pos);
                says(r, want.result) && final(self)@ == old(self)@.moved_to(want.pos)
            }),
    {
        let b = self.bytes(2, "i16")?;
        Ok(to_signed16(load_u16(b, 0)))
    }

    pub fn u16(&mut self) -> (r: Result<u16>)
        requires
            old(self).wf(),
        ensures
            final(self).wf(),
            ({
                let want = take_u16(old(self)@.bytes, old(self)@.pos);
                says(r, want.result) && final(self)@ == old(self)@.moved_to(want.pos)
            }),
    {
        let b = self.bytes(2, "u16")?;
        Ok(load_u16(b, 0))
    }

    pub fn i32(&mut self) -> (r: Result<i32>)
        requires
            old(self).wf(),
        ensures
            final(self).wf(),
            ({
                let want = take_i32(old(self)@.bytes, old(self)@.pos);
                says(r, want.result) && final(self)@ == old(self)@.moved_to(want.pos)
            }),
    {
        Ok(to_signed32(self.u32()?))
    }

    pub fn u32(&mut self) -> (r: Result<u32>)
        requires
            old(self).wf(),
        ensures
            final(self).wf(),
            ({
                let want = take_u32(old(self)@.bytes, old(self)@.pos);
                says(r, want.result) && final(self)@ == old(self)@.moved_to(want.pos)
            }),
    {
        let b = self.bytes(4, "i32")?;
        Ok(load_u32(b, 0))
    }

    pub fn i64(&mut self) -> (r: Result<i64>)
        requires
            old(self).wf(),
        ensures
            final(self).wf(),
            ({
                let want = take_i64(old(self)@.bytes, old(self)@.pos);
                says(r, want.result) && final(self)@ == old(self)@.moved_to(want.pos)
            }),
    {
        Ok(to_signed64(self.u64()?))
    }

    pub fn u64(&mut self) -> (r: Result<u64>)
        requires
            old(self).wf(),
        ensures
            final(self).wf(),
            ({
                let want = take_u64(old(self)@.bytes, old(self)@.pos);
                says(r, want.result) && final(self)@ == old(self)@.moved_to(want.pos)
            }),
    {
        let b = self.bytes(8, "i64")?;
        Ok(load_u64(b, 0))
    }

    /// Unsigned LEB128. There is no sign encoding and no zigzag in nettrace V4/V5.
    pub fn varuint(&mut self, max_shift: u32) -> (r: Result<u64>)
        requires
            old(self).wf(),
            max_shift <= 70,
        ensures
            final(self).wf(),
            ({
                let want = take_varuint(old(self)@.bytes, old(self)@.pos, max_shift);
                says(r, want.result) && final(self)@ == old(self)@.moved_to(want.pos)
            }),
    {
        let ghost b = self@.bytes;
        let ghost start = self@.pos;
        let ghost groups = leb_groups(max_shift);
        let mut value: u128 = 0;
        let mut unit: u128 = 1;
        let mut shift: u32 = 0;
        loop
            invariant
                self.wf(),
                self@.bytes == b,
                b == old(self)@.bytes,
                start == old(self)@.pos,
                max_shift <= 70,
                groups == leb_groups(max_shift),
                shift % 7 == 0,
                shift <= 70,
                shift / 7 <= groups,
                value < unit,
                1 <= unit,
                unit * leb_unit((10 - shift / 7) as nat) == leb_unit(10),
                ({
                    let whole = take_leb(b, start, groups);
                    let rest = take_leb(b, self@.pos, (groups - shift / 7) as nat);
                    &&& whole.pos == rest.pos
                    &&& match rest.result {
                        Ok(v) => whole.result == Ok::<nat, Fault>((value + unit * v) as nat),
                        Err(f) => whole.result == Err::<nat, Fault>(f),
                    }
                }),
            decreases 70 - shift,
        {
            if shift >= max_shift {
                return Err(ParseError::MalformedVarint);
            }
            let ghost p = self@.pos;
            let byte: u8 = self.u8()?;
            let low: u8 = byte % 0x80;
            proof {
                leb_unit_fits(unit as nat, (10 - shift / 7) as nat);
                assert(low * unit <= 0x7F * unit) by (nonlinear_arith)
                    requires
                        low <= 0x7F,
                        1 <= unit,
                ;
                assert(unit * low == low * unit) by (nonlinear_arith);
                if byte >= 0x80 {
                    leb_step(b, p, (groups - shift / 7) as nat, value as nat, unit as nat);
                    leb_unit_step(unit as nat, (10 - shift / 7) as nat);
                }
            }
            value = value + low as u128 * unit;
            if byte < 0x80 {
                return Ok((value % 0x1_0000_0000_0000_0000) as u64);
            }
            unit = unit * 0x80;
            shift += 7;
        }
    }

    pub fn varuint32(&mut self) -> (r: Result<u32>)
        requires
            old(self).wf(),
        ensures
            final(self).wf(),
            ({
                let want = take_varuint32(old(self)@.bytes, old(self)@.pos);
                says(r, want.result) && final(self)@ == old(self)@.moved_to(want.pos)
            }),
    {
        let ghost leb = take_leb(self@.bytes, self@.pos, 5);
        let v: u64 = self.varuint(35)?;
        proof {
            if let Ok(whole) = leb.result {
                lemma_mod_mod(whole as int, 0x1_0000_0000, 0x1_0000_0000);
            }
        }
        Ok((v % 0x1_0000_0000) as u32)
    }

    pub fn varuint64(&mut self) -> (r: Result<u64>)
        requires
            old(self).wf(),
        ensures
            final(self).wf(),
            ({
                let want = take_varuint64(old(self)@.bytes, old(self)@.pos);
                says(r, want.result) && final(self)@ == old(self)@.moved_to(want.pos)
            }),
    {
        self.varuint(70)
    }

    /// UTF-16LE terminated by a 0x0000 code unit, with no length prefix. This is how strings
    /// appear inside metadata records and event payloads.
    pub fn utf16_nul_string(&mut self) -> (r: Result<String>)
        requires
            old(self).wf(),
        ensures
            final(self).wf(),
            ({
                let want = take_utf16_nul_string(old(self)@.bytes, old(self)@.pos);
                says(r, want.result) && final(self)@ == old(self)@.moved_to(want.pos)
            }),
    {
        let ghost b = self@.bytes;
        let ghost start = self@.pos;
        let mut units: Vec<u16> = Vec::new();
        loop
            invariant
                self.wf(),
                self@.bytes == b,
                b == old(self)@.bytes,
                start == old(self)@.pos,
                ({
                    let whole = take_units(b, start);
                    let rest = take_units(b, self@.pos);
                    &&& whole.pos == rest.pos
                    &&& match rest.result {
                        Ok(v) => whole.result == Ok::<Seq<u16>, Fault>(units@ + v),
                        Err(f) => whole.result == Err::<Seq<u16>, Fault>(f),
                    }
                }),
            decreases b.len() - self@.pos,
        {
            let ghost p = self@.pos;
            let ghost before = units@;
            let unit: u16 = self.u16()?;
            if unit == 0 {
                assert(units@ + Seq::<u16>::empty() =~= units@);
                return Ok(decode_utf16(units.as_slice()));
            }
            units.push(unit);
            proof {
                let rest = take_units(b, self@.pos);
                if let Ok(v) = rest.result {
                    assert(before + (seq![unit] + v) =~= units@ + v);
                }
            }
        }
    }
}

/// A number in LEB128: seven bits per byte, the lowest first.
pub open spec fn leb_bytes(v: nat) -> Seq<u8>
    decreases v,
{
    if v < 0x80 {
        seq![v as u8]
    } else {
        seq![(0x80 + v % 0x80) as u8] + leb_bytes(v / 0x80)
    }
}

/// The bytes of a text as metadata records and payloads hold it: its UTF-16 units and a zero unit.
pub open spec fn wide_bytes(units: Seq<u16>) -> Seq<u8>
    decreases units.len(),
{
    if units.len() == 0 {
        u16_bytes(0)
    } else {
        u16_bytes(units[0]) + wide_bytes(units.skip(1))
    }
}

/// A 64-bit number written as a varint reads back as itself, and nothing after it is consumed.
pub proof fn varint_round_trip(front: Seq<u8>, v: u64, back: Seq<u8>)
    ensures
        take_varuint64(front + leb_bytes(v as nat) + back, front.len() as int) == good(
            v,
            (front.len() + leb_bytes(v as nat).len()) as int,
        ),
{
    reveal_with_fuel(leb_unit, 11);
    assert(leb_unit(10) > v);
    leb_round_trip(front, v as nat, back, 10);
}

/// A 32-bit number written as a varint reads back as itself, and nothing after it is consumed.
pub proof fn varint32_round_trip(front: Seq<u8>, v: u32, back: Seq<u8>)
    ensures
        take_varuint32(front + leb_bytes(v as nat) + back, front.len() as int) == good(
            v,
            (front.len() + leb_bytes(v as nat).len()) as int,
        ),
{
    reveal_with_fuel(leb_unit, 6);
    assert(leb_unit(5) > v);
    leb_round_trip(front, v as nat, back, 5);
}

proof fn leb_round_trip(front: Seq<u8>, v: nat, back: Seq<u8>, groups: nat)
    requires
        groups >= 1,
        v < leb_unit(groups),
    ensures
        take_leb(front + leb_bytes(v) + back, front.len() as int, groups) == good(
            v,
            (front.len() + leb_bytes(v).len()) as int,
        ),
    decreases v,
{
    reveal_with_fuel(leb_unit, 2);
    let all = front + leb_bytes(v) + back;
    let p = front.len() as int;
    assert(all[p] == leb_bytes(v)[0]);
    if v >= 0x80 {
        let head = (0x80 + v % 0x80) as u8;
        assert(all =~= front.push(head) + leb_bytes(v / 0x80) + back);
        leb_round_trip(front.push(head), v / 0x80, back, (groups - 1) as nat);
    }
}

/// A text without zero characters that is written out reads back as itself, and nothing after its
/// terminator is consumed.
pub proof fn utf16_nul_round_trip(front: Seq<u8>, s: Seq<char>, back: Seq<u8>)
    requires
        !s.contains('\0'),
    ensures
        take_utf16_nul_string(front + wide_bytes(utf16_of(s)) + back, front.len() as int) == good(
            s,
            (front.len() + wide_bytes(utf16_of(s)).len()) as int,
        ),
{
    utf16_has_no_zero(s);
    units_round_trip(front, utf16_of(s), back);
    utf16_round_trip(s);
}

proof fn utf16_has_no_zero(s: Seq<char>)
    requires
        !s.contains('\0'),
    ensures
        forall|i: int| 0 <= i < utf16_of(s).len() ==> utf16_of(s)[i] != 0,
    decreases s.len(),
{
    if s.len() > 0 {
        let rest = s.skip(1);
        assert(s[0] != '\0') by {
            assert(s.contains(s[0]));
        }
        assert forall|c: char| rest.contains(c) implies s.contains(c) by {
            let i = choose|i: int| 0 <= i < rest.len() && rest[i] == c;
            assert(s[i + 1] == c);
        }
        utf16_has_no_zero(rest);
        char_is_scalar(s[0]);
        char_u32_cast(s[0], s[0] as u32);
        assert(utf16_of(s) == utf16_of_char(s[0]) + utf16_of(rest));
        assert(utf16_of_char(s[0])[0] != 0);
    }
}

proof fn units_round_trip(front: Seq<u8>, units: Seq<u16>, back: Seq<u8>)
    requires
        forall|i: int| 0 <= i < units.len() ==> units[i] != 0,
    ensures
        take_units(front + wide_bytes(units) + back, front.len() as int) == good(
            units,
            (front.len() + wide_bytes(units).len()) as int,
        ),
    decreases units.len(),
{
    let all = front + wide_bytes(units) + back;
    if units.len() == 0 {
        u16_round_trip(front, 0, back);
        assert(units =~= Seq::<u16>::empty());
    } else {
        let rest = wide_bytes(units.skip(1));
        u16_round_trip(front, units[0], rest + back);
        assert(all =~= front + u16_bytes(units[0]) + (rest + back));
        assert(all =~= (front + u16_bytes(units[0])) + rest + back);
        units_round_trip(front + u16_bytes(units[0]), units.skip(1), back);
        assert(seq![units[0]] + units.skip(1) =~= units);
    }
}

/// `0x80` to the power of `k`.
spec fn leb_unit(k: nat) -> nat
    decreases k,
{
    if k == 0 {
        1
    } else {
        0x80 * leb_unit((k - 1) as nat)
    }
}

proof fn leb_unit_positive(k: nat)
    ensures
        leb_unit(k) >= 1,
    decreases k,
{
    if k > 0 {
        leb_unit_positive((k - 1) as nat);
    }
}

proof fn leb_unit_fits(unit: nat, k: nat)
    requires
        unit * leb_unit(k) == leb_unit(10),
    ensures
        unit <= 0x40_0000_0000_0000_0000,
{
    reveal_with_fuel(leb_unit, 11);
    assert(leb_unit(10) == 0x40_0000_0000_0000_0000);
    leb_unit_positive(k);
    assert(unit <= unit * leb_unit(k)) by (nonlinear_arith)
        requires
            leb_unit(k) >= 1,
    ;
}

proof fn leb_unit_step(unit: nat, k: nat)
    requires
        k >= 1,
        unit * leb_unit(k) == leb_unit(10),
    ensures
        (unit * 0x80) * leb_unit((k - 1) as nat) == leb_unit(10),
{
    let l = leb_unit((k - 1) as nat);
    assert((unit * 0x80) * l == unit * (0x80 * l)) by (nonlinear_arith);
}

/// Moving one group from the rest of a number into what has been read of it.
proof fn leb_step(b: Seq<u8>, p: int, groups: nat, value: nat, unit: nat)
    requires
        groups > 0,
        b.len() - p >= 1,
        b[p] >= 0x80,
    ensures
        ({
            let here = take_leb(b, p, groups);
            let rest = take_leb(b, p + 1, (groups - 1) as nat);
            match rest.result {
                Ok(v) => here.result is Ok && value + unit * here.result->Ok_0 == (value + (b[p]
                    % 0x80) * unit) + (unit * 0x80) * v,
                Err(_) => true,
            }
        }),
{
    let rest = take_leb(b, p + 1, (groups - 1) as nat);
    if let Ok(v) = rest.result {
        let low = b[p] - 0x80;
        assert(unit * (low + 0x80 * v) == low * unit + (unit * 0x80) * v) by (nonlinear_arith);
    }
}

/// A varint holds seven bits to a byte, the lowest first, and the high bit of a byte says that more
/// follow.
pub proof fn varints_go_up_by_sevens(b: Seq<u8>, p: int)
    requires
        0 <= p < b.len(),
    ensures
        b[p] < 0x80 ==> take_varuint64(b, p) == good(b[p] as u64, p + 1),
        b[p] < 0x80 ==> take_varuint32(b, p) == good(b[p] as u32, p + 1),
        b[p] >= 0x80 && p + 1 < b.len() && b[p + 1] < 0x80 ==> take_varuint64(b, p) == good(
            (b[p] - 0x80 + 0x80 * b[p + 1]) as u64,
            p + 2,
        ),
        b[p] >= 0x80 && p + 1 < b.len() && b[p + 1] < 0x80 ==> take_varuint32(b, p) == good(
            (b[p] - 0x80 + 0x80 * b[p + 1]) as u32,
            p + 2,
        ),
{
    reveal_with_fuel(take_leb, 3);
}

/// A varint of thirty-two bits takes five bytes at most and one of sixty-four bits ten: where more
/// would follow it is malformed. Bits beyond the last are dropped.
pub proof fn varints_end(b: Seq<u8>, p: int, front: Seq<u8>, v: u64, back: Seq<u8>)
    requires
        0 <= p,
        p + 10 <= b.len(),
    ensures
        (forall|i: int| p <= i < p + 5 ==> #[trigger] b[i] >= 0x80) ==> take_varuint32(b, p).result
            == Err::<u32, _>(Fault::MalformedVarint),
        (forall|i: int| p <= i < p + 10 ==> #[trigger] b[i] >= 0x80) ==> take_varuint64(
            b,
            p,
        ).result == Err::<u64, _>(Fault::MalformedVarint),
        v < 0x8_0000_0000 ==> take_varuint32(
            front + leb_bytes(v as nat) + back,
            front.len() as int,
        ).result == Ok::<u32, Fault>((v % 0x1_0000_0000) as u32),
{
    if forall|i: int| p <= i < p + 5 ==> #[trigger] b[i] >= 0x80 {
        endless_groups(b, p, 5);
    }
    if forall|i: int| p <= i < p + 10 ==> #[trigger] b[i] >= 0x80 {
        endless_groups(b, p, 10);
    }
    if v < 0x8_0000_0000 {
        reveal_with_fuel(leb_unit, 6);
        assert(leb_unit(5) == 0x8_0000_0000);
        leb_round_trip(front, v as nat, back, 5);
    }
}

proof fn endless_groups(b: Seq<u8>, p: int, groups: nat)
    requires
        0 <= p,
        p + groups <= b.len(),
        forall|i: int| p <= i < p + groups ==> #[trigger] b[i] >= 0x80,
    ensures
        take_leb(b, p, groups).result == Err::<nat, _>(Fault::MalformedVarint),
    decreases groups,
{
    if groups > 0 {
        assert(b[p] >= 0x80);
        endless_groups(b, p + 1, (groups - 1) as nat);
    }
}

/// A read that wants more than is left says what it wanted and how much was there, and takes
/// nothing.
pub proof fn short_reads_take_nothing(b: Seq<u8>, p: int, n: int, what: Seq<char>)
    requires
        0 <= p <= b.len(),
        0 <= n,
    ensures
        p + n <= b.len() ==> take_bytes(b, p, n, what) == good(b.subrange(p, p + n), p + n),
        p + n > b.len() ==> take_bytes(b, p, n, what) == bad::<Seq<u8>>(
            Fault::Truncated { what, wanted: n as nat, remaining: (b.len() - p) as nat },
            p,
        ),
{
}

} // verus!
