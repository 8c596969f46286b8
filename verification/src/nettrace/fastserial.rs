//! The FastSerialization envelope that nettrace V4 wraps its blocks in.
use vstd::prelude::*;

use super::reader::{Fault, ParseError, Result, Stream, StreamReader};
use crate::bytes::{same_bytes, signed32, u32_at};
use crate::text::{
    from_utf8_lossy, hex_byte, signed_decimal, to_decimal, to_hex_byte, utf8_lossy,
};

pub mod tag;

verus! {

/// `Nettrace`
pub const NETTRACE_MAGIC: &'static [u8; 8] = &[78, 101, 116, 116, 114, 97, 99, 101];

/// `!FastSerialization.1`
pub const SERIALIZER_HEADER: &'static [u8; 20] = &[
    33, 70, 97, 115, 116, 83, 101, 114, 105, 97, 108, 105, 122, 97, 116, 105, 111, 110, 46, 49,
];

/// The longest type name an object may have.
pub const MAX_TYPE_NAME: i32 = 1024;

#[derive(Debug, Clone)]
pub struct ObjectHeader {
    pub object_type: String,
    pub version: i32,
    pub min_reader_version: i32,
}

/// An [`ObjectHeader`] with its name as characters.
pub struct ObjectModel {
    pub object_type: Seq<char>,
    pub version: i32,
    pub min_reader_version: i32,
}

impl View for ObjectHeader {
    type V = ObjectModel;

    open spec fn view(&self) -> ObjectModel {
        ObjectModel {
            object_type: self.object_type@,
            version: self.version,
            min_reader_version: self.min_reader_version,
        }
    }
}

/// What reading from a stream gives: a value or a fault, and the stream afterwards.
pub struct Taken<T> {
    pub result: core::result::Result<T, Fault>,
    pub stream: Stream,
}

pub open spec fn got<T>(value: T, stream: Stream) -> Taken<T> {
    Taken { result: Ok(value), stream }
}

pub open spec fn failed<T>(fault: Fault, stream: Stream) -> Taken<T> {
    Taken { result: Err(fault), stream }
}

pub open spec fn stream_bytes(s: Stream, n: int) -> Taken<Seq<u8>> {
    if n <= s.left() {
        got(s.data.subrange(s.at, s.at + n), s.after(n))
    } else {
        failed(s.shortage(n), s)
    }
}

pub open spec fn stream_u8(s: Stream) -> Taken<u8> {
    if 1 <= s.left() {
        got(s.data[s.at], s.after(1))
    } else {
        failed(s.shortage(1), s)
    }
}

pub open spec fn stream_i32(s: Stream) -> Taken<i32> {
    if 4 <= s.left() {
        got(signed32(u32_at(s.data, s.at)), s.after(4))
    } else {
        failed(s.shortage(4), s)
    }
}

/// A byte that has to be `expected`.
pub open spec fn stream_tag(s: Stream, expected: u8, what: Seq<char>) -> Taken<()> {
    let tag = stream_u8(s);
    match tag.result {
        Err(f) => failed(f, tag.stream),
        Ok(b) => if b == expected {
            got((), tag.stream)
        } else {
            failed(Fault::Unexpected { what, got: hex_byte(b) }, tag.stream)
        },
    }
}

/// The preamble: a magic, a length, and the serializer's name.
pub open spec fn stream_preamble(s: Stream) -> Taken<()> {
    let magic = stream_bytes(s, 8);
    match magic.result {
        Err(f) => failed(f, magic.stream),
        Ok(m) => if m != NETTRACE_MAGIC@ {
            failed(
                Fault::Unexpected { what: "stream magic"@, got: utf8_lossy(m) },
                magic.stream,
            )
        } else {
            let len = stream_i32(magic.stream);
            match len.result {
                Err(f) => failed(f, len.stream),
                Ok(n) => if n != 20 {
                    failed(
                        Fault::Unexpected {
                            what: "serializer header length"@,
                            got: signed_decimal(n as int),
                        },
                        len.stream,
                    )
                } else {
                    let header = stream_bytes(len.stream, 20);
                    match header.result {
                        Err(f) => failed(f, header.stream),
                        Ok(h) => if h != SERIALIZER_HEADER@ {
                            failed(
                                Fault::Unexpected {
                                    what: "serializer header"@,
                                    got: utf8_lossy(h),
                                },
                                header.stream,
                            )
                        } else {
                            got((), header.stream)
                        },
                    }
                },
            }
        },
    }
}

/// What introduces an object, behind the tag that announces it.
pub open spec fn stream_object_type(s: Stream) -> Taken<ObjectModel> {
    let begin = stream_tag(s, tag::BEGIN_PRIVATE_OBJECT, "serialization type tag"@);
    let null = stream_tag(begin.stream, tag::NULL_REFERENCE, "serialization type's type tag"@);
    let version = stream_i32(null.stream);
    let min_reader = stream_i32(version.stream);
    let len = stream_i32(min_reader.stream);
    if let Err(f) = begin.result {
        failed(f, begin.stream)
    } else if let Err(f) = null.result {
        failed(f, null.stream)
    } else if let Err(f) = version.result {
        failed(f, version.stream)
    } else if let Err(f) = min_reader.result {
        failed(f, min_reader.stream)
    } else if let Err(f) = len.result {
        failed(f, len.stream)
    } else if !(0 <= len.result->Ok_0 <= MAX_TYPE_NAME) {
        failed(
            Fault::Unexpected {
                what: "type name length"@,
                got: signed_decimal(len.result->Ok_0 as int),
            },
            len.stream,
        )
    } else {
        let name = stream_bytes(len.stream, len.result->Ok_0 as int);
        let end = stream_tag(name.stream, tag::END_OBJECT, "end of serialization type"@);
        if let Err(f) = name.result {
            failed(f, name.stream)
        } else if let Err(f) = end.result {
            failed(f, end.stream)
        } else {
            got(
                ObjectModel {
                    object_type: utf8_lossy(name.result->Ok_0),
                    version: version.result->Ok_0,
                    min_reader_version: min_reader.result->Ok_0,
                },
                end.stream,
            )
        }
    }
}

/// The header of the next object, or `None` at the tag that ends the stream.
pub open spec fn stream_object_header(s: Stream) -> Taken<Option<ObjectModel>> {
    let first = stream_u8(s);
    match first.result {
        Err(f) => failed(f, first.stream),
        Ok(b) => if b == tag::NULL_REFERENCE {
            got(None, first.stream)
        } else if b != tag::BEGIN_PRIVATE_OBJECT {
            failed(Fault::Unexpected { what: "object tag"@, got: hex_byte(b) }, first.stream)
        } else {
            let object = stream_object_type(first.stream);
            match object.result {
                Err(f) => failed(f, object.stream),
                Ok(o) => got(Some(o), object.stream),
            }
        },
    }
}

/// Whether a call that returns nothing ended as the model of the read says.
pub open spec fn done_as(done: Result<()>, want: core::result::Result<(), Fault>) -> bool {
    match (done, want) {
        (Ok(_), Ok(_)) => true,
        (Err(e), Err(f)) => e@ == f,
        _ => false,
    }
}

/// Read and validate the 32-byte stream preamble.
pub fn read_preamble(r: &mut StreamReader) -> (done: Result<()>)
    requires
        old(r).wf(),
    ensures
        final(r).wf(),
        done_as(done, stream_preamble(old(r)@).result),
        final(r)@ == stream_preamble(old(r)@).stream,
{
    let magic = r.read_exact_bytes(8)?;
    if !same_bytes(magic.as_slice(), NETTRACE_MAGIC) {
        return Err(
            ParseError::Unexpected {
                what: "stream magic",
                got: from_utf8_lossy(magic.as_slice()),
            },
        );
    }
    let len: i32 = r.i32()?;
    if len != 20 {
        return Err(
            ParseError::Unexpected {
                what: "serializer header length",
                got: to_decimal(len as i64),
            },
        );
    }
    let header = r.read_exact_bytes(20)?;
    if !same_bytes(header.as_slice(), SERIALIZER_HEADER) {
        return Err(
            ParseError::Unexpected {
                what: "serializer header",
                got: from_utf8_lossy(header.as_slice()),
            },
        );
    }
    Ok(())
}

/// Read the header introducing the next object, or `None` at end of stream.
///
/// End of stream is a bare NullReference tag where an object would begin.
pub fn read_object_header(r: &mut StreamReader) -> (header: Result<Option<ObjectHeader>>)
    requires
        old(r).wf(),
    ensures
        final(r).wf(),
        match (header, stream_object_header(old(r)@).result) {
            (Ok(Some(h)), Ok(Some(m))) => h@ == m,
            (Ok(None), Ok(None)) => true,
            (Err(e), Err(f)) => e@ == f,
            _ => false,
        },
        final(r)@ == stream_object_header(old(r)@).stream,
{
    let first: u8 = r.u8()?;
    if first == tag::NULL_REFERENCE {
        return Ok(None);
    }
    if first != tag::BEGIN_PRIVATE_OBJECT {
        return Err(ParseError::Unexpected { what: "object tag", got: to_hex_byte(first) });
    }
    // The object's type is itself a serialized object, whose own type is null by convention.
    expect_tag(r, tag::BEGIN_PRIVATE_OBJECT, "serialization type tag")?;
    expect_tag(r, tag::NULL_REFERENCE, "serialization type's type tag")?;

    let version: i32 = r.i32()?;
    let min_reader_version: i32 = r.i32()?;
    let name_len: i32 = r.i32()?;
    if name_len < 0 || name_len > MAX_TYPE_NAME {
        return Err(
            ParseError::Unexpected { what: "type name length", got: to_decimal(name_len as i64) },
        );
    }
    // The type name is UTF-8 and is *not* NUL-terminated.
    let name_bytes = r.read_exact_bytes(name_len as usize)?;
    let object_type = from_utf8_lossy(name_bytes.as_slice());

    expect_tag(r, tag::END_OBJECT, "end of serialization type")?;

    Ok(Some(ObjectHeader { object_type, version, min_reader_version }))
}

pub fn expect_tag(r: &mut StreamReader, expected: u8, what: &'static str) -> (done: Result<()>)
    requires
        old(r).wf(),
    ensures
        final(r).wf(),
        done_as(done, stream_tag(old(r)@, expected, what@).result),
        final(r)@ == stream_tag(old(r)@, expected, what@).stream,
{
    let got: u8 = r.u8()?;
    if got != expected {
        return Err(ParseError::Unexpected { what, got: to_hex_byte(got) });
    }
    Ok(())
}

} // verus!
