//! Diagnostics IPC message framing: a fixed 20-byte header followed by a command payload.
//!
//! All reads are exact-length. This matters more than it looks: after a `CollectTracing`
//! response the *same* socket carries the raw nettrace stream, so a reader that over-reads
//! swallows the `Nettrace` magic and corrupts the parse.
use vstd::prelude::*;
use vstd::slice::{slice_subrange, slice_to_vec};

use crate::bytes::{
    load_u16, load_u32, same_bytes, store_bytes, store_u16, u16_at, u16_bytes, u16_round_trip,
    u32_at,
};
use crate::nettrace::fastserial::stream_bytes;
use crate::nettrace::reader::{Fault, IoError, ParseError, Stream, StreamReader};
use crate::text::{
    decimal, hex_list, push_decimal, push_hex_list, push_upper_hex, upper_hex,
};

pub mod command_set;
pub mod eventpipe;
pub mod process;
pub mod server;

verus! {

/// ASCII "DOTNET_IPC_V1" plus an explicit NUL: 13 characters + terminator = 14 bytes.
pub const MAGIC: &'static [u8; 14] = &[
    68, 79, 84, 78, 69, 84, 95, 73, 80, 67, 95, 86, 49, 0,
];

pub const HEADER_SIZE: u16 = 20;

pub const UNKNOWN_COMMAND: u32 = 0x8013_1385;

#[derive(Debug, Clone, PartialEq, Eq)]
pub enum IpcError {
    Io(IoError),
    /// The message has not arrived in full. Nothing was consumed: the same read succeeds once
    /// more bytes have arrived, of which at least `missing` are known to be needed.
    Incomplete { missing: usize },
    BadMagic(Vec<u8>),
    /// `size` field claimed fewer bytes than the header itself occupies.
    ShortMessage(u16),
    /// A single IPC message is capped at 65535 bytes by the u16 size field.
    PayloadTooLarge(usize),
    /// The server replied with an error and closed the connection.
    Server(u32),
    /// An unexpected command set/id combination came back.
    UnexpectedResponse { command_set: u8, command_id: u8 },
}

/// An [`IpcError`] over sequences.
pub enum IpcFault {
    Io(Option<Seq<char>>),
    Incomplete { missing: nat },
    BadMagic(Seq<u8>),
    ShortMessage(u16),
    PayloadTooLarge(nat),
    Server(u32),
    UnexpectedResponse { command_set: u8, command_id: u8 },
}

impl View for IpcError {
    type V = IpcFault;

    open spec fn view(&self) -> IpcFault {
        match self {
            IpcError::Io(e) => IpcFault::Io(e@),
            IpcError::Incomplete { missing } => IpcFault::Incomplete { missing: *missing as nat },
            IpcError::BadMagic(got) => IpcFault::BadMagic(got@),
            IpcError::ShortMessage(size) => IpcFault::ShortMessage(*size),
            IpcError::PayloadTooLarge(len) => IpcFault::PayloadTooLarge(*len as nat),
            IpcError::Server(hresult) => IpcFault::Server(*hresult),
            IpcError::UnexpectedResponse { command_set, command_id } =>
                IpcFault::UnexpectedResponse {
                    command_set: *command_set,
                    command_id: *command_id,
                },
        }
    }
}

/// The names of the HRESULTs worth naming.
pub open spec fn name_of_hresult(hresult: u32) -> Option<Seq<char>> {
    if hresult == 0x8000_4005 {
        Some("E_FAIL"@)
    } else if hresult == 0x8007_0057 {
        Some("E_INVALIDARG"@)
    } else if hresult == 0x8007_007A {
        Some("E_INSUFFICIENT_BUFFER"@)
    } else if hresult == 0x8000_00CB {
        Some("ENVVAR_NOT_FOUND"@)
    } else if hresult == 0x8013_1371 {
        Some("RUNTIME_UNINITIALIZED"@)
    } else if hresult == 0x8013_1384 {
        Some("BAD_ENCODING"@)
    } else if hresult == 0x8013_1385 {
        Some("UNKNOWN_COMMAND"@)
    } else if hresult == 0x8013_1386 {
        Some("UNKNOWN_MAGIC"@)
    } else if hresult == 0x8013_1387 {
        Some("UNKNOWN_ERROR"@)
    } else if hresult == 0x8013_135B {
        Some("NOT_YET_AVAILABLE"@)
    } else if hresult == 0x8013_1515 {
        Some("E_NOTSUPPORTED"@)
    } else if hresult == 0x8013_136A {
        Some("PROFILER_ALREADY_ACTIVE"@)
    } else {
        None
    }
}

/// The HRESULTs worth naming. `UNKNOWN_COMMAND` means the runtime predates the command version
/// (fall back one); `BAD_ENCODING` means the payload is malformed.
pub fn hresult_name(hresult: u32) -> (name: Option<&'static str>)
    ensures
        match (name, name_of_hresult(hresult)) {
            (Some(n), Some(s)) => n@ == s,
            (None, None) => true,
            _ => false,
        },
{
    match hresult {
        0x8000_4005 => Some("E_FAIL"),
        0x8007_0057 => Some("E_INVALIDARG"),
        0x8007_007A => Some("E_INSUFFICIENT_BUFFER"),
        0x8000_00CB => Some("ENVVAR_NOT_FOUND"),
        0x8013_1371 => Some("RUNTIME_UNINITIALIZED"),
        0x8013_1384 => Some("BAD_ENCODING"),
        0x8013_1385 => Some("UNKNOWN_COMMAND"),
        0x8013_1386 => Some("UNKNOWN_MAGIC"),
        0x8013_1387 => Some("UNKNOWN_ERROR"),
        0x8013_135B => Some("NOT_YET_AVAILABLE"),
        0x8013_1515 => Some("E_NOTSUPPORTED"),
        0x8013_136A => Some("PROFILER_ALREADY_ACTIVE"),
        _ => None,
    }
}

impl IpcFault {
    /// The error in words.
    pub open spec fn words(self) -> Seq<char> {
        match self {
            IpcFault::Io(e) => "diagnostic socket I/O failed: "@ + IoError::words(e),
            IpcFault::Incomplete { missing } => "diagnostic socket is waiting for "@ + decimal(
                missing,
            ) + " more bytes"@,
            IpcFault::BadMagic(got) => "not a diagnostics endpoint (bad magic: ["@ + hex_list(
                got,
                got.len(),
            ) + "])"@,
            IpcFault::ShortMessage(size) => "malformed response: size field is "@ + decimal(
                size as nat,
            ) + ", below the 20-byte header"@,
            IpcFault::PayloadTooLarge(len) => "payload of "@ + decimal(len)
                + " bytes exceeds the 65515-byte limit imposed by the u16 size field"@,
            IpcFault::Server(hresult) => match name_of_hresult(hresult) {
                Some(name) => "runtime rejected the command: "@ + name + " (0x"@ + upper_hex(
                    hresult as nat,
                    8,
                ) + ")"@,
                None => "runtime rejected the command: 0x"@ + upper_hex(hresult as nat, 8),
            },
            IpcFault::UnexpectedResponse { command_set, command_id } =>
                "unexpected response: command_set 0x"@ + upper_hex(command_set as nat, 2)
                + ", command_id 0x"@ + upper_hex(command_id as nat, 2),
        }
    }
}

impl IpcError {
    /// The error in words, for a person to read.
    pub fn describe(&self) -> (s: String)
        ensures
            s@ == self@.words(),
    {
        match self {
            IpcError::Io(e) => {
                let mut s = "diagnostic socket I/O failed: ".to_owned();
                s.append(e.describe().as_str());
                s
            },
            IpcError::Incomplete { missing } => {
                let mut s = "diagnostic socket is waiting for ".to_owned();
                push_decimal(&mut s, *missing as u64);
                s.append(" more bytes");
                s
            },
            IpcError::BadMagic(got) => {
                let mut s = "not a diagnostics endpoint (bad magic: [".to_owned();
                push_hex_list(&mut s, got.as_slice());
                s.append("])");
                s
            },
            IpcError::ShortMessage(size) => {
                let mut s = "malformed response: size field is ".to_owned();
                push_decimal(&mut s, *size as u64);
                s.append(", below the 20-byte header");
                s
            },
            IpcError::PayloadTooLarge(len) => {
                let mut s = "payload of ".to_owned();
                push_decimal(&mut s, *len as u64);
                s.append(" bytes exceeds the 65515-byte limit imposed by the u16 size field");
                s
            },
            IpcError::Server(hresult) => match hresult_name(*hresult) {
                Some(name) => {
                    let mut s = "runtime rejected the command: ".to_owned();
                    s.append(name);
                    s.append(" (0x");
                    push_upper_hex(&mut s, *hresult, 8);
                    s.append(")");
                    s
                },
                None => {
                    let mut s = "runtime rejected the command: 0x".to_owned();
                    push_upper_hex(&mut s, *hresult, 8);
                    s
                },
            },
            IpcError::UnexpectedResponse { command_set, command_id } => {
                let mut s = "unexpected response: command_set 0x".to_owned();
                push_upper_hex(&mut s, *command_set as u32, 2);
                s.append(", command_id 0x");
                push_upper_hex(&mut s, *command_id as u32, 2);
                s
            },
        }
    }
}

/// The error that a failed read of the stream amounts to.
pub open spec fn stream_fault(f: Fault) -> IpcFault {
    match f {
        Fault::Incomplete { missing } => IpcFault::Incomplete { missing },
        Fault::Io(e) => IpcFault::Io(e),
        _ => IpcFault::Io(None),
    }
}

fn stream_error(e: ParseError) -> (r: IpcError)
    ensures
        r@ == stream_fault(e@),
{
    match e {
        ParseError::Incomplete { missing } => IpcError::Incomplete { missing },
        ParseError::Io(e) => IpcError::Io(e),
        _ => IpcError::Io(IoError::UnexpectedEof),
    }
}

/// A message in its wire form. The size covers the header *and* the payload.
pub open spec fn message_bytes(command_set: u8, command_id: u8, payload: Seq<u8>) -> Seq<u8> {
    MAGIC@ + u16_bytes((HEADER_SIZE + payload.len()) as u16) + seq![
        command_set,
        command_id,
        0u8,
        0u8,
    ] + payload
}

/// Serialise a complete message.
pub fn encode_message(
    command_set: u8,
    command_id: u8,
    payload: &[u8],
) -> (message: core::result::Result<Vec<u8>, IpcError>)
    ensures
        match message {
            Ok(bytes) => {
                &&& HEADER_SIZE + payload@.len() <= u16::MAX
                &&& bytes@ == message_bytes(command_set, command_id, payload@)
            },
            Err(e) => {
                &&& HEADER_SIZE + payload@.len() > u16::MAX
                &&& e@ == IpcFault::PayloadTooLarge(payload@.len())
            },
        },
{
    if payload.len() > 65535 - HEADER_SIZE as usize {
        return Err(IpcError::PayloadTooLarge(payload.len()));
    }
    let mut msg: Vec<u8> = Vec::new();
    store_bytes(&mut msg, MAGIC);
    store_u16(&mut msg, HEADER_SIZE + payload.len() as u16);
    msg.push(command_set);
    msg.push(command_id);
    // Reserved.
    msg.push(0);
    msg.push(0);
    store_bytes(&mut msg, payload);
    assert(msg@ =~= message_bytes(command_set, command_id, payload@));
    Ok(msg)
}

/// Append a complete message to what is to be sent.
pub fn write_message(
    out: &mut Vec<u8>,
    command_set: u8,
    command_id: u8,
    payload: &[u8],
) -> (done: core::result::Result<(), IpcError>)
    ensures
        match done {
            Ok(_) => {
                &&& HEADER_SIZE + payload@.len() <= u16::MAX
                &&& final(out)@ == old(out)@ + message_bytes(command_set, command_id, payload@)
            },
            Err(e) => {
                &&& HEADER_SIZE + payload@.len() > u16::MAX
                &&& e@ == IpcFault::PayloadTooLarge(payload@.len())
                &&& final(out)@ == old(out)@
            },
        },
{
    let msg = encode_message(command_set, command_id, payload)?;
    store_bytes(out, msg.as_slice());
    Ok(())
}

/// One message: its command set, its command id and its payload.
pub struct MessageModel {
    pub command_set: u8,
    pub command_id: u8,
    pub payload: Seq<u8>,
}

/// What reading a message from a stream gives.
pub struct Reply<T> {
    pub result: core::result::Result<T, IpcFault>,
    pub stream: Stream,
}

/// One message at the front of a stream: exactly its header, then exactly its payload.
pub open spec fn message_at(s: Stream) -> Reply<MessageModel> {
    let header = stream_bytes(s, HEADER_SIZE as int);
    match header.result {
        Err(f) => Reply { result: Err(stream_fault(f)), stream: s },
        Ok(h) => if h.take(14) != MAGIC@ {
            Reply { result: Err(IpcFault::BadMagic(h.take(14))), stream: header.stream }
        } else if u16_at(h, 14) < HEADER_SIZE {
            Reply {
                result: Err(IpcFault::ShortMessage(u16_at(h, 14))),
                stream: header.stream,
            }
        } else {
            let payload = stream_bytes(header.stream, u16_at(h, 14) - HEADER_SIZE);
            match payload.result {
                Err(f) => Reply {
                    result: Err(stream_fault(f)),
                    stream: if s.open {
                        s
                    } else {
                        header.stream
                    },
                },
                Ok(bytes) => Reply {
                    result: Ok(
                        MessageModel { command_set: h[16], command_id: h[17], payload: bytes },
                    ),
                    stream: payload.stream,
                },
            }
        },
    }
}

/// A reply that says the command succeeded. An error reply starts with a 4-byte HRESULT.
pub open spec fn response_of(m: MessageModel) -> core::result::Result<Seq<u8>, IpcFault> {
    if m.command_set == command_set::SERVER && m.command_id == server::ERROR {
        Err(
            IpcFault::Server(
                if m.payload.len() >= 4 {
                    u32_at(m.payload, 0)
                } else {
                    0
                },
            ),
        )
    } else if m.command_id != server::OK {
        Err(
            IpcFault::UnexpectedResponse {
                command_set: m.command_set,
                command_id: m.command_id,
            },
        )
    } else {
        Ok(m.payload)
    }
}

/// Read one message, returning `(command_set, command_id, payload)`.
///
/// Reads exactly `HEADER_SIZE` bytes, then exactly `size - HEADER_SIZE` more, never a byte beyond,
/// so a continuation stream on the same socket stays intact.
pub fn read_message(
    r: &mut StreamReader,
) -> (message: core::result::Result<(u8, u8, Vec<u8>), IpcError>)
    requires
        old(r).wf(),
    ensures
        final(r).wf(),
        match (message, message_at(old(r)@).result) {
            (Ok((set, id, payload)), Ok(m)) => MessageModel {
                command_set: set,
                command_id: id,
                payload: payload@,
            } == m,
            (Err(e), Err(f)) => e@ == f,
            _ => false,
        },
        final(r)@ == message_at(old(r)@).stream,
{
    let start: u64 = r.position();
    let header = match r.read_exact_bytes(HEADER_SIZE as usize) {
        Ok(h) => h,
        Err(e) => {
            return Err(stream_error(e));
        },
    };
    let magic = slice_subrange(header.as_slice(), 0, 14);
    assert(magic@ =~= header@.take(14));
    if !same_bytes(magic, MAGIC) {
        return Err(IpcError::BadMagic(slice_to_vec(magic)));
    }
    let size: u16 = load_u16(header.as_slice(), 14);
    if size < HEADER_SIZE {
        return Err(IpcError::ShortMessage(size));
    }
    match r.read_exact_bytes((size - HEADER_SIZE) as usize) {
        Ok(payload) => Ok((header[16], header[17], payload)),
        Err(e) => {
            if let ParseError::Incomplete { .. } = e {
                r.rewind(start);
            }
            Err(stream_error(e))
        },
    }
}

/// Read a message and require it to be a success reply, returning the payload.
///
/// On an error reply the payload starts with a 4-byte HRESULT, and the server has already closed
/// the connection.
pub fn read_response(r: &mut StreamReader) -> (payload: core::result::Result<Vec<u8>, IpcError>)
    requires
        old(r).wf(),
    ensures
        final(r).wf(),
        match (payload, message_at(old(r)@).result) {
            (Ok(p), Ok(m)) => response_of(m) == Ok::<Seq<u8>, IpcFault>(p@),
            (Err(e), Ok(m)) => response_of(m) == Err::<Seq<u8>, IpcFault>(e@),
            (Err(e), Err(f)) => e@ == f,
            _ => false,
        },
        final(r)@ == message_at(old(r)@).stream,
{
    let (set, id, payload) = read_message(r)?;
    if set == command_set::SERVER && id == server::ERROR {
        let hresult: u32 = if payload.len() >= 4 {
            load_u32(payload.as_slice(), 0)
        } else {
            0
        };
        return Err(IpcError::Server(hresult));
    }
    if id != server::OK {
        return Err(IpcError::UnexpectedResponse { command_set: set, command_id: id });
    }
    Ok(payload)
}

/// A message that was written reads back as itself, and what follows it on the stream stays there.
pub proof fn message_round_trip(
    s: Stream,
    command_set: u8,
    command_id: u8,
    payload: Seq<u8>,
    rest: Seq<u8>,
)
    requires
        s.valid(),
        HEADER_SIZE + payload.len() <= u16::MAX,
        s.pending() == message_bytes(command_set, command_id, payload) + rest,
    ensures
        message_at(s).result == Ok::<MessageModel, IpcFault>(
            MessageModel { command_set, command_id, payload },
        ),
        message_at(s).stream.pending() == rest,
{
    let message = message_bytes(command_set, command_id, payload);
    let size = (HEADER_SIZE + payload.len()) as u16;
    let header = stream_bytes(s, HEADER_SIZE as int);
    let h = header.result->Ok_0;
    let all = s.pending();
    let tail = seq![command_set, command_id, 0u8, 0u8] + payload + rest;
    assert(all =~= MAGIC@ + u16_bytes(size) + tail);
    u16_round_trip(MAGIC@, size, tail);
    assert(h =~= all.take(20));
    assert(h.take(14) =~= MAGIC@);
    assert(h[14] == all[14] && h[15] == all[15] && h[16] == all[16] && h[17] == all[17]);
    assert(all[16] == tail[0] && all[17] == tail[1]);
    let body = stream_bytes(header.stream, payload.len() as int);
    assert(body.result->Ok_0 =~= payload) by {
        assert forall|i: int| 0 <= i < payload.len() implies #[trigger] body.result->Ok_0[i]
            == payload[i] by {
            assert(all[20 + i] == tail[4 + i]);
        }
    }
    assert(message_at(s).stream.pending() =~= rest) by {
        let left = message_at(s).stream.pending();
        assert forall|i: int| 0 <= i < left.len() implies #[trigger] left[i] == rest[i] by {
            assert(all[message.len() + i] == left[i]);
        }
    }
}

} // verus!
