//! The block loop: drives the stream, maintains the metadata registry, and yields events.
use vstd::prelude::*;
use vstd::slice::slice_to_vec;

use super::event::{
    blank_header, compressed_row, rows_advance, uncompressed_row, EventHeader, HeaderModel, Row,
};
use super::fastserial::{
    done_as, expect_tag, failed, got, read_object_header, read_preamble, stream_bytes, stream_i32,
    stream_object_header, stream_object_type, stream_preamble, stream_tag, tag, Taken,
};
use super::metadata::{
    is_local, parse, record, records_fail_locally, MetadataModel, MetadataStore,
};
use super::reader::{take_bytes, take_u16, Fault, ParseError, Reader, Result, Stream, StreamReader};
use super::stacks::{filed, parse_stacks, stack_block, StackModel, StackTable};
use crate::bytes::{
    load_u16, load_u32, load_u64, signed16, signed32, signed64, to_signed16, to_signed32,
    to_signed64, u16_at, u32_at, u64_at,
};
use crate::text::{same_text, signed_decimal, to_decimal};

verus! {

/// Header of the `Trace` object: the clock reference for every event timestamp.
#[derive(Debug, Clone)]
pub struct TraceInfo {
    /// Year, month, day-of-week, day, hour, minute, second, millisecond (UTC).
    pub sync_time_utc: [i16; 8],
    pub sync_time_qpc: i64,
    /// QPC ticks per second. 1e9 on Linux/macOS.
    pub qpc_frequency: i64,
    pub pointer_size: i32,
    pub process_id: i32,
    pub processor_count: i32,
    pub sampling_rate: i32,
}

/// A [`TraceInfo`] with its date as a sequence.
pub struct TraceModel {
    pub sync_time_utc: Seq<i16>,
    pub sync_time_qpc: i64,
    pub qpc_frequency: i64,
    pub pointer_size: i32,
    pub process_id: i32,
    pub processor_count: i32,
    pub sampling_rate: i32,
}

impl View for TraceInfo {
    type V = TraceModel;

    open spec fn view(&self) -> TraceModel {
        TraceModel {
            sync_time_utc: self.sync_time_utc@,
            sync_time_qpc: self.sync_time_qpc,
            qpc_frequency: self.qpc_frequency,
            pointer_size: self.pointer_size,
            process_id: self.process_id,
            processor_count: self.processor_count,
            sampling_rate: self.sampling_rate,
        }
    }
}

/// What is known of a trace before its header has arrived.
pub open spec fn blank_trace() -> TraceModel {
    TraceModel {
        sync_time_utc: Seq::new(8, |i: int| 0i16),
        sync_time_qpc: 0,
        qpc_frequency: 0,
        pointer_size: 0,
        process_id: 0,
        processor_count: 0,
        sampling_rate: 0,
    }
}

/// A stretch of time, in ticks.
#[derive(Debug, Clone, Copy, PartialEq, Eq, Structural)]
pub struct Elapsed {
    pub ticks: i128,
    pub per_second: i64,
}

impl Default for TraceInfo {
    fn default() -> (t: Self)
        ensures
            t@ == blank_trace(),
    {
        let t = TraceInfo {
            sync_time_utc: [0i16; 8],
            sync_time_qpc: 0,
            qpc_frequency: 0,
            pointer_size: 0,
            process_id: 0,
            processor_count: 0,
            sampling_rate: 0,
        };
        assert(t.sync_time_utc@ =~= Seq::new(8, |i: int| 0i16));
        t
    }
}

impl TraceInfo {
    /// The time between two QPC timestamps. Nothing, as long as the clock's rate is unknown.
    pub fn elapsed(&self, from: u64, to: u64) -> (e: Elapsed)
        ensures
            e == (if self.qpc_frequency == 0 {
                Elapsed { ticks: 0, per_second: 1 }
            } else {
                Elapsed { ticks: (to - from) as i128, per_second: self.qpc_frequency }
            }),
    {
        if self.qpc_frequency == 0 {
            Elapsed { ticks: 0, per_second: 1 }
        } else {
            Elapsed { ticks: to as i128 - from as i128, per_second: self.qpc_frequency }
        }
    }
}

/// One event, with its payload still encoded. Metadata is resolved by the caller via
/// [`NettraceParser::metadata`], which keeps the borrow out of the returned value.
#[derive(Debug, Clone)]
pub struct RawEvent {
    pub metadata_id: u32,
    pub timestamp: u64,
    /// The call stack the event was raised from, or zero.
    pub stack_id: u32,
    pub payload: Vec<u8>,
}

/// A [`RawEvent`] with its payload as a sequence.
pub struct EventModel {
    pub metadata_id: u32,
    pub timestamp: u64,
    pub stack_id: u32,
    pub payload: Seq<u8>,
}

impl View for RawEvent {
    type V = EventModel;

    open spec fn view(&self) -> EventModel {
        EventModel {
            metadata_id: self.metadata_id,
            timestamp: self.timestamp,
            stack_id: self.stack_id,
            payload: self.payload@,
        }
    }
}

/// The models of a list of events.
pub open spec fn event_models(events: Seq<RawEvent>) -> Seq<EventModel> {
    Seq::new(events.len(), |i: int| events[i]@)
}

/// Compression flag in an Event/Metadata block header. The runtime sets this unconditionally
/// for nettrace V4.
pub const FLAG_HEADER_COMPRESSION: u16 = 1;

/// Smallest legal block header: HeaderSize + Flags + MinTimestamp + MaxTimestamp.
pub const MIN_BLOCK_HEADER_SIZE: u16 = 20;

/// The `Trace` object's fixed body size. It is the one object with no size prefix.
pub const TRACE_BODY_SIZE: usize = 48;

/// Refuse absurd block sizes rather than trying to allocate them.
pub const MAX_BLOCK_SIZE: i32 = 0x1000_0000;

// ---------------------------------------------------------------------------------------------
// What blocks hold

/// The body of the `Trace` object.
pub open spec fn trace_of(b: Seq<u8>) -> TraceModel {
    TraceModel {
        sync_time_utc: Seq::new(8, |i: int| signed16(u16_at(b, 2 * i))),
        sync_time_qpc: signed64(u64_at(b, 16)),
        qpc_frequency: signed64(u64_at(b, 24)),
        pointer_size: signed32(u32_at(b, 32)),
        process_id: signed32(u32_at(b, 36)),
        processor_count: signed32(u32_at(b, 40)),
        sampling_rate: signed32(u32_at(b, 44)),
    }
}

fn parse_trace(body: &[u8]) -> (trace: TraceInfo)
    requires
        body@.len() == TRACE_BODY_SIZE,
    ensures
        trace@ == trace_of(body@),
{
    let mut sync_time_utc: [i16; 8] = [0i16; 8];
    let mut i: usize = 0;
    while i < 8
        invariant
            i <= 8,
            body@.len() == TRACE_BODY_SIZE,
            forall|k: int| 0 <= k < i ==> sync_time_utc@[k] == signed16(u16_at(body@, 2 * k)),
        decreases 8 - i,
    {
        sync_time_utc[i] = to_signed16(load_u16(body, 2 * i));
        i += 1;
    }
    assert(sync_time_utc@ =~= trace_of(body@).sync_time_utc);
    TraceInfo {
        sync_time_utc,
        sync_time_qpc: to_signed64(load_u64(body, 16)),
        qpc_frequency: to_signed64(load_u64(body, 24)),
        pointer_size: to_signed32(load_u32(body, 32)),
        process_id: to_signed32(load_u32(body, 36)),
        processor_count: to_signed32(load_u32(body, 40)),
        sampling_rate: to_signed32(load_u32(body, 44)),
    }
}

/// The header at `p`, in whichever form the block uses.
pub open spec fn row_at(previous: HeaderModel, b: Seq<u8>, p: int, compressed: bool) -> Row {
    if compressed {
        compressed_row(previous, b, p)
    } else {
        uncompressed_row(previous, b, p)
    }
}

/// The rows of a block from `p` on, behind a row with the header `previous`.
pub open spec fn rows_from(
    previous: HeaderModel,
    b: Seq<u8>,
    p: int,
    compressed: bool,
) -> core::result::Result<Seq<EventModel>, Fault>
    decreases b.len() - p,
    when 0 <= p
{
    if p >= b.len() {
        Ok(Seq::empty())
    } else {
        let row = row_at(previous, b, p, compressed);
        match row.fault {
            Some(f) => Err(f),
            None => {
                proof {
                    rows_advance(previous, b, p);
                }
                let payload = take_bytes(
                    b,
                    row.pos,
                    row.header.payload_size as int,
                    "event payload"@,
                );
                match payload.result {
                    Err(f) => Err(f),
                    Ok(bytes) => match rows_from(row.header, b, payload.pos, compressed) {
                        Err(f) => Err(f),
                        Ok(rest) => Ok(
                            seq![
                                EventModel {
                                    metadata_id: row.header.metadata_id,
                                    timestamp: row.header.timestamp,
                                    stack_id: row.header.stack_id,
                                    payload: bytes,
                                },
                            ] + rest,
                        ),
                    },
                }
            },
        }
    }
}

/// The rows of an Event or Metadata block. Header state is per-block, so it starts zeroed.
pub open spec fn event_rows(content: Seq<u8>) -> core::result::Result<Seq<EventModel>, Fault> {
    let header_size = take_u16(content, 0);
    match header_size.result {
        Err(f) => Err(f),
        Ok(size) => if size < MIN_BLOCK_HEADER_SIZE {
            Err(
                Fault::Unexpected {
                    what: "block header size"@,
                    got: signed_decimal(size as int),
                },
            )
        } else {
            let flags = take_u16(content, 2);
            match flags.result {
                Err(f) => Err(f),
                Ok(bits) => {
                    let rest = take_bytes(content, 4, size - 4, "block header remainder"@);
                    match rest.result {
                        Err(f) => Err(f),
                        Ok(_) => rows_from(
                            blank_header(),
                            content,
                            rest.pos,
                            bits & FLAG_HEADER_COMPRESSION != 0,
                        ),
                    }
                },
            }
        },
    }
}

/// Whether a call returned the events, or the fault, that the model of the read says.
pub open spec fn events_as(
    got: Result<Vec<RawEvent>>,
    want: core::result::Result<Seq<EventModel>, Fault>,
) -> bool {
    match (got, want) {
        (Ok(events), Ok(models)) => event_models(events@) == models,
        (Err(e), Err(f)) => e@ == f,
        _ => false,
    }
}

/// Parse the rows of an Event or Metadata block.
pub fn parse_event_rows(content: &[u8]) -> (events: Result<Vec<RawEvent>>)
    ensures
        events_as(events, event_rows(content@)),
{
    let mut r = Reader::new(content);
    let header_size: u16 = r.u16()?;
    if header_size < MIN_BLOCK_HEADER_SIZE {
        return Err(
            ParseError::Unexpected {
                what: "block header size",
                got: to_decimal(header_size as i64),
            },
        );
    }
    let flags: u16 = r.u16()?;
    // HeaderSize counts itself and Flags, both already consumed.
    r.skip(header_size as usize - 4, "block header remainder")?;

    let compressed: bool = flags & FLAG_HEADER_COMPRESSION != 0;
    let ghost b = content@;
    let ghost start = r@.pos;
    let mut header = EventHeader::default();
    let mut events: Vec<RawEvent> = Vec::new();
    assert(event_models(events@) =~= Seq::<EventModel>::empty());
    proof {
        if let Ok(rest) = rows_from(blank_header(), b, start, compressed) {
            assert(Seq::<EventModel>::empty() + rest =~= rest);
        }
    }
    while !r.is_empty()
        invariant
            r.wf(),
            r@.bytes == b,
            b == content@,
            event_rows(b) == rows_from(blank_header(), b, start, compressed),
            event_rows(b) == (match rows_from(header@, b, r@.pos, compressed) {
                Err(f) => Err(f),
                Ok(rest) => Ok(event_models(events@) + rest),
            }),
        decreases b.len() - r@.pos,
    {
        let ghost before = event_models(events@);
        proof {
            rows_advance(header@, b, r@.pos);
        }
        if compressed {
            header.read_compressed(&mut r)?;
        } else {
            header.read_uncompressed(&mut r)?;
        }
        let payload = r.bytes(header.payload_size as usize, "event payload")?;
        let event = RawEvent {
            metadata_id: header.metadata_id,
            timestamp: header.timestamp,
            stack_id: header.stack_id,
            payload: slice_to_vec(payload),
        };
        let ghost model = event@;
        events.push(event);
        proof {
            assert(event_models(events@) =~= before.push(model));
            if let Ok(rest) = rows_from(header@, b, r@.pos, compressed) {
                assert(before + (seq![model] + rest) =~= event_models(events@) + rest);
            }
        }
    }
    assert(event_models(events@) + Seq::<EventModel>::empty() =~= event_models(events@));
    Ok(events)
}

// ---------------------------------------------------------------------------------------------
// The parser

/// What an object of the stream is.
#[derive(Debug, Clone, Copy, PartialEq, Eq, Structural)]
pub enum BlockKind {
    Trace,
    Events,
    Metadata,
    Stacks,
    SequencePoint,
    /// Nothing this parser reads. It is still length-prefixed, so skipping is safe.
    Other,
}

impl BlockKind {
    /// The kind that an object's type says it is.
    pub open spec fn named(name: Seq<char>) -> BlockKind {
        if name == "Trace"@ || name == "Microsoft.DotNet.Runtime.EventPipeFile"@ {
            BlockKind::Trace
        } else if name == "EventBlock"@ {
            BlockKind::Events
        } else if name == "MetadataBlock"@ {
            BlockKind::Metadata
        } else if name == "StackBlock"@ {
            BlockKind::Stacks
        } else if name == "SPBlock"@ {
            BlockKind::SequencePoint
        } else {
            BlockKind::Other
        }
    }

    pub fn of(name: &str) -> (kind: Self)
        ensures
            kind == BlockKind::named(name@),
    {
        if same_text(name, "Trace") || same_text(name, "Microsoft.DotNet.Runtime.EventPipeFile") {
            BlockKind::Trace
        } else if same_text(name, "EventBlock") {
            BlockKind::Events
        } else if same_text(name, "MetadataBlock") {
            BlockKind::Metadata
        } else if same_text(name, "StackBlock") {
            BlockKind::Stacks
        } else if same_text(name, "SPBlock") {
            BlockKind::SequencePoint
        } else {
            BlockKind::Other
        }
    }
}

/// A [`NettraceParser`] as a value.
pub struct ParserModel {
    pub stream: Stream,
    pub metadata: Map<u32, MetadataModel>,
    pub trace: TraceModel,
    pub finished: bool,
    pub stacks: StackModel,
    pub collecting: bool,
    pub sequence_point: bool,
}

impl ParserModel {
    /// A parser that has consumed the preamble and nothing else.
    pub open spec fn start(stream: Stream) -> ParserModel {
        ParserModel {
            stream,
            metadata: Map::empty(),
            trace: blank_trace(),
            finished: false,
            stacks: StackModel::blank(),
            collecting: false,
            sequence_point: false,
        }
    }

    pub open spec fn reading(self, stream: Stream) -> ParserModel {
        ParserModel { stream, ..self }
    }

    /// Whether the process writes addresses in 64 bits.
    pub open spec fn wide(self) -> bool {
        self.trace.pointer_size != 4
    }
}

/// What one object amounts to.
pub enum Absorbed {
    /// The tag that ends the stream.
    End,
    /// Nothing for the caller.
    Quiet,
    /// A batch for the caller. It is empty at a sequence point.
    Events(Seq<EventModel>),
}

/// The outcome of reading one object: what it amounts to or a fault, and the parser afterwards.
pub struct Step {
    pub result: core::result::Result<Absorbed, Fault>,
    pub parser: ParserModel,
}

/// How many bytes stand between an offset and the next multiple of four.
pub open spec fn padding_at(pos: int) -> int {
    (4 - pos % 4) % 4
}

/// A block's content: its size, padding up to a multiple of four of the *absolute* stream offset,
/// and then that many bytes.
pub open spec fn stream_content(s: Stream) -> Taken<Seq<u8>> {
    let size = stream_i32(s);
    match size.result {
        Err(f) => failed(f, size.stream),
        Ok(n) => if !(0 <= n <= MAX_BLOCK_SIZE) {
            failed(
                Fault::Unexpected { what: "block size"@, got: signed_decimal(n as int) },
                size.stream,
            )
        } else {
            let padding = stream_bytes(size.stream, padding_at(size.stream.pos()));
            match padding.result {
                Err(f) => failed(f, padding.stream),
                Ok(_) => stream_bytes(padding.stream, n as int),
            }
        },
    }
}

/// The tag behind every object.
pub open spec fn stream_end(s: Stream) -> Taken<()> {
    stream_tag(s, tag::END_OBJECT, "end of block"@)
}

/// A block's content and the tag behind it.
pub open spec fn stream_block(s: Stream) -> Taken<Seq<u8>> {
    let content = stream_content(s);
    match content.result {
        Err(f) => failed(f, content.stream),
        Ok(bytes) => {
            let end = stream_end(content.stream);
            match end.result {
                Err(f) => failed(f, end.stream),
                Ok(_) => got(bytes, end.stream),
            }
        },
    }
}

/// The registry with the records of a metadata block added, up to the first that does not parse.
pub open spec fn registered(
    metadata: Map<u32, MetadataModel>,
    rows: Seq<EventModel>,
) -> (Map<u32, MetadataModel>, Option<Fault>)
    decreases rows.len(),
{
    if rows.len() == 0 {
        (metadata, None)
    } else {
        let (before, fault) = registered(metadata, rows.drop_last());
        if fault is Some {
            (before, fault)
        } else {
            match record(rows.last().payload) {
                Err(f) => (before, Some(f)),
                Ok(m) => (before.insert(m.metadata_id, m), None),
            }
        }
    }
}

/// The `Trace` object, whose body has neither size nor padding.
pub open spec fn trace_step(p: ParserModel) -> Step {
    let body = stream_bytes(p.stream, TRACE_BODY_SIZE as int);
    match body.result {
        Err(f) => Step { result: Err(f), parser: p.reading(body.stream) },
        Ok(b) => {
            let end = stream_end(body.stream);
            let parser = ParserModel { trace: trace_of(b), ..p }.reading(end.stream);
            match end.result {
                Err(f) => Step { result: Err(f), parser },
                Ok(_) => Step { result: Ok(Absorbed::Quiet), parser },
            }
        },
    }
}

/// What a block of the given kind does to a parser that has read past it.
pub open spec fn content_step(p: ParserModel, kind: BlockKind, content: Seq<u8>) -> Step {
    match kind {
        BlockKind::Events => match event_rows(content) {
            Err(f) => Step { result: Err(f), parser: p },
            Ok(events) => Step {
                result: Ok(
                    if events.len() == 0 {
                        Absorbed::Quiet
                    } else {
                        Absorbed::Events(events)
                    },
                ),
                parser: p,
            },
        },
        BlockKind::Metadata => match event_rows(content) {
            Err(f) => Step { result: Err(f), parser: p },
            Ok(rows) => {
                let (metadata, fault) = registered(p.metadata, rows);
                Step {
                    result: match fault {
                        Some(f) => Err(f),
                        None => Ok(Absorbed::Quiet),
                    },
                    parser: ParserModel { metadata, ..p },
                }
            },
        },
        BlockKind::Stacks => if p.collecting {
            match stack_block(content, p.wide()) {
                Err(f) => Step { result: Err(f), parser: p },
                Ok((first, stacks)) => Step {
                    result: Ok(Absorbed::Quiet),
                    parser: ParserModel {
                        stacks: StackModel {
                            current: filed(p.stacks.current, first, stacks),
                            ..p.stacks
                        },
                        ..p
                    },
                },
            }
        } else {
            Step { result: Ok(Absorbed::Quiet), parser: p }
        },
        BlockKind::SequencePoint => if p.collecting {
            Step {
                result: Ok(Absorbed::Events(Seq::empty())),
                parser: ParserModel { sequence_point: true, ..p },
            }
        } else {
            Step { result: Ok(Absorbed::Quiet), parser: p }
        },
        _ => Step { result: Ok(Absorbed::Quiet), parser: p },
    }
}

/// The object behind a header that says it is of the given kind.
pub open spec fn block_step(p: ParserModel, kind: BlockKind) -> Step {
    let block = stream_block(p.stream);
    match block.result {
        Err(f) => Step { result: Err(f), parser: p.reading(block.stream) },
        Ok(content) => content_step(p.reading(block.stream), kind, content),
    }
}

/// One object of the stream.
pub open spec fn object_step(p: ParserModel) -> Step {
    let header = stream_object_header(p.stream);
    let parser = p.reading(header.stream);
    match header.result {
        Err(f) => Step { result: Err(f), parser },
        Ok(None) => Step {
            result: Ok(Absorbed::End),
            parser: ParserModel { finished: true, ..parser },
        },
        Ok(Some(h)) => match BlockKind::named(h.object_type) {
            BlockKind::Trace => trace_step(parser),
            kind => block_step(parser, kind),
        },
    }
}

/// A stream that is the same but for how much of it has been read, and has been read no less.
pub open spec fn further(s: Stream, t: Stream) -> bool {
    &&& t.data == s.data
    &&& t.base == s.base
    &&& t.open == s.open
    &&& s.at <= t.at
    &&& s.valid() ==> t.valid()
}

/// Reading an object header only ever moves forward.
proof fn header_moves_forward(s: Stream)
    requires
        s.valid(),
    ensures
        further(s, stream_object_header(s).stream),
        stream_object_header(s).result is Ok ==> s.at < stream_object_header(s).stream.at,
{
}

proof fn block_moves_forward(s: Stream)
    requires
        s.valid(),
    ensures
        further(s, stream_block(s).stream),
{
}

/// Reading an object only ever moves forward.
pub proof fn object_moves_forward(p: ParserModel)
    requires
        p.stream.valid(),
    ensures
        further(p.stream, object_step(p).parser.stream),
        object_step(p).result is Ok ==> p.stream.at < object_step(p).parser.stream.at,
{
    header_moves_forward(p.stream);
    let s = stream_object_header(p.stream).stream;
    if s.valid() {
        block_moves_forward(s);
    }
}

/// The next batch of events, or `None` at the end of the stream, and the parser afterwards.
///
/// An object of which too little has arrived is left for later: the parser stays in front of it.
pub open spec fn next_batch(p: ParserModel) -> (
    core::result::Result<Option<Seq<EventModel>>, Fault>,
    ParserModel,
)
    decreases p.stream.left(),
    when p.stream.valid()
{
    if p.finished {
        (Ok(None), p)
    } else {
        let step = object_step(p);
        proof {
            object_moves_forward(p);
        }
        match step.result {
            Err(Fault::Incomplete { missing }) => (Err(Fault::Incomplete { missing }), p),
            Err(f) => (Err(f), step.parser),
            Ok(Absorbed::End) => (Ok(None), step.parser),
            Ok(Absorbed::Events(events)) => (Ok(Some(events)), step.parser),
            Ok(Absorbed::Quiet) => next_batch(step.parser),
        }
    }
}

/// Looking for a batch only ever moves forward, and a batch takes up some of the stream.
pub proof fn batches_move_forward(p: ParserModel)
    requires
        p.stream.valid(),
    ensures
        further(p.stream, next_batch(p).1.stream),
        next_batch(p).0 matches Ok(Some(_)) ==> p.stream.at < next_batch(p).1.stream.at,
    decreases p.stream.left(),
{
    if !p.finished {
        object_moves_forward(p);
        if object_step(p).result matches Ok(Absorbed::Quiet) {
            batches_move_forward(object_step(p).parser);
        }
    }
}

/// A sequence point ends a batch of its own: where one has been passed, no event behind it has been
/// read, and where there are events, none has been passed.
pub proof fn sequence_points_stand_alone(p: ParserModel)
    requires
        p.stream.valid(),
        !p.sequence_point,
    ensures
        next_batch(p).0 matches Ok(Some(events)) ==> (next_batch(p).1.sequence_point
            <==> events.len() == 0),
        !(next_batch(p).0 matches Ok(Some(_))) ==> !next_batch(p).1.sequence_point,
    decreases p.stream.left(),
{
    if !p.finished {
        object_moves_forward(p);
        if object_step(p).result matches Ok(Absorbed::Quiet) {
            sequence_points_stand_alone(object_step(p).parser);
        }
    }
}

/// Every row takes up at least one byte.
proof fn rows_take_space(previous: HeaderModel, b: Seq<u8>, p: int, compressed: bool)
    requires
        0 <= p <= b.len(),
    ensures
        rows_from(previous, b, p, compressed) matches Ok(rows) ==> rows.len() <= b.len() - p,
    decreases b.len() - p,
{
    if p < b.len() {
        let row = row_at(previous, b, p, compressed);
        rows_advance(previous, b, p);
        if row.fault is None {
            let payload = take_bytes(
                b,
                row.pos,
                row.header.payload_size as int,
                "event payload"@,
            );
            if payload.result is Ok {
                rows_take_space(row.header, b, payload.pos, compressed);
            }
        }
    }
}

proof fn events_take_space(content: Seq<u8>)
    ensures
        event_rows(content) matches Ok(rows) ==> rows.len() <= content.len(),
{
    if content.len() >= 4 && event_rows(content) is Ok {
        let size = u16_at(content, 0);
        let rest = take_bytes(content, 4, size - 4, "block header remainder"@);
        rows_take_space(
            blank_header(),
            content,
            rest.pos,
            u16_at(content, 2) & FLAG_HEADER_COMPRESSION != 0,
        );
    }
}

/// A batch never holds more events than bytes were read for it.
pub proof fn batches_take_space(p: ParserModel)
    requires
        p.stream.valid(),
    ensures
        next_batch(p).0 matches Ok(Some(events)) ==> events.len() <= next_batch(p).1.stream.pos()
            - p.stream.pos(),
    decreases p.stream.left(),
{
    if !p.finished {
        object_moves_forward(p);
        header_moves_forward(p.stream);
        let header = stream_object_header(p.stream);
        if header.result matches Ok(Some(_)) {
            block_moves_forward(header.stream);
            let block = stream_block(header.stream);
            if let Ok(content) = block.result {
                events_take_space(content);
            }
        }
        if object_step(p).result matches Ok(Absorbed::Quiet) {
            batches_take_space(object_step(p).parser);
            batches_move_forward(object_step(p).parser);
        }
    }
}

pub struct NettraceParser {
    stream: StreamReader,
    metadata: MetadataStore,
    trace: TraceInfo,
    finished: bool,
    stacks: StackTable,
    collecting: bool,
    sequence_point: bool,
}

/// What reading an object gave.
enum Outcome {
    End,
    Quiet,
    Events(Vec<RawEvent>),
}

/// Whether reading an object ended as its model says. An object of which too little has arrived
/// changes nothing but how far into the stream reading has come.
spec fn object_as(
    got: Result<Outcome>,
    before: ParserModel,
    after: ParserModel,
    want: Step,
) -> bool {
    match (got, want.result) {
        (Ok(Outcome::End), Ok(Absorbed::End)) => after == want.parser,
        (Ok(Outcome::Quiet), Ok(Absorbed::Quiet)) => after == want.parser,
        (Ok(Outcome::Events(events)), Ok(Absorbed::Events(models))) => after == want.parser
            && event_models(events@) == models,
        (Err(e), Err(Fault::Incomplete { missing })) => e@ == (Fault::Incomplete { missing })
            && after == before.reading(after.stream) && further(before.stream, after.stream),
        (Err(e), Err(f)) => e@ == f && after == want.parser,
        _ => false,
    }
}

impl NettraceParser {
    pub closed spec fn view(&self) -> ParserModel {
        ParserModel {
            stream: self.stream@,
            metadata: self.metadata@,
            trace: self.trace@,
            finished: self.finished,
            stacks: self.stacks@,
            collecting: self.collecting,
            sequence_point: self.sequence_point,
        }
    }

    pub closed spec fn wf(&self) -> bool {
        &&& self.stream.wf()
        &&& self.metadata.wf()
    }

    /// The stream beneath a parser is in order.
    pub proof fn stream_is_valid(&self)
        requires
            self.wf(),
        ensures
            self@.stream.valid(),
    {
    }

    /// Consume the preamble and prepare to read blocks.
    pub fn new(stream: StreamReader) -> (r: Result<Self>)
        requires
            stream.wf(),
        ensures
            match (r, stream_preamble(stream@).result) {
                (Ok(p), Ok(_)) => p.wf() && p@ == ParserModel::start(
                    stream_preamble(stream@).stream,
                ),
                (Err(e), Err(f)) => e@ == f,
                _ => false,
            },
    {
        let mut stream = stream;
        read_preamble(&mut stream)?;
        Ok(
            NettraceParser {
                stream,
                metadata: MetadataStore::new(),
                trace: TraceInfo::default(),
                finished: false,
                stacks: StackTable::new(),
                collecting: false,
                sequence_point: false,
            },
        )
    }

    pub fn metadata(&self) -> (store: &MetadataStore)
        requires
            self.wf(),
        ensures
            store.wf(),
            store@ == self@.metadata,
    {
        &self.metadata
    }

    pub fn trace_info(&self) -> (trace: &TraceInfo)
        ensures
            trace@ == self@.trace,
    {
        &self.trace
    }

    /// The stacks collected so far.
    pub fn stacks(&self) -> (table: &StackTable)
        ensures
            table@ == self@.stacks,
    {
        &self.stacks
    }

    /// Keep the stacks that arrive from now on, and stop at sequence points. Without this both
    /// kinds of block are skipped.
    pub fn collect_stacks(&mut self)
        requires
            old(self).wf(),
        ensures
            final(self).wf(),
            final(self)@ == (ParserModel { collecting: true, ..old(self)@ }),
    {
        self.collecting = true;
    }

    /// Whether a sequence point has passed since this was last asked.
    pub fn take_sequence_point(&mut self) -> (passed: bool)
        requires
            old(self).wf(),
        ensures
            final(self).wf(),
            passed == old(self)@.sequence_point,
            final(self)@ == (ParserModel { sequence_point: false, ..old(self)@ }),
    {
        let passed = self.sequence_point;
        self.sequence_point = false;
        passed
    }

    /// Start a new generation of stacks.
    pub fn rotate_stacks(&mut self)
        requires
            old(self).wf(),
        ensures
            final(self).wf(),
            final(self)@ == (ParserModel { stacks: old(self)@.stacks.rotated(), ..old(self)@ }),
    {
        self.stacks.rotate();
    }

    /// More of the stream has arrived.
    pub fn feed(&mut self, bytes: &[u8])
        requires
            old(self).wf(),
            old(self)@.stream.pos() + old(self)@.stream.left() + bytes@.len() <= u64::MAX,
        ensures
            final(self).wf(),
            final(self)@ == old(self)@.reading(
                Stream {
                    data: old(self)@.stream.pending() + bytes@,
                    at: 0,
                    base: old(self)@.stream.pos(),
                    open: old(self)@.stream.open,
                },
            ),
    {
        self.stream.feed(bytes);
    }

    /// Nothing more of the stream will arrive.
    pub fn close(&mut self)
        requires
            old(self).wf(),
        ensures
            final(self).wf(),
            final(self)@ == old(self)@.reading(Stream { open: false, ..old(self)@.stream }),
    {
        self.stream.close();
    }

    /// Read forward until the next batch of events, or `None` at end of stream.
    ///
    /// Metadata blocks are absorbed into the registry rather than returned. Stack and sequence
    /// point blocks are skipped unless stacks are being collected. Then a sequence point comes back
    /// as an empty batch of its own, before anything behind it is read: that is the moment at which
    /// every stack an event has referred to is there, and no id stands for another yet.
    pub fn next_events(&mut self) -> (events: Result<Option<Vec<RawEvent>>>)
        requires
            old(self).wf(),
        ensures
            final(self).wf(),
            match (events, next_batch(old(self)@).0) {
                (Ok(Some(events)), Ok(Some(models))) => event_models(events@) == models,
                (Ok(None), Ok(None)) => true,
                (Err(e), Err(f)) => e@ == f,
                _ => false,
            },
            final(self)@ == next_batch(old(self)@).1,
    {
        loop
            invariant
                self.wf(),
                next_batch(old(self)@) == next_batch(self@),
            decreases self@.stream.left(),
        {
            if self.finished {
                return Ok(None);
            }
            let ghost before = self@;
            let position: u64 = self.stream.position();
            proof {
                object_moves_forward(before);
            }
            match self.read_object() {
                Ok(Outcome::End) => {
                    return Ok(None);
                },
                Ok(Outcome::Quiet) => {},
                Ok(Outcome::Events(events)) => {
                    return Ok(Some(events));
                },
                Err(e) => {
                    if let ParseError::Incomplete { .. } = e {
                        self.stream.rewind(position);
                    }
                    return Err(e);
                },
            }
        }
    }

    fn read_object(&mut self) -> (outcome: Result<Outcome>)
        requires
            old(self).wf(),
        ensures
            final(self).wf(),
            object_as(outcome, old(self)@, final(self)@, object_step(old(self)@)),
    {
        proof {
            header_moves_forward(self@.stream);
            object_moves_forward(self@);
        }
        match read_object_header(&mut self.stream)? {
            None => {
                self.finished = true;
                Ok(Outcome::End)
            },
            Some(header) => match BlockKind::of(header.object_type.as_str()) {
                BlockKind::Trace => self.read_trace(),
                kind => self.read_block(kind),
            },
        }
    }

    fn read_trace(&mut self) -> (outcome: Result<Outcome>)
        requires
            old(self).wf(),
        ensures
            final(self).wf(),
            object_as(outcome, old(self)@, final(self)@, trace_step(old(self)@)),
    {
        let body = self.stream.read_exact_bytes(TRACE_BODY_SIZE)?;
        let end = self.expect_end_object();
        if let Err(ParseError::Incomplete { missing }) = end {
            return Err(ParseError::Incomplete { missing });
        }
        self.trace = parse_trace(body.as_slice());
        match end {
            Ok(_) => Ok(Outcome::Quiet),
            Err(e) => Err(e),
        }
    }

    fn read_block(&mut self, kind: BlockKind) -> (outcome: Result<Outcome>)
        requires
            old(self).wf(),
            kind != BlockKind::Trace,
        ensures
            final(self).wf(),
            object_as(outcome, old(self)@, final(self)@, block_step(old(self)@, kind)),
    {
        let content = self.read_whole_block()?;
        self.absorb(kind, content)
    }

    fn absorb(&mut self, kind: BlockKind, content: Vec<u8>) -> (outcome: Result<Outcome>)
        requires
            old(self).wf(),
            kind != BlockKind::Trace,
        ensures
            final(self).wf(),
            ({
                let want = content_step(old(self)@, kind, content@);
                &&& match (outcome, want.result) {
                    (Ok(Outcome::Quiet), Ok(Absorbed::Quiet)) => true,
                    (Ok(Outcome::Events(events)), Ok(Absorbed::Events(models))) => event_models(
                        events@,
                    ) == models,
                    (Err(e), Err(f)) => e@ == f,
                    _ => false,
                }
                &&& final(self)@ == want.parser
                &&& want.result matches Err(Fault::Incomplete { .. }) ==> want.parser == old(
                    self,
                )@
            }),
    {
        match kind {
            BlockKind::Events => {
                let events = parse_event_rows(content.as_slice())?;
                if events.is_empty() {
                    Ok(Outcome::Quiet)
                } else {
                    Ok(Outcome::Events(events))
                }
            },
            BlockKind::Metadata => {
                let rows = parse_event_rows(content.as_slice())?;
                proof {
                    registered_fails_locally(self@.metadata, event_models(rows@));
                }
                self.register(rows)?;
                Ok(Outcome::Quiet)
            },
            BlockKind::Stacks => {
                if self.collecting {
                    let block = parse_stacks(content.as_slice(), self.trace.pointer_size != 4)?;
                    self.stacks.insert_block(block);
                }
                Ok(Outcome::Quiet)
            },
            BlockKind::SequencePoint => {
                if self.collecting {
                    self.sequence_point = true;
                    let none: Vec<RawEvent> = Vec::new();
                    assert(event_models(none@) =~= Seq::<EventModel>::empty());
                    Ok(Outcome::Events(none))
                } else {
                    Ok(Outcome::Quiet)
                }
            },
            _ => Ok(Outcome::Quiet),
        }
    }

    fn register(&mut self, rows: Vec<RawEvent>) -> (done: Result<()>)
        requires
            old(self).wf(),
        ensures
            final(self).wf(),
            ({
                let (metadata, fault) = registered(old(self)@.metadata, event_models(rows@));
                &&& final(self)@ == (ParserModel { metadata, ..old(self)@ })
                &&& match (done, fault) {
                    (Ok(_), None) => true,
                    (Err(e), Some(f)) => e@ == f,
                    _ => false,
                }
            }),
    {
        let ghost all = event_models(rows@);
        let ghost start = self@;
        let mut i: usize = 0;
        assert(all.take(0) =~= Seq::<EventModel>::empty());
        while i < rows.len()
            invariant
                i <= rows@.len(),
                self.wf(),
                all == event_models(rows@),
                start == old(self)@,
                self@ == (ParserModel {
                    metadata: registered(start.metadata, all.take(i as int)).0,
                    ..start
                }),
                registered(start.metadata, all.take(i as int)).1 is None,
            decreases rows@.len() - i,
        {
            proof {
                let longer = all.take(i + 1);
                assert(longer.drop_last() =~= all.take(i as int));
                assert(longer.last() == rows@[i as int]@);
            }
            match parse(rows[i].payload.as_slice()) {
                Ok(metadata) => {
                    self.metadata.insert(metadata);
                },
                Err(e) => {
                    proof {
                        registered_stops(start.metadata, all, i + 1);
                    }
                    return Err(e);
                },
            }
            i += 1;
        }
        assert(all.take(rows@.len() as int) =~= all);
        Ok(())
    }

    fn expect_end_object(&mut self) -> (done: Result<()>)
        requires
            old(self).wf(),
        ensures
            final(self).wf(),
            done_as(done, stream_end(old(self)@.stream).result),
            final(self)@ == old(self)@.reading(stream_end(old(self)@.stream).stream),
    {
        expect_tag(&mut self.stream, tag::END_OBJECT, "end of block")
    }

    fn read_whole_block(&mut self) -> (content: Result<Vec<u8>>)
        requires
            old(self).wf(),
        ensures
            final(self).wf(),
            further(old(self)@.stream, final(self)@.stream),
            ({
                let want = stream_block(old(self)@.stream);
                &&& match (content, want.result) {
                    (Ok(c), Ok(bytes)) => c@ == bytes,
                    (Err(e), Err(f)) => e@ == f,
                    _ => false,
                }
                &&& final(self)@ == old(self)@.reading(want.stream)
            }),
    {
        proof {
            block_moves_forward(self@.stream);
        }
        let content = self.read_block_content()?;
        self.expect_end_object()?;
        Ok(content)
    }

    /// Read a block's size, skip its alignment padding, and return its content.
    ///
    /// Padding is computed from the *absolute* stream offset after the size field, which is why
    /// the stream reader tracks position.
    fn read_block_content(&mut self) -> (content: Result<Vec<u8>>)
        requires
            old(self).wf(),
        ensures
            final(self).wf(),
            ({
                let want = stream_content(old(self)@.stream);
                &&& match (content, want.result) {
                    (Ok(c), Ok(bytes)) => c@ == bytes,
                    (Err(e), Err(f)) => e@ == f,
                    _ => false,
                }
                &&& final(self)@ == old(self)@.reading(want.stream)
            }),
    {
        let size: i32 = self.stream.i32()?;
        if size < 0 || size > MAX_BLOCK_SIZE {
            return Err(
                ParseError::Unexpected { what: "block size", got: to_decimal(size as i64) },
            );
        }
        let padding: usize = ((4 - self.stream.position() % 4) % 4) as usize;
        self.stream.skip(padding)?;
        self.stream.read_exact_bytes(size as usize)
    }
}

proof fn registered_fails_locally(metadata: Map<u32, MetadataModel>, rows: Seq<EventModel>)
    ensures
        registered(metadata, rows).1 matches Some(f) ==> is_local(f),
    decreases rows.len(),
{
    if rows.len() > 0 {
        registered_fails_locally(metadata, rows.drop_last());
        records_fail_locally(rows.last().payload);
    }
}

/// A record that does not parse stops the ones behind it.
proof fn registered_stops(metadata: Map<u32, MetadataModel>, rows: Seq<EventModel>, i: int)
    requires
        0 <= i <= rows.len(),
        registered(metadata, rows.take(i)).1 is Some,
    ensures
        registered(metadata, rows) == registered(metadata, rows.take(i)),
    decreases rows.len() - i,
{
    if i == rows.len() {
        assert(rows.take(i) =~= rows);
    } else {
        assert(rows.take(i + 1).drop_last() =~= rows.take(i));
        registered_stops(metadata, rows, i + 1);
    }
}

// ---------------------------------------------------------------------------------------------
// However a stream is cut

/// `t` is the open stream `s` with more of it arrived.
pub open spec fn continues(s: Stream, t: Stream) -> bool {
    &&& s.valid() && t.valid()
    &&& s.open && t.open
    &&& s.pos() == t.pos()
    &&& s.left() <= t.left()
    &&& s.pending() == t.pending().take(s.left())
}

/// `q` is the parser `p` with more of its stream arrived.
pub open spec fn ahead(p: ParserModel, q: ParserModel) -> bool {
    &&& continues(p.stream, q.stream)
    &&& q == p.reading(q.stream)
}

/// Handing over more of a stream continues it.
pub proof fn feeding_continues(s: Stream, more: Seq<u8>)
    requires
        s.valid(),
        s.open,
        s.left() + more.len() <= usize::MAX,
        s.pos() + s.left() + more.len() <= u64::MAX,
    ensures
        continues(
            s,
            Stream { data: s.pending() + more, at: 0, base: s.pos(), open: s.open },
        ),
{
    let t = Stream { data: s.pending() + more, at: 0, base: s.pos(), open: s.open };
    assert(t.pending().take(s.left()) =~= s.pending());
}

proof fn skipping_continues(s: Stream, t: Stream, n: int)
    requires
        continues(s, t),
        0 <= n <= s.left(),
    ensures
        continues(s.after(n), t.after(n)),
        forall|i: int|
            0 <= i < n ==> #[trigger] s.data.subrange(s.at, s.at + n)[i] == t.data.subrange(
                t.at,
                t.at + n,
            )[i],
{
    assert forall|i: int| 0 <= i < s.left() implies #[trigger] s.pending()[i] == t.pending()[i] by {
        assert(s.pending()[i] == t.pending().take(s.left())[i]);
    }
    assert forall|i: int| 0 <= i < n implies #[trigger] s.data.subrange(s.at, s.at + n)[i]
        == t.data.subrange(t.at, t.at + n)[i] by {
        assert(s.pending()[i] == t.pending()[i]);
    }
    let rest = s.after(n).pending();
    assert forall|i: int| 0 <= i < rest.len() implies #[trigger] rest[i]
        == t.after(n).pending()[i] by {
        assert(s.pending()[n + i] == t.pending()[n + i]);
    }
    assert(rest =~= t.after(n).pending().take(s.after(n).left()));
}

proof fn bytes_continue(s: Stream, t: Stream, n: int)
    requires
        continues(s, t),
        0 <= n <= s.left(),
    ensures
        stream_bytes(t, n).result == stream_bytes(s, n).result,
        continues(stream_bytes(s, n).stream, stream_bytes(t, n).stream),
{
    skipping_continues(s, t, n);
    assert(s.data.subrange(s.at, s.at + n) =~= t.data.subrange(t.at, t.at + n));
}

proof fn u8_continues(s: Stream, t: Stream)
    requires
        continues(s, t),
        1 <= s.left(),
    ensures
        s.data[s.at] == t.data[t.at],
        continues(s.after(1), t.after(1)),
{
    skipping_continues(s, t, 1);
    assert(s.data.subrange(s.at, s.at + 1)[0] == t.data.subrange(t.at, t.at + 1)[0]);
}

proof fn i32_continues(s: Stream, t: Stream)
    requires
        continues(s, t),
        4 <= s.left(),
    ensures
        u32_at(s.data, s.at) == u32_at(t.data, t.at),
        continues(s.after(4), t.after(4)),
{
    skipping_continues(s, t, 4);
    let a = s.data.subrange(s.at, s.at + 4);
    let b = t.data.subrange(t.at, t.at + 4);
    assert(a[0] == b[0] && a[1] == b[1] && a[2] == b[2] && a[3] == b[3]);
}

proof fn tag_continues(s: Stream, t: Stream, expected: u8, what: Seq<char>)
    requires
        continues(s, t),
        !(stream_tag(s, expected, what).result matches Err(Fault::Incomplete { .. })),
    ensures
        stream_tag(t, expected, what).result == stream_tag(s, expected, what).result,
        continues(stream_tag(s, expected, what).stream, stream_tag(t, expected, what).stream),
{
    u8_continues(s, t);
}

proof fn type_continues(s: Stream, t: Stream)
    requires
        continues(s, t),
        !(stream_object_type(s).result matches Err(Fault::Incomplete { .. })),
    ensures
        stream_object_type(t).result == stream_object_type(s).result,
        continues(stream_object_type(s).stream, stream_object_type(t).stream),
{
    let begin_what = "serialization type tag"@;
    let null_what = "serialization type's type tag"@;
    let end_what = "end of serialization type"@;
    tag_continues(s, t, tag::BEGIN_PRIVATE_OBJECT, begin_what);
    let s1 = stream_tag(s, tag::BEGIN_PRIVATE_OBJECT, begin_what);
    let t1 = stream_tag(t, tag::BEGIN_PRIVATE_OBJECT, begin_what);
    if s1.result is Ok {
        tag_continues(s1.stream, t1.stream, tag::NULL_REFERENCE, null_what);
        let s2 = stream_tag(s1.stream, tag::NULL_REFERENCE, null_what);
        let t2 = stream_tag(t1.stream, tag::NULL_REFERENCE, null_what);
        if s2.result is Ok {
            i32_continues(s2.stream, t2.stream);
            i32_continues(s2.stream.after(4), t2.stream.after(4));
            i32_continues(s2.stream.after(4).after(4), t2.stream.after(4).after(4));
            let s5 = stream_i32(s2.stream.after(4).after(4));
            let t5 = stream_i32(t2.stream.after(4).after(4));
            let n = s5.result->Ok_0;
            if 0 <= n <= super::fastserial::MAX_TYPE_NAME {
                bytes_continue(s5.stream, t5.stream, n as int);
                let s6 = stream_bytes(s5.stream, n as int);
                let t6 = stream_bytes(t5.stream, n as int);
                tag_continues(s6.stream, t6.stream, tag::END_OBJECT, end_what);
            }
        }
    }
}

proof fn header_continues(s: Stream, t: Stream)
    requires
        continues(s, t),
        !(stream_object_header(s).result matches Err(Fault::Incomplete { .. })),
    ensures
        stream_object_header(t).result == stream_object_header(s).result,
        continues(stream_object_header(s).stream, stream_object_header(t).stream),
{
    u8_continues(s, t);
    if s.data[s.at] == tag::BEGIN_PRIVATE_OBJECT {
        type_continues(s.after(1), t.after(1));
    }
}

proof fn block_continues(s: Stream, t: Stream)
    requires
        continues(s, t),
        !(stream_block(s).result matches Err(Fault::Incomplete { .. })),
    ensures
        stream_block(t).result == stream_block(s).result,
        continues(stream_block(s).stream, stream_block(t).stream),
{
    i32_continues(s, t);
    let n = signed32(u32_at(s.data, s.at));
    if 0 <= n <= MAX_BLOCK_SIZE {
        let padding = padding_at(s.after(4).pos());
        bytes_continue(s.after(4), t.after(4), padding);
        let s2 = s.after(4).after(padding);
        let t2 = t.after(4).after(padding);
        bytes_continue(s2, t2, n as int);
        tag_continues(s2.after(n as int), t2.after(n as int), tag::END_OBJECT, "end of block"@);
    }
}

proof fn object_continues(p: ParserModel, q: ParserModel)
    requires
        ahead(p, q),
        !(object_step(p).result matches Err(Fault::Incomplete { .. })),
    ensures
        object_step(q).result == object_step(p).result,
        ahead(object_step(p).parser, object_step(q).parser),
{
    header_continues(p.stream, q.stream);
    let s = stream_object_header(p.stream);
    let t = stream_object_header(q.stream);
    if let Ok(Some(h)) = s.result {
        match BlockKind::named(h.object_type) {
            BlockKind::Trace => {
                bytes_continue(s.stream, t.stream, TRACE_BODY_SIZE as int);
                tag_continues(
                    s.stream.after(TRACE_BODY_SIZE as int),
                    t.stream.after(TRACE_BODY_SIZE as int),
                    tag::END_OBJECT,
                    "end of block"@,
                );
            },
            _ => {
                block_continues(s.stream, t.stream);
            },
        }
    }
}

/// However a stream is cut into pieces as it arrives, it says the same: what a parser makes of the
/// part at hand it also makes of it when more has arrived, and where it has to wait, it takes up
/// exactly where it left off.
pub proof fn cuts_do_not_matter(p: ParserModel, q: ParserModel)
    requires
        ahead(p, q),
    ensures
        match next_batch(p).0 {
            Err(Fault::Incomplete { .. }) => exists|r: ParserModel|
                ahead(next_batch(p).1, r) && next_batch(q) == #[trigger] next_batch(r),
            other => next_batch(q).0 == other && ahead(next_batch(p).1, next_batch(q).1),
        },
    decreases p.stream.left(),
{
    if !p.finished {
        object_moves_forward(p);
        let step = object_step(p);
        match step.result {
            Err(Fault::Incomplete { .. }) => {
                assert(next_batch(q) == next_batch(q));
            },
            _ => {
                object_continues(p, q);
                object_moves_forward(q);
                if step.result matches Ok(Absorbed::Quiet) {
                    cuts_do_not_matter(step.parser, object_step(q).parser);
                }
            },
        }
    }
}

/// Once the end of the stream has been reached, it stays reached.
pub proof fn the_end_is_final(p: ParserModel)
    requires
        p.stream.valid(),
        next_batch(p).0 matches Ok(None),
    ensures
        next_batch(next_batch(p).1) == next_batch(p),
    decreases p.stream.left(),
{
    if !p.finished {
        object_moves_forward(p);
        if object_step(p).result matches Ok(Absorbed::Quiet) {
            the_end_is_final(object_step(p).parser);
        }
    }
}

// ---------------------------------------------------------------------------------------------
// All of a stream

/// A batch of events, with what was known of the trace when it was handed out.
pub struct Batch {
    pub metadata: Map<u32, MetadataModel>,
    pub trace: TraceModel,
    pub events: Seq<EventModel>,
}

/// Everything a stream has to say: its batches in order, and the fault that ended it, if it did not
/// end by itself.
pub struct Heard {
    pub batches: Seq<Batch>,
    pub fault: Option<Fault>,
}

/// All the batches that a parser is still to hand out.
pub open spec fn heard(p: ParserModel) -> Heard
    decreases p.stream.left(),
    when p.stream.valid()
{
    let (batch, after) = next_batch(p);
    match batch {
        Err(f) => Heard { batches: Seq::empty(), fault: Some(f) },
        Ok(None) => Heard { batches: Seq::empty(), fault: None },
        Ok(Some(events)) => {
            proof {
                batches_move_forward(p);
            }
            let rest = heard(after);
            let first = Batch { metadata: after.metadata, trace: after.trace, events };
            Heard { batches: seq![first] + rest.batches, fault: rest.fault }
        },
    }
}

/// Whether two parsers are at the same place of the same stream and know the same of it, whatever
/// stacks they have at hand.
pub open spec fn reads_alike(p: ParserModel, q: ParserModel) -> bool {
    q == (ParserModel { stacks: q.stacks, sequence_point: q.sequence_point, ..p })
}

/// Which stacks are at hand does not decide what is read.
proof fn batches_alike(p: ParserModel, q: ParserModel)
    requires
        p.stream.valid(),
        reads_alike(p, q),
    ensures
        next_batch(p).0 == next_batch(q).0,
        reads_alike(next_batch(p).1, next_batch(q).1),
    decreases p.stream.left(),
{
    if !p.finished {
        object_moves_forward(p);
        object_moves_forward(q);
        assert(object_step(p).result == object_step(q).result);
        assert(reads_alike(object_step(p).parser, object_step(q).parser));
        if object_step(p).result matches Ok(Absorbed::Quiet) {
            batches_alike(object_step(p).parser, object_step(q).parser);
        }
    }
}

/// What a stream has to say does not depend on which stacks are let go of on the way.
pub proof fn stacks_do_not_steer(p: ParserModel, q: ParserModel)
    requires
        p.stream.valid(),
        reads_alike(p, q),
    ensures
        heard(p) == heard(q),
    decreases p.stream.left(),
{
    batches_alike(p, q);
    batches_move_forward(p);
    if next_batch(p).0 matches Ok(Some(_)) {
        stacks_do_not_steer(next_batch(p).1, next_batch(q).1);
    }
}

} // verus!
