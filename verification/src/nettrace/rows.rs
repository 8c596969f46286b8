//! How the rows of a block are written down, and what is read back of them.
use vstd::prelude::*;

use super::blocks::{event_rows, rows_from, EventModel};
use super::event::{
    blank_header, compressed_row, uncompressed_row, HeaderModel, Row, ACTIVITY_ID,
    CAPTURE_THREAD_AND_SEQUENCE, IS_SORTED, METADATA_ID, NOT_SORTED, PAYLOAD_SIZE,
    RELATED_ACTIVITY_ID, STACK_ID, THREAD_ID,
};
use super::reader::{
    good, leb_bytes, take_bytes, take_u32, take_u64, take_varuint32, take_varuint64,
    varint32_round_trip, varint_round_trip, Fault,
};
use crate::bytes::{held_is_between, held_u32, held_u64, holds, u16_at, u32_bytes, u64_bytes};

verus! {

/// Where an event was captured.
pub struct Capture {
    /// One less than the sequence number goes up by.
    pub step: u32,
    pub thread: u64,
    pub processor: u32,
}

/// A row as the runtime means it: what it says of the event, where it says it, and the payload.
pub struct WrittenRow {
    pub metadata_id: Option<u32>,
    pub capture: Option<Capture>,
    pub thread_id: Option<u64>,
    pub stack_id: Option<u32>,
    /// The time since the row before.
    pub elapsed: u64,
    pub activity_id: Option<Seq<u8>>,
    pub related_activity_id: Option<Seq<u8>>,
    pub sorted: bool,
    /// Whether the row says how long its payload is.
    pub sized: bool,
    pub payload: Seq<u8>,
}

pub open spec fn small_part(value: Option<u32>) -> Seq<u8> {
    match value {
        Some(v) => leb_bytes(v as nat),
        None => Seq::empty(),
    }
}

pub open spec fn large_part(value: Option<u64>) -> Seq<u8> {
    match value {
        Some(v) => leb_bytes(v as nat),
        None => Seq::empty(),
    }
}

pub open spec fn plain_part(value: Option<Seq<u8>>) -> Seq<u8> {
    match value {
        Some(bytes) => bytes,
        None => Seq::empty(),
    }
}

impl WrittenRow {
    /// Whether the row can be written: activities take sixteen bytes, and a payload is no longer
    /// than a size can say.
    pub open spec fn valid(self) -> bool {
        &&& self.activity_id is Some ==> self.activity_id->0.len() == 16
        &&& self.related_activity_id is Some ==> self.related_activity_id->0.len() == 16
        &&& self.payload.len() <= u32::MAX
    }

    /// The byte that says which of its values the row carries, one bit for each.
    pub open spec fn flags(self) -> u8 {
        (if self.metadata_id is Some { 0x01u8 } else { 0u8 })
        | (if self.capture is Some { 0x02u8 } else { 0u8 })
        | (if self.thread_id is Some { 0x04u8 } else { 0u8 })
        | (if self.stack_id is Some { 0x08u8 } else { 0u8 })
        | (if self.activity_id is Some { 0x10u8 } else { 0u8 })
        | (if self.related_activity_id is Some { 0x20u8 } else { 0u8 })
        | (if self.sorted { 0x40u8 } else { 0u8 })
        | (if self.sized { 0x80u8 } else { 0u8 })
    }

    pub open spec fn capture_part(self) -> Seq<u8> {
        match self.capture {
            Some(Capture { step, thread, processor }) => leb_bytes(step as nat) + (leb_bytes(thread as nat)
                + leb_bytes(processor as nat)),
            None => Seq::empty(),
        }
    }

    pub open spec fn size_part(self) -> Seq<u8> {
        if self.sized {
            leb_bytes(self.payload.len())
        } else {
            Seq::empty()
        }
    }

    /// Which event the row is about.
    pub open spec fn first_part(self) -> Seq<u8> {
        small_part(self.metadata_id) + self.capture_part()
    }

    /// Where and when the event happened.
    pub open spec fn second_part(self) -> Seq<u8> {
        large_part(self.thread_id) + (small_part(self.stack_id) + leb_bytes(self.elapsed as nat))
    }

    /// The activities of the event, and how long its payload is.
    pub open spec fn third_part(self) -> Seq<u8> {
        plain_part(self.activity_id) + (plain_part(self.related_activity_id) + self.size_part())
    }

    /// What stands before the payload.
    pub open spec fn header_bytes(self) -> Seq<u8> {
        seq![self.flags()] + (self.first_part() + (self.second_part() + self.third_part()))
    }

    pub open spec fn bytes(self) -> Seq<u8> {
        self.header_bytes() + self.payload
    }

    /// Whether a header says what this row does behind a row with the header `previous`: what the
    /// row does not say is as it was before.
    pub open spec fn read_as(self, previous: HeaderModel, h: HeaderModel) -> bool {
        &&& h.metadata_id == (if self.metadata_id is Some {
            self.metadata_id->0
        } else {
            previous.metadata_id
        })
        &&& self.capture is Some ==> {
            &&& h.sequence_number == (previous.sequence_number + self.capture->0.step + 1)
                % 0x1_0000_0000
            &&& h.capture_thread_id == self.capture->0.thread
            &&& h.processor_number == self.capture->0.processor
        }
        &&& self.capture is None ==> {
            &&& h.metadata_id != 0 ==> h.sequence_number == (previous.sequence_number + 1)
                % 0x1_0000_0000
            &&& h.metadata_id == 0 ==> h.sequence_number == previous.sequence_number
            &&& h.capture_thread_id == previous.capture_thread_id
            &&& h.processor_number == previous.processor_number
        }
        &&& h.thread_id == (if self.thread_id is Some {
            self.thread_id->0
        } else {
            previous.thread_id
        })
        &&& h.stack_id == (if self.stack_id is Some {
            self.stack_id->0
        } else {
            previous.stack_id
        })
        &&& h.timestamp == (previous.timestamp + self.elapsed) % 0x1_0000_0000_0000_0000
        &&& h.activity_id == (if self.activity_id is Some {
            self.activity_id->0
        } else {
            previous.activity_id
        })
        &&& h.related_activity_id == (if self.related_activity_id is Some {
            self.related_activity_id->0
        } else {
            previous.related_activity_id
        })
        &&& h.is_sorted == self.sorted
        &&& h.payload_size == (if self.sized {
            self.payload.len()
        } else {
            previous.payload_size as nat
        })
    }
}

// ---------------------------------------------------------------------------------------------
// Parts of a buffer

pub(crate) proof fn held_parts(b: Seq<u8>, p: int, x: Seq<u8>, y: Seq<u8>)
    requires
        holds(b, p, x + y),
    ensures
        holds(b, p, x),
        holds(b, (p + x.len()) as int, y),
        (x + y).len() == x.len() + y.len(),
{
    let whole = b.subrange(p, (p + (x + y).len()) as int);
    assert(b.subrange(p, p + x.len()) =~= whole.take(x.len() as int));
    assert(whole.take(x.len() as int) =~= x);
    assert(b.subrange((p + x.len()) as int, (p + x.len() + y.len()) as int) =~= whole.skip(
        x.len() as int,
    ));
    assert(whole.skip(x.len() as int) =~= y);
}

proof fn held_small(b: Seq<u8>, p: int, v: u32)
    requires
        holds(b, p, leb_bytes(v as nat)),
    ensures
        take_varuint32(b, p) == good(v, (p + leb_bytes(v as nat).len()) as int),
{
    held_is_between(b, p, leb_bytes(v as nat));
    varint32_round_trip(b.take(p), v, b.skip((p + leb_bytes(v as nat).len()) as int));
}

proof fn held_large(b: Seq<u8>, p: int, v: u64)
    requires
        holds(b, p, leb_bytes(v as nat)),
    ensures
        take_varuint64(b, p) == good(v, (p + leb_bytes(v as nat).len()) as int),
{
    held_is_between(b, p, leb_bytes(v as nat));
    varint_round_trip(b.take(p), v, b.skip((p + leb_bytes(v as nat).len()) as int));
}

proof fn held_flags(r: WrittenRow)
    ensures
        r.flags() & METADATA_ID != 0 <==> r.metadata_id is Some,
        r.flags() & CAPTURE_THREAD_AND_SEQUENCE != 0 <==> r.capture is Some,
        r.flags() & THREAD_ID != 0 <==> r.thread_id is Some,
        r.flags() & STACK_ID != 0 <==> r.stack_id is Some,
        r.flags() & ACTIVITY_ID != 0 <==> r.activity_id is Some,
        r.flags() & RELATED_ACTIVITY_ID != 0 <==> r.related_activity_id is Some,
        r.flags() & IS_SORTED != 0 <==> r.sorted,
        r.flags() & PAYLOAD_SIZE != 0 <==> r.sized,
{
    let a = if r.metadata_id is Some { 0x01u8 } else { 0u8 };
    let b = if r.capture is Some { 0x02u8 } else { 0u8 };
    let c = if r.thread_id is Some { 0x04u8 } else { 0u8 };
    let d = if r.stack_id is Some { 0x08u8 } else { 0u8 };
    let e = if r.activity_id is Some { 0x10u8 } else { 0u8 };
    let f = if r.related_activity_id is Some { 0x20u8 } else { 0u8 };
    let g = if r.sorted { 0x40u8 } else { 0u8 };
    let h = if r.sized { 0x80u8 } else { 0u8 };
    let all = a | b | c | d | e | f | g | h;
    assert(all & 0x01 == a && all & 0x02 == b && all & 0x04 == c && all & 0x08 == d && all & 0x10
        == e && all & 0x20 == f && all & 0x40 == g && all & 0x80 == h) by (bit_vector)
        requires
            a == 0 || a == 0x01,
            b == 0 || b == 0x02,
            c == 0 || c == 0x04,
            d == 0 || d == 0x08,
            e == 0 || e == 0x10,
            f == 0 || f == 0x20,
            g == 0 || g == 0x40,
            h == 0 || h == 0x80,
            all == a | b | c | d | e | f | g | h,
    ;
}

proof fn first_part_reads_back(r: WrittenRow, start: Row, b: Seq<u8>)
    requires
        start.fault is None,
        holds(b, start.pos, r.first_part()),
    ensures
        ({
            let row = start.numbered(b, r.flags());
            let h = row.header;
            let previous = start.header;
            &&& row.fault is None
            &&& row.pos == start.pos + r.first_part().len()
            &&& h.metadata_id == (if r.metadata_id is Some {
                r.metadata_id->0
            } else {
                previous.metadata_id
            })
            &&& r.capture is Some ==> {
                &&& h.sequence_number == (previous.sequence_number + r.capture->0.step + 1)
                    % 0x1_0000_0000
                &&& h.capture_thread_id == r.capture->0.thread
                &&& h.processor_number == r.capture->0.processor
            }
            &&& r.capture is None ==> {
                &&& h.metadata_id != 0 ==> h.sequence_number == (previous.sequence_number + 1)
                    % 0x1_0000_0000
                &&& h.metadata_id == 0 ==> h.sequence_number == previous.sequence_number
                &&& h.capture_thread_id == previous.capture_thread_id
                &&& h.processor_number == previous.processor_number
            }
            &&& h.thread_id == previous.thread_id
            &&& h.stack_id == previous.stack_id
            &&& h.timestamp == previous.timestamp
            &&& h.activity_id == previous.activity_id
            &&& h.related_activity_id == previous.related_activity_id
            &&& h.payload_size == previous.payload_size
        }),
{
    let p = start.pos;
    held_flags(r);
    held_parts(b, p, small_part(r.metadata_id), r.capture_part());
    if let Some(v) = r.metadata_id {
        held_small(b, p, v);
    }
    let q = (p + small_part(r.metadata_id).len()) as int;
    assert(start.metadata_id(b, r.flags()).pos == q);
    if let Some(Capture { step, thread, processor }) = r.capture {
        let last = leb_bytes(processor as nat);
        held_parts(b, q, leb_bytes(step as nat), leb_bytes(thread as nat) + last);
        held_small(b, q, step);
        let s = (q + leb_bytes(step as nat).len()) as int;
        held_parts(b, s, leb_bytes(thread as nat), last);
        held_large(b, s, thread);
        held_small(b, (s + leb_bytes(thread as nat).len()) as int, processor);
    }
}

proof fn second_part_reads_back(r: WrittenRow, start: Row, b: Seq<u8>)
    requires
        start.fault is None,
        holds(b, start.pos, r.second_part()),
    ensures
        ({
            let previous = start.header;
            start.timed(b, r.flags()) == Row {
                header: HeaderModel {
                    thread_id: if r.thread_id is Some {
                        r.thread_id->0
                    } else {
                        previous.thread_id
                    },
                    stack_id: if r.stack_id is Some {
                        r.stack_id->0
                    } else {
                        previous.stack_id
                    },
                    timestamp: ((previous.timestamp + r.elapsed)
                        % 0x1_0000_0000_0000_0000) as u64,
                    ..previous
                },
                fault: None,
                pos: start.pos + r.second_part().len(),
            }
        }),
{
    let p = start.pos;
    held_flags(r);
    let tail = leb_bytes(r.elapsed as nat);
    held_parts(b, p, large_part(r.thread_id), small_part(r.stack_id) + tail);
    if let Some(v) = r.thread_id {
        held_large(b, p, v);
    }
    let q = (p + large_part(r.thread_id).len()) as int;
    held_parts(b, q, small_part(r.stack_id), tail);
    if let Some(v) = r.stack_id {
        held_small(b, q, v);
    }
    let s = (q + small_part(r.stack_id).len()) as int;
    held_large(b, s, r.elapsed);
}

proof fn third_part_reads_back(r: WrittenRow, start: Row, b: Seq<u8>)
    requires
        r.valid(),
        start.fault is None,
        holds(b, start.pos, r.third_part()),
    ensures
        ({
            let previous = start.header;
            start.described(b, r.flags()) == Row {
                header: HeaderModel {
                    activity_id: if r.activity_id is Some {
                        r.activity_id->0
                    } else {
                        previous.activity_id
                    },
                    related_activity_id: if r.related_activity_id is Some {
                        r.related_activity_id->0
                    } else {
                        previous.related_activity_id
                    },
                    is_sorted: r.sorted,
                    payload_size: if r.sized {
                        r.payload.len() as u32
                    } else {
                        previous.payload_size
                    },
                    ..previous
                },
                fault: None,
                pos: start.pos + r.third_part().len(),
            }
        }),
{
    let p = start.pos;
    held_flags(r);
    held_parts(
        b,
        p,
        plain_part(r.activity_id),
        plain_part(r.related_activity_id) + r.size_part(),
    );
    let q = (p + plain_part(r.activity_id).len()) as int;
    held_parts(b, q, plain_part(r.related_activity_id), r.size_part());
    let s = (q + plain_part(r.related_activity_id).len()) as int;
    if r.sized {
        held_small(b, s, r.payload.len() as u32);
    }
}

/// A header that is written down reads back as what it says, wherever it stands and whatever came
/// before it: every value that it carries is taken from it, in the order in which values are
/// written, every value that it does not carry is the one of the row before, and nothing behind it
/// is read.
pub proof fn headers_read_back(r: WrittenRow, previous: HeaderModel, b: Seq<u8>, p: int)
    requires
        r.valid(),
        holds(b, p, r.header_bytes()),
    ensures
        ({
            let row = compressed_row(previous, b, p);
            &&& row.fault is None
            &&& row.pos == p + r.header_bytes().len()
            &&& r.read_as(previous, row.header)
        }),
{
    reveal(compressed_row);
    let f = r.flags();
    let rest = r.first_part() + (r.second_part() + r.third_part());
    held_parts(b, p, seq![f], rest);
    assert(b[p] == b.subrange(p, p + 1)[0]);
    let start = Row { header: previous, fault: None, pos: p + 1 };
    held_parts(b, p + 1, r.first_part(), r.second_part() + r.third_part());
    first_part_reads_back(r, start, b);
    let numbered = start.numbered(b, f);
    held_parts(b, numbered.pos, r.second_part(), r.third_part());
    second_part_reads_back(r, numbered, b);
    let timed = numbered.timed(b, f);
    third_part_reads_back(r, timed, b);
}

// ---------------------------------------------------------------------------------------------
// All rows of a block

/// Rows as they are written, one behind the other.
pub open spec fn rows_bytes(rows: Seq<WrittenRow>) -> Seq<u8>
    decreases rows.len(),
{
    if rows.len() == 0 {
        Seq::empty()
    } else {
        rows[0].bytes() + rows_bytes(rows.skip(1))
    }
}

/// Whether rows can be written behind a payload of some size: a row that does not say how long its
/// payload is has one as long as that of the row before.
pub open spec fn rows_valid(rows: Seq<WrittenRow>, size: nat) -> bool {
    &&& forall|k: int| 0 <= k < rows.len() ==> (#[trigger] rows[k]).valid()
    &&& forall|k: int|
        0 <= k < rows.len() && !(#[trigger] rows[k]).sized ==> rows[k].payload.len() == (if k
            == 0 {
            size
        } else {
            rows[k - 1].payload.len()
        })
}

/// Whether events are those of some rows, behind a row with the header `previous`: one for each,
/// with its payload, at the time that has passed since the row before, and with the ids that the
/// row says or else those of the event before.
pub open spec fn events_of_rows(
    events: Seq<EventModel>,
    rows: Seq<WrittenRow>,
    previous: HeaderModel,
) -> bool {
    &&& events.len() == rows.len()
    &&& forall|k: int| 0 <= k < rows.len() ==> (#[trigger] events[k]).payload == rows[k].payload
    &&& forall|k: int|
        0 <= k < rows.len() && rows[k].metadata_id is Some ==> (#[trigger] events[k]).metadata_id
            == rows[k].metadata_id->0
    &&& forall|k: int|
        0 <= k < rows.len() && rows[k].metadata_id is None ==> (#[trigger] events[k]).metadata_id
            == (if k == 0 {
            previous.metadata_id
        } else {
            events[k - 1].metadata_id
        })
    &&& forall|k: int|
        0 <= k < rows.len() && rows[k].stack_id is Some ==> (#[trigger] events[k]).stack_id
            == rows[k].stack_id->0
    &&& forall|k: int|
        0 <= k < rows.len() && rows[k].stack_id is None ==> (#[trigger] events[k]).stack_id == (
        if k == 0 {
            previous.stack_id
        } else {
            events[k - 1].stack_id
        })
    &&& forall|k: int|
        0 <= k < rows.len() ==> (#[trigger] events[k]).timestamp == ((if k == 0 {
            previous.timestamp
        } else {
            events[k - 1].timestamp
        }) + rows[k].elapsed) % 0x1_0000_0000_0000_0000
}

proof fn rows_read_back(rows: Seq<WrittenRow>, previous: HeaderModel, b: Seq<u8>, p: int)
    requires
        rows_valid(rows, previous.payload_size as nat),
        holds(b, p, rows_bytes(rows)),
        p + rows_bytes(rows).len() == b.len(),
    ensures
        rows_from(previous, b, p, true) is Ok,
        events_of_rows(rows_from(previous, b, p, true)->Ok_0, rows, previous),
    decreases rows.len(),
{
    if rows.len() > 0 {
        let r = rows[0];
        let rest = rows.skip(1);
        held_parts(b, p, r.bytes(), rows_bytes(rest));
        held_parts(b, p, r.header_bytes(), r.payload);
        headers_read_back(r, previous, b, p);
        let row = compressed_row(previous, b, p);
        assert(row.header.payload_size == r.payload.len());
        let q = (row.pos + r.payload.len()) as int;
        assert(take_bytes(b, row.pos, r.payload.len() as int, "event payload"@) == good(
            r.payload,
            q,
        ));
        assert(rows_valid(rest, row.header.payload_size as nat)) by {
            assert forall|k: int| 0 <= k < rest.len() implies (#[trigger] rest[k]).valid() by {
                assert(rest[k] == rows[k + 1]);
            }
            assert forall|k: int| 0 <= k < rest.len() && !(#[trigger] rest[k]).sized implies rest[k]
                .payload.len() == (if k == 0 {
                row.header.payload_size as nat
            } else {
                rest[k - 1].payload.len()
            }) by {
                assert(rest[k] == rows[k + 1]);
            }
        }
        rows_read_back(rest, row.header, b, q);
        let later = rows_from(row.header, b, q, true)->Ok_0;
        let first = EventModel {
            metadata_id: row.header.metadata_id,
            timestamp: row.header.timestamp,
            stack_id: row.header.stack_id,
            payload: r.payload,
        };
        let events = seq![first] + later;
        assert(rows_from(previous, b, p, true) == Ok::<_, Fault>(events));
        assert forall|k: int| 0 < k < rows.len() implies #[trigger] events[k] == later[k - 1]
            && rows[k] == rest[k - 1] by {}
        assert(events_of_rows(events, rows, previous));
    }
}

/// A block that is written from rows reads back as those rows: one event for each, in order, with
/// its payload, and with its time counted on from the row before. An id that a row carries is the
/// id of its event. Where a row does not carry its metadata id or its stack id, its event has that
/// of the event before, and the first has zero. Nothing that the header of the block holds besides
/// its size and its flags matters.
pub proof fn blocks_read_back(header: Seq<u8>, rows: Seq<WrittenRow>)
    requires
        header.len() >= 20,
        u16_at(header, 0) == header.len(),
        u16_at(header, 2) % 2 == 1,
        rows_valid(rows, 0),
    ensures
        event_rows(header + rows_bytes(rows)) is Ok,
        ({
            let events = event_rows(header + rows_bytes(rows))->Ok_0;
            &&& events.len() == rows.len()
            &&& forall|k: int|
                0 <= k < rows.len() ==> (#[trigger] events[k]).payload == rows[k].payload
            &&& forall|k: int|
                0 <= k < rows.len() && rows[k].metadata_id is Some ==> (
                #[trigger] events[k]).metadata_id == rows[k].metadata_id->0
            &&& forall|k: int|
                0 < k < rows.len() && rows[k].metadata_id is None ==> (
                #[trigger] events[k]).metadata_id == events[k - 1].metadata_id
            &&& rows.len() > 0 && rows[0].metadata_id is None ==> events[0].metadata_id == 0
            &&& forall|k: int|
                0 <= k < rows.len() && rows[k].stack_id is Some ==> (#[trigger] events[k]).stack_id
                    == rows[k].stack_id->0
            &&& forall|k: int|
                0 < k < rows.len() && rows[k].stack_id is None ==> (#[trigger] events[k]).stack_id
                    == events[k - 1].stack_id
            &&& rows.len() > 0 && rows[0].stack_id is None ==> events[0].stack_id == 0
            &&& forall|k: int|
                0 < k < rows.len() ==> (#[trigger] events[k]).timestamp == (events[k - 1].timestamp
                    + rows[k].elapsed) % 0x1_0000_0000_0000_0000
            &&& rows.len() > 0 ==> events[0].timestamp == rows[0].elapsed
        }),
{
    let b = header + rows_bytes(rows);
    header_reads_back(header, rows_bytes(rows));
    let bits = u16_at(header, 2);
    assert(bits & 1 != 0) by (bit_vector)
        requires
            bits % 2 == 1,
    ;
    assert(b.subrange(header.len() as int, b.len() as int) =~= rows_bytes(rows));
    rows_read_back(rows, blank_header(), b, header.len() as int);
}

proof fn header_reads_back(header: Seq<u8>, rest: Seq<u8>)
    requires
        header.len() >= 20,
        u16_at(header, 0) == header.len(),
    ensures
        event_rows(header + rest) == rows_from(
            blank_header(),
            header + rest,
            header.len() as int,
            u16_at(header, 2) & 1 != 0,
        ),
{
    let b = header + rest;
    assert(b[0] == header[0] && b[1] == header[1] && b[2] == header[2] && b[3] == header[3]);
}

// ---------------------------------------------------------------------------------------------
// Rows that are not compressed

/// A row that carries every value.
pub struct PlainRow {
    pub size: u32,
    pub metadata_id: u32,
    pub sorted: bool,
    pub sequence_number: u32,
    pub thread_id: u64,
    pub capture_thread_id: u64,
    pub processor_number: u32,
    pub stack_id: u32,
    pub timestamp: u64,
    pub activity_id: Seq<u8>,
    pub related_activity_id: Seq<u8>,
    pub payload: Seq<u8>,
}

impl PlainRow {
    /// Whether the row can be written: its id leaves room for one bit, activities take sixteen
    /// bytes, and a payload is no longer than a size can say.
    pub open spec fn valid(self) -> bool {
        &&& self.metadata_id < 0x8000_0000
        &&& self.activity_id.len() == 16
        &&& self.related_activity_id.len() == 16
        &&& self.payload.len() <= u32::MAX
    }

    /// The id, with the high bit set where the row is *not* sorted.
    pub open spec fn marked_id(self) -> u32 {
        if self.sorted {
            self.metadata_id
        } else {
            (self.metadata_id + 0x8000_0000) as u32
        }
    }

    /// Which event the row is about, and the threads it came from.
    pub open spec fn first_part(self) -> Seq<u8> {
        u32_bytes(self.size) + (u32_bytes(self.marked_id()) + (u32_bytes(self.sequence_number) + (
        u64_bytes(self.thread_id) + u64_bytes(self.capture_thread_id))))
    }

    /// Where and when the event happened, its activities, and how long its payload is.
    pub open spec fn second_part(self) -> Seq<u8> {
        u32_bytes(self.processor_number) + (u32_bytes(self.stack_id) + (u64_bytes(self.timestamp)
            + (self.activity_id + (self.related_activity_id + u32_bytes(
            self.payload.len() as u32,
        )))))
    }

    pub open spec fn header_bytes(self) -> Seq<u8> {
        self.first_part() + self.second_part()
    }

    pub open spec fn bytes(self) -> Seq<u8> {
        self.header_bytes() + self.payload
    }
}

pub(crate) proof fn held_word(b: Seq<u8>, p: int, v: u32, rest: Seq<u8>)
    requires
        holds(b, p, u32_bytes(v) + rest),
    ensures
        take_u32(b, p) == good(v, p + 4),
        holds(b, p + 4, rest),
{
    held_parts(b, p, u32_bytes(v), rest);
    held_u32(b, p, v);
}

pub(crate) proof fn held_long(b: Seq<u8>, p: int, v: u64, rest: Seq<u8>)
    requires
        holds(b, p, u64_bytes(v) + rest),
    ensures
        take_u64(b, p) == good(v, p + 8),
        holds(b, p + 8, rest),
{
    held_parts(b, p, u64_bytes(v), rest);
    held_u64(b, p, v);
}

proof fn held_run(b: Seq<u8>, p: int, run: Seq<u8>, rest: Seq<u8>, what: Seq<char>)
    requires
        run.len() == 16,
        holds(b, p, run + rest),
    ensures
        take_bytes(b, p, 16, what) == good(run, p + 16),
        holds(b, p + 16, rest),
{
    held_parts(b, p, run, rest);
}

proof fn marks_read_back(r: PlainRow)
    requires
        r.valid(),
    ensures
        r.marked_id() & 0x7FFF_FFFF == r.metadata_id,
        r.marked_id() & NOT_SORTED == 0 <==> r.sorted,
{
    let id = r.metadata_id;
    let marked = (id + 0x8000_0000) as u32;
    assert(marked & 0x7FFF_FFFF == id && marked & 0x8000_0000 != 0 && id & 0x7FFF_FFFF == id && id
        & 0x8000_0000 == 0) by (bit_vector)
        requires
            id < 0x8000_0000,
            marked == (id + 0x8000_0000) as u32,
    ;
}

proof fn plain_ids_read_back(r: PlainRow, start: Row, b: Seq<u8>)
    requires
        r.valid(),
        start.fault is None,
        holds(b, start.pos, r.first_part()),
    ensures
        r.first_part().len() == 28,
        start.plain_ids(b) == (Row {
            header: HeaderModel {
                metadata_id: r.metadata_id,
                is_sorted: r.sorted,
                sequence_number: r.sequence_number,
                thread_id: r.thread_id,
                capture_thread_id: r.capture_thread_id,
                ..start.header
            },
            fault: None,
            pos: start.pos + 28,
        }),
{
    let p = start.pos;
    let t5 = u64_bytes(r.capture_thread_id);
    let t4 = u64_bytes(r.thread_id) + t5;
    let t3 = u32_bytes(r.sequence_number) + t4;
    let t2 = u32_bytes(r.marked_id()) + t3;
    held_word(b, p, r.size, t2);
    held_word(b, p + 4, r.marked_id(), t3);
    held_word(b, p + 8, r.sequence_number, t4);
    held_long(b, p + 12, r.thread_id, t5);
    assert(t5 + Seq::<u8>::empty() =~= t5);
    held_long(b, p + 20, r.capture_thread_id, Seq::empty());
    marks_read_back(r);
}

proof fn plain_rest_reads_back(r: PlainRow, start: Row, b: Seq<u8>)
    requires
        r.valid(),
        start.fault is None,
        holds(b, start.pos, r.second_part()),
    ensures
        r.second_part().len() == 52,
        start.plain_rest(b) == (Row {
            header: HeaderModel {
                processor_number: r.processor_number,
                stack_id: r.stack_id,
                timestamp: r.timestamp,
                activity_id: r.activity_id,
                related_activity_id: r.related_activity_id,
                payload_size: r.payload.len() as u32,
                ..start.header
            },
            fault: None,
            pos: start.pos + 52,
        }),
{
    let p = start.pos;
    let t6 = u32_bytes(r.payload.len() as u32);
    let t5 = r.related_activity_id + t6;
    let t4 = r.activity_id + t5;
    let t3 = u64_bytes(r.timestamp) + t4;
    let t2 = u32_bytes(r.stack_id) + t3;
    held_word(b, p, r.processor_number, t2);
    held_word(b, p + 4, r.stack_id, t3);
    held_long(b, p + 8, r.timestamp, t4);
    held_run(b, p + 16, r.activity_id, t5, "activity id"@);
    held_run(b, p + 32, r.related_activity_id, t6, "related activity id"@);
    assert(t6 + Seq::<u8>::empty() =~= t6);
    held_word(b, p + 48, r.payload.len() as u32, Seq::empty());
}

/// A header that is not compressed reads back as what it says, whatever came before it: each value
/// is the one that is written in its place.
pub proof fn plain_headers_read_back(r: PlainRow, previous: HeaderModel, b: Seq<u8>, p: int)
    requires
        r.valid(),
        holds(b, p, r.header_bytes()),
    ensures
        uncompressed_row(previous, b, p) == (Row {
            header: HeaderModel {
                metadata_id: r.metadata_id,
                sequence_number: r.sequence_number,
                capture_thread_id: r.capture_thread_id,
                processor_number: r.processor_number,
                thread_id: r.thread_id,
                stack_id: r.stack_id,
                timestamp: r.timestamp,
                activity_id: r.activity_id,
                related_activity_id: r.related_activity_id,
                is_sorted: r.sorted,
                payload_size: r.payload.len() as u32,
            },
            fault: None,
            pos: p + 80,
        }),
        r.header_bytes().len() == 80,
{
    reveal(uncompressed_row);
    let start = Row { header: previous, fault: None, pos: p };
    held_parts(b, p, r.first_part(), r.second_part());
    plain_ids_read_back(r, start, b);
    plain_rest_reads_back(r, start.plain_ids(b), b);
}

/// Rows that are not compressed, one behind the other.
pub open spec fn plain_rows_bytes(rows: Seq<PlainRow>) -> Seq<u8>
    decreases rows.len(),
{
    if rows.len() == 0 {
        Seq::empty()
    } else {
        rows[0].bytes() + plain_rows_bytes(rows.skip(1))
    }
}

/// The event of a row that carries every value.
pub open spec fn plain_event(r: PlainRow) -> EventModel {
    EventModel {
        metadata_id: r.metadata_id,
        timestamp: r.timestamp,
        stack_id: r.stack_id,
        payload: r.payload,
    }
}

proof fn plain_rows_read_back(rows: Seq<PlainRow>, previous: HeaderModel, b: Seq<u8>, p: int)
    requires
        forall|k: int| 0 <= k < rows.len() ==> (#[trigger] rows[k]).valid(),
        holds(b, p, plain_rows_bytes(rows)),
        p + plain_rows_bytes(rows).len() == b.len(),
    ensures
        rows_from(previous, b, p, false) == Ok::<_, Fault>(
            Seq::new(rows.len(), |k: int| plain_event(rows[k])),
        ),
    decreases rows.len(),
{
    let events = Seq::new(rows.len(), |k: int| plain_event(rows[k]));
    if rows.len() == 0 {
        assert(events =~= Seq::<EventModel>::empty());
    } else {
        let r = rows[0];
        let rest = rows.skip(1);
        held_parts(b, p, r.bytes(), plain_rows_bytes(rest));
        held_parts(b, p, r.header_bytes(), r.payload);
        plain_headers_read_back(r, previous, b, p);
        let row = uncompressed_row(previous, b, p);
        let q = (row.pos + r.payload.len()) as int;
        assert(take_bytes(b, row.pos, r.payload.len() as int, "event payload"@) == good(
            r.payload,
            q,
        ));
        assert forall|k: int| 0 <= k < rest.len() implies (#[trigger] rest[k]).valid() by {
            assert(rest[k] == rows[k + 1]);
        }
        plain_rows_read_back(rest, row.header, b, q);
        let later = Seq::new(rest.len(), |k: int| plain_event(rest[k]));
        assert(seq![plain_event(r)] + later =~= events);
    }
}

/// A block that is written from rows that carry every value reads back as those rows: one event for
/// each, in order, with its own ids, its own time and its own payload.
pub proof fn plain_blocks_read_back(header: Seq<u8>, rows: Seq<PlainRow>)
    requires
        header.len() >= 20,
        u16_at(header, 0) == header.len(),
        u16_at(header, 2) % 2 == 0,
        forall|k: int| 0 <= k < rows.len() ==> (#[trigger] rows[k]).valid(),
    ensures
        event_rows(header + plain_rows_bytes(rows)) == Ok::<_, Fault>(
            Seq::new(
                rows.len(),
                |k: int|
                    EventModel {
                        metadata_id: rows[k].metadata_id,
                        timestamp: rows[k].timestamp,
                        stack_id: rows[k].stack_id,
                        payload: rows[k].payload,
                    },
            ),
        ),
{
    let b = header + plain_rows_bytes(rows);
    header_reads_back(header, plain_rows_bytes(rows));
    let bits = u16_at(header, 2);
    assert(bits & 1 == 0) by (bit_vector)
        requires
            bits % 2 == 0,
    ;
    assert(b.subrange(header.len() as int, b.len() as int) =~= plain_rows_bytes(rows));
    plain_rows_read_back(rows, blank_header(), b, header.len() as int);
    assert(Seq::new(rows.len(), |k: int| plain_event(rows[k])) =~= Seq::new(
        rows.len(),
        |k: int|
            EventModel {
                metadata_id: rows[k].metadata_id,
                timestamp: rows[k].timestamp,
                stack_id: rows[k].stack_id,
                payload: rows[k].payload,
            },
    ));
}

/// A block whose header is shorter than a header can be, or does not fit in the block, is refused.
pub proof fn bad_block_headers_are_refused(content: Seq<u8>)
    ensures
        content.len() < 4 ==> event_rows(content) is Err,
        content.len() >= 2 && u16_at(content, 0) < 20 ==> event_rows(content) is Err,
        content.len() >= 2 && u16_at(content, 0) > content.len() ==> event_rows(content) is Err,
{
}

} // verus!
