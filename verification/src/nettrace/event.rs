//! Event blob headers.
//!
//! Within a block, headers are delta-encoded against the previous row: a flag bit that is clear
//! means "reuse the previous value", not "zero". State resets at every block boundary.
use vstd::prelude::*;

use super::reader::{
    take_bytes, take_leb, take_u32, take_u64, take_u8, take_varuint32, take_varuint64, Fault,
    Parsed, Reader, Result,
};

verus! {

pub const METADATA_ID: u8 = 0x01;

/// Sets three fields at once: sequence number, capture thread id, processor number.
pub const CAPTURE_THREAD_AND_SEQUENCE: u8 = 0x02;

pub const THREAD_ID: u8 = 0x04;

pub const STACK_ID: u8 = 0x08;

pub const ACTIVITY_ID: u8 = 0x10;

pub const RELATED_ACTIVITY_ID: u8 = 0x20;

/// Not a presence bit: this *is* the IsSorted value.
pub const IS_SORTED: u8 = 0x40;

pub const PAYLOAD_SIZE: u8 = 0x80;

/// Marks an uncompressed row whose events are *not* sorted.
pub const NOT_SORTED: u32 = 0x8000_0000;

#[derive(Debug, Clone)]
pub struct EventHeader {
    pub metadata_id: u32,
    pub sequence_number: u32,
    pub capture_thread_id: u64,
    pub processor_number: u32,
    pub thread_id: u64,
    pub stack_id: u32,
    pub timestamp: u64,
    pub activity_id: [u8; 16],
    pub related_activity_id: [u8; 16],
    pub is_sorted: bool,
    pub payload_size: u32,
}

/// An [`EventHeader`] with its ids as byte sequences.
pub struct HeaderModel {
    pub metadata_id: u32,
    pub sequence_number: u32,
    pub capture_thread_id: u64,
    pub processor_number: u32,
    pub thread_id: u64,
    pub stack_id: u32,
    pub timestamp: u64,
    pub activity_id: Seq<u8>,
    pub related_activity_id: Seq<u8>,
    pub is_sorted: bool,
    pub payload_size: u32,
}

impl View for EventHeader {
    type V = HeaderModel;

    open spec fn view(&self) -> HeaderModel {
        HeaderModel {
            metadata_id: self.metadata_id,
            sequence_number: self.sequence_number,
            capture_thread_id: self.capture_thread_id,
            processor_number: self.processor_number,
            thread_id: self.thread_id,
            stack_id: self.stack_id,
            timestamp: self.timestamp,
            activity_id: self.activity_id@,
            related_activity_id: self.related_activity_id@,
            is_sorted: self.is_sorted,
            payload_size: self.payload_size,
        }
    }
}

/// The header every block starts from.
pub open spec fn blank_header() -> HeaderModel {
    HeaderModel {
        metadata_id: 0,
        sequence_number: 0,
        capture_thread_id: 0,
        processor_number: 0,
        thread_id: 0,
        stack_id: 0,
        timestamp: 0,
        activity_id: Seq::new(16, |i: int| 0u8),
        related_activity_id: Seq::new(16, |i: int| 0u8),
        is_sorted: false,
        payload_size: 0,
    }
}

/// A header part way through being read: what it holds so far, where reading stands, and the fault
/// that stopped it, if one did.
pub struct Row {
    pub header: HeaderModel,
    pub fault: Option<Fault>,
    pub pos: int,
}

impl Row {
    /// The row after one more value has been read: `f` of the value goes into the header.
    pub open spec fn with<T>(self, value: Parsed<T>, f: spec_fn(T) -> HeaderModel) -> Row {
        if self.fault is Some {
            self
        } else {
            match value.result {
                Ok(v) => Row { header: f(v), fault: None, pos: value.pos },
                Err(e) => Row { header: self.header, fault: Some(e), pos: value.pos },
            }
        }
    }

    /// The row with the metadata id read, if the row carries one.
    pub open spec fn metadata_id(self, b: Seq<u8>, flags: u8) -> Row {
        if flags & METADATA_ID != 0 {
            self.with(
                take_varuint32(b, self.pos),
                |v: u32| HeaderModel { metadata_id: v, ..self.header },
            )
        } else {
            self
        }
    }

    /// The row with its sequence number settled. The stored increment is one below the true one.
    /// Without one, the number goes up by one, except on metadata rows, which have id zero.
    pub open spec fn sequence(self, b: Seq<u8>, flags: u8) -> Row {
        if flags & CAPTURE_THREAD_AND_SEQUENCE != 0 {
            self.with(
                take_varuint32(b, self.pos),
                |v: u32|
                    HeaderModel {
                        sequence_number: ((self.header.sequence_number + v + 1)
                            % 0x1_0000_0000) as u32,
                        ..self.header
                    },
            ).capture_thread(b).processor(b)
        } else if self.fault is None && self.header.metadata_id != 0 {
            Row {
                header: HeaderModel {
                    sequence_number: ((self.header.sequence_number + 1) % 0x1_0000_0000) as u32,
                    ..self.header
                },
                ..self
            }
        } else {
            self
        }
    }

    pub open spec fn capture_thread(self, b: Seq<u8>) -> Row {
        self.with(
            take_varuint64(b, self.pos),
            |v: u64| HeaderModel { capture_thread_id: v, ..self.header },
        )
    }

    pub open spec fn processor(self, b: Seq<u8>) -> Row {
        self.with(
            take_varuint32(b, self.pos),
            |v: u32| HeaderModel { processor_number: v, ..self.header },
        )
    }

    pub open spec fn thread_id(self, b: Seq<u8>, flags: u8) -> Row {
        if flags & THREAD_ID != 0 {
            self.with(
                take_varuint64(b, self.pos),
                |v: u64| HeaderModel { thread_id: v, ..self.header },
            )
        } else {
            self
        }
    }

    pub open spec fn stack_id(self, b: Seq<u8>, flags: u8) -> Row {
        if flags & STACK_ID != 0 {
            self.with(
                take_varuint32(b, self.pos),
                |v: u32| HeaderModel { stack_id: v, ..self.header },
            )
        } else {
            self
        }
    }

    /// The row with its time set: always present, always a delta against the previous row.
    pub open spec fn timestamp(self, b: Seq<u8>) -> Row {
        self.with(
            take_varuint64(b, self.pos),
            |v: u64|
                HeaderModel {
                    timestamp: ((self.header.timestamp + v) % 0x1_0000_0000_0000_0000) as u64,
                    ..self.header
                },
        )
    }

    pub open spec fn activity_id(self, b: Seq<u8>, flags: u8) -> Row {
        if flags & ACTIVITY_ID != 0 {
            self.with(
                take_bytes(b, self.pos, 16, "activity id"@),
                |v: Seq<u8>| HeaderModel { activity_id: v, ..self.header },
            )
        } else {
            self
        }
    }

    pub open spec fn related_activity_id(self, b: Seq<u8>, flags: u8) -> Row {
        if flags & RELATED_ACTIVITY_ID != 0 {
            self.with(
                take_bytes(b, self.pos, 16, "related activity id"@),
                |v: Seq<u8>| HeaderModel { related_activity_id: v, ..self.header },
            )
        } else {
            self
        }
    }

    pub open spec fn sorted(self, sorted: bool) -> Row {
        if self.fault is Some {
            self
        } else {
            Row { header: HeaderModel { is_sorted: sorted, ..self.header }, ..self }
        }
    }

    pub open spec fn payload_size(self, b: Seq<u8>, flags: u8) -> Row {
        if flags & PAYLOAD_SIZE != 0 {
            self.with(
                take_varuint32(b, self.pos),
                |v: u32| HeaderModel { payload_size: v, ..self.header },
            )
        } else {
            self
        }
    }
}

impl Row {
    /// The first part of a row: which event this is.
    pub open spec fn numbered(self, b: Seq<u8>, flags: u8) -> Row {
        self.metadata_id(b, flags).sequence(b, flags)
    }

    /// The second part of a row: where and when the event happened.
    pub open spec fn timed(self, b: Seq<u8>, flags: u8) -> Row {
        self.thread_id(b, flags).stack_id(b, flags).timestamp(b)
    }

    /// The last part of a row: its activities and what follows it.
    pub open spec fn described(self, b: Seq<u8>, flags: u8) -> Row {
        self.activity_id(b, flags).related_activity_id(b, flags).sorted(
            flags & IS_SORTED != 0,
        ).payload_size(b, flags)
    }
}

/// One compressed header, read at `p` with `previous` as the row before it.
#[verifier::opaque]
pub open spec fn compressed_row(previous: HeaderModel, b: Seq<u8>, p: int) -> Row {
    let flags = take_u8(b, p);
    match flags.result {
        Err(e) => Row { header: previous, fault: Some(e), pos: flags.pos },
        Ok(f) => Row { header: previous, fault: None, pos: flags.pos }.numbered(b, f).timed(
            b,
            f,
        ).described(b, f),
    }
}

impl Row {
    /// The ids of an uncompressed row, behind a size that is not needed.
    pub open spec fn plain_ids(self, b: Seq<u8>) -> Row {
        let sized = self.with(take_u32(b, self.pos), |v: u32| self.header);
        let named = sized.with(
            take_u32(b, sized.pos),
            |v: u32|
                HeaderModel {
                    metadata_id: v & 0x7FFF_FFFF,
                    is_sorted: v & NOT_SORTED == 0,
                    ..sized.header
                },
        );
        let numbered = named.with(
            take_u32(b, named.pos),
            |v: u32| HeaderModel { sequence_number: v, ..named.header },
        );
        let placed = numbered.with(
            take_u64(b, numbered.pos),
            |v: u64| HeaderModel { thread_id: v, ..numbered.header },
        );
        placed.with(
            take_u64(b, placed.pos),
            |v: u64| HeaderModel { capture_thread_id: v, ..placed.header },
        )
    }

    /// What follows the ids of an uncompressed row.
    pub open spec fn plain_rest(self, b: Seq<u8>) -> Row {
        let placed = self.with(
            take_u32(b, self.pos),
            |v: u32| HeaderModel { processor_number: v, ..self.header },
        );
        let stacked = placed.with(
            take_u32(b, placed.pos),
            |v: u32| HeaderModel { stack_id: v, ..placed.header },
        );
        let timed = stacked.with(
            take_u64(b, stacked.pos),
            |v: u64| HeaderModel { timestamp: v, ..stacked.header },
        );
        let active = timed.with(
            take_bytes(b, timed.pos, 16, "activity id"@),
            |v: Seq<u8>| HeaderModel { activity_id: v, ..timed.header },
        );
        let related = active.with(
            take_bytes(b, active.pos, 16, "related activity id"@),
            |v: Seq<u8>| HeaderModel { related_activity_id: v, ..active.header },
        );
        related.with(
            take_u32(b, related.pos),
            |v: u32| HeaderModel { payload_size: v, ..related.header },
        )
    }
}

/// One uncompressed header, read at `p`.
#[verifier::opaque]
pub open spec fn uncompressed_row(previous: HeaderModel, b: Seq<u8>, p: int) -> Row {
    Row { header: previous, fault: None, pos: p }.plain_ids(b).plain_rest(b)
}

/// Whether a read returned `done` and left `header` and `pos` behind as `row` says.
pub open spec fn ends_as(row: Row, done: Result<()>, header: HeaderModel, pos: int) -> bool {
    &&& match (done, row.fault) {
        (Ok(_), None) => true,
        (Err(e), Some(f)) => e@ == f,
        _ => false,
    }
    &&& header == row.header
    &&& pos == row.pos
}

pub(crate) fn sixteen(b: &[u8]) -> (r: [u8; 16])
    requires
        b@.len() == 16,
    ensures
        r@ == b@,
{
    let mut r: [u8; 16] = [0u8; 16];
    let mut i: usize = 0;
    while i < 16
        invariant
            i <= 16,
            b@.len() == 16,
            forall|k: int| 0 <= k < i ==> r@[k] == b@[k],
        decreases 16 - i,
    {
        r[i] = b[i];
        i += 1;
    }
    assert(r@ =~= b@);
    r
}

impl Default for EventHeader {
    fn default() -> (h: Self)
        ensures
            h@ == blank_header(),
    {
        let h = EventHeader {
            metadata_id: 0,
            sequence_number: 0,
            capture_thread_id: 0,
            processor_number: 0,
            thread_id: 0,
            stack_id: 0,
            timestamp: 0,
            activity_id: [0u8; 16],
            related_activity_id: [0u8; 16],
            is_sorted: false,
            payload_size: 0,
        };
        assert(h.activity_id@ =~= Seq::new(16, |i: int| 0u8));
        h
    }
}

impl EventHeader {
    /// Read one compressed header, updating `self` in place so it carries forward as the
    /// previous-row state for the next call.
    pub fn read_compressed(&mut self, r: &mut Reader<'_>) -> (done: Result<()>)
        requires
            old(r).wf(),
        ensures
            final(r).wf(),
            ({
                let row = compressed_row(old(self)@, old(r)@.bytes, old(r)@.pos);
                &&& ends_as(row, done, final(self)@, final(r)@.pos)
                &&& final(r)@.bytes == old(r)@.bytes
            }),
    {
        reveal(compressed_row);
        let flags: u8 = r.u8()?;
        self.read_numbers(r, flags)?;
        self.read_times(r, flags)?;
        self.read_description(r, flags)
    }

    fn read_numbers(&mut self, r: &mut Reader<'_>, flags: u8) -> (done: Result<()>)
        requires
            old(r).wf(),
        ensures
            final(r).wf(),
            ends_as(
                Row { header: old(self)@, fault: None, pos: old(r)@.pos }.numbered(
                    old(r)@.bytes,
                    flags,
                ),
                done,
                final(self)@,
                final(r)@.pos,
            ),
            final(r)@.bytes == old(r)@.bytes,
    {
        if flags & METADATA_ID != 0 {
            self.metadata_id = r.varuint32()?;
        }
        if flags & CAPTURE_THREAD_AND_SEQUENCE != 0 {
            let delta: u32 = r.varuint32()?;
            self.sequence_number = self.sequence_number.wrapping_add(delta).wrapping_add(1);
            self.capture_thread_id = r.varuint64()?;
            self.processor_number = r.varuint32()?;
        } else if self.metadata_id != 0 {
            self.sequence_number = self.sequence_number.wrapping_add(1);
        }
        Ok(())
    }

    fn read_times(&mut self, r: &mut Reader<'_>, flags: u8) -> (done: Result<()>)
        requires
            old(r).wf(),
        ensures
            final(r).wf(),
            ends_as(
                Row { header: old(self)@, fault: None, pos: old(r)@.pos }.timed(
                    old(r)@.bytes,
                    flags,
                ),
                done,
                final(self)@,
                final(r)@.pos,
            ),
            final(r)@.bytes == old(r)@.bytes,
    {
        if flags & THREAD_ID != 0 {
            self.thread_id = r.varuint64()?;
        }
        if flags & STACK_ID != 0 {
            self.stack_id = r.varuint32()?;
        }
        let delta: u64 = r.varuint64()?;
        self.timestamp = self.timestamp.wrapping_add(delta);
        Ok(())
    }

    fn read_description(&mut self, r: &mut Reader<'_>, flags: u8) -> (done: Result<()>)
        requires
            old(r).wf(),
        ensures
            final(r).wf(),
            ends_as(
                Row { header: old(self)@, fault: None, pos: old(r)@.pos }.described(
                    old(r)@.bytes,
                    flags,
                ),
                done,
                final(self)@,
                final(r)@.pos,
            ),
            final(r)@.bytes == old(r)@.bytes,
    {
        if flags & ACTIVITY_ID != 0 {
            self.activity_id = sixteen(r.bytes(16, "activity id")?);
        }
        if flags & RELATED_ACTIVITY_ID != 0 {
            self.related_activity_id = sixteen(r.bytes(16, "related activity id")?);
        }
        self.is_sorted = flags & IS_SORTED != 0;

        if flags & PAYLOAD_SIZE != 0 {
            self.payload_size = r.varuint32()?;
        }
        Ok(())
    }

    /// Read one uncompressed header. The runtime sets the compression flag unconditionally for
    /// nettrace V4, so nothing shipping emits this.
    ///
    /// A set high bit on the metadata id means *not* sorted.
    pub fn read_uncompressed(&mut self, r: &mut Reader<'_>) -> (done: Result<()>)
        requires
            old(r).wf(),
        ensures
            final(r).wf(),
            ({
                let row = uncompressed_row(old(self)@, old(r)@.bytes, old(r)@.pos);
                &&& ends_as(row, done, final(self)@, final(r)@.pos)
                &&& final(r)@.bytes == old(r)@.bytes
            }),
    {
        reveal(uncompressed_row);
        self.read_plain_ids(r)?;
        self.read_plain_rest(r)
    }

    fn read_plain_ids(&mut self, r: &mut Reader<'_>) -> (done: Result<()>)
        requires
            old(r).wf(),
        ensures
            final(r).wf(),
            ends_as(
                Row { header: old(self)@, fault: None, pos: old(r)@.pos }.plain_ids(
                    old(r)@.bytes,
                ),
                done,
                final(self)@,
                final(r)@.pos,
            ),
            final(r)@.bytes == old(r)@.bytes,
    {
        let _event_size: u32 = r.u32()?;
        let raw_metadata_id: u32 = r.u32()?;
        self.metadata_id = raw_metadata_id & 0x7FFF_FFFF;
        self.is_sorted = raw_metadata_id & NOT_SORTED == 0;
        self.sequence_number = r.u32()?;
        self.thread_id = r.u64()?;
        self.capture_thread_id = r.u64()?;
        Ok(())
    }

    fn read_plain_rest(&mut self, r: &mut Reader<'_>) -> (done: Result<()>)
        requires
            old(r).wf(),
        ensures
            final(r).wf(),
            ends_as(
                Row { header: old(self)@, fault: None, pos: old(r)@.pos }.plain_rest(
                    old(r)@.bytes,
                ),
                done,
                final(self)@,
                final(r)@.pos,
            ),
            final(r)@.bytes == old(r)@.bytes,
    {
        self.processor_number = r.u32()?;
        self.stack_id = r.u32()?;
        self.timestamp = r.u64()?;
        self.activity_id = sixteen(r.bytes(16, "activity id")?);
        self.related_activity_id = sixteen(r.bytes(16, "related activity id")?);
        self.payload_size = r.u32()?;
        Ok(())
    }
}

/// A row with only a timestamp delta changes the time and, unless it is a metadata row, the
/// sequence number. Everything else carries forward.
pub proof fn minimal_row_carries_forward(previous: HeaderModel, b: Seq<u8>, p: int)
    requires
        0 <= p < b.len(),
        b[p] == 0,
        take_varuint64(b, p + 1).result is Ok,
    ensures
        ({
            let delta = take_varuint64(b, p + 1);
            compressed_row(previous, b, p) == Row {
                header: HeaderModel {
                    timestamp: ((previous.timestamp + delta.result->Ok_0)
                        % 0x1_0000_0000_0000_0000) as u64,
                    sequence_number: if previous.metadata_id == 0 {
                        previous.sequence_number
                    } else {
                        ((previous.sequence_number + 1) % 0x1_0000_0000) as u32
                    },
                    is_sorted: false,
                    ..previous
                },
                fault: None,
                pos: delta.pos,
            }
        }),
{
    reveal(compressed_row);
    clear_flags();
}

proof fn clear_flags()
    ensures
        0u8 & METADATA_ID == 0,
        0u8 & CAPTURE_THREAD_AND_SEQUENCE == 0,
        0u8 & THREAD_ID == 0,
        0u8 & STACK_ID == 0,
        0u8 & ACTIVITY_ID == 0,
        0u8 & RELATED_ACTIVITY_ID == 0,
        0u8 & IS_SORTED == 0,
        0u8 & PAYLOAD_SIZE == 0,
{
    assert(forall|bit: u8| #[trigger] (0u8 & bit) == 0) by (bit_vector);
}

/// A clear flag bit means that the value of the previous row is reused.
pub proof fn absent_fields_carry_forward(previous: HeaderModel, b: Seq<u8>, p: int)
    requires
        0 <= p < b.len(),
        compressed_row(previous, b, p).fault is None,
    ensures
        ({
            let h = compressed_row(previous, b, p).header;
            &&& b[p] & METADATA_ID == 0 ==> h.metadata_id == previous.metadata_id
            &&& b[p] & CAPTURE_THREAD_AND_SEQUENCE == 0 ==> h.capture_thread_id
                == previous.capture_thread_id && h.processor_number == previous.processor_number
            &&& b[p] & THREAD_ID == 0 ==> h.thread_id == previous.thread_id
            &&& b[p] & STACK_ID == 0 ==> h.stack_id == previous.stack_id
            &&& b[p] & ACTIVITY_ID == 0 ==> h.activity_id == previous.activity_id
            &&& b[p] & RELATED_ACTIVITY_ID == 0 ==> h.related_activity_id
                == previous.related_activity_id
            &&& b[p] & PAYLOAD_SIZE == 0 ==> h.payload_size == previous.payload_size
            &&& h.is_sorted == (b[p] & IS_SORTED != 0)
        }),
{
    reveal(compressed_row);
    let f = b[p];
    let r0 = Row { header: previous, fault: None, pos: p + 1 };
    let r1 = r0.numbered(b, f);
    let r2 = r1.timed(b, f);
    faults_stay(r1, b, f);
    faults_stay(r2, b, f);
}

/// A row that has failed stays as it is.
proof fn faults_stay(row: Row, b: Seq<u8>, flags: u8)
    ensures
        row.fault is Some ==> row.timed(b, flags) == row && row.described(b, flags) == row,
{
}

/// A varint takes at least one byte and stays inside the buffer.
pub proof fn leb_advances(b: Seq<u8>, p: int, groups: nat)
    requires
        0 <= p <= b.len(),
    ensures
        p <= take_leb(b, p, groups).pos <= b.len(),
        take_leb(b, p, groups).result is Ok ==> p < take_leb(b, p, groups).pos,
    decreases groups,
{
    if groups > 0 && p < b.len() {
        leb_advances(b, p + 1, (groups - 1) as nat);
    }
}

/// A row that has not failed stands at or behind `p`, inside the buffer.
spec fn stands(row: Row, b: Seq<u8>, p: int) -> bool {
    row.fault is None ==> p <= row.pos <= b.len()
}

proof fn numbered_advances(row: Row, b: Seq<u8>, flags: u8, p: int)
    requires
        0 <= p,
        row.fault is None,
        stands(row, b, p),
    ensures
        stands(row.numbered(b, flags), b, p),
{
    let named = row.metadata_id(b, flags);
    leb_advances(b, row.pos, 5);
    if named.fault is None {
        leb_advances(b, named.pos, 5);
        let numbered = named.with(
            take_varuint32(b, named.pos),
            |v: u32|
                HeaderModel {
                    sequence_number: ((named.header.sequence_number + v + 1)
                        % 0x1_0000_0000) as u32,
                    ..named.header
                },
        );
        if numbered.fault is None && flags & CAPTURE_THREAD_AND_SEQUENCE != 0 {
            leb_advances(b, numbered.pos, 10);
            let captured = numbered.capture_thread(b);
            if captured.fault is None {
                leb_advances(b, captured.pos, 5);
            }
        }
    }
}

proof fn timed_advances(row: Row, b: Seq<u8>, flags: u8, p: int)
    requires
        0 <= p,
        stands(row, b, p),
    ensures
        stands(row.timed(b, flags), b, p),
{
    if row.fault is None {
        leb_advances(b, row.pos, 10);
        let placed = row.thread_id(b, flags);
        if placed.fault is None {
            leb_advances(b, placed.pos, 5);
            let stacked = placed.stack_id(b, flags);
            if stacked.fault is None {
                leb_advances(b, stacked.pos, 10);
            }
        }
    }
}

proof fn described_advances(row: Row, b: Seq<u8>, flags: u8, p: int)
    requires
        0 <= p,
        stands(row, b, p),
    ensures
        stands(row.described(b, flags), b, p),
{
    let related = row.activity_id(b, flags).related_activity_id(b, flags);
    if related.fault is None {
        leb_advances(b, related.pos, 5);
    }
}

/// A header that was read takes at least one byte, and ends inside the buffer.
pub proof fn rows_advance(previous: HeaderModel, b: Seq<u8>, p: int)
    requires
        0 <= p <= b.len(),
    ensures
        compressed_row(previous, b, p).fault is None ==> p < compressed_row(previous, b, p).pos
            <= b.len(),
        uncompressed_row(previous, b, p).fault is None ==> p < uncompressed_row(
            previous,
            b,
            p,
        ).pos <= b.len(),
{
    reveal(compressed_row);
    reveal(uncompressed_row);
    if p < b.len() {
        let f = b[p];
        let row = Row { header: previous, fault: None, pos: p + 1 };
        numbered_advances(row, b, f, p + 1);
        timed_advances(row.numbered(b, f), b, f, p + 1);
        described_advances(row.numbered(b, f).timed(b, f), b, f, p + 1);
    }
}

/// Whether two buffers are the same from place `p` on.
spec fn same_from(b: Seq<u8>, c: Seq<u8>, p: int) -> bool {
    &&& b.len() == c.len()
    &&& forall|i: int| p <= i < b.len() ==> #[trigger] b[i] == c[i]
}

proof fn leb_same(b: Seq<u8>, c: Seq<u8>, p: int, groups: nat)
    requires
        0 <= p,
        same_from(b, c, p),
    ensures
        take_leb(b, p, groups) == take_leb(c, p, groups),
    decreases groups,
{
    if groups > 0 && p < b.len() {
        leb_same(b, c, p + 1, (groups - 1) as nat);
    }
}

proof fn bytes_same(b: Seq<u8>, c: Seq<u8>, p: int, what: Seq<char>)
    requires
        0 <= p <= b.len(),
        same_from(b, c, p),
    ensures
        take_bytes(b, p, 16, what) == take_bytes(c, p, 16, what),
{
    if p + 16 <= b.len() {
        assert(b.subrange(p, p + 16) =~= c.subrange(p, p + 16));
    }
}

/// Whether flags differ in nothing but that the second says that events are sorted.
spec fn differ_in_sorting(f: u8, g: u8) -> bool {
    &&& f & METADATA_ID == g & METADATA_ID
    &&& f & CAPTURE_THREAD_AND_SEQUENCE == g & CAPTURE_THREAD_AND_SEQUENCE
    &&& f & THREAD_ID == g & THREAD_ID
    &&& f & STACK_ID == g & STACK_ID
    &&& f & ACTIVITY_ID == g & ACTIVITY_ID
    &&& f & RELATED_ACTIVITY_ID == g & RELATED_ACTIVITY_ID
    &&& f & PAYLOAD_SIZE == g & PAYLOAD_SIZE
    &&& f & IS_SORTED == 0
    &&& g & IS_SORTED != 0
}

proof fn numbered_same(row: Row, b: Seq<u8>, c: Seq<u8>, f: u8, g: u8, p: int)
    requires
        0 <= p,
        row.fault is None,
        stands(row, b, p),
        same_from(b, c, p),
        differ_in_sorting(f, g),
    ensures
        row.numbered(b, f) == row.numbered(c, g),
{
    leb_same(b, c, row.pos, 5);
    leb_advances(b, row.pos, 5);
    let named = row.metadata_id(b, f);
    if named.fault is None {
        leb_same(b, c, named.pos, 5);
        leb_advances(b, named.pos, 5);
        let step = |v: u32|
            HeaderModel {
                sequence_number: ((named.header.sequence_number + v + 1) % 0x1_0000_0000) as u32,
                ..named.header
            };
        let numbered = named.with(take_varuint32(b, named.pos), step);
        if numbered.fault is None {
            leb_same(b, c, numbered.pos, 10);
            leb_advances(b, numbered.pos, 10);
            let captured = numbered.capture_thread(b);
            if captured.fault is None {
                leb_same(b, c, captured.pos, 5);
            }
        }
    }
}

proof fn timed_same(row: Row, b: Seq<u8>, c: Seq<u8>, f: u8, g: u8, p: int)
    requires
        0 <= p,
        stands(row, b, p),
        same_from(b, c, p),
        differ_in_sorting(f, g),
    ensures
        row.timed(b, f) == row.timed(c, g),
{
    if row.fault is None {
        leb_same(b, c, row.pos, 10);
        leb_advances(b, row.pos, 10);
        let placed = row.thread_id(b, f);
        if placed.fault is None {
            leb_same(b, c, placed.pos, 5);
            leb_advances(b, placed.pos, 5);
            let stacked = placed.stack_id(b, f);
            if stacked.fault is None {
                leb_same(b, c, stacked.pos, 10);
            }
        }
    }
}

/// That the events of a row are sorted takes no bytes to say: a row whose flags say so is read as
/// the same row without that flag is, up to the one value that it sets.
pub proof fn sorting_takes_no_bytes(previous: HeaderModel, b: Seq<u8>, p: int)
    requires
        0 <= p < b.len(),
        b[p] & IS_SORTED == 0,
    ensures
        ({
            let plain = compressed_row(previous, b, p);
            let sorted = compressed_row(previous, b.update(p, b[p] | IS_SORTED), p);
            &&& sorted.pos == plain.pos
            &&& sorted.fault == plain.fault
            &&& plain.fault is None ==> sorted.header == (HeaderModel {
                is_sorted: true,
                ..plain.header
            }) && !plain.header.is_sorted
        }),
{
    reveal(compressed_row);
    let f = b[p];
    let g = f | IS_SORTED;
    let c = b.update(p, g);
    assert(f & 0x01 == g & 0x01 && f & 0x02 == g & 0x02 && f & 0x04 == g & 0x04 && f & 0x08 == g
        & 0x08 && f & 0x10 == g & 0x10 && f & 0x20 == g & 0x20 && f & 0x80 == g & 0x80 && g & 0x40
        != 0) by (bit_vector)
        requires
            g == f | 0x40,
    ;
    let start = Row { header: previous, fault: None, pos: p + 1 };
    numbered_same(start, b, c, f, g, p + 1);
    numbered_advances(start, b, f, p + 1);
    let numbered = start.numbered(b, f);
    timed_same(numbered, b, c, f, g, p + 1);
    timed_advances(numbered, b, f, p + 1);
    let timed = numbered.timed(b, f);
    if timed.fault is None {
        bytes_same(b, c, timed.pos, "activity id"@);
        let active = timed.activity_id(b, f);
        if active.fault is None {
            bytes_same(b, c, active.pos, "related activity id"@);
            let related = active.related_activity_id(b, f);
            if related.fault is None {
                leb_same(b, c, related.pos, 5);
            }
        }
    }
}

} // verus!
