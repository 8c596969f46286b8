//! How the objects of a stream are written down, and what is read back of them.
use vstd::prelude::*;

use super::blocks::{
    content_step, event_rows, next_batch, object_step, registered, stream_block, stream_content, trace_of,
    trace_step, Absorbed, BlockKind, EventModel, ParserModel, Step,
};
use super::fastserial::{
    stream_bytes, stream_i32, stream_object_header, stream_object_type, stream_preamble, stream_tag,
    ObjectModel, Taken, NETTRACE_MAGIC, SERIALIZER_HEADER,
};
use super::metadata::{record, MetadataModel};
use super::reader::{Fault, Stream};
use super::rows::held_parts;
use super::stacks::{filed, stack_block};
use super::values::{
    held_signed_long, held_signed_short, held_signed_word, long_bytes, short_bytes, word_bytes,
};
use crate::bytes::{held_u32, holds, signed16, signed32, signed64, u16_at, u32_at, u64_at};
use crate::text::{signed_decimal, utf8_lossy};

verus! {

/// Whether a run of bytes comes next in a stream.
pub open spec fn next_is(s: Stream, part: Seq<u8>) -> bool {
    holds(s.data, s.at, part)
}

proof fn next_parts(s: Stream, x: Seq<u8>, y: Seq<u8>)
    requires
        next_is(s, x + y),
    ensures
        next_is(s, x),
        next_is(s.after(x.len() as int), y),
{
    held_parts(s.data, s.at, x, y);
}

proof fn next_word(s: Stream, v: i32, rest: Seq<u8>)
    requires
        next_is(s, word_bytes(v as int) + rest),
    ensures
        stream_i32(s) == (Taken { result: Ok::<i32, Fault>(v), stream: s.after(4) }),
        next_is(s.after(4), rest),
{
    next_parts(s, word_bytes(v as int), rest);
    held_u32(s.data, s.at, (v as int % 0x1_0000_0000) as u32);
}

proof fn next_tag(s: Stream, tag: u8, rest: Seq<u8>, what: Seq<char>)
    requires
        next_is(s, seq![tag] + rest),
    ensures
        stream_tag(s, tag, what) == (Taken { result: Ok::<(), Fault>(()), stream: s.after(1) }),
        s.left() >= 1,
        s.data[s.at] == tag,
        next_is(s.after(1), rest),
{
    next_parts(s, seq![tag], rest);
    assert(s.data[s.at] == s.data.subrange(s.at, s.at + 1)[0]);
}

proof fn next_run(s: Stream, run: Seq<u8>, rest: Seq<u8>)
    requires
        next_is(s, run + rest),
    ensures
        stream_bytes(s, run.len() as int) == (Taken {
            result: Ok::<Seq<u8>, Fault>(run),
            stream: s.after(run.len() as int),
        }),
        next_is(s.after(run.len() as int), rest),
{
    next_parts(s, run, rest);
}

/// What introduces an object: two tags that begin objects, one for nothing, two versions, the
/// length of the name of its type, the name, and a tag that ends an object.
pub open spec fn introduction(name: Seq<u8>, version: i32, min_reader: i32) -> Seq<u8> {
    seq![5u8] + (seq![5u8] + (seq![1u8] + (word_bytes(version as int) + (word_bytes(
        min_reader as int,
    ) + (word_bytes(name.len() as int) + (name + seq![6u8]))))))
}

/// The introduction of an object reads back as what it says, and nothing behind it is read.
pub proof fn introductions_read_back(s: Stream, name: Seq<u8>, version: i32, min_reader: i32)
    requires
        name.len() <= 1024,
        next_is(s, introduction(name, version, min_reader)),
    ensures
        stream_object_header(s) == (Taken {
            result: Ok::<_, Fault>(
                Some(
                    ObjectModel {
                        object_type: utf8_lossy(name),
                        version,
                        min_reader_version: min_reader,
                    },
                ),
            ),
            stream: s.after((16 + name.len()) as int),
        }),
{
    let t8 = seq![6u8];
    let t7 = name + t8;
    let t6 = word_bytes(name.len() as int) + t7;
    let t5 = word_bytes(min_reader as int) + t6;
    let t4 = word_bytes(version as int) + t5;
    let t3 = seq![1u8] + t4;
    let t2 = seq![5u8] + t3;
    next_tag(s, 5, t2, "object tag"@);
    next_tag(s.after(1), 5, t3, "serialization type tag"@);
    next_tag(s.after(2), 1, t4, "serialization type's type tag"@);
    next_word(s.after(3), version, t5);
    next_word(s.after(7), min_reader, t6);
    next_word(s.after(11), name.len() as i32, t7);
    next_run(s.after(15), name, t8);
    assert(t8 + Seq::<u8>::empty() =~= t8);
    next_tag(s.after((15 + name.len()) as int), 6, Seq::empty(), "end of serialization type"@);
    type_is_read(s.after(1), name, version, min_reader);
}

proof fn type_is_read(s: Stream, name: Seq<u8>, version: i32, min_reader: i32)
    requires
        name.len() <= 1024,
        stream_tag(s, 5, "serialization type tag"@) == (Taken {
            result: Ok::<(), Fault>(()),
            stream: s.after(1),
        }),
        stream_tag(s.after(1), 1, "serialization type's type tag"@) == (Taken {
            result: Ok::<(), Fault>(()),
            stream: s.after(2),
        }),
        stream_i32(s.after(2)) == (Taken {
            result: Ok::<i32, Fault>(version),
            stream: s.after(6),
        }),
        stream_i32(s.after(6)) == (Taken {
            result: Ok::<i32, Fault>(min_reader),
            stream: s.after(10),
        }),
        stream_i32(s.after(10)) == (Taken {
            result: Ok::<i32, Fault>(name.len() as i32),
            stream: s.after(14),
        }),
        stream_bytes(s.after(14), name.len() as int) == (Taken {
            result: Ok::<Seq<u8>, Fault>(name),
            stream: s.after((14 + name.len()) as int),
        }),
        stream_tag(s.after((14 + name.len()) as int), 6, "end of serialization type"@) == (Taken {
            result: Ok::<(), Fault>(()),
            stream: s.after((15 + name.len()) as int),
        }),
    ensures
        stream_object_type(s) == (Taken {
            result: Ok::<_, Fault>(
                ObjectModel {
                    object_type: utf8_lossy(name),
                    version,
                    min_reader_version: min_reader,
                },
            ),
            stream: s.after((15 + name.len()) as int),
        }),
{
}

/// How many bytes are missing at an offset to the next that four divides.
pub open spec fn gap_at(offset: int) -> int {
    if offset % 4 == 0 {
        0
    } else {
        4 - offset % 4
    }
}

/// The content of a block is written as its size, bytes up to an offset in the whole stream that
/// four divides, the content, and a tag that ends an object. It reads back as itself, whatever
/// fills the gap.
pub proof fn blocks_are_aligned(s: Stream, gap: Seq<u8>, content: Seq<u8>)
    requires
        content.len() <= 0x1000_0000,
        gap.len() == gap_at(s.pos() + 4),
        next_is(s, word_bytes(content.len() as int) + (gap + (content + seq![6u8]))),
    ensures
        stream_block(s) == (Taken {
            result: Ok::<_, Fault>(content),
            stream: s.after((5 + gap.len() + content.len()) as int),
        }),
{
    let end = seq![6u8];
    next_word(s, content.len() as i32, gap + (content + end));
    next_run(s.after(4), gap, content + end);
    next_run(s.after((4 + gap.len()) as int), content, end);
    assert(end + Seq::<u8>::empty() =~= end);
    next_tag(
        s.after((4 + gap.len() + content.len()) as int),
        6,
        Seq::empty(),
        "end of block"@,
    );
    assert(stream_content(s) == (Taken {
        result: Ok::<_, Fault>(content),
        stream: s.after((4 + gap.len() + content.len()) as int),
    }));
}

/// An object is read by the kind that its type says it is of, and its content does to the parser
/// what the content of such a block does. Nothing behind the object is read.
pub proof fn objects_read_back(
    p: ParserModel,
    name: Seq<u8>,
    version: i32,
    min_reader: i32,
    gap: Seq<u8>,
    content: Seq<u8>,
)
    requires
        name.len() <= 1024,
        content.len() <= 0x1000_0000,
        gap.len() == gap_at(p.stream.pos() + 20 + name.len()),
        next_is(
            p.stream,
            introduction(name, version, min_reader) + (word_bytes(content.len() as int) + (gap + (
            content + seq![6u8]))),
        ),
    ensures
        ({
            let kind = BlockKind::named(utf8_lossy(name));
            let after = p.stream.after((21 + name.len() + gap.len() + content.len()) as int);
            !(kind is Trace) ==> object_step(p) == content_step(
                ParserModel { stream: after, ..p },
                kind,
                content,
            )
        }),
{
    let s = p.stream;
    let rest = word_bytes(content.len() as int) + (gap + (content + seq![6u8]));
    introduction_length(name, version, min_reader);
    next_parts(s, introduction(name, version, min_reader), rest);
    introductions_read_back(s, name, version, min_reader);
    blocks_are_aligned(s.after((16 + name.len()) as int), gap, content);
}

proof fn introduction_length(name: Seq<u8>, version: i32, min_reader: i32)
    ensures
        introduction(name, version, min_reader).len() == 16 + name.len(),
{
}

/// A stream ends at a tag for nothing where an object would begin.
pub proof fn streams_end(p: ParserModel)
    requires
        next_is(p.stream, seq![1u8]),
    ensures
        object_step(p) == (Step {
            result: Ok::<_, Fault>(Absorbed::End),
            parser: ParserModel { stream: p.stream.after(1), finished: true, ..p },
        }),
{
    let end = seq![1u8];
    assert(end + Seq::<u8>::empty() =~= end);
    next_tag(p.stream, 1, Seq::empty(), "object tag"@);
}

/// The kinds of blocks go by the names of their types, and every other name is of another kind.
pub proof fn kinds_go_by_their_names(name: Seq<char>)
    ensures
        BlockKind::named(name) is Events <==> name == "EventBlock"@,
        BlockKind::named(name) is Metadata <==> name == "MetadataBlock"@,
        BlockKind::named(name) is Stacks <==> name == "StackBlock"@,
        BlockKind::named(name) is SequencePoint <==> name == "SPBlock"@,
        BlockKind::named(name) is Trace <==> name == "Trace"@ || name
            == "Microsoft.DotNet.Runtime.EventPipeFile"@,
{
    reveal_strlit("EventBlock");
    reveal_strlit("MetadataBlock");
    reveal_strlit("StackBlock");
    reveal_strlit("SPBlock");
    reveal_strlit("Trace");
    reveal_strlit("Microsoft.DotNet.Runtime.EventPipeFile");
    assert("EventBlock"@.len() == 10 && "StackBlock"@.len() == 10 && "MetadataBlock"@.len() == 13
        && "SPBlock"@.len() == 7 && "Trace"@.len() == 5);
    assert("Microsoft.DotNet.Runtime.EventPipeFile"@.len() == 38);
    assert("EventBlock"@[0] != "StackBlock"@[0]);
}

/// The rows of an event block are handed out as they are, and change nothing of the parser.
pub proof fn events_are_handed_out(p: ParserModel, content: Seq<u8>)
    ensures
        content_step(p, BlockKind::Events, content).parser == p,
        event_rows(content) matches Ok(events) ==> {
            let result = content_step(p, BlockKind::Events, content).result;
            &&& events.len() > 0 ==> result == Ok::<_, Fault>(Absorbed::Events(events))
            &&& events.len() == 0 ==> result == Ok::<_, Fault>(Absorbed::Quiet)
        },
        event_rows(content) matches Err(f) ==> content_step(p, BlockKind::Events, content).result
            == Err::<Absorbed, _>(f),
{
}

/// Whether an event is a record of metadata under an id.
pub open spec fn is_record_of(row: EventModel, id: u32) -> bool {
    record(row.payload) matches Ok(m) && m.metadata_id == id
}

/// The records of a metadata block are filed each under its own id, a later one over an earlier
/// one. No events are handed out, and nothing else of the parser changes.
pub proof fn records_are_filed_under_their_ids(
    p: ParserModel,
    content: Seq<u8>,
    rows: Seq<EventModel>,
    k: int,
    id: u32,
)
    requires
        event_rows(content) == Ok::<_, Fault>(rows),
        content_step(p, BlockKind::Metadata, content).result is Ok,
        0 <= k < rows.len(),
        is_record_of(rows[k], id),
        forall|l: int| k < l < rows.len() ==> !is_record_of(#[trigger] rows[l], id),
    ensures
        ({
            let step = content_step(p, BlockKind::Metadata, content);
            &&& step.result == Ok::<_, Fault>(Absorbed::Quiet)
            &&& step.parser == (ParserModel { metadata: step.parser.metadata, ..p })
            &&& step.parser.metadata.contains_key(id)
            &&& step.parser.metadata[id] == record(rows[k].payload)->Ok_0
        }),
{
    registering_files(p.metadata, rows, k, id);
}

/// Ids that no record of a metadata block has keep what they stand for, and a block is read without
/// a fault only if all its records are.
pub proof fn other_records_stay(p: ParserModel, content: Seq<u8>, rows: Seq<EventModel>, id: u32)
    requires
        event_rows(content) == Ok::<_, Fault>(rows),
        content_step(p, BlockKind::Metadata, content).result is Ok,
    ensures
        forall|k: int| 0 <= k < rows.len() ==> record((#[trigger] rows[k]).payload) is Ok,
        (forall|k: int| 0 <= k < rows.len() ==> !is_record_of(#[trigger] rows[k], id)) ==> {
            let after = content_step(p, BlockKind::Metadata, content).parser.metadata;
            &&& after.contains_key(id) == p.metadata.contains_key(id)
            &&& p.metadata.contains_key(id) ==> after[id] == p.metadata[id]
        },
{
    registering_keeps(p.metadata, rows, id);
}

proof fn registering_files(
    metadata: Map<u32, MetadataModel>,
    rows: Seq<EventModel>,
    k: int,
    id: u32,
)
    requires
        registered(metadata, rows).1 is None,
        0 <= k < rows.len(),
        is_record_of(rows[k], id),
        forall|l: int| k < l < rows.len() ==> !is_record_of(#[trigger] rows[l], id),
    ensures
        registered(metadata, rows).0.contains_key(id),
        registered(metadata, rows).0[id] == record(rows[k].payload)->Ok_0,
    decreases rows.len(),
{
    let n = rows.len() - 1;
    if k < n {
        let front = rows.drop_last();
        assert(!is_record_of(rows[n], id));
        assert(front[k] == rows[k]);
        assert forall|l: int| k < l < front.len() implies !is_record_of(#[trigger] front[l], id) by {
            assert(front[l] == rows[l]);
        }
        registering_files(metadata, front, k, id);
    }
}

proof fn registering_keeps(metadata: Map<u32, MetadataModel>, rows: Seq<EventModel>, id: u32)
    requires
        registered(metadata, rows).1 is None,
    ensures
        forall|k: int| 0 <= k < rows.len() ==> record((#[trigger] rows[k]).payload) is Ok,
        (forall|k: int| 0 <= k < rows.len() ==> !is_record_of(#[trigger] rows[k], id)) ==> {
            let after = registered(metadata, rows).0;
            &&& after.contains_key(id) == metadata.contains_key(id)
            &&& metadata.contains_key(id) ==> after[id] == metadata[id]
        },
    decreases rows.len(),
{
    if rows.len() > 0 {
        let front = rows.drop_last();
        let n = rows.len() - 1;
        registering_keeps(metadata, front, id);
        assert forall|k: int| 0 <= k < rows.len() implies record(
            (#[trigger] rows[k]).payload,
        ) is Ok by {
            if k < n {
                assert(front[k] == rows[k]);
            }
        }
        if forall|k: int| 0 <= k < rows.len() ==> !is_record_of(#[trigger] rows[k], id) {
            assert(!is_record_of(rows[n], id));
            assert forall|k: int| 0 <= k < front.len() implies !is_record_of(
                #[trigger] front[k],
                id,
            ) by {
                assert(front[k] == rows[k]);
            }
        }
    }
}

/// A block of stacks files its stacks among the newest where stacks are collected, and a sequence
/// point is then announced by a batch without events. Where they are not, and of any other kind of
/// block, nothing is kept.
pub proof fn stacks_and_sequence_points_are_kept(p: ParserModel, content: Seq<u8>)
    ensures
        ({
            let stacks = content_step(p, BlockKind::Stacks, content);
            let point = content_step(p, BlockKind::SequencePoint, content);
            let other = content_step(p, BlockKind::Other, content);
            &&& p.collecting ==> (stack_block(content, p.trace.pointer_size != 4) matches Ok(
                block,
            ) ==> {
                &&& stacks.result == Ok::<_, Fault>(Absorbed::Quiet)
                &&& stacks.parser.stacks.current == filed(p.stacks.current, block.0, block.1)
                &&& stacks.parser.stacks.previous == p.stacks.previous
                &&& stacks.parser == (ParserModel { stacks: stacks.parser.stacks, ..p })
            })
            &&& p.collecting ==> {
                &&& point.result == Ok::<_, Fault>(Absorbed::Events(Seq::empty()))
                &&& point.parser == (ParserModel { sequence_point: true, ..p })
            }
            &&& !p.collecting ==> stacks.parser == p && point.parser == p && stacks.result
                == Ok::<_, Fault>(Absorbed::Quiet) && point.result == Ok::<_, Fault>(
                Absorbed::Quiet,
            )
            &&& other.parser == p
            &&& other.result == Ok::<_, Fault>(Absorbed::Quiet)
        }),
{
}

/// The body of a trace reads back as what it says: eight parts of a date, the clock and its rate,
/// the width of a pointer, the process, how many processors there are, and the rate of sampling.
pub proof fn traces_read_back(
    b: Seq<u8>,
    clock: i64,
    frequency: i64,
    pointer_size: i32,
    process: i32,
    processors: i32,
    rate: i32,
    part: int,
    value: i16,
)
    requires
        holds(b, 16, long_bytes(clock as int)),
        holds(b, 24, long_bytes(frequency as int)),
        holds(b, 32, word_bytes(pointer_size as int)),
        holds(b, 36, word_bytes(process as int)),
        holds(b, 40, word_bytes(processors as int)),
        holds(b, 44, word_bytes(rate as int)),
        0 <= part < 8,
        holds(b, 2 * part, short_bytes(value as int)),
    ensures
        trace_of(b).sync_time_utc.len() == 8,
        trace_of(b).sync_time_utc[part] == value,
        trace_of(b).sync_time_qpc == clock,
        trace_of(b).qpc_frequency == frequency,
        trace_of(b).pointer_size == pointer_size,
        trace_of(b).process_id == process,
        trace_of(b).processor_count == processors,
        trace_of(b).sampling_rate == rate,
{
    assert(signed64(u64_at(b, 16)) == clock) by {
        held_signed_long(b, 16, clock);
    }
    assert(signed64(u64_at(b, 24)) == frequency) by {
        held_signed_long(b, 24, frequency);
    }
    assert(signed32(u32_at(b, 32)) == pointer_size) by {
        held_signed_word(b, 32, pointer_size);
    }
    assert(signed32(u32_at(b, 36)) == process) by {
        held_signed_word(b, 36, process);
    }
    assert(signed32(u32_at(b, 40)) == processors) by {
        held_signed_word(b, 40, processors);
    }
    assert(signed32(u32_at(b, 44)) == rate) by {
        held_signed_word(b, 44, rate);
    }
    assert(signed16(u16_at(b, 2 * part)) == value) by {
        held_signed_short(b, 2 * part, value);
    }
}

/// The body of a trace has no size and no gap before it: forty-eight bytes and a tag. It is what is
/// known of the trace from then on, and nothing else changes.
pub proof fn a_trace_is_known_once_read(p: ParserModel, body: Seq<u8>)
    requires
        body.len() == 48,
        next_is(p.stream, body + seq![6u8]),
    ensures
        trace_step(p) == (Step {
            result: Ok::<_, Fault>(Absorbed::Quiet),
            parser: ParserModel { stream: p.stream.after(49), trace: trace_of(body), ..p },
        }),
{
    let end = seq![6u8];
    next_run(p.stream, body, end);
    assert(end + Seq::<u8>::empty() =~= end);
    next_tag(p.stream.after(48), 6, Seq::empty(), "end of block"@);
}

/// A stream begins with the name of its format, the length of the name of its serializer, and that
/// name, in thirty-two bytes. One that begins so is read from behind them, and one that does not is
/// refused.
pub proof fn preambles_read_back(s: Stream)
    requires
        s.valid(),
        s.left() >= 32,
    ensures
        ({
            let format = seq![78u8, 101, 116, 116, 114, 97, 99, 101];
            let serializer = seq![
                33u8, 70, 97, 115, 116, 83, 101, 114, 105, 97, 108, 105, 122, 97, 116, 105, 111,
                110, 46, 49,
            ];
            let read = stream_preamble(s);
            let fits = s.data.subrange(s.at, s.at + 8) == format && s.data.subrange(
                s.at + 8,
                s.at + 12,
            ) == seq![20u8, 0, 0, 0] && s.data.subrange(s.at + 12, s.at + 32) == serializer;
            &&& fits ==> read == (Taken { result: Ok::<(), Fault>(()), stream: s.after(32) })
            &&& s.data.subrange(s.at, s.at + 8) != format ==> read.result is Err
            &&& s.data.subrange(s.at + 12, s.at + 32) != serializer ==> read.result is Err
        }),
{
    let format = seq![78u8, 101, 116, 116, 114, 97, 99, 101];
    let serializer = seq![
        33u8, 70, 97, 115, 116, 83, 101, 114, 105, 97, 108, 105, 122, 97, 116, 105, 111, 110, 46,
        49,
    ];
    assert(NETTRACE_MAGIC@ =~= format);
    assert(SERIALIZER_HEADER@ =~= serializer);
    let length = s.data.subrange(s.at + 8, s.at + 12);
    if length == seq![20u8, 0, 0, 0] {
        assert(s.data[s.at + 8] == length[0] && s.data[s.at + 9] == length[1] && s.data[s.at + 10]
            == length[2] && s.data[s.at + 11] == length[3]);
    }
}

/// A parser hands out the events of the next object that has any, passes over what has none, and is
/// done where the stream ends. Once done it stays so.
pub proof fn batches_come_in_order(p: ParserModel)
    requires
        p.stream.valid(),
    ensures
        p.finished ==> next_batch(p).0 == Ok::<_, Fault>(None::<Seq<EventModel>>) && next_batch(p).1
            == p,
        !p.finished ==> (object_step(p).result matches Ok(Absorbed::Events(events))
            ==> next_batch(p).0 == Ok::<_, Fault>(Some(events)) && next_batch(p).1 == object_step(
            p,
        ).parser),
        !p.finished && object_step(p).result == Ok::<_, Fault>(Absorbed::Quiet) ==> next_batch(p)
            == next_batch(object_step(p).parser),
        !p.finished && object_step(p).result == Ok::<_, Fault>(Absorbed::End) ==> next_batch(p).0
            == Ok::<_, Fault>(None::<Seq<EventModel>>),
{
}

/// A block that says it is of a negative size, or of more than 256 megabytes, is refused.
pub proof fn absurd_sizes_are_refused(s: Stream, size: i32, rest: Seq<u8>)
    requires
        next_is(s, word_bytes(size as int) + rest),
    ensures
        size < 0 || size > 0x1000_0000 ==> stream_block(s).result == Err::<Seq<u8>, _>(
            Fault::Unexpected { what: "block size"@, got: signed_decimal(size as int) },
        ),
{
    next_word(s, size, rest);
}

} // verus!
