//! The investigation session: a second, deliberately short-lived EventPipe session carrying
//! runtime events rather than counters.
//!
//! This costs the target process real CPU: counters arrive at roughly 40 events/second, whereas
//! the GC keyword alone produced ~1,600/second on a loaded app. It is opened when the user asks
//! for it and closed when they leave.
use vstd::prelude::*;

use super::events::{
    allocation_tick_in, contention_stop_in, decode_allocation_tick, decode_contention_stop,
    decode_exception_thrown, decode_gc_heap_stats, decode_gc_start, event_id, exception_in,
    gc_start_in, heap_stats_in, keyword, AllocationTick, ContentionStop, ExceptionThrown,
    GcHeapStats, GcStart, TickModel, RUNTIME_PROVIDER,
};
use crate::counters::session::SessionError;
use crate::ipc::commands::{provider_models, Provider, ProviderModel, TraceConfig};
use crate::nettrace::blocks::{
    batches_move_forward, event_models, heard, next_batch, Batch, EventModel, NettraceParser,
    ParserModel, RawEvent, TraceModel,
};
use crate::nettrace::metadata::MetadataModel;
use crate::nettrace::reader::{Fault, Stream};
use crate::text::same_text;

verus! {

/// Larger than the counter session's buffer: these events are far higher volume, and an
/// undersized buffer means the runtime drops them.
pub const CIRCULAR_BUFFER_MB: u32 = 64;

/// EventLevel.Verbose: allocation ticks are emitted at verbose.
pub const LEVEL_VERBOSE: u32 = 5;

/// One decoded runtime event, with the timestamp needed to measure pauses.
#[derive(Debug, Clone)]
pub enum RuntimeEvent {
    Allocation(AllocationTick),
    GcStart(GcStart),
    GcEnd,
    HeapStats(GcHeapStats),
    SuspendBegin { timestamp: u64 },
    RestartEnd { timestamp: u64 },
    Exception(ExceptionThrown),
    Contention(ContentionStop),
}

/// A [`RuntimeEvent`] over sequences.
pub enum RuntimeEventModel {
    Allocation(TickModel),
    GcStart(GcStart),
    GcEnd,
    HeapStats(GcHeapStats),
    SuspendBegin { timestamp: u64 },
    RestartEnd { timestamp: u64 },
    Exception { name: Seq<char>, message: Seq<char> },
    Contention(ContentionStop),
}

impl View for RuntimeEvent {
    type V = RuntimeEventModel;

    open spec fn view(&self) -> RuntimeEventModel {
        match self {
            RuntimeEvent::Allocation(tick) => RuntimeEventModel::Allocation(tick@),
            RuntimeEvent::GcStart(start) => RuntimeEventModel::GcStart(*start),
            RuntimeEvent::GcEnd => RuntimeEventModel::GcEnd,
            RuntimeEvent::HeapStats(stats) => RuntimeEventModel::HeapStats(*stats),
            RuntimeEvent::SuspendBegin { timestamp } => RuntimeEventModel::SuspendBegin {
                timestamp: *timestamp,
            },
            RuntimeEvent::RestartEnd { timestamp } => RuntimeEventModel::RestartEnd {
                timestamp: *timestamp,
            },
            RuntimeEvent::Exception(thrown) => RuntimeEventModel::Exception {
                name: thrown.name@,
                message: thrown.message@,
            },
            RuntimeEvent::Contention(stop) => RuntimeEventModel::Contention(*stop),
        }
    }
}

/// The session to ask for. Manifest-based providers take no filter arguments.
pub fn trace_config() -> (config: TraceConfig)
    ensures
        config.circular_buffer_mb == CIRCULAR_BUFFER_MB,
        !config.request_rundown,
        provider_models(config.providers@) == seq![
            ProviderModel {
                name: RUNTIME_PROVIDER@,
                keywords: keyword::GC | keyword::CONTENTION | keyword::EXCEPTION,
                level: LEVEL_VERBOSE,
                filter_data: Seq::empty(),
            },
        ],
{
    let mut providers: Vec<Provider> = Vec::new();
    providers.push(
        Provider {
            name: RUNTIME_PROVIDER.to_owned(),
            keywords: keyword::GC | keyword::CONTENTION | keyword::EXCEPTION,
            level: LEVEL_VERBOSE,
            filter_data: String::new(),
        },
    );
    assert(provider_models(providers@) =~= seq![providers@[0]@]);
    TraceConfig { circular_buffer_mb: CIRCULAR_BUFFER_MB, request_rundown: false, providers }
}

/// What a runtime event says. Kinds that are not modelled say nothing: this provider emits many
/// more than are useful, and there is no schema on the wire to decode them generically anyway.
pub open spec fn event_in(
    id: i32,
    payload: Seq<u8>,
    timestamp: u64,
    pointer_size: int,
) -> Option<RuntimeEventModel> {
    if id == event_id::GC_ALLOCATION_TICK {
        match allocation_tick_in(payload, pointer_size) {
            Some(tick) => Some(RuntimeEventModel::Allocation(tick)),
            None => None,
        }
    } else if id == event_id::GC_START {
        match gc_start_in(payload) {
            Some(start) => Some(RuntimeEventModel::GcStart(start)),
            None => None,
        }
    } else if id == event_id::GC_END {
        Some(RuntimeEventModel::GcEnd)
    } else if id == event_id::GC_HEAP_STATS {
        match heap_stats_in(payload) {
            Some(stats) => Some(RuntimeEventModel::HeapStats(stats)),
            None => None,
        }
    } else if id == event_id::GC_SUSPEND_EE_BEGIN {
        Some(RuntimeEventModel::SuspendBegin { timestamp })
    } else if id == event_id::GC_RESTART_EE_END {
        Some(RuntimeEventModel::RestartEnd { timestamp })
    } else if id == event_id::EXCEPTION_THROWN {
        match exception_in(payload) {
            Some((name, message)) => Some(RuntimeEventModel::Exception { name, message }),
            None => None,
        }
    } else if id == event_id::CONTENTION_STOP {
        match contention_stop_in(payload) {
            Some(stop) => Some(RuntimeEventModel::Contention(stop)),
            None => None,
        }
    } else {
        None
    }
}

/// Decodes a runtime event by its number.
pub fn decode_event(id: i32, event: &RawEvent, pointer_size: usize) -> (decoded: Option<
    RuntimeEvent,
>)
    ensures
        match (decoded, event_in(id, event@.payload, event@.timestamp, pointer_size as int)) {
            (Some(e), Some(m)) => e@ == m,
            (None, None) => true,
            _ => false,
        },
{
    let payload = event.payload.as_slice();
    if id == event_id::GC_ALLOCATION_TICK {
        match decode_allocation_tick(payload, pointer_size) {
            Some(tick) => Some(RuntimeEvent::Allocation(tick)),
            None => None,
        }
    } else if id == event_id::GC_START {
        match decode_gc_start(payload) {
            Some(start) => Some(RuntimeEvent::GcStart(start)),
            None => None,
        }
    } else if id == event_id::GC_END {
        Some(RuntimeEvent::GcEnd)
    } else if id == event_id::GC_HEAP_STATS {
        match decode_gc_heap_stats(payload) {
            Some(stats) => Some(RuntimeEvent::HeapStats(stats)),
            None => None,
        }
    } else if id == event_id::GC_SUSPEND_EE_BEGIN {
        Some(RuntimeEvent::SuspendBegin { timestamp: event.timestamp })
    } else if id == event_id::GC_RESTART_EE_END {
        Some(RuntimeEvent::RestartEnd { timestamp: event.timestamp })
    } else if id == event_id::EXCEPTION_THROWN {
        match decode_exception_thrown(payload) {
            Some(thrown) => Some(RuntimeEvent::Exception(thrown)),
            None => None,
        }
    } else if id == event_id::CONTENTION_STOP {
        match decode_contention_stop(payload) {
            Some(stop) => Some(RuntimeEvent::Contention(stop)),
            None => None,
        }
    } else {
        None
    }
}

// ---------------------------------------------------------------------------------------------
// The events of a stream

/// The width of the process's pointers, kept within what can be one.
pub open spec fn pointer_width(pointer_size: i32) -> int {
    if pointer_size < 4 {
        4
    } else if pointer_size > 8 {
        8
    } else {
        pointer_size as int
    }
}

/// What an event says, if it is one of the runtime's that is modelled.
pub open spec fn runtime_event(
    known: Map<u32, MetadataModel>,
    trace: TraceModel,
    event: EventModel,
) -> Option<RuntimeEventModel> {
    if !known.contains_key(event.metadata_id) {
        None
    } else {
        let metadata = known[event.metadata_id];
        if metadata.provider_name != RUNTIME_PROVIDER@ {
            None
        } else {
            event_in(
                metadata.event_id,
                event.payload,
                event.timestamp,
                pointer_width(trace.pointer_size),
            )
        }
    }
}

/// The first of some events that says something, and the events behind it.
pub open spec fn first_event(
    known: Map<u32, MetadataModel>,
    trace: TraceModel,
    events: Seq<EventModel>,
) -> (Option<RuntimeEventModel>, Seq<EventModel>)
    decreases events.len(),
{
    if events.len() == 0 {
        (None, events)
    } else if let Some(e) = runtime_event(known, trace, events[0]) {
        (Some(e), events.skip(1))
    } else {
        first_event(known, trace, events.skip(1))
    }
}

/// A [`RuntimeStream`] as a value.
pub struct RuntimeStreamModel {
    pub parser: ParserModel,
    /// The events of the current batch that have not been looked at.
    pub pending: Seq<EventModel>,
}

/// The next event of a stream with the frequency of its clock, or `None` at its end, and the stream
/// afterwards.
pub open spec fn next_runtime_event(m: RuntimeStreamModel) -> (
    core::result::Result<Option<(RuntimeEventModel, i64)>, Fault>,
    RuntimeStreamModel,
)
    decreases m.parser.stream.left(),
    when m.parser.stream.valid()
{
    let (found, rest) = first_event(m.parser.metadata, m.parser.trace, m.pending);
    match found {
        Some(e) => (
            Ok(Some((e, m.parser.trace.qpc_frequency))),
            RuntimeStreamModel { parser: m.parser, pending: rest },
        ),
        None => {
            proof {
                batches_move_forward(m.parser);
            }
            let (batch, parser) = next_batch(m.parser);
            match batch {
                Err(f) => (Err(f), RuntimeStreamModel { parser, pending: rest }),
                Ok(None) => (Ok(None), RuntimeStreamModel { parser, pending: rest }),
                Ok(Some(events)) => next_runtime_event(
                    RuntimeStreamModel { parser, pending: events },
                ),
            }
        },
    }
}

/// The runtime events of a session's stream, one after the other.
pub struct RuntimeStream {
    parser: NettraceParser,
    batch: Vec<RawEvent>,
    at: usize,
}

impl RuntimeStream {
    pub closed spec fn view(&self) -> RuntimeStreamModel {
        RuntimeStreamModel {
            parser: self.parser@,
            pending: event_models(self.batch@).skip(self.at as int),
        }
    }

    pub closed spec fn wf(&self) -> bool {
        &&& self.parser.wf()
        &&& self.at <= self.batch@.len()
    }

    /// The stream beneath is in order.
    pub proof fn stream_is_valid(&self)
        requires
            self.wf(),
        ensures
            self@.parser.stream.valid(),
    {
        self.parser.stream_is_valid();
    }

    pub fn new(parser: NettraceParser) -> (s: Self)
        requires
            parser.wf(),
        ensures
            s.wf(),
            s@ == (RuntimeStreamModel { parser: parser@, pending: Seq::empty() }),
    {
        let s = RuntimeStream { parser, batch: Vec::new(), at: 0 };
        assert(s@.pending =~= Seq::<EventModel>::empty());
        s
    }

    /// More of the stream has arrived.
    pub fn feed(&mut self, bytes: &[u8])
        requires
            old(self).wf(),
            old(self)@.parser.stream.pos() + old(self)@.parser.stream.left() + bytes@.len()
                <= u64::MAX,
        ensures
            final(self).wf(),
            final(self)@ == (RuntimeStreamModel {
                parser: old(self)@.parser.reading(
                    Stream {
                        data: old(self)@.parser.stream.pending() + bytes@,
                        at: 0,
                        base: old(self)@.parser.stream.pos(),
                        open: old(self)@.parser.stream.open,
                    },
                ),
                pending: old(self)@.pending,
            }),
    {
        self.parser.feed(bytes);
    }

    /// Nothing more of the stream will arrive.
    pub fn close(&mut self)
        requires
            old(self).wf(),
        ensures
            final(self).wf(),
            final(self)@ == (RuntimeStreamModel {
                parser: old(self)@.parser.reading(
                    Stream { open: false, ..old(self)@.parser.stream },
                ),
                pending: old(self)@.pending,
            }),
    {
        self.parser.close();
    }

    /// The next event with the frequency of its clock, or `None` at the end of the stream.
    ///
    /// Pointer width and clock frequency come from the trace header, and both matter: the first
    /// shifts field offsets, the second scales pause durations.
    pub fn next_event(&mut self) -> (event: core::result::Result<
        Option<(RuntimeEvent, i64)>,
        SessionError,
    >)
        requires
            old(self).wf(),
        ensures
            final(self).wf(),
            match (event, next_runtime_event(old(self)@).0) {
                (Ok(Some((e, f))), Ok(Some((m, g)))) => e@ == m && f == g,
                (Ok(None), Ok(None)) => true,
                (Err(SessionError::Parse(e)), Err(f)) => e@ == f,
                _ => false,
            },
            final(self)@ == next_runtime_event(old(self)@).1,
    {
        loop
            invariant
                self.wf(),
                next_runtime_event(old(self)@) == next_runtime_event(self@),
            decreases self@.parser.stream.left(), self@.pending.len(),
        {
            proof {
                self.stream_is_valid();
                batches_move_forward(self@.parser);
            }
            if self.at < self.batch.len() {
                let ghost before = self@;
                let i: usize = self.at;
                self.at = i + 1;
                proof {
                    assert(before.pending[0] == self.batch@[i as int]@);
                    assert(before.pending.skip(1) =~= self@.pending);
                }
                let event = &self.batch[i];
                if let Some(metadata) = self.parser.metadata().get(event.metadata_id) {
                    if same_text(metadata.provider_name.as_str(), RUNTIME_PROVIDER) {
                        let width: i32 = self.parser.trace_info().pointer_size;
                        let pointer_size: usize = if width < 4 {
                            4
                        } else if width > 8 {
                            8
                        } else {
                            width as usize
                        };
                        if let Some(decoded) = decode_event(
                            metadata.event_id,
                            event,
                            pointer_size,
                        ) {
                            let frequency: i64 = self.parser.trace_info().qpc_frequency;
                            return Ok(Some((decoded, frequency)));
                        }
                    }
                }
            } else {
                assert(self@.pending =~= Seq::<EventModel>::empty());
                match self.parser.next_events() {
                    Err(e) => {
                        return Err(SessionError::Parse(e));
                    },
                    Ok(None) => {
                        return Ok(None);
                    },
                    Ok(Some(batch)) => {
                        self.batch = batch;
                        self.at = 0;
                        assert(self@.pending =~= event_models(self.batch@));
                    },
                }
            }
        }
    }
}

// ---------------------------------------------------------------------------------------------
// All of a stream

/// Events in order, each with the frequency of its clock, and the fault that ended them, if they
/// did not end by themselves.
pub struct RuntimeReport {
    pub events: Seq<(RuntimeEventModel, i64)>,
    pub fault: Option<Fault>,
}

/// Everything that some events say, in order.
pub open spec fn said_in(
    known: Map<u32, MetadataModel>,
    trace: TraceModel,
    events: Seq<EventModel>,
) -> Seq<(RuntimeEventModel, i64)>
    decreases events.len(),
{
    if events.len() == 0 {
        Seq::empty()
    } else {
        let rest = said_in(known, trace, events.skip(1));
        match runtime_event(known, trace, events[0]) {
            Some(e) => seq![(e, trace.qpc_frequency)] + rest,
            None => rest,
        }
    }
}

/// Everything that some batches say, in order.
pub open spec fn said_by(batches: Seq<Batch>) -> Seq<(RuntimeEventModel, i64)>
    decreases batches.len(),
{
    if batches.len() == 0 {
        Seq::empty()
    } else {
        said_in(batches[0].metadata, batches[0].trace, batches[0].events) + said_by(
            batches.skip(1),
        )
    }
}

/// The events at hand and all the batches to come.
pub open spec fn all_batches(m: RuntimeStreamModel) -> Seq<Batch> {
    let at_hand = Batch {
        metadata: m.parser.metadata,
        trace: m.parser.trace,
        events: m.pending,
    };
    seq![at_hand] + heard(m.parser).batches
}

/// The first event that says something is the first thing said.
proof fn first_event_is_said_first(
    known: Map<u32, MetadataModel>,
    trace: TraceModel,
    events: Seq<EventModel>,
)
    ensures
        ({
            let (found, rest) = first_event(known, trace, events);
            match found {
                Some(e) => {
                    &&& said_in(known, trace, events) == seq![(e, trace.qpc_frequency)] + said_in(
                        known,
                        trace,
                        rest,
                    )
                    &&& rest.len() < events.len()
                },
                None => said_in(known, trace, events).len() == 0,
            }
        }),
    decreases events.len(),
{
    if events.len() > 0 {
        first_event_is_said_first(known, trace, events.skip(1));
    }
}

/// An event that is handed out takes up some of the stream.
pub proof fn events_move_forward(m: RuntimeStreamModel)
    requires
        m.parser.stream.valid(),
    ensures
        next_runtime_event(m).0 matches Ok(Some(_)) ==> {
            let after = next_runtime_event(m).1;
            &&& after.parser.stream.valid()
            &&& after.parser.stream.left() < m.parser.stream.left() || (after.parser == m.parser
                && after.pending.len() < m.pending.len())
        },
    decreases m.parser.stream.left(),
{
    first_event_is_said_first(m.parser.metadata, m.parser.trace, m.pending);
    batches_move_forward(m.parser);
    if first_event(m.parser.metadata, m.parser.trace, m.pending).0 is None {
        let (batch, parser) = next_batch(m.parser);
        if let Ok(Some(events)) = batch {
            events_move_forward(RuntimeStreamModel { parser, pending: events });
        }
    }
}

/// The events of successive calls, until there are no more or one fails.
pub open spec fn reported(m: RuntimeStreamModel) -> RuntimeReport
    decreases m.parser.stream.left(), m.pending.len(),
    when m.parser.stream.valid()
{
    let (event, after) = next_runtime_event(m);
    match event {
        Err(f) => RuntimeReport { events: Seq::empty(), fault: Some(f) },
        Ok(None) => RuntimeReport { events: Seq::empty(), fault: None },
        Ok(Some(e)) => {
            proof {
                events_move_forward(m);
            }
            let rest = reported(after);
            RuntimeReport { events: seq![e] + rest.events, ..rest }
        },
    }
}

/// A stream reports every event it carries that is modelled, in order, and fails if and only if the
/// stream beneath does: the events of successive calls are those of all its batches.
pub proof fn every_event_is_reported(m: RuntimeStreamModel)
    requires
        m.parser.stream.valid(),
    ensures
        reported(m) == (RuntimeReport {
            events: said_by(all_batches(m)),
            fault: heard(m.parser).fault,
        }),
    decreases m.parser.stream.left(), m.pending.len(),
{
    let known = m.parser.metadata;
    let trace = m.parser.trace;
    let later = heard(m.parser);
    first_event_is_said_first(known, trace, m.pending);
    batches_move_forward(m.parser);
    assert(all_batches(m).skip(1) =~= later.batches);
    let (found, rest) = first_event(known, trace, m.pending);
    match found {
        Some(e) => {
            let after = RuntimeStreamModel { parser: m.parser, pending: rest };
            every_event_is_reported(after);
            assert(all_batches(after).skip(1) =~= later.batches);
            let first = seq![(e, trace.qpc_frequency)];
            let here = said_in(known, trace, rest);
            let behind = said_by(later.batches);
            assert(first + (here + behind) =~= (first + here) + behind);
        },
        None => {
            let (batch, parser) = next_batch(m.parser);
            if let Ok(Some(events)) = batch {
                let next = RuntimeStreamModel { parser, pending: events };
                assert(next_runtime_event(m) == next_runtime_event(next));
                every_event_is_reported(next);
                assert(reported(m) == reported(next)) by {
                    events_move_forward(m);
                    events_move_forward(next);
                }
                assert(all_batches(next) =~= later.batches);
            }
            let behind = said_by(later.batches);
            assert(said_in(known, trace, m.pending) + behind =~= behind);
        },
    }
}

} // verus!
