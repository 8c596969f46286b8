//! Driving a live counter session: what to subscribe to, and the samples its stream yields.
use vstd::prelude::*;

use super::sample::{extract, extracted, CounterSample, SampleModel};
use crate::ipc::commands::{
    provider_models, CommandError, Provider, ProviderModel, TraceConfig,
};
use crate::nettrace::blocks::{
    batches_move_forward, event_models, heard, next_batch, Batch, EventModel, NettraceParser,
    ParserModel, RawEvent,
};
use crate::nettrace::metadata::MetadataModel;
use crate::nettrace::reader::{Fault, ParseError, Stream};

verus! {

/// Buffer the runtime keeps for the session. Counters are low-volume; this is ample.
pub const CIRCULAR_BUFFER_MB: u32 = 10;

/// EventLevel.Informational.
pub const LEVEL_INFORMATIONAL: u32 = 4;

/// Providers to subscribe to.
///
/// Note the Kestrel name: the EventCounter provider is hyphenated. The dotted
/// `Microsoft.AspNetCore.Server.Kestrel` is the .NET 8+ *Meter*, a different mechanism;
/// subscribing to it here is not an error, it just silently yields nothing.
pub const PROVIDERS: &'static [&'static str; 4] = &[
    "System.Runtime",
    "Microsoft.AspNetCore.Hosting",
    "Microsoft-AspNetCore-Server-Kestrel",
    "System.Net.Http",
];

/// Providers whose presence identifies an ASP.NET Core host.
pub const ASPNET_PROVIDERS: &'static [&'static str; 2] = &[
    "Microsoft.AspNetCore.Hosting",
    "Microsoft-AspNetCore-Server-Kestrel",
];

/// A subscription to one provider's counters. Keywords are 0 throughout: EventCounter payload
/// events declare none so any mask would pass, but a broad mask risks switching on unrelated
/// high-volume events from providers that do use keyword bits.
pub open spec fn subscription(name: Seq<char>, interval: Seq<char>) -> ProviderModel {
    ProviderModel {
        name,
        keywords: 0,
        level: LEVEL_INFORMATIONAL,
        filter_data: "EventCounterIntervalSec="@ + interval,
    }
}

fn provider(name: &str, interval: &str) -> (p: Provider)
    ensures
        p@ == subscription(name@, interval@),
{
    let mut filter_data = "EventCounterIntervalSec=".to_owned();
    filter_data.append(interval);
    Provider { name: name.to_owned(), keywords: 0, level: LEVEL_INFORMATIONAL, filter_data }
}

/// The session to ask for, given the interval in seconds as it is to be spelled: with a '.' as the
/// decimal separator.
///
/// Rundown emits method/assembly/type maps, which is pure overhead for counters.
pub fn trace_config(interval: &str) -> (config: TraceConfig)
    ensures
        config.circular_buffer_mb == CIRCULAR_BUFFER_MB,
        !config.request_rundown,
        provider_models(config.providers@) == Seq::new(
            4,
            |i: int| subscription(PROVIDERS@[i]@, interval@),
        ),
{
    let mut providers: Vec<Provider> = Vec::new();
    let mut i: usize = 0;
    while i < 4
        invariant
            i <= 4,
            providers@.len() == i,
            forall|k: int|
                0 <= k < i ==> (#[trigger] providers@[k])@ == subscription(
                    PROVIDERS@[k]@,
                    interval@,
                ),
        decreases 4 - i,
    {
        providers.push(provider(PROVIDERS[i], interval));
        i += 1;
    }
    assert(provider_models(providers@) =~= Seq::new(
        4,
        |i: int| subscription(PROVIDERS@[i]@, interval@),
    ));
    TraceConfig { circular_buffer_mb: CIRCULAR_BUFFER_MB, request_rundown: false, providers }
}

#[derive(Debug, Clone)]
pub enum SessionError {
    Command(CommandError),
    Parse(ParseError),
}

impl SessionError {
    /// The error in words.
    pub open spec fn words(self) -> Seq<char> {
        match self {
            SessionError::Command(e) => e.words(),
            SessionError::Parse(e) => e@.words(),
        }
    }

    /// The error in words, for a person to read.
    pub fn describe(&self) -> (s: String)
        ensures
            s@ == self.words(),
    {
        match self {
            SessionError::Command(e) => e.describe(),
            SessionError::Parse(e) => e.describe(),
        }
    }
}

impl From<CommandError> for SessionError {
    fn from(e: CommandError) -> (r: Self) {
        SessionError::Command(e)
    }
}

impl vstd::std_specs::convert::FromSpecImpl<CommandError> for SessionError {
    open spec fn obeys_from_spec() -> bool {
        true
    }

    open spec fn from_spec(e: CommandError) -> Self {
        SessionError::Command(e)
    }
}

impl From<ParseError> for SessionError {
    fn from(e: ParseError) -> (r: Self) {
        SessionError::Parse(e)
    }
}

impl vstd::std_specs::convert::FromSpecImpl<ParseError> for SessionError {
    open spec fn obeys_from_spec() -> bool {
        true
    }

    open spec fn from_spec(e: ParseError) -> Self {
        SessionError::Parse(e)
    }
}

// ---------------------------------------------------------------------------------------------
// The samples of a stream

/// The outcome of looking through events for a counter sample.
pub struct Search {
    pub found: core::result::Result<Option<SampleModel>, Fault>,
    pub rest: Seq<EventModel>,
}

/// The first sample among some events, and the events behind it.
///
/// An event whose metadata has not been seen is passed over: its payload is undecodable without
/// it, and counter metadata always precedes its events.
pub open spec fn search(metadata: Map<u32, MetadataModel>, events: Seq<EventModel>) -> Search
    decreases events.len(),
{
    if events.len() == 0 {
        Search { found: Ok(None), rest: events }
    } else {
        let rest = events.skip(1);
        if !metadata.contains_key(events[0].metadata_id) {
            search(metadata, rest)
        } else {
            match extracted(metadata[events[0].metadata_id], events[0]) {
                Err(f) => Search { found: Err(f), rest },
                Ok(Some(s)) => Search { found: Ok(Some(s)), rest },
                Ok(None) => search(metadata, rest),
            }
        }
    }
}

/// A [`CounterStream`] as a value.
pub struct CounterStreamModel {
    pub parser: ParserModel,
    /// The events of the current batch that have not been looked at.
    pub pending: Seq<EventModel>,
}

/// The next sample of a stream, or `None` at its end, and the stream afterwards.
pub open spec fn next_counter(m: CounterStreamModel) -> (
    core::result::Result<Option<SampleModel>, Fault>,
    CounterStreamModel,
)
    decreases m.parser.stream.left(),
    when m.parser.stream.valid()
{
    let s = search(m.parser.metadata, m.pending);
    let here = CounterStreamModel { parser: m.parser, pending: s.rest };
    match s.found {
        Err(f) => (Err(f), here),
        Ok(Some(sample)) => (Ok(Some(sample)), here),
        Ok(None) => {
            proof {
                batches_move_forward(m.parser);
            }
            let (batch, parser) = next_batch(m.parser);
            match batch {
                Err(f) => (Err(f), CounterStreamModel { parser, pending: s.rest }),
                Ok(None) => (Ok(None), CounterStreamModel { parser, pending: s.rest }),
                Ok(Some(events)) => next_counter(CounterStreamModel { parser, pending: events }),
            }
        },
    }
}

/// The counter samples of a session's stream, one after the other.
///
/// Every payload is reported, including any stamped with an interval other than the one the
/// session asked for: an EventSource polls its counters on one timer shared by every session
/// watching it, so a second tool asking for a quarter of a second pins the source there and
/// *everyone* receives quarter-second payloads.
pub struct CounterStream {
    parser: NettraceParser,
    batch: Vec<RawEvent>,
    at: usize,
}

impl CounterStream {
    pub closed spec fn view(&self) -> CounterStreamModel {
        CounterStreamModel {
            parser: self.parser@,
            pending: event_models(self.batch@).skip(self.at as int),
        }
    }

    pub closed spec fn wf(&self) -> bool {
        &&& self.parser.wf()
        &&& self.at <= self.batch@.len()
    }

    /// The stream beneath is in order.
    pub proof fn stream_is_valid(&self)
        requires
            self.wf(),
        ensures
            self@.parser.stream.valid(),
    {
        self.parser.stream_is_valid();
    }

    pub fn new(parser: NettraceParser) -> (s: Self)
        requires
            parser.wf(),
        ensures
            s.wf(),
            s@ == (CounterStreamModel { parser: parser@, pending: Seq::empty() }),
    {
        let s = CounterStream { parser, batch: Vec::new(), at: 0 };
        assert(s@.pending =~= Seq::<EventModel>::empty());
        s
    }

    /// More of the stream has arrived.
    pub fn feed(&mut self, bytes: &[u8])
        requires
            old(self).wf(),
            old(self)@.parser.stream.pos() + old(self)@.parser.stream.left() + bytes@.len()
                <= u64::MAX,
        ensures
            final(self).wf(),
            final(self)@ == (CounterStreamModel {
                parser: old(self)@.parser.reading(
                    Stream {
                        data: old(self)@.parser.stream.pending() + bytes@,
                        at: 0,
                        base: old(self)@.parser.stream.pos(),
                        open: old(self)@.parser.stream.open,
                    },
                ),
                pending: old(self)@.pending,
            }),
    {
        self.parser.feed(bytes);
    }

    /// Nothing more of the stream will arrive.
    pub fn close(&mut self)
        requires
            old(self).wf(),
        ensures
            final(self).wf(),
            final(self)@ == (CounterStreamModel {
                parser: old(self)@.parser.reading(
                    Stream { open: false, ..old(self)@.parser.stream },
                ),
                pending: old(self)@.pending,
            }),
    {
        self.parser.close();
    }

    /// The next sample, or `None` at the end of the stream.
    pub fn next_sample(&mut self) -> (sample: core::result::Result<
        Option<CounterSample>,
        SessionError,
    >)
        requires
            old(self).wf(),
        ensures
            final(self).wf(),
            match (sample, next_counter(old(self)@).0) {
                (Ok(Some(s)), Ok(Some(m))) => s@ == m,
                (Ok(None), Ok(None)) => true,
                (Err(SessionError::Parse(e)), Err(f)) => e@ == f,
                _ => false,
            },
            final(self)@ == next_counter(old(self)@).1,
    {
        loop
            invariant
                self.wf(),
                next_counter(old(self)@) == next_counter(self@),
            decreases self@.parser.stream.left(), self@.pending.len(),
        {
            proof {
                self.stream_is_valid();
                batches_move_forward(self@.parser);
            }
            if self.at < self.batch.len() {
                let ghost before = self@;
                let i: usize = self.at;
                self.at = i + 1;
                proof {
                    assert(before.pending[0] == self.batch@[i as int]@);
                    assert(before.pending.skip(1) =~= self@.pending);
                }
                let event = &self.batch[i];
                if let Some(metadata) = self.parser.metadata().get(event.metadata_id) {
                    match extract(metadata, event) {
                        Err(e) => {
                            return Err(SessionError::Parse(e));
                        },
                        Ok(Some(sample)) => {
                            return Ok(Some(sample));
                        },
                        Ok(None) => {},
                    }
                }
            } else {
                assert(self@.pending =~= Seq::<EventModel>::empty());
                match self.parser.next_events() {
                    Err(e) => {
                        return Err(SessionError::Parse(e));
                    },
                    Ok(None) => {
                        return Ok(None);
                    },
                    Ok(Some(batch)) => {
                        self.batch = batch;
                        self.at = 0;
                        assert(self@.pending =~= event_models(self.batch@));
                    },
                }
            }
        }
    }
}

// ---------------------------------------------------------------------------------------------
// All of a stream

/// Samples in order, and the fault that ended them, if they did not end by themselves.
pub struct Report {
    pub samples: Seq<SampleModel>,
    pub fault: Option<Fault>,
}

/// All the samples among some events, in order, up to a payload that does not decode.
pub open spec fn samples_in(metadata: Map<u32, MetadataModel>, events: Seq<EventModel>) -> Report
    decreases events.len(),
{
    if events.len() == 0 {
        Report { samples: Seq::empty(), fault: None }
    } else {
        let rest = samples_in(metadata, events.skip(1));
        if metadata.contains_key(events[0].metadata_id) {
            match extracted(metadata[events[0].metadata_id], events[0]) {
                Ok(Some(s)) => Report { samples: seq![s] + rest.samples, ..rest },
                Ok(None) => rest,
                Err(f) => Report { samples: Seq::empty(), fault: Some(f) },
            }
        } else {
            rest
        }
    }
}

/// All the samples in some batches, in order, up to a payload that does not decode; behind them
/// stands the fault `end`, if there is one.
pub open spec fn samples_of(batches: Seq<Batch>, end: Option<Fault>) -> Report
    decreases batches.len(),
{
    if batches.len() == 0 {
        Report { samples: Seq::empty(), fault: end }
    } else {
        let first = samples_in(batches[0].metadata, batches[0].events);
        if first.fault is Some {
            first
        } else {
            let rest = samples_of(batches.skip(1), end);
            Report { samples: first.samples + rest.samples, ..rest }
        }
    }
}

/// The events at hand and all the batches to come.
pub open spec fn all_batches(m: CounterStreamModel) -> Seq<Batch> {
    let at_hand = Batch {
        metadata: m.parser.metadata,
        trace: m.parser.trace,
        events: m.pending,
    };
    seq![at_hand] + heard(m.parser).batches
}

/// A sample that is handed out takes up some of the stream.
pub proof fn samples_move_forward(m: CounterStreamModel)
    requires
        m.parser.stream.valid(),
    ensures
        next_counter(m).0 matches Ok(Some(_)) ==> {
            let after = next_counter(m).1;
            &&& after.parser.stream.valid()
            &&& after.parser.stream.left() < m.parser.stream.left() || (after.parser == m.parser
                && after.pending.len() < m.pending.len())
        },
    decreases m.parser.stream.left(),
{
    search_shortens(m.parser.metadata, m.pending);
    batches_move_forward(m.parser);
    if search(m.parser.metadata, m.pending).found matches Ok(None) {
        let (batch, parser) = next_batch(m.parser);
        if let Ok(Some(events)) = batch {
            samples_move_forward(CounterStreamModel { parser, pending: events });
        }
    }
}

proof fn search_shortens(metadata: Map<u32, MetadataModel>, events: Seq<EventModel>)
    ensures
        search(metadata, events).rest.len() <= events.len(),
        search(metadata, events).found matches Ok(Some(_)) ==> search(metadata, events).rest.len()
            < events.len(),
    decreases events.len(),
{
    if events.len() > 0 {
        search_shortens(metadata, events.skip(1));
    }
}

/// The samples of successive calls, until there are no more or one fails.
pub open spec fn reported(m: CounterStreamModel) -> Report
    decreases m.parser.stream.left(), m.pending.len(),
    when m.parser.stream.valid()
{
    let (sample, after) = next_counter(m);
    match sample {
        Err(f) => Report { samples: Seq::empty(), fault: Some(f) },
        Ok(None) => Report { samples: Seq::empty(), fault: None },
        Ok(Some(s)) => {
            proof {
                samples_move_forward(m);
            }
            let rest = reported(after);
            Report { samples: seq![s] + rest.samples, ..rest }
        },
    }
}

/// A search finds the first sample, or the fault in front of it.
proof fn searches_find_the_first(metadata: Map<u32, MetadataModel>, events: Seq<EventModel>)
    ensures
        ({
            let all = samples_in(metadata, events);
            let s = search(metadata, events);
            let rest = samples_in(metadata, s.rest);
            match s.found {
                Err(f) => all == (Report { samples: Seq::empty(), fault: Some(f) }),
                Ok(Some(first)) => all == (Report {
                    samples: seq![first] + rest.samples,
                    fault: rest.fault,
                }),
                Ok(None) => all == (Report { samples: Seq::empty(), fault: None }),
            }
        }),
    decreases events.len(),
{
    if events.len() > 0 {
        searches_find_the_first(metadata, events.skip(1));
    }
}

/// A stream reports every counter payload it carries, in order, whatever interval it is stamped
/// with: the samples of successive calls are those of all its batches, and where they end early,
/// it is by the fault that the stream has in that place.
pub proof fn every_payload_is_reported(m: CounterStreamModel)
    requires
        m.parser.stream.valid(),
    ensures
        reported(m) == samples_of(all_batches(m), heard(m.parser).fault),
    decreases m.parser.stream.left(), m.pending.len(),
{
    let metadata = m.parser.metadata;
    let later = heard(m.parser);
    searches_find_the_first(metadata, m.pending);
    search_shortens(metadata, m.pending);
    batches_move_forward(m.parser);
    let s = search(metadata, m.pending);
    assert(all_batches(m).skip(1) =~= later.batches);
    match s.found {
        Err(_) => {},
        Ok(Some(first)) => {
            let after = CounterStreamModel { parser: m.parser, pending: s.rest };
            assert(next_counter(m) == (Ok::<Option<SampleModel>, Fault>(Some(first)), after));
            every_payload_is_reported(after);
            assert(all_batches(after).skip(1) =~= later.batches);
            let rest = samples_in(metadata, s.rest);
            if rest.fault is None {
                let behind = samples_of(later.batches, later.fault);
                assert(seq![first] + (rest.samples + behind.samples) =~= (seq![first]
                    + rest.samples) + behind.samples);
            }
        },
        Ok(None) => {
            let (batch, parser) = next_batch(m.parser);
            if let Ok(Some(events)) = batch {
                let next = CounterStreamModel { parser, pending: events };
                assert(next_counter(m) == next_counter(next));
                every_payload_is_reported(next);
                assert(reported(m) == reported(next)) by {
                    samples_move_forward(m);
                    samples_move_forward(next);
                }
                assert(all_batches(next) =~= later.batches);
            }
            let behind = samples_of(later.batches, later.fault);
            assert(Seq::<SampleModel>::empty() + behind.samples =~= behind.samples);
        },
    }
}

/// A subscription asks for the provider it names, at the level of information, without keywords,
/// and for the interval it is given, in seconds.
pub proof fn subscriptions_name_their_interval(name: Seq<char>, interval: Seq<char>)
    ensures
        ({
            let asked = subscription(name, interval);
            &&& asked.name == name
            &&& asked.keywords == 0
            &&& asked.level == 4
            &&& asked.filter_data == "EventCounterIntervalSec="@ + interval
        }),
{
}

/// The providers that are asked are these four.
pub proof fn four_providers_are_asked(i: int)
    ensures
        i == 0 ==> PROVIDERS@[i]@ == "System.Runtime"@,
        i == 1 ==> PROVIDERS@[i]@ == "Microsoft.AspNetCore.Hosting"@,
        i == 2 ==> PROVIDERS@[i]@ == "Microsoft-AspNetCore-Server-Kestrel"@,
        i == 3 ==> PROVIDERS@[i]@ == "System.Net.Http"@,
{
}

} // verus!
