//! Driving a profile from start to resolved result.
use vstd::prelude::*;
use vstd::slice::slice_to_vec;

use super::methods::{decode_method, method_in, MethodModel, MethodTable, TableModel};
use super::session::{event_id, SampleType, RUNDOWN_PROVIDER, RUNTIME_PROVIDER, SAMPLE_PROFILER};
use super::state::{ProfileModel, ProfileState};
use crate::counters::session::SessionError;
use crate::nettrace::blocks::{
    batches_move_forward, batches_take_space, event_models, heard, next_batch, reads_alike,
    sequence_points_stand_alone, stacks_do_not_steer, Batch, EventModel, NettraceParser,
    ParserModel, RawEvent,
};
use crate::nettrace::metadata::MetadataModel;
use crate::nettrace::reader::{Fault, Stream};
use crate::nettrace::stacks::StackModel;
use crate::text::same_text;

verus! {

/// Progress reported while collecting, so the UI can show something during the window.
#[derive(Debug, Clone, Copy, PartialEq, Eq, Structural)]
pub struct Progress {
    pub samples: u64,
    pub methods: usize,
}

/// How many stacks to keep verbatim for diagnostics.
pub const SAMPLE_STACKS_KEPT: usize = 8;

/// A stack has to be deeper than this to be kept: a one-frame stack says nothing about frame
/// order.
pub const SHALLOW_STACK: usize = 4;

#[derive(Debug)]
pub struct ProfileResult {
    pub state: ProfileState,
    pub methods: MethodTable,
    /// A few stacks kept as-is, for checking frame order and resolution by eye.
    pub sample_stacks: Vec<Vec<u64>>,
}

/// Event ids that carry a method's address range and name.
///
/// Both the runtime provider (methods jitted during the session) and the rundown provider
/// (everything already loaded) use this shape.
pub open spec fn names_a_method(provider: Seq<char>, id: i32) -> bool {
    &&& event_id::METHOD_VERBOSE_FIRST <= id <= event_id::METHOD_VERBOSE_LAST
    &&& provider == RUNTIME_PROVIDER@ || provider == RUNDOWN_PROVIDER@
}

pub fn is_method_event(provider: &str, id: i32) -> (yes: bool)
    ensures
        yes == names_a_method(provider@, id),
{
    event_id::METHOD_VERBOSE_FIRST <= id && id <= event_id::METHOD_VERBOSE_LAST && (same_text(
        provider,
        RUNTIME_PROVIDER,
    ) || same_text(provider, RUNDOWN_PROVIDER))
}

// ---------------------------------------------------------------------------------------------
// The model

/// A [`ProfileCollector`] as a value.
pub struct CollectModel {
    pub parser: ParserModel,
    pub state: ProfileModel,
    pub methods: Seq<MethodModel>,
    /// Samples whose stacks have not been looked up, by stack id.
    pub pending: Seq<(u32, SampleType)>,
    pub sample_stacks: Seq<Seq<u64>>,
}

impl CollectModel {
    /// A collection that has read nothing yet.
    pub open spec fn start(parser: ParserModel) -> CollectModel {
        CollectModel {
            parser: ParserModel { collecting: true, ..parser },
            state: ProfileModel::blank(),
            methods: Seq::empty(),
            pending: Seq::empty(),
            sample_stacks: Seq::empty(),
        }
    }

    /// What one event adds: a sample that waits for its stack, or a method.
    pub open spec fn absorbed(self, event: EventModel) -> CollectModel {
        if !self.parser.metadata.contains_key(event.metadata_id) {
            self
        } else {
            let metadata = self.parser.metadata[event.metadata_id];
            if metadata.provider_name == SAMPLE_PROFILER@ && metadata.event_id
                == event_id::THREAD_SAMPLE {
                CollectModel {
                    pending: self.pending.push(
                        (event.stack_id, SampleType::held_by(event.payload)),
                    ),
                    ..self
                }
            } else if names_a_method(metadata.provider_name, metadata.event_id) {
                match method_in(event.payload) {
                    Some(m) if m.name.len() > 0 && m.start_address > 0 && m.size > 0 =>
                        CollectModel { methods: self.methods.push(m), ..self },
                    _ => self,
                }
            } else {
                self
            }
        }
    }

    /// What the first `n` events add.
    pub open spec fn absorbed_all(self, events: Seq<EventModel>, n: nat) -> CollectModel
        decreases n,
    {
        if n == 0 {
            self
        } else {
            self.absorbed_all(events, (n - 1) as nat).absorbed(events[n - 1])
        }
    }

    /// Look up the stacks of the waiting samples.
    pub open spec fn drained(self) -> CollectModel {
        CollectModel {
            state: with_samples(
                self.state,
                self.pending,
                self.parser.stacks,
                self.pending.len(),
            ),
            pending: Seq::empty(),
            ..self
        }
    }

    /// What a sequence point does: the waiting samples are looked up, and the stacks they came
    /// from grow old.
    pub open spec fn settled(self) -> CollectModel {
        let drained = CollectModel {
            sample_stacks: with_examples(
                self.sample_stacks,
                self.pending,
                self.parser.stacks,
                self.pending.len(),
            ),
            ..self
        }.drained();
        CollectModel {
            parser: ParserModel {
                sequence_point: false,
                stacks: self.parser.stacks.rotated(),
                ..self.parser
            },
            ..drained
        }
    }

    /// What a batch of events does.
    pub open spec fn advanced(self, events: Seq<EventModel>) -> CollectModel {
        let absorbed = self.absorbed_all(events, events.len());
        if absorbed.parser.sequence_point {
            absorbed.settled()
        } else {
            absorbed
        }
    }

    /// The samples seen so far.
    pub open spec fn samples_seen(self) -> int {
        self.state.samples + self.pending.len()
    }

    /// No more samples have been seen than bytes were read.
    pub open spec fn valid(self) -> bool {
        &&& self.parser.stream.valid()
        &&& self.samples_seen() <= self.parser.stream.pos()
    }
}

/// One sample. Only `Error` is genuinely unusable: the type is *supposed* to separate managed
/// execution from native waits, but on macOS/arm64 every sample reports `External`, so filtering on
/// it would discard the entire profile. Parked threads are identified from their stacks instead,
/// once names exist.
pub open spec fn with_sample(
    state: ProfileModel,
    sample: (u32, SampleType),
    stacks: StackModel,
) -> ProfileModel {
    if sample.1 == SampleType::Error {
        state.missed()
    } else {
        match stacks.lookup(sample.0) {
            Some(frames) => state.recorded(frames),
            None => state.missed(),
        }
    }
}

/// The first `n` samples.
pub open spec fn with_samples(
    state: ProfileModel,
    pending: Seq<(u32, SampleType)>,
    stacks: StackModel,
    n: nat,
) -> ProfileModel
    decreases n,
{
    if n == 0 {
        state
    } else {
        with_sample(
            with_samples(state, pending, stacks, (n - 1) as nat),
            pending[n - 1],
            stacks,
        )
    }
}

/// A few of the deep stacks among the first `n` samples, up to the number that is kept.
pub open spec fn with_examples(
    kept: Seq<Seq<u64>>,
    pending: Seq<(u32, SampleType)>,
    stacks: StackModel,
    n: nat,
) -> Seq<Seq<u64>>
    decreases n,
{
    if n == 0 {
        kept
    } else {
        let before = with_examples(kept, pending, stacks, (n - 1) as nat);
        match stacks.lookup(pending[n - 1].0) {
            Some(frames) if before.len() < SAMPLE_STACKS_KEPT && frames.len() > SHALLOW_STACK =>
                before.push(frames),
            _ => before,
        }
    }
}

/// The next step of a collection: progress, or `None` at the end of the stream.
pub open spec fn next_step(m: CollectModel) -> (
    core::result::Result<Option<Progress>, Fault>,
    CollectModel,
) {
    let (batch, parser) = next_batch(m.parser);
    let read = CollectModel { parser, ..m };
    match batch {
        Err(f) => (Err(f), read),
        Ok(None) => (Ok(None), read),
        Ok(Some(events)) => {
            let after = read.advanced(events);
            (
                Ok(
                    Some(
                        Progress {
                            samples: after.samples_seen() as u64,
                            methods: after.methods.len() as usize,
                        },
                    ),
                ),
                after,
            )
        },
    }
}

// ---------------------------------------------------------------------------------------------
// The collector

/// Collects a profile from a session stream.
///
/// Samples wait for the next sequence point before being resolved. Two facts force this. Stack
/// blocks lag the events referencing them, so resolving as samples arrive loses most of them. But
/// stack ids are also *reused* across sequence points, so resolving everything at the very end
/// reads later stacks for earlier samples, which silently produces addresses that belong to no
/// method at all. A sequence point is exactly the boundary where every preceding event has been
/// emitted and no id has yet been recycled.
pub struct ProfileCollector {
    parser: NettraceParser,
    state: ProfileState,
    methods: MethodTable,
    pending: Vec<(u32, SampleType)>,
    sample_stacks: Vec<Vec<u64>>,
}

/// The stacks as sequences.
pub open spec fn frames_models(stacks: Seq<Vec<u64>>) -> Seq<Seq<u64>> {
    Seq::new(stacks.len(), |i: int| stacks[i]@)
}

impl ProfileCollector {
    pub closed spec fn view(&self) -> CollectModel {
        CollectModel {
            parser: self.parser@,
            state: self.state@,
            methods: self.methods@.methods,
            pending: self.pending@,
            sample_stacks: frames_models(self.sample_stacks@),
        }
    }

    pub closed spec fn wf(&self) -> bool {
        &&& self.parser.wf()
        &&& self.state.wf()
        &&& self.methods.wf()
        &&& self@.valid()
    }

    /// A collection that has read nothing yet.
    pub fn new(parser: NettraceParser) -> (c: Self)
        requires
            parser.wf(),
        ensures
            c.wf(),
            c@ == CollectModel::start(parser@),
    {
        let mut parser = parser;
        parser.collect_stacks();
        proof {
            parser.stream_is_valid();
        }
        let c = ProfileCollector {
            parser,
            state: ProfileState::new(),
            methods: MethodTable::new(),
            pending: Vec::new(),
            sample_stacks: Vec::new(),
        };
        assert(c@.sample_stacks =~= Seq::<Seq<u64>>::empty());
        c
    }

    /// More of the stream has arrived.
    pub fn feed(&mut self, bytes: &[u8])
        requires
            old(self).wf(),
            old(self)@.parser.stream.pos() + old(self)@.parser.stream.left() + bytes@.len()
                <= u64::MAX,
        ensures
            final(self).wf(),
            final(self)@ == (CollectModel {
                parser: old(self)@.parser.reading(
                    Stream {
                        data: old(self)@.parser.stream.pending() + bytes@,
                        at: 0,
                        base: old(self)@.parser.stream.pos(),
                        open: old(self)@.parser.stream.open,
                    },
                ),
                ..old(self)@
            }),
    {
        self.parser.feed(bytes);
        proof {
            self.parser.stream_is_valid();
        }
    }

    /// Nothing more of the stream will arrive.
    pub fn close(&mut self)
        requires
            old(self).wf(),
        ensures
            final(self).wf(),
            final(self)@ == (CollectModel {
                parser: old(self)@.parser.reading(
                    Stream { open: false, ..old(self)@.parser.stream },
                ),
                ..old(self)@
            }),
    {
        self.parser.close();
        proof {
            self.parser.stream_is_valid();
        }
    }

    fn absorb(&mut self, event: &RawEvent)
        requires
            old(self).parser.wf(),
            old(self).state.wf(),
            old(self).methods.wf(),
        ensures
            final(self).parser.wf(),
            final(self).state.wf(),
            final(self).methods.wf(),
            final(self)@ == old(self)@.absorbed(event@),
    {
        if let Some(metadata) = self.parser.metadata().get(event.metadata_id) {
            if same_text(metadata.provider_name.as_str(), SAMPLE_PROFILER) && metadata.event_id
                == event_id::THREAD_SAMPLE {
                self.pending.push(
                    (event.stack_id, SampleType::from_payload(event.payload.as_slice())),
                );
            } else if is_method_event(metadata.provider_name.as_str(), metadata.event_id) {
                if let Some(method) = decode_method(event.payload.as_slice()) {
                    // Guard against decoding a same-numbered event of a different shape.
                    if !method.name.as_str().is_empty() && method.start_address > 0 {
                        self.methods.insert(method);
                    }
                }
            }
        }
    }

    /// Keep a few of the deep stacks verbatim.
    fn keep_examples(&mut self)
        requires
            old(self).wf(),
        ensures
            final(self).wf(),
            final(self)@ == (CollectModel {
                sample_stacks: with_examples(
                    old(self)@.sample_stacks,
                    old(self)@.pending,
                    old(self)@.parser.stacks,
                    old(self)@.pending.len(),
                ),
                ..old(self)@
            }),
    {
        let ghost before = self@;
        let mut i: usize = 0;
        while i < self.pending.len()
            invariant
                i <= self.pending@.len(),
                self.wf(),
                self@ == (CollectModel {
                    sample_stacks: with_examples(
                        before.sample_stacks,
                        before.pending,
                        before.parser.stacks,
                        i as nat,
                    ),
                    ..before
                }),
            decreases self.pending@.len() - i,
        {
            if self.sample_stacks.len() < SAMPLE_STACKS_KEPT {
                let stack_id: u32 = self.pending[i].0;
                if let Some(frames) = self.parser.stacks().get(stack_id) {
                    if frames.len() > SHALLOW_STACK {
                        let ghost kept = self@.sample_stacks;
                        let copy = slice_to_vec(frames);
                        let ghost model = copy@;
                        self.sample_stacks.push(copy);
                        assert(self@.sample_stacks =~= kept.push(model));
                    }
                }
            }
            i += 1;
        }
    }

    /// Look up the stacks of the waiting samples.
    fn drain(&mut self)
        requires
            old(self).wf(),
        ensures
            final(self).wf(),
            final(self)@ == old(self)@.drained(),
    {
        let ghost before = self@;
        let mut i: usize = 0;
        while i < self.pending.len()
            invariant
                i <= self.pending@.len(),
                self.parser.wf(),
                self.state.wf(),
                self.methods.wf(),
                before.valid(),
                self@ == (CollectModel {
                    state: with_samples(
                        before.state,
                        before.pending,
                        before.parser.stacks,
                        i as nat,
                    ),
                    ..before
                }),
                self@.state.samples == before.state.samples + i,
            decreases self.pending@.len() - i,
        {
            let (stack_id, sample_type) = self.pending[i];
            if sample_type == SampleType::Error {
                self.state.record_missing_stack();
            } else {
                match self.parser.stacks().get(stack_id) {
                    Some(frames) => self.state.record_stack(frames),
                    None => self.state.record_missing_stack(),
                }
            }
            i += 1;
        }
        self.pending = Vec::new();
    }

    /// Read the next batch of the stream. Returns how far the collection has come, or `None` at
    /// the end of the stream.
    ///
    /// The caller stops the session when its window is up, which is what makes the stream end and
    /// the rundown arrive.
    pub fn step(&mut self) -> (progress: core::result::Result<Option<Progress>, SessionError>)
        requires
            old(self).wf(),
        ensures
            final(self).wf(),
            match (progress, next_step(old(self)@).0) {
                (Ok(p), Ok(q)) => p == q,
                (Err(SessionError::Parse(e)), Err(f)) => e@ == f,
                _ => false,
            },
            final(self)@ == next_step(old(self)@).1,
    {
        let ghost start = self@;
        proof {
            batches_move_forward(start.parser);
            batches_take_space(start.parser);
        }
        let batch = match self.parser.next_events() {
            Err(e) => {
                return Err(SessionError::Parse(e));
            },
            Ok(None) => {
                return Ok(None);
            },
            Ok(Some(batch)) => batch,
        };
        let ghost read = self@;
        let ghost events = event_models(batch@);
        let mut i: usize = 0;
        while i < batch.len()
            invariant
                i <= batch@.len(),
                self.parser.wf(),
                self.state.wf(),
                self.methods.wf(),
                events == event_models(batch@),
                self@ == read.absorbed_all(events, i as nat),
                self@.parser == read.parser,
                self@.state == read.state,
                self@.pending.len() <= read.pending.len() + i,
            decreases batch@.len() - i,
        {
            self.absorb(&batch[i]);
            i += 1;
        }
        if self.parser.take_sequence_point() {
            self.settle();
        }
        Ok(
            Some(
                Progress {
                    samples: self.state.sample_count() + self.pending.len() as u64,
                    methods: self.methods.len(),
                },
            ),
        )
    }

    /// A sequence point has passed.
    fn settle(&mut self)
        requires
            old(self).wf(),
            !old(self)@.parser.sequence_point,
        ensures
            final(self).wf(),
            final(self)@ == old(self)@.settled(),
    {
        self.keep_examples();
        self.drain();
        // Discard the stacks now they have been used. Ids are recycled after a sequence point, so
        // keeping them means a later stack silently answers for an earlier id.
        self.parser.rotate_stacks();
    }

    /// The profile, once the stream has ended: samples after the final sequence point are looked
    /// up, for their stacks are still current, and the methods are put in order.
    pub fn into_result(self) -> (result: ProfileResult)
        requires
            self.wf(),
        ensures
            result.state.wf(),
            result.state@ == self@.drained().state,
            result.methods.wf(),
            result.methods@ == (TableModel { methods: self@.methods, sorted: true }),
            frames_models(result.sample_stacks@) == self@.sample_stacks,
    {
        let mut collector = self;
        collector.drain();
        let mut methods = collector.methods;
        methods.finish();
        ProfileResult { state: collector.state, methods, sample_stacks: collector.sample_stacks }
    }
}

/// A step moves the stream exactly as far as the next batch does, and progress is made only by
/// reading.
pub proof fn steps_move_forward(m: CollectModel)
    requires
        m.parser.stream.valid(),
    ensures
        next_step(m).1.parser.stream == next_batch(m.parser).1.stream,
        next_step(m).0 matches Ok(Some(_)) ==> next_step(m).1.parser.stream.left()
            < m.parser.stream.left(),
        next_step(m).1.parser.stream.valid(),
{
    batches_move_forward(m.parser);
    let (batch, parser) = next_batch(m.parser);
    if let Ok(Some(events)) = batch {
        absorbing_keeps_the_rest(CollectModel { parser, ..m }, events, events.len());
    }
}

/// What a collection has come to once its stream has ended, or the fault that ended it early.
pub open spec fn collected(m: CollectModel) -> core::result::Result<CollectModel, Fault>
    decreases m.parser.stream.left(),
    when m.parser.stream.valid()
{
    let (progress, after) = next_step(m);
    match progress {
        Err(f) => Err(f),
        Ok(None) => Ok(after.drained()),
        Ok(Some(_)) => {
            proof {
                steps_move_forward(m);
            }
            collected(after)
        },
    }
}

/// Collect a profile from a stream that is all there, resolving it once the stream ends.
pub fn collect(parser: NettraceParser) -> (result: core::result::Result<
    ProfileResult,
    SessionError,
>)
    requires
        parser.wf(),
    ensures
        match (result, collected(CollectModel::start(parser@))) {
            (Ok(r), Ok(m)) => {
                &&& r.state.wf() && r.state@ == m.state
                &&& r.methods.wf()
                &&& r.methods@ == (TableModel { methods: m.methods, sorted: true })
                &&& frames_models(r.sample_stacks@) == m.sample_stacks
            },
            (Err(SessionError::Parse(e)), Err(f)) => e@ == f,
            _ => false,
        },
{
    let mut collector = ProfileCollector::new(parser);
    loop
        invariant
            collector.wf(),
            collected(CollectModel::start(parser@)) == collected(collector@),
        decreases collector@.parser.stream.left(),
    {
        proof {
            collector.parser.stream_is_valid();
            steps_move_forward(collector@);
        }
        match collector.step() {
            Err(e) => {
                return Err(e);
            },
            Ok(None) => {
                return Ok(collector.into_result());
            },
            Ok(Some(_)) => {},
        }
    }
}

impl Default for ProfileResult {
    fn default() -> (r: Self)
        ensures
            r.state.wf(),
            r.state@ == ProfileModel::blank(),
            r.methods.wf(),
            r.methods@ == (TableModel { methods: Seq::empty(), sorted: false }),
            r.sample_stacks@.len() == 0,
    {
        ProfileResult {
            state: ProfileState::new(),
            methods: MethodTable::new(),
            sample_stacks: Vec::new(),
        }
    }
}

proof fn samples_add_up(
    state: ProfileModel,
    pending: Seq<(u32, SampleType)>,
    stacks: StackModel,
    n: nat,
)
    requires
        state.samples + n <= u64::MAX,
    ensures
        with_samples(state, pending, stacks, n).samples == state.samples + n,
    decreases n,
{
    if n > 0 {
        samples_add_up(state, pending, stacks, (n - 1) as nat);
    }
}

/// Every sample ends up in the profile, found or not: looking up the waiting ones, at a sequence
/// point or at the end, neither loses any nor adds any.
pub proof fn no_sample_is_lost(m: CollectModel)
    requires
        m.samples_seen() <= u64::MAX,
    ensures
        m.settled().samples_seen() == m.samples_seen(),
        m.drained().state.samples == m.samples_seen(),
        m.settled().pending.len() == 0,
{
    samples_add_up(m.state, m.pending, m.parser.stacks, m.pending.len());
}

/// Samples meet the stacks of their own stretch of the trace: when a sequence point comes, the
/// waiting samples are exactly those of the batches before it, and they are looked up among the
/// stacks that arrived before it, while their ids still mean what they meant.
pub proof fn samples_meet_their_own_stacks(m: CollectModel)
    requires
        m.valid(),
        !m.parser.sequence_point,
    ensures
        ({
            let read = next_batch(m.parser).1;
            let after = next_step(m).1;
            &&& !after.parser.sequence_point
            &&& read.sequence_point ==> {
                &&& after.state == with_samples(m.state, m.pending, read.stacks, m.pending.len())
                &&& after.pending.len() == 0
                &&& after.methods == m.methods
                &&& after.parser.stacks == read.stacks.rotated()
            }
            &&& !read.sequence_point ==> after.state == m.state
        }),
{
    sequence_points_stand_alone(m.parser);
    let (batch, parser) = next_batch(m.parser);
    let read = CollectModel { parser, ..m };
    if let Ok(Some(events)) = batch {
        absorbing_keeps_the_rest(read, events, events.len());
    }
}

/// Absorbing events looks up no stack.
pub(crate) proof fn absorbing_keeps_the_rest(m: CollectModel, events: Seq<EventModel>, n: nat)
    ensures
        m.absorbed_all(events, n).parser == m.parser,
        m.absorbed_all(events, n).state == m.state,
    decreases n,
{
    if n > 0 {
        absorbing_keeps_the_rest(m, events, (n - 1) as nat);
    }
}

/// No more stacks are kept as examples than there is room for, and only deep ones.
pub proof fn examples_are_few_and_deep(
    kept: Seq<Seq<u64>>,
    pending: Seq<(u32, SampleType)>,
    stacks: StackModel,
    n: nat,
)
    requires
        kept.len() <= SAMPLE_STACKS_KEPT,
        forall|i: int| 0 <= i < kept.len() ==> (#[trigger] kept[i]).len() > SHALLOW_STACK,
    ensures
        with_examples(kept, pending, stacks, n).len() <= SAMPLE_STACKS_KEPT,
        forall|i: int|
            0 <= i < with_examples(kept, pending, stacks, n).len() ==> (#[trigger] with_examples(
                kept,
                pending,
                stacks,
                n,
            )[i]).len() > SHALLOW_STACK,
    decreases n,
{
    if n > 0 {
        examples_are_few_and_deep(kept, pending, stacks, (n - 1) as nat);
    }
}

// ---------------------------------------------------------------------------------------------
// All of a stream

/// Whether an event is a sample.
pub open spec fn is_sample(metadata: Map<u32, MetadataModel>, event: EventModel) -> bool {
    &&& metadata.contains_key(event.metadata_id)
    &&& metadata[event.metadata_id].provider_name == SAMPLE_PROFILER@
    &&& metadata[event.metadata_id].event_id == event_id::THREAD_SAMPLE
}

/// The method an event tells of, if it tells of one.
pub open spec fn method_told(
    metadata: Map<u32, MetadataModel>,
    event: EventModel,
) -> Option<MethodModel> {
    if !metadata.contains_key(event.metadata_id) || is_sample(metadata, event) {
        None
    } else {
        let known = metadata[event.metadata_id];
        match method_in(event.payload) {
            Some(m) if names_a_method(known.provider_name, known.event_id) && m.name.len() > 0
                && m.start_address > 0 && m.size > 0 => Some(m),
            _ => None,
        }
    }
}

/// How many of the first `n` events are samples.
pub open spec fn samples_among(
    metadata: Map<u32, MetadataModel>,
    events: Seq<EventModel>,
    n: nat,
) -> nat
    decreases n,
{
    if n == 0 {
        0
    } else {
        samples_among(metadata, events, (n - 1) as nat) + (if is_sample(metadata, events[n - 1]) {
            1nat
        } else {
            0
        })
    }
}

/// The methods that the first `n` events tell of, in order.
pub open spec fn methods_among(
    metadata: Map<u32, MetadataModel>,
    events: Seq<EventModel>,
    n: nat,
) -> Seq<MethodModel>
    decreases n,
{
    if n == 0 {
        Seq::empty()
    } else {
        let before = methods_among(metadata, events, (n - 1) as nat);
        match method_told(metadata, events[n - 1]) {
            Some(m) => before.push(m),
            None => before,
        }
    }
}

/// How many samples there are in some batches.
pub open spec fn samples_carried(batches: Seq<Batch>) -> nat
    decreases batches.len(),
{
    if batches.len() == 0 {
        0
    } else {
        samples_among(batches[0].metadata, batches[0].events, batches[0].events.len())
            + samples_carried(batches.skip(1))
    }
}

/// The methods that some batches tell of, in order.
pub open spec fn methods_carried(batches: Seq<Batch>) -> Seq<MethodModel>
    decreases batches.len(),
{
    if batches.len() == 0 {
        Seq::empty()
    } else {
        methods_among(batches[0].metadata, batches[0].events, batches[0].events.len())
            + methods_carried(batches.skip(1))
    }
}

/// Absorbing events adds the samples and the methods among them.
pub(crate) proof fn absorbing_adds(m: CollectModel, events: Seq<EventModel>, n: nat)
    ensures
        ({
            let after = m.absorbed_all(events, n);
            let metadata = m.parser.metadata;
            &&& after.parser == m.parser
            &&& after.state == m.state
            &&& after.pending.len() == m.pending.len() + samples_among(metadata, events, n)
            &&& after.methods == m.methods + methods_among(metadata, events, n)
            &&& samples_among(metadata, events, n) <= n
        }),
    decreases n,
{
    if n == 0 {
        assert(m.methods + Seq::<MethodModel>::empty() =~= m.methods);
    } else {
        absorbing_adds(m, events, (n - 1) as nat);
        let before = methods_among(m.parser.metadata, events, (n - 1) as nat);
        if let Some(told) = method_told(m.parser.metadata, events[n - 1]) {
            assert((m.methods + before).push(told) =~= m.methods + before.push(told));
        }
    }
}

/// A step adds exactly the samples and the methods of its batch.
pub(crate) proof fn steps_add(m: CollectModel)
    requires
        m.valid(),
    ensures
        ({
            let (batch, read) = next_batch(m.parser);
            let after = next_step(m).1;
            &&& after.valid()
            &&& reads_alike(read, after.parser)
            &&& match batch {
                Ok(Some(events)) => {
                    &&& after.samples_seen() == m.samples_seen() + samples_among(
                        read.metadata,
                        events,
                        events.len(),
                    )
                    &&& after.methods == m.methods + methods_among(
                        read.metadata,
                        events,
                        events.len(),
                    )
                },
                _ => after.samples_seen() == m.samples_seen() && after.methods == m.methods,
            }
        }),
{
    batches_move_forward(m.parser);
    batches_take_space(m.parser);
    let (batch, parser) = next_batch(m.parser);
    let read = CollectModel { parser, ..m };
    if let Ok(Some(events)) = batch {
        absorbing_adds(read, events, events.len());
        no_sample_is_lost(read.absorbed_all(events, events.len()));
    }
}

/// A profile counts every sample that its stream carries, no more and no fewer, and knows every
/// method that the stream tells of, in order. A collection fails if and only if its stream does.
pub proof fn everything_is_collected(m: CollectModel)
    requires
        m.valid(),
    ensures
        ({
            let all = heard(m.parser);
            match collected(m) {
                Ok(c) => {
                    &&& all.fault is None
                    &&& c.state.samples == m.samples_seen() + samples_carried(all.batches)
                    &&& c.methods == m.methods + methods_carried(all.batches)
                    &&& c.pending.len() == 0
                },
                Err(f) => all.fault == Some(f),
            }
        }),
    decreases m.parser.stream.left(),
{
    let (batch, read) = next_batch(m.parser);
    let after = next_step(m).1;
    let all = heard(m.parser);
    steps_add(m);
    steps_move_forward(m);
    batches_move_forward(m.parser);
    match batch {
        Err(_) => {},
        Ok(None) => {
            no_sample_is_lost(after);
            assert(m.methods + Seq::<MethodModel>::empty() =~= m.methods);
        },
        Ok(Some(events)) => {
            everything_is_collected(after);
            stacks_do_not_steer(read, after.parser);
            let rest = heard(read);
            let first = Batch { metadata: read.metadata, trace: read.trace, events };
            assert(all.batches == seq![first] + rest.batches);
            assert(all.batches.skip(1) =~= rest.batches);
            let told = methods_among(read.metadata, events, events.len());
            let later = methods_carried(rest.batches);
            assert((m.methods + told) + later =~= m.methods + (told + later));
        },
    }
}

} // verus!
