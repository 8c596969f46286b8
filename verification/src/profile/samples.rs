//! What a collected profile says of the samples in its stream.
use vstd::prelude::*;

use super::run::{
    absorbing_adds, absorbing_keeps_the_rest, collected, next_step, no_sample_is_lost, samples_among, steps_add, steps_move_forward,
    with_examples, with_sample, with_samples, CollectModel,
};
use super::session::SampleType;
use super::state::{a_stack_counts_once, recording_keeps_order, ProfileModel};
use super::tally::{count_of, counting_adds_one, counts_are_bounded};
use crate::nettrace::blocks::{
    batches_move_forward, batches_take_space, next_batch, EventModel, ParserModel,
};
use crate::nettrace::metadata::MetadataModel;
use crate::nettrace::stacks::StackModel;

verus! {

/// A sample: what its event carries, and the stack that its id stands for, if there is one.
pub struct Taken {
    pub payload: Seq<u8>,
    pub frames: Option<Seq<u64>>,
}

impl Taken {
    /// Whether the runtime says that it could not walk the stack: its payload holds a zero.
    pub open spec fn failed(self) -> bool {
        &&& self.payload.len() >= 4
        &&& self.payload[0] == 0 && self.payload[1] == 0 && self.payload[2] == 0
            && self.payload[3] == 0
    }

    /// Whether the sample has a stack to speak of.
    pub open spec fn found(self) -> bool {
        !self.failed() && self.frames is Some
    }

    pub open spec fn usable(self) -> bool {
        self.found() && self.frames->0.len() > 0
    }

    /// Whether the sample was taken in the code at an address.
    pub open spec fn is_in(self, address: u64) -> bool {
        self.usable() && self.frames->0[0] == address
    }

    /// Whether the code at an address was on its way to where the sample was taken, or there.
    pub open spec fn is_under(self, address: u64) -> bool {
        self.usable() && self.frames->0.contains(address)
    }
}

/// How many samples are as asked for.
pub open spec fn how_many(samples: Seq<Taken>, asked: spec_fn(Taken) -> bool) -> int
    decreases samples.len(),
{
    if samples.len() == 0 {
        0
    } else {
        how_many(samples.drop_last(), asked) + if asked(samples.last()) {
            1int
        } else {
            0
        }
    }
}

/// The events among some that are samples.
pub open spec fn samples_of(
    metadata: Map<u32, MetadataModel>,
    events: Seq<EventModel>,
) -> Seq<EventModel>
    decreases events.len(),
{
    if events.len() == 0 {
        Seq::empty()
    } else {
        let earlier = samples_of(metadata, events.drop_last());
        let e = events.last();
        if metadata.contains_key(e.metadata_id) && metadata[e.metadata_id].provider_name
            == "Microsoft-DotNETCore-SampleProfiler"@ && metadata[e.metadata_id].event_id == 0 {
            earlier.push(e)
        } else {
            earlier
        }
    }
}

/// Samples with the stacks that their ids stand for in a table.
pub open spec fn looked_up(samples: Seq<EventModel>, stacks: StackModel) -> Seq<Taken> {
    Seq::new(
        samples.len(),
        |i: int|
            Taken { payload: samples[i].payload, frames: stacks.lookup(samples[i].stack_id) },
    )
}

/// All samples of the rest of a stream, behind some that wait. A sample's id stands for a stack of
/// its own stretch: what was known at the next sequence point, or at the end.
pub open spec fn taken(p: ParserModel, waiting: Seq<EventModel>) -> Seq<Taken>
    decreases p.stream.left(),
    when p.stream.valid()
{
    let (batch, read) = next_batch(p);
    match batch {
        Ok(Some(events)) => {
            let all = waiting + samples_of(read.metadata, events);
            proof {
                batches_move_forward(p);
            }
            if read.sequence_point {
                let next = ParserModel {
                    sequence_point: false,
                    stacks: read.stacks.rotated(),
                    ..read
                };
                looked_up(all, read.stacks) + taken(next, Seq::empty())
            } else {
                taken(read, all)
            }
        },
        _ => looked_up(waiting, read.stacks),
    }
}

/// Whether a profile counts some samples on top of another profile: all of them as samples, those
/// without a stack as missing, those with an empty one as empty, and the others at the address they
/// were taken in and at each address they were taken under.
pub open spec fn counts_more(after: ProfileModel, before: ProfileModel, samples: Seq<Taken>) -> bool {
    &&& after.samples == before.samples + samples.len()
    &&& after.unresolved_stacks == before.unresolved_stacks + how_many(
        samples,
        |s: Taken| !s.found(),
    )
    &&& after.empty_stacks == before.empty_stacks + how_many(
        samples,
        |s: Taken| s.found() && !s.usable(),
    )
    &&& after.usable() == before.usable() + how_many(samples, |s: Taken| s.usable())
    &&& forall|a: u64|
        #![trigger count_of(after.self_counts, a)]
        count_of(after.self_counts, a) == count_of(before.self_counts, a) + how_many(
            samples,
            |s: Taken| s.is_in(a),
        )
    &&& forall|a: u64|
        #![trigger count_of(after.total_counts, a)]
        count_of(after.total_counts, a) == count_of(before.total_counts, a) + how_many(
            samples,
            |s: Taken| s.is_under(a),
        )
}

proof fn many_of_both(a: Seq<Taken>, b: Seq<Taken>, asked: spec_fn(Taken) -> bool)
    ensures
        how_many(a + b, asked) == how_many(a, asked) + how_many(b, asked),
    decreases b.len(),
{
    if b.len() == 0 {
        assert(a + b =~= a);
    } else {
        many_of_both(a, b.drop_last(), asked);
        assert((a + b).drop_last() =~= a + b.drop_last());
        assert((a + b).last() == b.last());
    }
}

proof fn counting_goes_on(
    first: ProfileModel,
    middle: ProfileModel,
    end: ProfileModel,
    a: Seq<Taken>,
    b: Seq<Taken>,
)
    requires
        counts_more(middle, first, a),
        counts_more(end, middle, b),
    ensures
        counts_more(end, first, a + b),
{
    many_of_both(a, b, |s: Taken| !s.found());
    many_of_both(a, b, |s: Taken| s.found() && !s.usable());
    many_of_both(a, b, |s: Taken| s.usable());
    assert forall|x: u64|
        #![trigger count_of(end.self_counts, x)]
        count_of(end.self_counts, x) == count_of(first.self_counts, x) + how_many(
            a + b,
            |s: Taken| s.is_in(x),
        ) by {
        many_of_both(a, b, |s: Taken| s.is_in(x));
        assert(count_of(middle.self_counts, x) == count_of(first.self_counts, x) + how_many(
            a,
            |s: Taken| s.is_in(x),
        ));
    }
    assert forall|x: u64|
        #![trigger count_of(end.total_counts, x)]
        count_of(end.total_counts, x) == count_of(first.total_counts, x) + how_many(
            a + b,
            |s: Taken| s.is_under(x),
        ) by {
        many_of_both(a, b, |s: Taken| s.is_under(x));
        assert(count_of(middle.total_counts, x) == count_of(first.total_counts, x) + how_many(
            a,
            |s: Taken| s.is_under(x),
        ));
    }
}

proof fn one_sample_counts(state: ProfileModel, event: EventModel, stacks: StackModel)
    requires
        state.valid(),
        state.samples < u64::MAX,
    ensures
        ({
            let sample = (event.stack_id, SampleType::held_by(event.payload));
            let after = with_sample(state, sample, stacks);
            &&& after.valid()
            &&& counts_more(after, state, looked_up(seq![event], stacks))
        }),
{
    let sample = (event.stack_id, SampleType::held_by(event.payload));
    let after = with_sample(state, sample, stacks);
    let one = looked_up(seq![event], stacks);
    let t = Taken { payload: event.payload, frames: stacks.lookup(event.stack_id) };
    assert(one =~= seq![t]);
    assert(one.drop_last() =~= Seq::<Taken>::empty());
    assert(one.last() == t);
    reveal_with_fuel(how_many, 2);
    assert(t.failed() <==> sample.1 == SampleType::Error);
    counts_are_bounded(state.self_counts, 0);
    if t.found() {
        let frames = t.frames->0;
        recording_keeps_order(state, frames);
        if frames.len() > 0 {
            assert(frames.take(frames.len() as int) =~= frames);
            assert forall|a: u64| #[trigger] count_of(state.total_counts, a) < u64::MAX by {}
            assert(count_of(state.self_counts, frames[0]) < u64::MAX);
            assert forall|a: u64|
                #![trigger count_of(after.self_counts, a)]
                count_of(after.self_counts, a) == count_of(state.self_counts, a) + how_many(
                    one,
                    |s: Taken| s.is_in(a),
                ) by {
                counting_adds_one(state.self_counts, frames[0], a);
            }
            assert forall|a: u64|
                #![trigger count_of(after.total_counts, a)]
                count_of(after.total_counts, a) == count_of(state.total_counts, a) + how_many(
                    one,
                    |s: Taken| s.is_under(a),
                ) by {
                a_stack_counts_once(state.total_counts, frames, frames.len(), a);
            }
        }
    } else {
        recording_keeps_order(state, Seq::empty());
    }
}

/// Whether the samples that wait in a collection are those of some events.
pub open spec fn wait_for(pending: Seq<(u32, SampleType)>, samples: Seq<EventModel>) -> bool {
    &&& pending.len() == samples.len()
    &&& forall|i: int|
        0 <= i < samples.len() ==> #[trigger] pending[i] == (
            samples[i].stack_id,
            SampleType::held_by(samples[i].payload),
        )
}

proof fn waiting_samples_count(
    state: ProfileModel,
    pending: Seq<(u32, SampleType)>,
    samples: Seq<EventModel>,
    stacks: StackModel,
    n: nat,
)
    requires
        state.valid(),
        n <= samples.len(),
        state.samples + samples.len() <= u64::MAX,
        wait_for(pending, samples),
    ensures
        ({
            let after = with_samples(state, pending, stacks, n);
            &&& after.valid()
            &&& counts_more(after, state, looked_up(samples.take(n as int), stacks))
        }),
    decreases n,
{
    let after = with_samples(state, pending, stacks, n);
    if n == 0 {
        assert(looked_up(samples.take(0), stacks) =~= Seq::<Taken>::empty());
    } else {
        let before = with_samples(state, pending, stacks, (n - 1) as nat);
        waiting_samples_count(state, pending, samples, stacks, (n - 1) as nat);
        let e = samples[n - 1];
        assert(pending[n - 1] == (e.stack_id, SampleType::held_by(e.payload)));
        one_sample_counts(before, e, stacks);
        let earlier = looked_up(samples.take(n - 1), stacks);
        counting_goes_on(state, before, after, earlier, looked_up(seq![e], stacks));
        assert(earlier + looked_up(seq![e], stacks) =~= looked_up(samples.take(n as int), stacks));
    }
}

/// Looking up the samples that wait, at a sequence point or at the end, counts each of them by its
/// payload and by its stack: it is usable unless its payload holds a zero, or its stack is missing
/// or empty, whatever else the payload says.
pub proof fn samples_count_by_their_stacks(m: CollectModel, samples: Seq<EventModel>)
    requires
        m.state.valid(),
        m.samples_seen() <= u64::MAX,
        wait_for(m.pending, samples),
    ensures
        m.drained().state.valid(),
        counts_more(m.drained().state, m.state, looked_up(samples, m.parser.stacks)),
        counts_more(m.settled().state, m.state, looked_up(samples, m.parser.stacks)),
{
    waiting_samples_count(m.state, m.pending, samples, m.parser.stacks, samples.len());
    assert(samples.take(samples.len() as int) =~= samples);
}

proof fn absorbed_samples_wait(
    m: CollectModel,
    waiting: Seq<EventModel>,
    events: Seq<EventModel>,
    n: nat,
)
    requires
        n <= events.len(),
        wait_for(m.pending, waiting),
    ensures
        wait_for(
            m.absorbed_all(events, n).pending,
            waiting + samples_of(m.parser.metadata, events.take(n as int)),
        ),
    decreases n,
{
    let metadata = m.parser.metadata;
    if n == 0 {
        assert(events.take(0) =~= Seq::<EventModel>::empty());
        assert(waiting + Seq::<EventModel>::empty() =~= waiting);
    } else {
        absorbed_samples_wait(m, waiting, events, (n - 1) as nat);
        absorbing_keeps_the_rest(m, events, (n - 1) as nat);
        let now = events.take(n as int);
        assert(now.drop_last() =~= events.take(n - 1));
        assert(now.last() == events[n - 1]);
        let earlier = samples_of(metadata, now.drop_last());
        let more = earlier.push(events[n - 1]);
        assert(waiting + more =~= (waiting + earlier).push(events[n - 1]));
    }
}

/// What a batch does to the samples that wait: without a sequence point they go on waiting, and
/// with one they are counted.
proof fn a_step_counts(m: CollectModel, waiting: Seq<EventModel>, events: Seq<EventModel>)
    requires
        m.valid(),
        m.state.valid(),
        wait_for(m.pending, waiting),
        next_batch(m.parser).0 == Ok::<_, crate::nettrace::reader::Fault>(Some(events)),
    ensures
        ({
            let read = next_batch(m.parser).1;
            let after = next_step(m).1;
            let all = waiting + samples_of(read.metadata, events);
            &&& after.state.valid()
            &&& read.sequence_point ==> {
                &&& counts_more(after.state, m.state, looked_up(all, read.stacks))
                &&& after.pending.len() == 0
                &&& after.parser == (ParserModel {
                    sequence_point: false,
                    stacks: read.stacks.rotated(),
                    ..read
                })
            }
            &&& !read.sequence_point ==> {
                &&& after.state == m.state
                &&& wait_for(after.pending, all)
                &&& after.parser == read
            }
        }),
{
    let read = next_batch(m.parser).1;
    let first = CollectModel { parser: read, ..m };
    let absorbed = first.absorbed_all(events, events.len());
    let all = waiting + samples_of(read.metadata, events);
    absorbed_samples_wait(first, waiting, events, events.len());
    absorbing_keeps_the_rest(first, events, events.len());
    assert(events.take(events.len() as int) =~= events);
    if read.sequence_point {
        steps_add(m);
        batches_take_space(m.parser);
        batches_move_forward(m.parser);
        absorbing_adds(first, events, events.len());
        no_sample_is_lost(absorbed);
        samples_count_by_their_stacks(absorbed, all);
    }
}

proof fn rest_is_counted(m: CollectModel, waiting: Seq<EventModel>)
    requires
        m.valid(),
        m.state.valid(),
        wait_for(m.pending, waiting),
    ensures
        collected(m) matches Ok(c) ==> counts_more(c.state, m.state, taken(m.parser, waiting)),
    decreases m.parser.stream.left(),
{
    let (batch, read) = next_batch(m.parser);
    let after = next_step(m).1;
    steps_add(m);
    steps_move_forward(m);
    batches_move_forward(m.parser);
    match batch {
        Err(_) => {},
        Ok(None) => {
            samples_count_by_their_stacks(after, waiting);
        },
        Ok(Some(events)) => {
            let all = waiting + samples_of(read.metadata, events);
            a_step_counts(m, waiting, events);
            assert(collected(m) == collected(after));
            if read.sequence_point {
                rest_is_counted(after, Seq::empty());
                if let Ok(c) = collected(after) {
                    counting_goes_on(
                        m.state,
                        after.state,
                        c.state,
                        looked_up(all, read.stacks),
                        taken(after.parser, Seq::empty()),
                    );
                }
            } else {
                rest_is_counted(after, all);
            }
        },
    }
}

/// A profile counts the samples of its stream by their payloads and their stacks. Its usable
/// samples are exactly those whose payload does not hold a zero and whose id stands for a stack, in
/// the stretch they came in, that is not empty, whatever else their payload says. The self count of
/// an address is the number of those whose stack starts with it, and its total count is the number
/// of those whose stack holds it.
pub proof fn a_profile_counts_its_samples(p: ParserModel, address: u64)
    requires
        p.stream.valid(),
    ensures
        ({
            let m = CollectModel::start(p);
            let all = taken(m.parser, Seq::empty());
            collected(m) matches Ok(c) ==> {
                &&& c.state.samples == all.len()
                &&& c.state.usable() == how_many(all, |s: Taken| s.usable())
                &&& c.state.unresolved_stacks == how_many(all, |s: Taken| !s.found())
                &&& c.state.empty_stacks == how_many(all, |s: Taken| s.found() && !s.usable())
                &&& count_of(c.state.self_counts, address) == how_many(
                    all,
                    |s: Taken| s.is_in(address),
                )
                &&& count_of(c.state.total_counts, address) == how_many(
                    all,
                    |s: Taken| s.is_under(address),
                )
            }
        }),
{
    let m = CollectModel::start(p);
    blank_is_valid();
    rest_is_counted(m, Seq::empty());
}

proof fn blank_is_valid()
    ensures
        ProfileModel::blank().valid(),
        forall|a: u64| #[trigger] count_of(ProfileModel::blank().self_counts, a) == 0,
        forall|a: u64| #[trigger] count_of(ProfileModel::blank().total_counts, a) == 0,
{
    let blank = ProfileModel::blank();
    assert forall|a: u64|
        #![trigger count_of(blank.self_counts, a)]
        #![trigger count_of(blank.total_counts, a)]
        count_of(blank.self_counts, a) <= count_of(blank.total_counts, a) <= blank.usable() by {}
}

/// The stacks of more than four frames that some samples have, in order.
pub open spec fn deep_stacks(samples: Seq<Taken>) -> Seq<Seq<u64>>
    decreases samples.len(),
{
    if samples.len() == 0 {
        Seq::empty()
    } else {
        let earlier = deep_stacks(samples.drop_last());
        match samples.last().frames {
            Some(frames) if frames.len() > 4 => earlier.push(frames),
            _ => earlier,
        }
    }
}

/// The first of some stacks, up to eight.
pub open spec fn first_eight(stacks: Seq<Seq<u64>>) -> Seq<Seq<u64>> {
    if stacks.len() <= 8 {
        stacks
    } else {
        stacks.take(8)
    }
}

/// The examples that are kept are the first eight deep stacks that were looked up, in order and as
/// they were, failed samples among them.
pub proof fn examples_are_the_first_deep_stacks(
    kept: Seq<Seq<u64>>,
    pending: Seq<(u32, SampleType)>,
    samples: Seq<EventModel>,
    stacks: StackModel,
    n: nat,
)
    requires
        kept.len() <= 8,
        n <= samples.len(),
        wait_for(pending, samples),
    ensures
        with_examples(kept, pending, stacks, n) == first_eight(
            kept + deep_stacks(looked_up(samples.take(n as int), stacks)),
        ),
    decreases n,
{
    let now = looked_up(samples.take(n as int), stacks);
    if n == 0 {
        assert(now =~= Seq::<Taken>::empty());
        assert(kept + Seq::<Seq<u64>>::empty() =~= kept);
    } else {
        examples_are_the_first_deep_stacks(kept, pending, samples, stacks, (n - 1) as nat);
        assert(now.drop_last() =~= looked_up(samples.take(n - 1), stacks));
        assert(pending[n - 1].0 == samples[n - 1].stack_id);
        let before = kept + deep_stacks(now.drop_last());
        if let Some(frames) = stacks.lookup(samples[n - 1].stack_id) {
            if frames.len() > 4 {
                assert(kept + deep_stacks(now) =~= before.push(frames));
                assert(first_eight(before.push(frames)) =~= if before.len() < 8 {
                    before.push(frames)
                } else {
                    first_eight(before)
                });
            }
        }
    }
}

/// Progress tells of everything that has been collected so far: the samples of this batch and of
/// all before it, whether they were looked up or still wait, and the methods.
pub proof fn progress_tells_what_was_collected(m: CollectModel)
    requires
        m.valid(),
    ensures
        next_step(m).0 matches Ok(Some(progress)) ==> {
            let after = next_step(m).1;
            let events = next_batch(m.parser).0->Ok_0->0;
            let metadata = next_batch(m.parser).1.metadata;
            &&& progress.samples == m.samples_seen() + samples_of(metadata, events).len()
            &&& progress.samples == after.state.samples + after.pending.len()
            &&& after.methods.len() <= usize::MAX ==> progress.methods == after.methods.len()
        },
{
    steps_add(m);
    batches_move_forward(m.parser);
    batches_take_space(m.parser);
    if let Ok(Some(events)) = next_batch(m.parser).0 {
        samples_are_the_same(next_batch(m.parser).1.metadata, events, events.len());
        assert(events.take(events.len() as int) =~= events);
    }
}

proof fn samples_are_the_same(
    metadata: Map<u32, MetadataModel>,
    events: Seq<EventModel>,
    n: nat,
)
    requires
        n <= events.len(),
    ensures
        samples_of(metadata, events.take(n as int)).len() == samples_among(metadata, events, n),
    decreases n,
{
    if n > 0 {
        let now = events.take(n as int);
        assert(now.drop_last() =~= events.take(n - 1));
        samples_are_the_same(metadata, events, (n - 1) as nat);
    }
}

} // verus!
