//! Sample aggregation.
//!
//! Samples are counted per instruction pointer as they stream in, never stored as stacks: at
//! ~13,000 samples/second, keeping the stacks would cost far more memory than keeping the answer.
//! Names are attached at the end, once the rundown provides them.
use std::collections::HashSet;

use vstd::prelude::*;

use super::methods::{resolved, MethodModel, MethodTable};
use super::tally::{
    count_of, counting_adds_one, counts_are_bounded, distinct_addresses, sum_of, with_one, Counts,
    Tally,
};
use crate::names::Names;
use crate::order::{is_behind, is_order, is_top, order_covers, ranks, top_places, Ranked};
use crate::text::{same_text, text_at_most, text_le, text_le_total, text_le_transitive};

verus! {

/// Label for samples whose address belongs to no jitted method: the runtime itself, the GC, the
/// OS. A large share of any real profile, and honest to name.
pub const NATIVE_LABEL: &'static str = "(native / runtime code)";

/// Leaf frames that mean a thread was parked, not working.
///
/// The sampling profiler measures *thread* time, not CPU time: it samples every thread on every
/// tick, including ones asleep in a wait. Left unfiltered, a hot-method list is topped by whatever
/// thread idles the longest, which is true and useless.
///
/// The runtime does tag each sample with a type that should distinguish this, but on macOS/arm64
/// every sample reports `External`, so the distinction has to be recovered from the stack instead.
/// These are the runtime's blocking primitives, matched on the innermost frame only.
pub const WAIT_FRAMES: &'static [&'static str; 14] = &[
    "System.Threading.Monitor.Wait",
    "System.Threading.ManualResetEventSlim.Wait",
    "System.Threading.WaitHandle.WaitOneNoCheck",
    "System.Threading.LowLevelLifoSemaphore.Wait",
    "System.Threading.LowLevelLifoSemaphore.WaitForSignal",
    "System.Threading.LowLevelMonitor.Wait",
    "System.Threading.SemaphoreSlim.WaitUntilCountOrTimeout",
    "System.Threading.Thread.Sleep",
    "System.Threading.Thread.SleepInternal",
    "System.Threading.PortableThreadPool+WorkerThread.WorkerThreadStart",
    "System.Threading.PortableThreadPool+GateThread.GateThreadStart",
    "System.IO.FileSystemWatcher+RunningInstance+StaticWatcherRunLoopManager.WatchForFileSystemEventsThreadStart",
    "Microsoft.Extensions.Logging.Console.ConsoleLoggerProcessor.TryDequeue",
    "System.Net.Sockets.SocketAsyncEngine.EventLoop",
];

/// Whether a leaf frame means the thread was parked rather than working.
pub open spec fn is_wait(name: Seq<char>) -> bool {
    exists|i: int| 0 <= i < 14 && (#[trigger] WAIT_FRAMES@[i])@ == name
}

/// Whether a leaf frame means the thread was parked rather than working.
///
/// Note that spin waits are deliberately absent: a spinning thread really is burning CPU, and
/// seeing that is the point.
pub fn is_wait_frame(method_name: &str) -> (yes: bool)
    ensures
        yes == is_wait(method_name@),
{
    let mut i: usize = 0;
    while i < 14
        invariant
            i <= 14,
            forall|k: int| 0 <= k < i ==> (#[trigger] WAIT_FRAMES@[k])@ != method_name@,
        decreases 14 - i,
    {
        if same_text(WAIT_FRAMES[i], method_name) {
            return true;
        }
        i += 1;
    }
    false
}

// ---------------------------------------------------------------------------------------------
// Counting samples

/// A [`ProfileState`] as a value.
pub struct ProfileModel {
    /// Innermost-frame counts.
    pub self_counts: Counts,
    /// Counts of stacks containing an address anywhere.
    pub total_counts: Counts,
    pub samples: u64,
    pub unresolved_stacks: u64,
    pub empty_stacks: u64,
}

/// The counts with one more for each of the first `n` frames, but no more than one for each
/// address.
pub open spec fn with_stack(counts: Counts, frames: Seq<u64>, n: nat) -> Counts
    decreases n,
{
    if n == 0 {
        counts
    } else {
        let before = with_stack(counts, frames, (n - 1) as nat);
        if frames.take(n - 1).contains(frames[n - 1]) {
            before
        } else {
            with_one(before, frames[n - 1])
        }
    }
}

impl ProfileModel {
    pub open spec fn blank() -> ProfileModel {
        ProfileModel {
            self_counts: Seq::empty(),
            total_counts: Seq::empty(),
            samples: 0,
            unresolved_stacks: 0,
            empty_stacks: 0,
        }
    }

    /// Samples that contributed usable frames.
    pub open spec fn usable(self) -> int {
        self.samples - self.unresolved_stacks - self.empty_stacks
    }

    /// Every usable sample is charged to exactly one address, and no address was on more stacks
    /// than there were, nor on fewer than it was at the end of.
    pub open spec fn valid(self) -> bool {
        &&& distinct_addresses(self.self_counts)
        &&& distinct_addresses(self.total_counts)
        &&& sum_of(self.self_counts) == self.usable()
        &&& forall|a: u64|
            #![trigger count_of(self.self_counts, a)]
            #![trigger count_of(self.total_counts, a)]
            count_of(self.self_counts, a) <= count_of(self.total_counts, a) <= self.usable()
    }

    /// One more sample, with its frames innermost-first.
    pub open spec fn recorded(self, frames: Seq<u64>) -> ProfileModel {
        if frames.len() == 0 {
            ProfileModel {
                samples: (self.samples + 1) as u64,
                empty_stacks: (self.empty_stacks + 1) as u64,
                ..self
            }
        } else {
            ProfileModel {
                samples: (self.samples + 1) as u64,
                self_counts: with_one(self.self_counts, frames[0]),
                total_counts: with_stack(self.total_counts, frames, frames.len()),
                ..self
            }
        }
    }

    /// One more sample, whose stack could not be found.
    pub open spec fn missed(self) -> ProfileModel {
        ProfileModel {
            samples: (self.samples + 1) as u64,
            unresolved_stacks: (self.unresolved_stacks + 1) as u64,
            ..self
        }
    }
}

/// A stack adds one to the count of each address in it, however often the address occurs.
pub proof fn a_stack_counts_once(counts: Counts, frames: Seq<u64>, n: nat, address: u64)
    requires
        n <= frames.len(),
        distinct_addresses(counts),
        forall|a: u64| #[trigger] count_of(counts, a) < u64::MAX,
    ensures
        distinct_addresses(with_stack(counts, frames, n)),
        count_of(with_stack(counts, frames, n), address) == count_of(counts, address) + (
        if frames.take(n as int).contains(address) {
            1int
        } else {
            0int
        }),
    decreases n,
{
    if n > 0 {
        let x = frames[n - 1];
        let shorter = frames.take(n - 1);
        let longer = frames.take(n as int);
        a_stack_counts_once(counts, frames, (n - 1) as nat, address);
        a_stack_counts_once(counts, frames, (n - 1) as nat, x);
        assert(longer =~= shorter.push(x));
        assert(longer.contains(address) <==> shorter.contains(address) || address == x) by {
            if shorter.contains(address) {
                let k = choose|k: int| 0 <= k < shorter.len() && shorter[k] == address;
                assert(longer[k] == address);
            }
            assert(longer[n - 1] == x);
            if longer.contains(address) {
                let k = choose|k: int| 0 <= k < longer.len() && longer[k] == address;
                if k < n - 1 {
                    assert(shorter[k] == address);
                }
            }
        }
        if !shorter.contains(x) {
            assert(count_of(counts, x) < u64::MAX);
            counting_adds_one(with_stack(counts, frames, (n - 1) as nat), x, address);
        }
    }
}

/// Recording a sample keeps the counts in order.
pub proof fn recording_keeps_order(m: ProfileModel, frames: Seq<u64>)
    requires
        m.valid(),
        m.samples < u64::MAX,
    ensures
        m.recorded(frames).valid(),
        m.missed().valid(),
{
    counts_are_bounded(m.self_counts, 0);
    assert forall|a: u64|
        #![trigger count_of(m.missed().self_counts, a)]
        #![trigger count_of(m.missed().total_counts, a)]
        count_of(m.missed().self_counts, a) <= count_of(m.missed().total_counts, a)
            <= m.missed().usable() by {}
    if frames.len() > 0 {
        let after = m.recorded(frames);
        let leaf = frames[0];
        assert(frames.take(frames.len() as int) =~= frames);
        assert forall|a: u64| #[trigger] count_of(m.total_counts, a) < u64::MAX by {}
        assert(count_of(m.self_counts, leaf) < u64::MAX);
        counting_adds_one(m.self_counts, leaf, leaf);
        a_stack_counts_once(m.total_counts, frames, frames.len(), leaf);
        assert forall|a: u64|
            #![trigger count_of(after.self_counts, a)]
            #![trigger count_of(after.total_counts, a)]
            count_of(after.self_counts, a) <= count_of(after.total_counts, a)
                <= after.usable() by {
            counting_adds_one(m.self_counts, leaf, a);
            a_stack_counts_once(m.total_counts, frames, frames.len(), a);
            assert(count_of(m.self_counts, a) <= count_of(m.total_counts, a) <= m.usable());
            assert(frames.contains(leaf));
        }
    } else {
        assert forall|a: u64|
            #![trigger count_of(m.recorded(frames).self_counts, a)]
            #![trigger count_of(m.recorded(frames).total_counts, a)]
            count_of(m.recorded(frames).self_counts, a) <= count_of(
                m.recorded(frames).total_counts,
                a,
            ) <= m.recorded(frames).usable() by {}
    }
}

#[derive(Debug)]
pub struct ProfileState {
    /// Innermost-frame counts, keyed by address.
    pub self_counts: Tally,
    /// Counts of stacks containing an address anywhere, keyed by address.
    pub total_counts: Tally,
    pub samples: u64,
    /// Samples whose stack could not be found: a stack id defined outside the window that was kept.
    pub unresolved_stacks: u64,
    /// Samples whose stack was empty.
    pub empty_stacks: u64,
}

impl View for ProfileState {
    type V = ProfileModel;

    open spec fn view(&self) -> ProfileModel {
        ProfileModel {
            self_counts: self.self_counts@,
            total_counts: self.total_counts@,
            samples: self.samples,
            unresolved_stacks: self.unresolved_stacks,
            empty_stacks: self.empty_stacks,
        }
    }
}

impl Default for ProfileState {
    fn default() -> (s: Self)
        ensures
            s.wf(),
            s@ == ProfileModel::blank(),
    {
        ProfileState::new()
    }
}

impl ProfileState {
    pub closed spec fn wf(&self) -> bool {
        &&& self.self_counts.wf()
        &&& self.total_counts.wf()
        &&& self@.valid()
    }

    /// The counts are in order.
    pub proof fn counts_are_valid(&self)
        requires
            self.wf(),
        ensures
            self@.valid(),
    {
    }

    pub fn new() -> (s: Self)
        ensures
            s.wf(),
            s@ == ProfileModel::blank(),
    {
        ProfileState {
            self_counts: Tally::new(),
            total_counts: Tally::new(),
            samples: 0,
            unresolved_stacks: 0,
            empty_stacks: 0,
        }
    }

    /// Record one sample. `frames` is innermost-first.
    pub fn record_stack(&mut self, frames: &[u64])
        requires
            old(self).wf(),
            old(self)@.samples < u64::MAX,
        ensures
            final(self).wf(),
            final(self)@ == old(self)@.recorded(frames@),
    {
        let ghost before = self@;
        proof {
            recording_keeps_order(before, frames@);
            counts_are_bounded(before.self_counts, 0);
        }
        self.samples += 1;
        if frames.len() == 0 {
            self.empty_stacks += 1;
            return;
        }
        assert(count_of(before.self_counts, frames@[0]) < u64::MAX);
        self.self_counts.count(frames[0]);

        // Count each address once per stack, so recursion does not inflate the total.
        let mut seen: HashSet<u64> = HashSet::with_capacity(frames.len());
        let mut i: usize = 0;
        while i < frames.len()
            invariant
                i <= frames@.len(),
                before.valid(),
                before.samples < u64::MAX,
                before.samples + 1 == self.samples,
                self.self_counts.wf(),
                self.total_counts.wf(),
                self.self_counts@ == with_one(before.self_counts, frames@[0]),
                self.unresolved_stacks == before.unresolved_stacks,
                self.empty_stacks == before.empty_stacks,
                self.total_counts@ == with_stack(before.total_counts, frames@, i as nat),
                forall|a: u64| #[trigger] seen@.contains(a) <==> frames@.take(i as int).contains(a),
            decreases frames@.len() - i,
        {
            let frame: u64 = frames[i];
            proof {
                let shorter = frames@.take(i as int);
                let longer = frames@.take(i + 1);
                assert(longer =~= shorter.push(frame));
                assert forall|a: u64| longer.contains(a) <==> shorter.contains(a) || a
                    == frame by {
                    if shorter.contains(a) {
                        let k = choose|k: int| 0 <= k < shorter.len() && shorter[k] == a;
                        assert(longer[k] == a);
                    }
                    assert(longer[i as int] == frame);
                    if longer.contains(a) {
                        let k = choose|k: int| 0 <= k < longer.len() && longer[k] == a;
                        if k < i {
                            assert(shorter[k] == a);
                        }
                    }
                }
                assert forall|a: u64| #[trigger] count_of(before.total_counts, a) < u64::MAX by {}
                a_stack_counts_once(before.total_counts, frames@, i as nat, frame);
                assert(count_of(before.total_counts, frame) <= before.usable());
            }
            if seen.insert(frame) {
                self.total_counts.count(frame);
            }
            i += 1;
        }
    }

    /// A sample whose stack could not be resolved.
    pub fn record_missing_stack(&mut self)
        requires
            old(self).wf(),
            old(self)@.samples < u64::MAX,
        ensures
            final(self).wf(),
            final(self)@ == old(self)@.missed(),
    {
        proof {
            recording_keeps_order(self@, Seq::empty());
            counts_are_bounded(self@.self_counts, 0);
        }
        self.samples += 1;
        self.unresolved_stacks += 1;
    }

    pub fn is_empty(&self) -> (empty: bool)
        ensures
            empty == (self@.samples == 0),
    {
        self.samples == 0
    }

    /// How many samples were recorded, usable or not.
    pub fn sample_count(&self) -> (n: u64)
        ensures
            n == self@.samples,
    {
        self.samples
    }

    /// Samples that contributed usable frames.
    pub fn usable_samples(&self) -> (n: u64)
        requires
            self.wf(),
        ensures
            n == self@.usable(),
    {
        proof {
            counts_are_bounded(self@.self_counts, 0);
        }
        self.samples - self.unresolved_stacks - self.empty_stacks
    }

    pub fn reset(&mut self)
        ensures
            final(self).wf(),
            final(self)@ == ProfileModel::blank(),
    {
        *self = ProfileState::new();
    }
}

// ---------------------------------------------------------------------------------------------
// Hot methods

/// The name an address goes by.
pub open spec fn label_of(methods: Seq<MethodModel>, address: u64) -> Seq<char> {
    match resolved(methods, address) {
        Some(i) => methods[i].qualified_name(),
        None => NATIVE_LABEL@,
    }
}

/// Whether a name is left out of a ranking.
pub open spec fn is_hidden(name: Seq<char>, include_waiting: bool) -> bool {
    !include_waiting && is_wait(name)
}

/// What the first `n` counts charge to a name.
pub open spec fn charged(
    counts: Counts,
    methods: Seq<MethodModel>,
    name: Seq<char>,
    n: nat,
) -> int
    decreases n,
{
    if n == 0 {
        0
    } else {
        charged(counts, methods, name, (n - 1) as nat) + (if label_of(methods, counts[n - 1].0)
            == name {
            counts[n - 1].1 as int
        } else {
            0
        })
    }
}

/// What the first `n` counts charge to names that are left out.
pub open spec fn charged_hidden(
    counts: Counts,
    methods: Seq<MethodModel>,
    include_waiting: bool,
    n: nat,
) -> int
    decreases n,
{
    if n == 0 {
        0
    } else {
        charged_hidden(counts, methods, include_waiting, (n - 1) as nat) + (if is_hidden(
            label_of(methods, counts[n - 1].0),
            include_waiting,
        ) {
            counts[n - 1].1 as int
        } else {
            0
        })
    }
}

/// Whether a name is among those of the first `n` counts.
pub open spec fn is_charged(
    counts: Counts,
    methods: Seq<MethodModel>,
    name: Seq<char>,
    n: int,
) -> bool {
    exists|i: int| 0 <= i < n && label_of(methods, (#[trigger] counts[i]).0) == name
}

/// One row of the result: a method and how much time was spent in it.
#[derive(Debug, Clone)]
pub struct HotMethod {
    pub name: String,
    /// Samples where this method was the innermost frame: time spent *in* it.
    pub self_samples: u64,
    /// Samples where it appeared anywhere on the stack: time spent in it or its callees. A stack
    /// that holds several different addresses of one method counts once for each of them.
    pub total_samples: u128,
}

/// A [`HotMethod`] over sequences.
pub struct RowModel {
    pub name: Seq<char>,
    pub self_samples: int,
    pub total_samples: int,
}

impl View for HotMethod {
    type V = RowModel;

    open spec fn view(&self) -> RowModel {
        RowModel {
            name: self.name@,
            self_samples: self.self_samples as int,
            total_samples: self.total_samples as int,
        }
    }
}

/// A resolved profile: the ranked methods plus how the samples were split.
#[derive(Debug, Clone)]
pub struct HotProfile {
    pub rows: Vec<HotMethod>,
    /// Samples attributed to methods doing work.
    pub working_samples: u64,
    /// Samples where the innermost frame was a blocking primitive.
    pub waiting_samples: u64,
    /// What both kinds of percentage are shares of: every usable sample, not the filtered subset.
    /// Never zero.
    pub denominator: u64,
}

impl Default for HotProfile {
    fn default() -> (p: Self)
        ensures
            p.rows@.len() == 0,
            p.working_samples == 0,
            p.waiting_samples == 0,
            p.denominator == 1,
    {
        HotProfile { rows: Vec::new(), working_samples: 0, waiting_samples: 0, denominator: 1 }
    }
}

/// The row of a name.
pub open spec fn row_of(m: ProfileModel, methods: Seq<MethodModel>, name: Seq<char>) -> RowModel {
    RowModel {
        name,
        self_samples: charged(m.self_counts, methods, name, m.self_counts.len()),
        total_samples: charged(m.total_counts, methods, name, m.total_counts.len()),
    }
}

/// Whether a name has a row: it was sampled, and is not left out.
pub open spec fn has_row(
    m: ProfileModel,
    methods: Seq<MethodModel>,
    include_waiting: bool,
    name: Seq<char>,
) -> bool {
    &&& !is_hidden(name, include_waiting)
    &&& is_charged(m.self_counts, methods, name, m.self_counts.len() as int) || is_charged(
        m.total_counts,
        methods,
        name,
        m.total_counts.len() as int,
    )
}

/// The order of a ranking: by self time, then by total time, then by name.
pub open spec fn outranks(a: RowModel, b: RowModel) -> bool {
    ||| a.self_samples > b.self_samples
    ||| a.self_samples == b.self_samples && a.total_samples > b.total_samples
    ||| a.self_samples == b.self_samples && a.total_samples == b.total_samples && a.name != b.name
        && text_le(a.name, b.name)
}

/// Whether a row is where it belongs: in the ranking, or behind all of a full one.
pub open spec fn is_placed(rows: Seq<RowModel>, limit: int, row: RowModel) -> bool {
    rows.contains(row) || (rows.len() == limit && forall|k: int|
        0 <= k < rows.len() ==> outranks(#[trigger] rows[k], row))
}

/// Whether `rows` holds the first `limit` rows of the ranking.
pub open spec fn is_ranking(
    rows: Seq<RowModel>,
    m: ProfileModel,
    methods: Seq<MethodModel>,
    include_waiting: bool,
    limit: int,
) -> bool {
    &&& rows.len() <= limit
    &&& forall|k: int|
        0 <= k < rows.len() ==> has_row(m, methods, include_waiting, (#[trigger] rows[k]).name)
            && rows[k] == row_of(m, methods, rows[k].name)
    &&& forall|k: int, l: int|
        0 <= k < l < rows.len() ==> outranks(#[trigger] rows[k], #[trigger] rows[l])
    &&& forall|name: Seq<char>| #[trigger]
        has_row(m, methods, include_waiting, name) ==> is_placed(
            rows,
            limit,
            row_of(m, methods, name),
        )
}

/// The models of a list of rows.
pub open spec fn row_models(rows: Seq<HotMethod>) -> Seq<RowModel> {
    Seq::new(rows.len(), |i: int| rows[i]@)
}

proof fn uncharged_is_zero(
    counts: Counts,
    methods: Seq<MethodModel>,
    name: Seq<char>,
    n: nat,
)
    requires
        n <= counts.len(),
        !is_charged(counts, methods, name, n as int),
    ensures
        charged(counts, methods, name, n) == 0,
    decreases n,
{
    if n > 0 {
        assert(label_of(methods, counts[n - 1].0) != name);
        assert(!is_charged(counts, methods, name, n - 1)) by {
            if is_charged(counts, methods, name, n - 1) {
                let i = choose|i: int|
                    0 <= i < n - 1 && label_of(methods, (#[trigger] counts[i]).0) == name;
                assert(label_of(methods, counts[i].0) == name);
            }
        }
        uncharged_is_zero(counts, methods, name, (n - 1) as nat);
    }
}

proof fn charges_are_bounded(
    counts: Counts,
    methods: Seq<MethodModel>,
    name: Seq<char>,
    n: nat,
)
    requires
        n <= counts.len(),
    ensures
        0 <= charged(counts, methods, name, n) <= sum_of(counts.take(n as int)),
        charged(counts, methods, name, n) <= u64::MAX * n,
    decreases n,
{
    if n > 0 {
        charges_are_bounded(counts, methods, name, (n - 1) as nat);
        assert(counts.take(n as int).drop_last() =~= counts.take(n - 1));
    }
}

proof fn hidden_charges_are_bounded(
    counts: Counts,
    methods: Seq<MethodModel>,
    include_waiting: bool,
    n: nat,
)
    requires
        n <= counts.len(),
    ensures
        0 <= charged_hidden(counts, methods, include_waiting, n) <= sum_of(counts.take(n as int)),
    decreases n,
{
    if n > 0 {
        hidden_charges_are_bounded(counts, methods, include_waiting, (n - 1) as nat);
        assert(counts.take(n as int).drop_last() =~= counts.take(n - 1));
    }
}

proof fn partial_sums_grow(counts: Counts, n: int)
    requires
        0 <= n <= counts.len(),
    ensures
        sum_of(counts.take(n)) <= sum_of(counts),
        n < counts.len() ==> sum_of(counts.take(n + 1)) == sum_of(counts.take(n)) + counts[n].1,
    decreases counts.len() - n,
{
    if n < counts.len() {
        assert(counts.take(n + 1).drop_last() =~= counts.take(n));
        partial_sums_grow(counts, n + 1);
    } else {
        assert(counts.take(n) =~= counts);
    }
}

/// The rows of a ranking while they are being added up.
struct Sheet {
    names: Names,
    selfs: Vec<u64>,
    totals: Vec<u128>,
}

impl Sheet {
    spec fn wf(&self) -> bool {
        &&& self.names.wf()
        &&& self.selfs@.len() == self.names@.len()
        &&& self.totals@.len() == self.names@.len()
    }

    /// Whether the sheet holds what the first `i` self counts and the first `j` total counts come
    /// to.
    spec fn holds(
        &self,
        m: ProfileModel,
        methods: Seq<MethodModel>,
        include_waiting: bool,
        i: nat,
        j: nat,
    ) -> bool {
        &&& self.wf()
        &&& forall|k: int|
            0 <= k < self.names@.len() ==> {
                let name = #[trigger] self.names@[k];
                &&& !is_hidden(name, include_waiting)
                &&& is_charged(m.self_counts, methods, name, i as int) || is_charged(
                    m.total_counts,
                    methods,
                    name,
                    j as int,
                )
                &&& self.selfs@[k] == charged(m.self_counts, methods, name, i)
                &&& self.totals@[k] == charged(m.total_counts, methods, name, j)
            }
        &&& forall|k: int|
            0 <= k < i && !is_hidden(
                label_of(methods, (#[trigger] m.self_counts[k]).0),
                include_waiting,
            ) ==> self.names@.contains(label_of(methods, m.self_counts[k].0))
        &&& forall|k: int|
            0 <= k < j && !is_hidden(
                label_of(methods, (#[trigger] m.total_counts[k]).0),
                include_waiting,
            ) ==> self.names@.contains(label_of(methods, m.total_counts[k].0))
    }

    /// The place of a name, which gets an empty row if it is new.
    fn row(&mut self, name: String) -> (k: usize)
        requires
            old(self).wf(),
        ensures
            final(self).wf(),
            k < final(self).names@.len(),
            final(self).names@[k as int] == name@,
            old(self).names@.contains(name@) ==> final(self).names@ == old(self).names@
                && final(self).selfs@ == old(self).selfs@ && final(self).totals@ == old(
                self,
            ).totals@,
            !old(self).names@.contains(name@) ==> final(self).names@ == old(self).names@.push(
                name@,
            ) && final(self).selfs@ == old(self).selfs@.push(0) && final(self).totals@ == old(
                self,
            ).totals@.push(0),
    {
        let k: usize = self.names.place(name);
        if k == self.selfs.len() {
            self.selfs.push(0);
            self.totals.push(0);
        }
        k
    }
}

/// A name that is not on the sheet has not been charged with anything.
proof fn new_names_are_uncharged(
    sheet: Sheet,
    m: ProfileModel,
    methods: Seq<MethodModel>,
    include_waiting: bool,
    i: nat,
    j: nat,
    name: Seq<char>,
)
    requires
        sheet.holds(m, methods, include_waiting, i, j),
        i <= m.self_counts.len(),
        j <= m.total_counts.len(),
        !sheet.names@.contains(name),
        !is_hidden(name, include_waiting),
    ensures
        charged(m.self_counts, methods, name, i) == 0,
        charged(m.total_counts, methods, name, j) == 0,
{
    assert(!is_charged(m.self_counts, methods, name, i as int)) by {
        if is_charged(m.self_counts, methods, name, i as int) {
            let k = choose|k: int|
                0 <= k < i && label_of(methods, (#[trigger] m.self_counts[k]).0) == name;
            assert(sheet.names@.contains(label_of(methods, m.self_counts[k].0)));
        }
    }
    assert(!is_charged(m.total_counts, methods, name, j as int)) by {
        if is_charged(m.total_counts, methods, name, j as int) {
            let k = choose|k: int|
                0 <= k < j && label_of(methods, (#[trigger] m.total_counts[k]).0) == name;
            assert(sheet.names@.contains(label_of(methods, m.total_counts[k].0)));
        }
    }
    uncharged_is_zero(m.self_counts, methods, name, i);
    uncharged_is_zero(m.total_counts, methods, name, j);
}

proof fn charged_stays_charged(
    counts: Counts,
    methods: Seq<MethodModel>,
    name: Seq<char>,
    n: int,
)
    requires
        is_charged(counts, methods, name, n),
    ensures
        is_charged(counts, methods, name, n + 1),
{
    let k = choose|k: int| 0 <= k < n && label_of(methods, (#[trigger] counts[k]).0) == name;
    assert(label_of(methods, counts[k].0) == name);
}

/// One more self count has been entered.
proof fn self_count_entered(
    before: Sheet,
    opened: Sheet,
    after: Sheet,
    m: ProfileModel,
    methods: Seq<MethodModel>,
    include_waiting: bool,
    i: int,
    k: int,
)
    requires
        before.holds(m, methods, include_waiting, i as nat, 0),
        0 <= i < m.self_counts.len(),
        ({
            let name = label_of(methods, m.self_counts[i].0);
            &&& !is_hidden(name, include_waiting)
            &&& opened.wf()
            &&& 0 <= k < opened.names@.len()
            &&& opened.names@[k] == name
            &&& before.names@.contains(name) ==> opened.names@ == before.names@ && opened.selfs@
                == before.selfs@ && opened.totals@ == before.totals@
            &&& !before.names@.contains(name) ==> opened.names@ == before.names@.push(name)
                && opened.selfs@ == before.selfs@.push(0) && opened.totals@
                == before.totals@.push(0)
        }),
        after.wf(),
        after.names@ == opened.names@,
        after.totals@ == opened.totals@,
        after.selfs@ == opened.selfs@.update(k, (opened.selfs@[k] + m.self_counts[i].1) as u64),
        opened.selfs@[k] + m.self_counts[i].1 <= u64::MAX,
    ensures
        after.holds(m, methods, include_waiting, (i + 1) as nat, 0),
{
    let name = label_of(methods, m.self_counts[i].0);
    let counts = m.self_counts;
    opened.names.texts_are_distinct();
    assert forall|l: int| 0 <= l < after.names@.len() implies {
        let n = #[trigger] after.names@[l];
        &&& !is_hidden(n, include_waiting)
        &&& is_charged(counts, methods, n, i + 1) || is_charged(m.total_counts, methods, n, 0)
        &&& after.selfs@[l] == charged(counts, methods, n, (i + 1) as nat)
        &&& after.totals@[l] == charged(m.total_counts, methods, n, 0)
    } by {
        let n = after.names@[l];
        if l == k {
            assert(label_of(methods, counts[i].0) == name);
            assert(is_charged(counts, methods, name, i + 1));
            if before.names@.contains(name) {
                assert(before.names@[k] == name);
            } else {
                new_names_are_uncharged(
                    before,
                    m,
                    methods,
                    include_waiting,
                    i as nat,
                    0,
                    name,
                );
                if k < before.names@.len() {
                    assert(before.names@[k] == name);
                }
            }
        } else {
            assert(n != name) by {
                if l < k {
                    assert(opened.names@[l] != opened.names@[k]);
                } else {
                    assert(opened.names@[k] != opened.names@[l]);
                }
            }
            if l < before.names@.len() {
                assert(before.names@[l] == n);
            } else {
                assert(opened.names@[l] == name);
            }
            charged_stays_charged(counts, methods, n, i);
        }
    }
    assert forall|x: int|
        0 <= x < i + 1 && !is_hidden(
            label_of(methods, (#[trigger] counts[x]).0),
            include_waiting,
        ) implies after.names@.contains(label_of(methods, counts[x].0)) by {
        if x == i {
            assert(after.names@[k] == name);
        } else {
            let n = label_of(methods, counts[x].0);
            let y = choose|y: int| 0 <= y < before.names@.len() && before.names@[y] == n;
            assert(after.names@[y] == n);
        }
    }
}

/// One more total count has been entered.
proof fn total_count_entered(
    before: Sheet,
    opened: Sheet,
    after: Sheet,
    m: ProfileModel,
    methods: Seq<MethodModel>,
    include_waiting: bool,
    j: int,
    k: int,
)
    requires
        before.holds(m, methods, include_waiting, m.self_counts.len(), j as nat),
        0 <= j < m.total_counts.len(),
        ({
            let name = label_of(methods, m.total_counts[j].0);
            &&& !is_hidden(name, include_waiting)
            &&& opened.wf()
            &&& 0 <= k < opened.names@.len()
            &&& opened.names@[k] == name
            &&& before.names@.contains(name) ==> opened.names@ == before.names@ && opened.selfs@
                == before.selfs@ && opened.totals@ == before.totals@
            &&& !before.names@.contains(name) ==> opened.names@ == before.names@.push(name)
                && opened.selfs@ == before.selfs@.push(0) && opened.totals@
                == before.totals@.push(0)
        }),
        after.wf(),
        after.names@ == opened.names@,
        after.selfs@ == opened.selfs@,
        after.totals@ == opened.totals@.update(
            k,
            (opened.totals@[k] + m.total_counts[j].1) as u128,
        ),
        opened.totals@[k] + m.total_counts[j].1 <= u128::MAX,
    ensures
        after.holds(m, methods, include_waiting, m.self_counts.len(), (j + 1) as nat),
{
    let name = label_of(methods, m.total_counts[j].0);
    let counts = m.total_counts;
    let full = m.self_counts.len();
    opened.names.texts_are_distinct();
    assert forall|l: int| 0 <= l < after.names@.len() implies {
        let n = #[trigger] after.names@[l];
        &&& !is_hidden(n, include_waiting)
        &&& is_charged(m.self_counts, methods, n, full as int) || is_charged(
            counts,
            methods,
            n,
            j + 1,
        )
        &&& after.selfs@[l] == charged(m.self_counts, methods, n, full)
        &&& after.totals@[l] == charged(counts, methods, n, (j + 1) as nat)
    } by {
        let n = after.names@[l];
        if l == k {
            assert(label_of(methods, counts[j].0) == name);
            assert(is_charged(counts, methods, name, j + 1));
            if before.names@.contains(name) {
                assert(before.names@[k] == name);
            } else {
                new_names_are_uncharged(
                    before,
                    m,
                    methods,
                    include_waiting,
                    full,
                    j as nat,
                    name,
                );
                if k < before.names@.len() {
                    assert(before.names@[k] == name);
                }
            }
        } else {
            assert(n != name) by {
                if l < k {
                    assert(opened.names@[l] != opened.names@[k]);
                } else {
                    assert(opened.names@[k] != opened.names@[l]);
                }
            }
            if l < before.names@.len() {
                assert(before.names@[l] == n);
            } else {
                assert(opened.names@[l] == name);
            }
            if is_charged(counts, methods, n, j) {
                charged_stays_charged(counts, methods, n, j);
            }
        }
    }
    assert forall|x: int|
        0 <= x < j + 1 && !is_hidden(
            label_of(methods, (#[trigger] counts[x]).0),
            include_waiting,
        ) implies after.names@.contains(label_of(methods, counts[x].0)) by {
        if x == j {
            assert(after.names@[k] == name);
        } else {
            let n = label_of(methods, counts[x].0);
            let y = choose|y: int| 0 <= y < before.names@.len() && before.names@[y] == n;
            assert(after.names@[y] == n);
        }
    }
    assert forall|x: int|
        0 <= x < full && !is_hidden(
            label_of(methods, (#[trigger] m.self_counts[x]).0),
            include_waiting,
        ) implies after.names@.contains(label_of(methods, m.self_counts[x].0)) by {
        let n = label_of(methods, m.self_counts[x].0);
        let y = choose|y: int| 0 <= y < before.names@.len() && before.names@[y] == n;
        assert(after.names@[y] == n);
    }
}

impl Ranked for Sheet {
    closed spec fn count(&self) -> nat {
        if self.selfs@.len() == self.names@.len() && self.totals@.len() == self.names@.len() {
            self.names@.len()
        } else {
            0
        }
    }

    closed spec fn at_most(&self, i: int, j: int) -> bool {
        ||| self.selfs@[i] > self.selfs@[j]
        ||| self.selfs@[i] == self.selfs@[j] && self.totals@[i] > self.totals@[j]
        ||| self.selfs@[i] == self.selfs@[j] && self.totals@[i] == self.totals@[j] && text_le(
            self.names@[i],
            self.names@[j],
        )
    }

    proof fn total(&self, i: int, j: int) {
        text_le_total(self.names@[i], self.names@[j]);
    }

    proof fn transitive(&self, i: int, j: int, k: int) {
        if self.selfs@[i] == self.selfs@[j] && self.selfs@[j] == self.selfs@[k] && self.totals@[i]
            == self.totals@[j] && self.totals@[j] == self.totals@[k] {
            text_le_transitive(self.names@[i], self.names@[j], self.names@[k]);
        }
    }

    fn may_precede(&self, i: usize, j: usize) -> (yes: bool) {
        if self.selfs[i] != self.selfs[j] {
            self.selfs[i] > self.selfs[j]
        } else if self.totals[i] != self.totals[j] {
            self.totals[i] > self.totals[j]
        } else {
            text_at_most(self.names.get(i).as_str(), self.names.get(j).as_str())
        }
    }
}

/// The best rows of a full sheet are the ranking.
proof fn top_rows_are_the_ranking(
    sheet: &Sheet,
    m: ProfileModel,
    methods: Seq<MethodModel>,
    include_waiting: bool,
    top: Seq<usize>,
    rows: Seq<RowModel>,
    limit: int,
)
    requires
        sheet.holds(m, methods, include_waiting, m.self_counts.len(), m.total_counts.len()),
        sheet.names@.len() <= usize::MAX,
        is_top(sheet, top, sheet.names@.len() as int, limit),
        rows.len() == top.len(),
        0 <= limit,
        forall|k: int|
            0 <= k < rows.len() ==> (#[trigger] rows[k]) == row_of(
                m,
                methods,
                sheet.names@[top[k] as int],
            ),
    ensures
        is_ranking(rows, m, methods, include_waiting, limit),
{
    let names = sheet.names@;
    sheet.names.texts_are_distinct();
    assert forall|i: int, j: int|
        0 <= i < names.len() && 0 <= j < names.len() && i != j && #[trigger] ranks(
            sheet,
            i,
            j,
        ) implies outranks(row_of(m, methods, names[i]), row_of(m, methods, names[j])) by {
        if i < j {
            assert(names[i] != names[j]);
        } else {
            assert(names[j] != names[i]);
        }
    }
    assert forall|k: int| 0 <= k < rows.len() implies has_row(
        m,
        methods,
        include_waiting,
        (#[trigger] rows[k]).name,
    ) && rows[k] == row_of(m, methods, rows[k].name) by {
        let name = names[top[k] as int];
        assert(rows[k].name == name);
    }
    assert forall|k: int, l: int| 0 <= k < l < rows.len() implies outranks(
        #[trigger] rows[k],
        #[trigger] rows[l],
    ) by {
        assert(ranks(sheet, top[k] as int, top[l] as int));
        assert(top[k] != top[l]);
    }
    assert forall|name: Seq<char>| #[trigger]
        has_row(m, methods, include_waiting, name) implies is_placed(
        rows,
        limit,
        row_of(m, methods, name),
    ) by {
        assert(names.contains(name)) by {
            if is_charged(m.self_counts, methods, name, m.self_counts.len() as int) {
                let x = choose|x: int|
                    0 <= x < m.self_counts.len() && label_of(
                        methods,
                        (#[trigger] m.self_counts[x]).0,
                    ) == name;
                assert(names.contains(label_of(methods, m.self_counts[x].0)));
            } else {
                let x = choose|x: int|
                    0 <= x < m.total_counts.len() && label_of(
                        methods,
                        (#[trigger] m.total_counts[x]).0,
                    ) == name;
                assert(names.contains(label_of(methods, m.total_counts[x].0)));
            }
        }
        let p = choose|p: int| 0 <= p < names.len() && names[p] == name;
        if top.contains(p as usize) {
            let k = choose|k: int| 0 <= k < top.len() && top[k] == p as usize;
            assert(rows[k] == row_of(m, methods, name));
        } else {
            assert(is_behind(sheet, top, p));
            assert(rows.len() == limit) by {
                if top.len() == names.len() {
                    // All places would be taken.
                    all_places_taken(sheet, top, names.len() as int, limit, p);
                }
            }
            assert forall|k: int| 0 <= k < rows.len() implies outranks(
                #[trigger] rows[k],
                row_of(m, methods, name),
            ) by {
                assert(ranks(sheet, top[k] as int, p));
                assert(top[k] != p as usize);
            }
        }
    }
}

/// If as many places were taken as there are, every one was.
proof fn all_places_taken(sheet: &Sheet, top: Seq<usize>, n: int, limit: int, p: int)
    requires
        0 <= p < n <= usize::MAX,
        is_top(sheet, top, n, limit),
        top.len() == n,
    ensures
        top.contains(p as usize),
{
    assert(is_order(sheet, top, 0, n));
    let i = order_covers(sheet, top, n, p);
    assert(top[i] == p as usize);
}

impl ProfileState {
    fn label_for(address: u64, methods: &MethodTable) -> (label: String)
        requires
            methods.wf(),
            methods@.sorted,
        ensures
            label@ == label_of(methods@.methods, address),
    {
        match methods.resolve(address) {
            Some(m) => m.qualified_name(),
            None => NATIVE_LABEL.to_owned(),
        }
    }

    /// Enter the self counts. Returns what was charged to work, and what to waiting.
    fn enter_selfs(&self, methods: &MethodTable, include_waiting: bool, sheet: &mut Sheet) -> (
        split: (u64, u64))
        requires
            self.wf(),
            methods.wf(),
            methods@.sorted,
            old(sheet).holds(self@, methods@.methods, include_waiting, 0, 0),
        ensures
            final(sheet).holds(
                self@,
                methods@.methods,
                include_waiting,
                self@.self_counts.len(),
                0,
            ),
            split.1 == charged_hidden(
                self@.self_counts,
                methods@.methods,
                include_waiting,
                self@.self_counts.len(),
            ),
            split.0 + split.1 == sum_of(self@.self_counts),
    {
        let ghost m = self@;
        let ghost table = methods@.methods;
        let mut working: u64 = 0;
        let mut waiting: u64 = 0;
        let mut i: usize = 0;
        while i < self.self_counts.len()
            invariant
                i <= m.self_counts.len(),
                m == self@,
                self.wf(),
                methods.wf(),
                methods@.sorted,
                table == methods@.methods,
                sheet.holds(m, table, include_waiting, i as nat, 0),
                waiting == charged_hidden(m.self_counts, table, include_waiting, i as nat),
                working + waiting == sum_of(m.self_counts.take(i as int)),
            decreases m.self_counts.len() - i,
        {
            let (address, count) = self.self_counts.entry(i);
            let name = ProfileState::label_for(address, methods);
            let ghost before = *sheet;
            proof {
                partial_sums_grow(m.self_counts, i as int);
                partial_sums_grow(m.self_counts, i + 1);
            }
            if !include_waiting && is_wait_frame(name.as_str()) {
                waiting += count;
                proof {
                    hidden_self_passed(before, m, table, include_waiting, i as int);
                }
            } else {
                working += count;
                let k: usize = sheet.row(name);
                let ghost opened = *sheet;
                proof {
                    let label = label_of(table, m.self_counts[i as int].0);
                    charges_are_bounded(m.self_counts, table, label, i as nat);
                    if before.names@.contains(label) {
                        assert(before.names@[k as int] == label);
                    }
                }
                let sum: u64 = sheet.selfs[k] + count;
                sheet.selfs.set(k, sum);
                proof {
                    self_count_entered(
                        before,
                        opened,
                        *sheet,
                        m,
                        table,
                        include_waiting,
                        i as int,
                        k as int,
                    );
                }
            }
            i += 1;
        }
        assert(m.self_counts.take(i as int) =~= m.self_counts);
        (working, waiting)
    }

    /// Enter the total counts.
    fn enter_totals(&self, methods: &MethodTable, include_waiting: bool, sheet: &mut Sheet)
        requires
            self.wf(),
            methods.wf(),
            methods@.sorted,
            old(sheet).holds(
                self@,
                methods@.methods,
                include_waiting,
                self@.self_counts.len(),
                0,
            ),
        ensures
            final(sheet).holds(
                self@,
                methods@.methods,
                include_waiting,
                self@.self_counts.len(),
                self@.total_counts.len(),
            ),
    {
        let ghost m = self@;
        let ghost table = methods@.methods;
        let mut j: usize = 0;
        while j < self.total_counts.len()
            invariant
                j <= m.total_counts.len(),
                m == self@,
                self.wf(),
                methods.wf(),
                methods@.sorted,
                table == methods@.methods,
                sheet.holds(m, table, include_waiting, m.self_counts.len(), j as nat),
            decreases m.total_counts.len() - j,
        {
            let (address, count) = self.total_counts.entry(j);
            let name = ProfileState::label_for(address, methods);
            let ghost before = *sheet;
            if !include_waiting && is_wait_frame(name.as_str()) {
                proof {
                    hidden_total_passed(before, m, table, include_waiting, j as int);
                }
            } else {
                let k: usize = sheet.row(name);
                let ghost opened = *sheet;
                proof {
                    let label = label_of(table, m.total_counts[j as int].0);
                    charges_are_bounded(m.total_counts, table, label, j as nat);
                    if before.names@.contains(label) {
                        assert(before.names@[k as int] == label);
                    }
                    assert(u64::MAX * (j + 1) <= u64::MAX * 0x1_0000_0000_0000_0000);
                }
                let sum: u128 = sheet.totals[k] + count as u128;
                sheet.totals.set(k, sum);
                proof {
                    total_count_entered(
                        before,
                        opened,
                        *sheet,
                        m,
                        table,
                        include_waiting,
                        j as int,
                        k as int,
                    );
                }
            }
            j += 1;
        }
    }

    /// Resolve addresses to methods and rank them by self time.
    ///
    /// Ranked by self rather than total, because a flat list sorted by total is dominated by
    /// whatever sits at the bottom of every stack: true but useless.
    ///
    /// Classification happens here rather than at record time because it needs method names,
    /// which only exist once the rundown has landed.
    pub fn hot_methods(
        &self,
        methods: &MethodTable,
        limit: usize,
        include_waiting: bool,
    ) -> (hot: HotProfile)
        requires
            self.wf(),
            methods.wf(),
            methods@.sorted,
        ensures
            is_ranking(
                row_models(hot.rows@),
                self@,
                methods@.methods,
                include_waiting,
                limit as int,
            ),
            hot.waiting_samples == charged_hidden(
                self@.self_counts,
                methods@.methods,
                include_waiting,
                self@.self_counts.len(),
            ),
            hot.working_samples + hot.waiting_samples == self@.usable(),
            hot.denominator == (if self@.usable() > 1 {
                self@.usable()
            } else {
                1
            }),
    {
        let ghost m = self@;
        let ghost table = methods@.methods;
        let mut sheet = Sheet { names: Names::new(), selfs: Vec::new(), totals: Vec::new() };
        let (working_samples, waiting_samples) = self.enter_selfs(
            methods,
            include_waiting,
            &mut sheet,
        );
        self.enter_totals(methods, include_waiting, &mut sheet);

        let top = top_places(&sheet, sheet.names.len(), limit);
        let mut rows: Vec<HotMethod> = Vec::new();
        let mut k: usize = 0;
        while k < top.len()
            invariant
                k <= top@.len(),
                sheet.holds(m, table, include_waiting, m.self_counts.len(), m.total_counts.len()),
                is_top(&sheet, top@, sheet.names@.len() as int, limit as int),
                rows@.len() == k,
                forall|l: int|
                    0 <= l < k ==> (#[trigger] rows@[l])@ == row_of(
                        m,
                        table,
                        sheet.names@[top@[l] as int],
                    ),
            decreases top@.len() - k,
        {
            let p: usize = top[k];
            let row = HotMethod {
                name: sheet.names.get(p).clone(),
                self_samples: sheet.selfs[p],
                total_samples: sheet.totals[p],
            };
            assert(row@ == row_of(m, table, sheet.names@[p as int]));
            rows.push(row);
            k += 1;
        }
        proof {
            assert(sheet.names@.len() == sheet.selfs.len());
            top_rows_are_the_ranking(
                &sheet,
                m,
                table,
                include_waiting,
                top@,
                row_models(rows@),
                limit as int,
            );
        }
        let usable: u64 = self.usable_samples();
        HotProfile {
            rows,
            working_samples,
            waiting_samples,
            denominator: if usable > 1 {
                usable
            } else {
                1
            },
        }
    }
}

/// A self count of a name that is left out changes nothing on the sheet.
proof fn hidden_self_passed(
    sheet: Sheet,
    m: ProfileModel,
    methods: Seq<MethodModel>,
    include_waiting: bool,
    i: int,
)
    requires
        sheet.holds(m, methods, include_waiting, i as nat, 0),
        0 <= i < m.self_counts.len(),
        is_hidden(label_of(methods, m.self_counts[i].0), include_waiting),
    ensures
        sheet.holds(m, methods, include_waiting, (i + 1) as nat, 0),
{
    assert forall|l: int| 0 <= l < sheet.names@.len() implies {
        let n = #[trigger] sheet.names@[l];
        &&& !is_hidden(n, include_waiting)
        &&& is_charged(m.self_counts, methods, n, i + 1) || is_charged(
            m.total_counts,
            methods,
            n,
            0,
        )
        &&& sheet.selfs@[l] == charged(m.self_counts, methods, n, (i + 1) as nat)
        &&& sheet.totals@[l] == charged(m.total_counts, methods, n, 0)
    } by {
        charged_stays_charged(m.self_counts, methods, sheet.names@[l], i);
    }
}

/// A total count of a name that is left out changes nothing on the sheet.
proof fn hidden_total_passed(
    sheet: Sheet,
    m: ProfileModel,
    methods: Seq<MethodModel>,
    include_waiting: bool,
    j: int,
)
    requires
        sheet.holds(m, methods, include_waiting, m.self_counts.len(), j as nat),
        0 <= j < m.total_counts.len(),
        is_hidden(label_of(methods, m.total_counts[j].0), include_waiting),
    ensures
        sheet.holds(m, methods, include_waiting, m.self_counts.len(), (j + 1) as nat),
{
    assert forall|l: int| 0 <= l < sheet.names@.len() implies {
        let n = #[trigger] sheet.names@[l];
        &&& !is_hidden(n, include_waiting)
        &&& is_charged(m.self_counts, methods, n, m.self_counts.len() as int) || is_charged(
            m.total_counts,
            methods,
            n,
            j + 1,
        )
        &&& sheet.selfs@[l] == charged(m.self_counts, methods, n, m.self_counts.len())
        &&& sheet.totals@[l] == charged(m.total_counts, methods, n, (j + 1) as nat)
    } by {
        let n = sheet.names@[l];
        if is_charged(m.total_counts, methods, n, j) {
            charged_stays_charged(m.total_counts, methods, n, j);
        }
    }
}

} // verus!
