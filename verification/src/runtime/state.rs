//! Aggregated view of what the runtime has been doing: what allocates, why collections happen,
//! what throws, and what blocks.
use vstd::prelude::*;

use super::events::{AllocationKind, ExceptionThrown, GcHeapStats, GcReason, GcStart, GcType};
use crate::order::{is_behind, is_top, ranks, top_places, Ranked, Weighed};
use crate::text::{same_text, text_le};

verus! {

/// Collections retained for the recent-GC list.
pub const MAX_RECENT_GCS: usize = 64;

/// A type's share of allocation.
#[derive(Debug, Clone)]
pub struct AllocationSite {
    /// The name of the type.
    pub name: String,
    pub bytes: u64,
    pub ticks: u64,
    pub kind: AllocationKind,
}

/// An [`AllocationSite`] over sequences.
pub struct SiteModel {
    pub name: Seq<char>,
    pub bytes: u64,
    pub ticks: u64,
    pub kind: AllocationKind,
}

impl View for AllocationSite {
    type V = SiteModel;

    open spec fn view(&self) -> SiteModel {
        SiteModel { name: self.name@, bytes: self.bytes, ticks: self.ticks, kind: self.kind }
    }
}

/// How long the application stood still: ticks of a clock, and how many of them make a second.
#[derive(Debug, Clone, Copy, PartialEq, Eq, Structural)]
pub struct Pause {
    pub ticks: u64,
    pub frequency: i64,
}

/// All pauses measured by clocks of one frequency.
#[derive(Debug, Clone, Copy, PartialEq, Eq, Structural)]
pub struct PauseTotal {
    pub ticks: u128,
    pub frequency: i64,
}

/// One observed collection.
#[derive(Debug, Clone, Copy, PartialEq, Eq, Structural)]
pub struct Collection {
    pub count: u32,
    pub generation: u32,
    pub reason: GcReason,
    pub gc_type: GcType,
    /// Wall-clock pause, when both the suspend and restart events were seen.
    pub pause: Option<Pause>,
    /// Bytes surviving, summed across generations.
    pub promoted_bytes: Option<u64>,
}

#[derive(Debug, Clone)]
pub struct ExceptionSite {
    /// The name of the exception's type.
    pub name: String,
    pub message: String,
    pub count: u64,
}

/// An [`ExceptionSite`] over sequences.
pub struct ThrownModel {
    pub name: Seq<char>,
    pub message: Seq<char>,
    pub count: u64,
}

impl View for ExceptionSite {
    type V = ThrownModel;

    open spec fn view(&self) -> ThrownModel {
        ThrownModel { name: self.name@, message: self.message@, count: self.count }
    }
}

#[derive(Debug, Clone, Copy, PartialEq, Eq, Structural)]
pub struct ContentionSummary {
    pub events: u64,
}

// ---------------------------------------------------------------------------------------------
// The model

/// A [`RuntimeState`] as a value. Sites stand in the order in which they first came up.
pub struct RuntimeModel {
    pub allocations: Seq<SiteModel>,
    pub exceptions: Seq<ThrownModel>,
    pub contention: ContentionSummary,
    pub recent: Seq<Collection>,
    pub total_allocated_bytes: u64,
    pub allocation_ticks: u64,
    pub total_exceptions: u64,
    pub gc_counts: Seq<u64>,
    pub total_pause: Seq<PauseTotal>,
    pub pending: Option<Collection>,
    pub suspend_started: Option<u64>,
    pub last_pause: Option<Pause>,
    pub events_seen: u64,
}

/// All bytes of some sites.
pub open spec fn bytes_of(sites: Seq<SiteModel>) -> int
    decreases sites.len(),
{
    if sites.len() == 0 {
        0
    } else {
        bytes_of(sites.drop_last()) + sites.last().bytes
    }
}

/// All ticks of some sites.
pub open spec fn ticks_of(sites: Seq<SiteModel>) -> int
    decreases sites.len(),
{
    if sites.len() == 0 {
        0
    } else {
        ticks_of(sites.drop_last()) + sites.last().ticks
    }
}

/// All occurrences of some exceptions.
pub open spec fn throws_of(sites: Seq<ThrownModel>) -> int
    decreases sites.len(),
{
    if sites.len() == 0 {
        0
    } else {
        throws_of(sites.drop_last()) + sites.last().count
    }
}

/// Where a type's allocations are kept, if any were seen.
pub open spec fn site_place(sites: Seq<SiteModel>, name: Seq<char>) -> Option<int> {
    if exists|i: int| 0 <= i < sites.len() && (#[trigger] sites[i]).name == name {
        Some(choose|i: int| 0 <= i < sites.len() && (#[trigger] sites[i]).name == name)
    } else {
        None
    }
}

/// Where an exception type is kept, if any were seen.
pub open spec fn thrown_place(sites: Seq<ThrownModel>, name: Seq<char>) -> Option<int> {
    if exists|i: int| 0 <= i < sites.len() && (#[trigger] sites[i]).name == name {
        Some(choose|i: int| 0 <= i < sites.len() && (#[trigger] sites[i]).name == name)
    } else {
        None
    }
}

/// Where the pauses of clocks of some frequency are kept, if any were seen.
pub open spec fn pause_place(totals: Seq<PauseTotal>, frequency: i64) -> Option<int> {
    if exists|i: int| 0 <= i < totals.len() && (#[trigger] totals[i]).frequency == frequency {
        Some(choose|i: int| 0 <= i < totals.len() && (#[trigger] totals[i]).frequency == frequency)
    } else {
        None
    }
}

/// The totals with one more pause.
pub open spec fn with_pause(totals: Seq<PauseTotal>, pause: Pause) -> Seq<PauseTotal> {
    match pause_place(totals, pause.frequency) {
        Some(i) => totals.update(
            i,
            PauseTotal {
                ticks: (totals[i].ticks + pause.ticks) as u128,
                frequency: pause.frequency,
            },
        ),
        None => totals.push(
            PauseTotal { ticks: pause.ticks as u128, frequency: pause.frequency },
        ),
    }
}

/// Sites with one more tick.
pub open spec fn with_tick(
    sites: Seq<SiteModel>,
    name: Seq<char>,
    bytes: u64,
    kind: AllocationKind,
) -> Seq<SiteModel> {
    match site_place(sites, name) {
        Some(i) => sites.update(
            i,
            SiteModel {
                name,
                bytes: (sites[i].bytes + bytes) as u64,
                ticks: (sites[i].ticks + 1) as u64,
                kind: if kind == AllocationKind::Large {
                    kind
                } else {
                    sites[i].kind
                },
            },
        ),
        None => sites.push(SiteModel { name, bytes, ticks: 1, kind }),
    }
}

/// Exceptions with one more thrown. The first message of a type is the one that is kept.
pub open spec fn with_throw(
    sites: Seq<ThrownModel>,
    name: Seq<char>,
    message: Seq<char>,
) -> Seq<ThrownModel> {
    match thrown_place(sites, name) {
        Some(i) => sites.update(
            i,
            ThrownModel { name, message: sites[i].message, count: (sites[i].count + 1) as u64 },
        ),
        None => sites.push(ThrownModel { name, message, count: 1 }),
    }
}

/// The generation that a collection counts towards.
pub open spec fn counted_generation(depth: u32) -> int {
    if depth < 2 {
        depth as int
    } else {
        2
    }
}

/// All bytes that a collection left alive.
pub open spec fn promoted(stats: GcHeapStats) -> int {
    stats.gen0_promoted + stats.gen1_promoted + stats.gen2_promoted + stats.loh_promoted
}

impl RuntimeModel {
    pub open spec fn blank() -> RuntimeModel {
        RuntimeModel {
            allocations: Seq::empty(),
            exceptions: Seq::empty(),
            contention: ContentionSummary { events: 0 },
            recent: Seq::empty(),
            total_allocated_bytes: 0,
            allocation_ticks: 0,
            total_exceptions: 0,
            gc_counts: seq![0u64, 0u64, 0u64],
            total_pause: Seq::empty(),
            pending: None,
            suspend_started: None,
            last_pause: None,
            events_seen: 0,
        }
    }

    /// No type is kept twice; the totals are the sums of their parts; the list of collections is
    /// bounded; and nothing has been counted that was not seen.
    pub open spec fn valid(self) -> bool {
        &&& forall|i: int, j: int|
            0 <= i < j < self.allocations.len() ==> (#[trigger] self.allocations[i]).name != (
            #[trigger] self.allocations[j]).name
        &&& forall|i: int, j: int|
            0 <= i < j < self.exceptions.len() ==> (#[trigger] self.exceptions[i]).name != (
            #[trigger] self.exceptions[j]).name
        &&& forall|i: int, j: int|
            0 <= i < j < self.total_pause.len() ==> (#[trigger] self.total_pause[i]).frequency != (
            #[trigger] self.total_pause[j]).frequency
        &&& forall|i: int|
            0 <= i < self.total_pause.len() ==> (#[trigger] self.total_pause[i]).ticks <= u64::MAX
                * self.events_seen
        &&& bytes_of(self.allocations) == self.total_allocated_bytes
        &&& ticks_of(self.allocations) == self.allocation_ticks
        &&& throws_of(self.exceptions) == self.total_exceptions
        &&& self.recent.len() <= MAX_RECENT_GCS
        &&& self.gc_counts.len() == 3
        &&& self.allocation_ticks + self.total_exceptions + self.contention.events
            + self.gc_counts[0] + self.gc_counts[1] + self.gc_counts[2] <= self.events_seen
    }

    /// One more event has been seen.
    pub open spec fn seen(self) -> RuntimeModel {
        RuntimeModel { events_seen: (self.events_seen + 1) as u64, ..self }
    }

    pub open spec fn allocated(
        self,
        name: Seq<char>,
        bytes: u64,
        kind: AllocationKind,
    ) -> RuntimeModel {
        RuntimeModel {
            allocations: with_tick(self.allocations, name, bytes, kind),
            total_allocated_bytes: (self.total_allocated_bytes + bytes) as u64,
            allocation_ticks: (self.allocation_ticks + 1) as u64,
            ..self.seen()
        }
    }

    /// The collection in flight has come to an end, or another has started in its place. The list
    /// keeps the newest.
    pub open spec fn flushed(self) -> RuntimeModel {
        match self.pending {
            None => self,
            Some(collection) => {
                let longer = self.recent.push(collection);
                RuntimeModel {
                    recent: if longer.len() > MAX_RECENT_GCS {
                        longer.skip(longer.len() - MAX_RECENT_GCS)
                    } else {
                        longer
                    },
                    pending: None,
                    ..self
                }
            },
        }
    }

    pub open spec fn gc_started(self, start: GcStart) -> RuntimeModel {
        let flushed = self.seen().flushed();
        let g = counted_generation(start.depth);
        RuntimeModel {
            gc_counts: self.gc_counts.update(g, (self.gc_counts[g] + 1) as u64),
            pending: Some(
                Collection {
                    count: start.count,
                    generation: start.depth,
                    reason: start.reason,
                    gc_type: start.gc_type,
                    pause: self.last_pause,
                    promoted_bytes: None,
                },
            ),
            last_pause: None,
            ..flushed
        }
    }

    pub open spec fn heap_measured(self, stats: GcHeapStats) -> RuntimeModel {
        RuntimeModel {
            pending: match self.pending {
                Some(c) => Some(
                    Collection { promoted_bytes: Some(promoted(stats) as u64), ..c },
                ),
                None => None,
            },
            ..self.seen()
        }
    }

    pub open spec fn gc_ended(self) -> RuntimeModel {
        self.seen().flushed()
    }

    pub open spec fn suspended(self, timestamp: u64) -> RuntimeModel {
        RuntimeModel { suspend_started: Some(timestamp), ..self.seen() }
    }

    /// The pause that a restart brings to an end, if it can be measured.
    pub open spec fn measured_pause(self, timestamp: u64, frequency: i64) -> Option<Pause> {
        match self.suspend_started {
            None => None,
            Some(started) => if frequency <= 0 || timestamp <= started {
                None
            } else {
                Some(Pause { ticks: (timestamp - started) as u64, frequency })
            },
        }
    }

    /// A suspend and a restart bracket a collection, so their pause belongs to the collection in
    /// flight if there is one without, and is held for the next start otherwise.
    pub open spec fn restarted(self, timestamp: u64, frequency: i64) -> RuntimeModel {
        let resumed = RuntimeModel { suspend_started: None, ..self.seen() };
        match self.measured_pause(timestamp, frequency) {
            None => resumed,
            Some(pause) => {
                let counted = RuntimeModel {
                    total_pause: with_pause(self.total_pause, pause),
                    ..resumed
                };
                match self.pending {
                    Some(c) if c.pause is None => RuntimeModel {
                        pending: Some(Collection { pause: Some(pause), ..c }),
                        ..counted
                    },
                    _ => RuntimeModel { last_pause: Some(pause), ..counted },
                }
            },
        }
    }

    pub open spec fn threw(self, name: Seq<char>, message: Seq<char>) -> RuntimeModel {
        RuntimeModel {
            exceptions: with_throw(self.exceptions, name, message),
            total_exceptions: (self.total_exceptions + 1) as u64,
            ..self.seen()
        }
    }

    pub open spec fn contended(self) -> RuntimeModel {
        RuntimeModel {
            contention: ContentionSummary { events: (self.contention.events + 1) as u64 },
            ..self.seen()
        }
    }

    /// The collections to show: one still in flight, then the finished ones, newest first.
    pub open spec fn shown_collections(self) -> Seq<Collection> {
        let finished = Seq::new(
            self.recent.len(),
            |i: int| self.recent[self.recent.len() - 1 - i],
        );
        match self.pending {
            Some(c) => seq![c] + finished,
            None => finished,
        }
    }
}

// ---------------------------------------------------------------------------------------------
// Sums

proof fn bytes_update(sites: Seq<SiteModel>, i: int, site: SiteModel)
    requires
        0 <= i < sites.len(),
    ensures
        bytes_of(sites.update(i, site)) == bytes_of(sites) - sites[i].bytes + site.bytes,
        ticks_of(sites.update(i, site)) == ticks_of(sites) - sites[i].ticks + site.ticks,
    decreases sites.len(),
{
    let after = sites.update(i, site);
    if i == sites.len() - 1 {
        assert(after.drop_last() =~= sites.drop_last());
    } else {
        assert(after.drop_last() =~= sites.drop_last().update(i, site));
        bytes_update(sites.drop_last(), i, site);
    }
}

pub(crate) proof fn sums_bound(sites: Seq<SiteModel>, i: int)
    requires
        0 <= i < sites.len(),
    ensures
        0 <= sites[i].bytes <= bytes_of(sites),
        0 <= sites[i].ticks <= ticks_of(sites),
    decreases sites.len(),
{
    sums_positive(sites.drop_last());
    if i < sites.len() - 1 {
        sums_bound(sites.drop_last(), i);
    }
}

proof fn sums_positive(sites: Seq<SiteModel>)
    ensures
        bytes_of(sites) >= 0,
        ticks_of(sites) >= 0,
    decreases sites.len(),
{
    if sites.len() > 0 {
        sums_positive(sites.drop_last());
    }
}

pub(crate) proof fn throws_update(sites: Seq<ThrownModel>, i: int, site: ThrownModel)
    requires
        0 <= i < sites.len(),
    ensures
        throws_of(sites.update(i, site)) == throws_of(sites) - sites[i].count + site.count,
        0 <= sites[i].count <= throws_of(sites),
    decreases sites.len(),
{
    throws_positive(sites.drop_last());
    let after = sites.update(i, site);
    if i == sites.len() - 1 {
        assert(after.drop_last() =~= sites.drop_last());
    } else {
        assert(after.drop_last() =~= sites.drop_last().update(i, site));
        throws_update(sites.drop_last(), i, site);
    }
}

proof fn throws_positive(sites: Seq<ThrownModel>)
    ensures
        throws_of(sites) >= 0,
    decreases sites.len(),
{
    if sites.len() > 0 {
        throws_positive(sites.drop_last());
    }
}

// ---------------------------------------------------------------------------------------------
// The state

/// Everything the investigation session has accumulated.
#[derive(Debug)]
pub struct RuntimeState {
    pub allocations: Vec<AllocationSite>,
    pub exceptions: Vec<ExceptionSite>,
    pub contention: ContentionSummary,
    pub recent_gcs: Vec<Collection>,
    pub total_allocated_bytes: u64,
    pub allocation_ticks: u64,
    pub total_exceptions: u64,
    /// Collections seen, by generation.
    pub gc_counts: [u64; 3],
    /// All pauses, by the frequency of the clock they were measured with.
    pub total_pause: Vec<PauseTotal>,
    /// A collection that has started but not yet reported its heap stats or end.
    pub pending: Option<Collection>,
    /// QPC timestamp of the last suspend, awaiting its matching restart.
    pub suspend_started: Option<u64>,
    pub last_pause: Option<Pause>,
    /// Set once anything at all has arrived, so the UI can distinguish "quiet" from "not started".
    pub events_seen: u64,
}

/// The models of a list of sites.
pub open spec fn site_models(sites: Seq<AllocationSite>) -> Seq<SiteModel> {
    Seq::new(sites.len(), |i: int| sites[i]@)
}

/// The models of a list of exceptions.
pub open spec fn thrown_models(sites: Seq<ExceptionSite>) -> Seq<ThrownModel> {
    Seq::new(sites.len(), |i: int| sites[i]@)
}

impl View for RuntimeState {
    type V = RuntimeModel;

    open spec fn view(&self) -> RuntimeModel {
        RuntimeModel {
            allocations: site_models(self.allocations@),
            exceptions: thrown_models(self.exceptions@),
            contention: self.contention,
            recent: self.recent_gcs@,
            total_allocated_bytes: self.total_allocated_bytes,
            allocation_ticks: self.allocation_ticks,
            total_exceptions: self.total_exceptions,
            gc_counts: self.gc_counts@,
            total_pause: self.total_pause@,
            pending: self.pending,
            suspend_started: self.suspend_started,
            last_pause: self.last_pause,
            events_seen: self.events_seen,
        }
    }
}

impl Default for RuntimeState {
    fn default() -> (s: Self)
        ensures
            s@ == RuntimeModel::blank(),
            s@.valid(),
    {
        RuntimeState::new()
    }
}

/// Whether an allocation site outranks another: it is heavier, or as heavy and first by name.
pub open spec fn heavier(a: SiteModel, b: SiteModel) -> bool {
    a.bytes > b.bytes || (a.bytes == b.bytes && a.name != b.name && text_le(a.name, b.name))
}

/// Whether an exception outranks another: it is more frequent, or as frequent and first by name.
pub open spec fn more_frequent(a: ThrownModel, b: ThrownModel) -> bool {
    a.count > b.count || (a.count == b.count && a.name != b.name && text_le(a.name, b.name))
}

/// Whether `top` holds the `limit` heaviest of some sites, heaviest first.
pub open spec fn heaviest(top: Seq<SiteModel>, sites: Seq<SiteModel>, limit: int) -> bool {
    &&& top.len() == (if limit < sites.len() {
        limit
    } else {
        sites.len() as int
    })
    &&& forall|k: int| 0 <= k < top.len() ==> sites.contains(#[trigger] top[k])
    &&& forall|k: int, l: int|
        0 <= k < l < top.len() ==> heavier(#[trigger] top[k], #[trigger] top[l])
    &&& forall|i: int, k: int|
        0 <= i < sites.len() && 0 <= k < top.len() ==> top.contains(#[trigger] sites[i])
            || heavier(#[trigger] top[k], sites[i])
}

/// Whether `top` holds the `limit` most frequent of some exceptions, most frequent first.
pub open spec fn most_frequent(top: Seq<ThrownModel>, sites: Seq<ThrownModel>, limit: int) -> bool {
    &&& top.len() == (if limit < sites.len() {
        limit
    } else {
        sites.len() as int
    })
    &&& forall|k: int| 0 <= k < top.len() ==> sites.contains(#[trigger] top[k])
    &&& forall|k: int, l: int|
        0 <= k < l < top.len() ==> more_frequent(#[trigger] top[k], #[trigger] top[l])
    &&& forall|i: int, k: int|
        0 <= i < sites.len() && 0 <= k < top.len() ==> top.contains(#[trigger] sites[i])
            || more_frequent(#[trigger] top[k], sites[i])
}

impl RuntimeState {
    pub fn new() -> (s: Self)
        ensures
            s@ == RuntimeModel::blank(),
            s@.valid(),
    {
        let s = RuntimeState {
            allocations: Vec::new(),
            exceptions: Vec::new(),
            contention: ContentionSummary { events: 0 },
            recent_gcs: Vec::new(),
            total_allocated_bytes: 0,
            allocation_ticks: 0,
            total_exceptions: 0,
            gc_counts: [0u64; 3],
            total_pause: Vec::new(),
            pending: None,
            suspend_started: None,
            last_pause: None,
            events_seen: 0,
        };
        assert(s@.allocations =~= Seq::<SiteModel>::empty());
        assert(s@.exceptions =~= Seq::<ThrownModel>::empty());
        assert(s@.gc_counts =~= seq![0u64, 0u64, 0u64]);
        s
    }

    fn find_site(&self, name: &str) -> (place: Option<usize>)
        requires
            self@.valid(),
        ensures
            match (place, site_place(self@.allocations, name@)) {
                (Some(i), Some(j)) => i == j && i < self.allocations@.len(),
                (None, None) => true,
                _ => false,
            },
    {
        let mut i: usize = 0;
        while i < self.allocations.len()
            invariant
                i <= self.allocations@.len(),
                self@.valid(),
                forall|k: int| 0 <= k < i ==> (#[trigger] self@.allocations[k]).name != name@,
            decreases self.allocations@.len() - i,
        {
            if same_text(self.allocations[i].name.as_str(), name) {
                assert(self@.allocations[i as int].name == name@);
                return Some(i);
            }
            i += 1;
        }
        None
    }

    pub fn record_allocation(&mut self, name: String, bytes: u64, kind: AllocationKind)
        requires
            old(self)@.valid(),
            old(self)@.events_seen < u64::MAX,
            old(self)@.total_allocated_bytes + bytes <= u64::MAX,
        ensures
            final(self)@.valid(),
            final(self)@ == old(self)@.allocated(name@, bytes, kind),
    {
        let ghost before = self@;
        let ghost key = name@;
        let place = self.find_site(name.as_str());
        self.events_seen += 1;
        self.total_allocated_bytes += bytes;
        self.allocation_ticks += 1;
        match place {
            Some(i) => {
                proof {
                    sums_bound(before.allocations, i as int);
                }
                let site = &self.allocations[i];
                let updated = AllocationSite {
                    name,
                    bytes: site.bytes + bytes,
                    ticks: site.ticks + 1,
                    // A type can appear on more than one heap; the larger heap is the more
                    // interesting fact.
                    kind: if kind == AllocationKind::Large {
                        kind
                    } else {
                        site.kind
                    },
                };
                let ghost model = updated@;
                self.allocations.set(i, updated);
                proof {
                    bytes_update(before.allocations, i as int, model);
                    assert(self@.allocations =~= before.allocations.update(i as int, model));
                }
            },
            None => {
                let fresh = AllocationSite { name, bytes, ticks: 1, kind };
                let ghost model = fresh@;
                self.allocations.push(fresh);
                proof {
                    assert(self@.allocations =~= before.allocations.push(model));
                    assert(self@.allocations.drop_last() =~= before.allocations);
                }
            },
        }
    }

    pub fn record_gc_start(&mut self, start: GcStart)
        requires
            old(self)@.valid(),
            old(self)@.events_seen < u64::MAX,
        ensures
            final(self)@.valid(),
            final(self)@ == old(self)@.gc_started(start),
    {
        let ghost before = self@;
        self.events_seen += 1;
        // A collection that never reported stats still counts; flush it before starting another.
        self.flush_pending();

        let g: usize = if start.depth < 2 {
            start.depth as usize
        } else {
            2
        };
        self.gc_counts[g] = self.gc_counts[g] + 1;
        // The suspend precedes the start, so the pause is already measurable.
        let pause = self.last_pause.take();
        self.pending = Some(
            Collection {
                count: start.count,
                generation: start.depth,
                reason: start.reason,
                gc_type: start.gc_type,
                pause,
                promoted_bytes: None,
            },
        );
        assert(self@.gc_counts =~= before.gc_started(start).gc_counts);
    }

    pub fn record_heap_stats(&mut self, stats: GcHeapStats)
        requires
            old(self)@.valid(),
            old(self)@.events_seen < u64::MAX,
            old(self)@.pending is Some ==> promoted(stats) <= u64::MAX,
        ensures
            final(self)@.valid(),
            final(self)@ == old(self)@.heap_measured(stats),
    {
        self.events_seen += 1;
        if let Some(pending) = self.pending {
            let survived: u64 = stats.gen0_promoted + stats.gen1_promoted + stats.gen2_promoted
                + stats.loh_promoted;
            self.pending = Some(Collection { promoted_bytes: Some(survived), ..pending });
        }
    }

    pub fn record_gc_end(&mut self)
        requires
            old(self)@.valid(),
            old(self)@.events_seen < u64::MAX,
        ensures
            final(self)@.valid(),
            final(self)@ == old(self)@.gc_ended(),
    {
        self.events_seen += 1;
        self.flush_pending();
    }

    /// Suspension begins; the pause runs until the runtime restarts execution.
    pub fn record_suspend(&mut self, timestamp: u64)
        requires
            old(self)@.valid(),
            old(self)@.events_seen < u64::MAX,
        ensures
            final(self)@.valid(),
            final(self)@ == old(self)@.suspended(timestamp),
    {
        self.events_seen += 1;
        self.suspend_started = Some(timestamp);
    }

    fn add_pause(&mut self, pause: Pause)
        requires
            old(self)@.valid(),
            forall|i: int|
                0 <= i < old(self)@.total_pause.len() ==> (#[trigger] old(
                    self,
                )@.total_pause[i]).ticks <= u64::MAX * (old(self)@.events_seen - 1),
            old(self)@.events_seen >= 1,
        ensures
            final(self)@.valid(),
            final(self)@ == (RuntimeModel {
                total_pause: with_pause(old(self)@.total_pause, pause),
                ..old(self)@
            }),
    {
        let ghost before = self@;
        let mut i: usize = 0;
        while i < self.total_pause.len()
            invariant
                *self == *old(self),
                before == self@,
                before.valid(),
                before.events_seen >= 1,
                i <= self.total_pause@.len(),
                forall|k: int|
                    0 <= k < before.total_pause.len() ==> (
                    #[trigger] before.total_pause[k]).ticks <= u64::MAX * (before.events_seen - 1),
                forall|k: int|
                    0 <= k < i ==> (#[trigger] before.total_pause[k]).frequency != pause.frequency,
            decreases self.total_pause@.len() - i,
        {
            if self.total_pause[i].frequency == pause.frequency {
                let total = self.total_pause[i];
                assert(before.total_pause[i as int] == total);
                assert(pause_place(before.total_pause, pause.frequency) == Some(i as int));
                let sum = PauseTotal {
                    ticks: total.ticks + pause.ticks as u128,
                    frequency: pause.frequency,
                };
                self.total_pause.set(i, sum);
                assert(self@.total_pause =~= before.total_pause.update(i as int, sum));
                return;
            }
            i += 1;
        }
        self.total_pause.push(
            PauseTotal { ticks: pause.ticks as u128, frequency: pause.frequency },
        );
    }

    /// Execution restarts. `qpc_frequency` is how many ticks make a second. Returns the pause that
    /// has come to an end, if it can be measured.
    pub fn record_restart(&mut self, timestamp: u64, qpc_frequency: i64) -> (pause: Option<Pause>)
        requires
            old(self)@.valid(),
            old(self)@.events_seen < u64::MAX,
        ensures
            final(self)@.valid(),
            final(self)@ == old(self)@.restarted(timestamp, qpc_frequency),
            pause == old(self)@.measured_pause(timestamp, qpc_frequency),
    {
        self.events_seen += 1;
        let started: u64 = match self.suspend_started.take() {
            Some(t) => t,
            None => {
                return None;
            },
        };
        if qpc_frequency <= 0 || timestamp <= started {
            return None;
        }
        let pause = Pause { ticks: timestamp - started, frequency: qpc_frequency };
        self.add_pause(pause);

        // The suspend/restart pair brackets the collection, so attribute it to the collection in
        // flight if there is one, and hold it for the next start otherwise.
        match self.pending {
            Some(pending) if pending.pause.is_none() => {
                self.pending = Some(Collection { pause: Some(pause), ..pending });
            },
            _ => {
                self.last_pause = Some(pause);
            },
        }
        Some(pause)
    }

    fn find_thrown(&self, name: &str) -> (place: Option<usize>)
        requires
            self@.valid(),
        ensures
            match (place, thrown_place(self@.exceptions, name@)) {
                (Some(i), Some(j)) => i == j && i < self.exceptions@.len(),
                (None, None) => true,
                _ => false,
            },
    {
        let mut i: usize = 0;
        while i < self.exceptions.len()
            invariant
                i <= self.exceptions@.len(),
                self@.valid(),
                forall|k: int| 0 <= k < i ==> (#[trigger] self@.exceptions[k]).name != name@,
            decreases self.exceptions@.len() - i,
        {
            if same_text(self.exceptions[i].name.as_str(), name) {
                assert(self@.exceptions[i as int].name == name@);
                return Some(i);
            }
            i += 1;
        }
        None
    }

    pub fn record_exception(&mut self, thrown: ExceptionThrown)
        requires
            old(self)@.valid(),
            old(self)@.events_seen < u64::MAX,
        ensures
            final(self)@.valid(),
            final(self)@ == old(self)@.threw(thrown.name@, thrown.message@),
    {
        let ghost before = self@;
        let place = self.find_thrown(thrown.name.as_str());
        self.events_seen += 1;
        self.total_exceptions += 1;
        match place {
            Some(i) => {
                let site = &self.exceptions[i];
                let ghost first = ThrownModel {
                    name: thrown.name@,
                    message: site.message@,
                    count: (site.count + 1) as u64,
                };
                proof {
                    throws_update(before.exceptions, i as int, first);
                }
                let updated = ExceptionSite {
                    name: thrown.name,
                    message: site.message.clone(),
                    count: site.count + 1,
                };
                self.exceptions.set(i, updated);
                assert(self@.exceptions =~= before.exceptions.update(i as int, first));
            },
            None => {
                let fresh = ExceptionSite { name: thrown.name, message: thrown.message, count: 1 };
                let ghost model = fresh@;
                self.exceptions.push(fresh);
                proof {
                    assert(self@.exceptions =~= before.exceptions.push(model));
                    assert(self@.exceptions.drop_last() =~= before.exceptions);
                }
            },
        }
    }

    /// A lock was waited for. How long is not kept here.
    pub fn record_contention(&mut self)
        requires
            old(self)@.valid(),
            old(self)@.events_seen < u64::MAX,
        ensures
            final(self)@.valid(),
            final(self)@ == old(self)@.contended(),
    {
        self.events_seen += 1;
        self.contention.events += 1;
    }

    fn flush_pending(&mut self)
        requires
            old(self)@.valid(),
        ensures
            final(self)@.valid(),
            final(self)@ == old(self)@.flushed(),
    {
        let ghost before = self@;
        if let Some(collection) = self.pending.take() {
            self.recent_gcs.push(collection);
            if self.recent_gcs.len() > MAX_RECENT_GCS {
                let _oldest = self.recent_gcs.remove(0);
                assert(self.recent_gcs@ =~= before.recent.push(collection).skip(1));
            }
        }
    }

    /// Most recent collections first, including one still in flight.
    pub fn recent_collections(&self, limit: usize) -> (out: Vec<Collection>)
        ensures
            out@ == self@.shown_collections().take(
                if limit < self@.shown_collections().len() {
                    limit as int
                } else {
                    self@.shown_collections().len() as int
                },
            ),
    {
        let ghost all = self@.shown_collections();
        let mut out: Vec<Collection> = Vec::new();
        if let Some(pending) = self.pending {
            out.push(pending);
        }
        let ghost head = out@.len() as int;
        let mut i: usize = self.recent_gcs.len();
        while i > 0
            invariant
                i <= self.recent_gcs@.len(),
                all == self@.shown_collections(),
                head == (if self.pending is Some {
                    1int
                } else {
                    0int
                }),
                out@.len() == head + self.recent_gcs@.len() - i,
                out@ == all.take(out@.len() as int),
            decreases i,
        {
            i -= 1;
            let ghost before = out@;
            out.push(self.recent_gcs[i]);
            assert(out@ =~= all.take(out@.len() as int));
        }
        assert(out@ =~= all);
        if limit < out.len() {
            out.truncate(limit);
        }
        assert(out@ =~= all.take(out@.len() as int));
        out
    }

    pub fn total_gcs(&self) -> (n: u64)
        requires
            self@.valid(),
        ensures
            n == self@.gc_counts[0] + self@.gc_counts[1] + self@.gc_counts[2],
    {
        self.gc_counts[0] + self.gc_counts[1] + self.gc_counts[2]
    }

    /// How many events have been seen.
    pub fn seen(&self) -> (n: u64)
        ensures
            n == self@.events_seen,
    {
        self.events_seen
    }

    /// How many bytes have been seen allocated.
    pub fn allocated_bytes(&self) -> (n: u64)
        ensures
            n == self@.total_allocated_bytes,
    {
        self.total_allocated_bytes
    }

    pub fn is_empty(&self) -> (empty: bool)
        ensures
            empty == (self@.events_seen == 0),
    {
        self.events_seen == 0
    }

    pub fn reset(&mut self)
        ensures
            final(self)@ == RuntimeModel::blank(),
            final(self)@.valid(),
    {
        *self = RuntimeState::new();
    }
}

// ---------------------------------------------------------------------------------------------
// Rankings

impl RuntimeState {
    /// Allocation sites, heaviest first.
    pub fn top_allocations(&self, limit: usize) -> (sites: Vec<AllocationSite>)
        requires
            self@.valid(),
        ensures
            heaviest(site_models(sites@), self@.allocations, limit as int),
    {
        let mut names: Vec<String> = Vec::new();
        let mut weights: Vec<u64> = Vec::new();
        let mut i: usize = 0;
        while i < self.allocations.len()
            invariant
                i <= self.allocations@.len(),
                names@.len() == i,
                weights@.len() == i,
                forall|k: int|
                    0 <= k < i ==> (#[trigger] names@[k])@ == self@.allocations[k].name,
                forall|k: int| 0 <= k < i ==> #[trigger] weights@[k] == self@.allocations[k].bytes,
            decreases self.allocations@.len() - i,
        {
            names.push(self.allocations[i].name.clone());
            weights.push(self.allocations[i].bytes);
            i += 1;
        }
        let weighed = Weighed { names, weights };
        let top = top_places(&weighed, self.allocations.len(), limit);
        let mut sites: Vec<AllocationSite> = Vec::new();
        let mut k: usize = 0;
        while k < top.len()
            invariant
                k <= top@.len(),
                is_top(&weighed, top@, self.allocations@.len() as int, limit as int),
                sites@.len() == k,
                forall|l: int|
                    0 <= l < k ==> (#[trigger] sites@[l])@ == self@.allocations[top@[l] as int],
            decreases top@.len() - k,
        {
            let site = &self.allocations[top[k]];
            sites.push(
                AllocationSite {
                    name: site.name.clone(),
                    bytes: site.bytes,
                    ticks: site.ticks,
                    kind: site.kind,
                },
            );
            k += 1;
        }
        proof {
            top_is_heaviest(
                self@.allocations,
                &weighed,
                top@,
                site_models(sites@),
                limit as int,
            );
        }
        sites
    }

    /// Exception types, most frequent first.
    pub fn top_exceptions(&self, limit: usize) -> (sites: Vec<ExceptionSite>)
        requires
            self@.valid(),
        ensures
            most_frequent(thrown_models(sites@), self@.exceptions, limit as int),
    {
        let mut names: Vec<String> = Vec::new();
        let mut weights: Vec<u64> = Vec::new();
        let mut i: usize = 0;
        while i < self.exceptions.len()
            invariant
                i <= self.exceptions@.len(),
                names@.len() == i,
                weights@.len() == i,
                forall|k: int| 0 <= k < i ==> (#[trigger] names@[k])@ == self@.exceptions[k].name,
                forall|k: int| 0 <= k < i ==> #[trigger] weights@[k] == self@.exceptions[k].count,
            decreases self.exceptions@.len() - i,
        {
            names.push(self.exceptions[i].name.clone());
            weights.push(self.exceptions[i].count);
            i += 1;
        }
        let weighed = Weighed { names, weights };
        let top = top_places(&weighed, self.exceptions.len(), limit);
        let mut sites: Vec<ExceptionSite> = Vec::new();
        let mut k: usize = 0;
        while k < top.len()
            invariant
                k <= top@.len(),
                is_top(&weighed, top@, self.exceptions@.len() as int, limit as int),
                sites@.len() == k,
                forall|l: int|
                    0 <= l < k ==> (#[trigger] sites@[l])@ == self@.exceptions[top@[l] as int],
            decreases top@.len() - k,
        {
            let site = &self.exceptions[top[k]];
            sites.push(
                ExceptionSite {
                    name: site.name.clone(),
                    message: site.message.clone(),
                    count: site.count,
                },
            );
            k += 1;
        }
        proof {
            top_is_most_frequent(
                self@.exceptions,
                &weighed,
                top@,
                thrown_models(sites@),
                limit as int,
            );
        }
        sites
    }
}

proof fn top_is_heaviest(
    all: Seq<SiteModel>,
    weighed: &Weighed,
    top: Seq<usize>,
    sites: Seq<SiteModel>,
    limit: int,
)
    requires
        weighed.count() == all.len() <= usize::MAX,
        forall|i: int, j: int|
            0 <= i < j < all.len() ==> (#[trigger] all[i]).name != (#[trigger] all[j]).name,
        forall|k: int| 0 <= k < all.len() ==> (#[trigger] weighed.names@[k])@ == all[k].name,
        forall|k: int| 0 <= k < all.len() ==> #[trigger] weighed.weights@[k] == all[k].bytes,
        is_top(weighed, top, all.len() as int, limit),
        sites.len() == top.len(),
        forall|l: int| 0 <= l < top.len() ==> #[trigger] sites[l] == all[top[l] as int],
    ensures
        heaviest(sites, all, limit),
{
    assert forall|i: int, j: int|
        0 <= i < all.len() && 0 <= j < all.len() && #[trigger] ranks(
            weighed,
            i,
            j,
        ) && i != j implies heavier(all[i], all[j]) by {
        assert(weighed.names@[i]@ == all[i].name && weighed.names@[j]@ == all[j].name);
        assert(weighed.weights@[i] == all[i].bytes && weighed.weights@[j] == all[j].bytes);
        if i < j {
            assert(all[i].name != all[j].name);
        } else {
            assert(all[j].name != all[i].name);
        }
    }
    assert forall|k: int| 0 <= k < sites.len() implies all.contains(#[trigger] sites[k]) by {
        assert(all[top[k] as int] == sites[k]);
    }
    assert forall|k: int, l: int| 0 <= k < l < sites.len() implies heavier(
        #[trigger] sites[k],
        #[trigger] sites[l],
    ) by {
        assert(ranks(weighed, top[k] as int, top[l] as int));
    }
    assert forall|i: int, k: int| 0 <= i < all.len() && 0 <= k < sites.len() implies sites.contains(
        #[trigger] all[i],
    ) || heavier(#[trigger] sites[k], all[i]) by {
        if top.contains(i as usize) {
            let l = choose|l: int| 0 <= l < top.len() && top[l] == i as usize;
            assert(sites[l] == all[i]);
        } else {
            assert(is_behind(weighed, top, i));
            assert(top[k] != i as usize);
            assert(ranks(weighed, top[k] as int, i));
        }
    }
}

proof fn top_is_most_frequent(
    all: Seq<ThrownModel>,
    weighed: &Weighed,
    top: Seq<usize>,
    sites: Seq<ThrownModel>,
    limit: int,
)
    requires
        weighed.count() == all.len() <= usize::MAX,
        forall|i: int, j: int|
            0 <= i < j < all.len() ==> (#[trigger] all[i]).name != (#[trigger] all[j]).name,
        forall|k: int| 0 <= k < all.len() ==> (#[trigger] weighed.names@[k])@ == all[k].name,
        forall|k: int| 0 <= k < all.len() ==> #[trigger] weighed.weights@[k] == all[k].count,
        is_top(weighed, top, all.len() as int, limit),
        sites.len() == top.len(),
        forall|l: int| 0 <= l < top.len() ==> #[trigger] sites[l] == all[top[l] as int],
    ensures
        most_frequent(sites, all, limit),
{
    assert forall|i: int, j: int|
        0 <= i < all.len() && 0 <= j < all.len() && #[trigger] ranks(
            weighed,
            i,
            j,
        ) && i != j implies more_frequent(all[i], all[j]) by {
        assert(weighed.names@[i]@ == all[i].name && weighed.names@[j]@ == all[j].name);
        assert(weighed.weights@[i] == all[i].count && weighed.weights@[j] == all[j].count);
        if i < j {
            assert(all[i].name != all[j].name);
        } else {
            assert(all[j].name != all[i].name);
        }
    }
    assert forall|k: int| 0 <= k < sites.len() implies all.contains(#[trigger] sites[k]) by {
        assert(all[top[k] as int] == sites[k]);
    }
    assert forall|k: int, l: int| 0 <= k < l < sites.len() implies more_frequent(
        #[trigger] sites[k],
        #[trigger] sites[l],
    ) by {
        assert(ranks(weighed, top[k] as int, top[l] as int));
    }
    assert forall|i: int, k: int| 0 <= i < all.len() && 0 <= k < sites.len() implies sites.contains(
        #[trigger] all[i],
    ) || more_frequent(#[trigger] sites[k], all[i]) by {
        if top.contains(i as usize) {
            let l = choose|l: int| 0 <= l < top.len() && top[l] == i as usize;
            assert(sites[l] == all[i]);
        } else {
            assert(is_behind(weighed, top, i));
            assert(top[k] != i as usize);
            assert(ranks(weighed, top[k] as int, i));
        }
    }
}

/// A collection that reports no end is not lost when the next one starts: the new one is in
/// flight, and the old one stands right behind it.
pub proof fn started_collections_are_kept(m: RuntimeModel, first: GcStart, second: GcStart)
    requires
        m.valid(),
    ensures
        ({
            let shown = m.gc_started(first).gc_started(second).shown_collections();
            &&& shown.len() >= 2
            &&& shown[0].count == second.count && shown[0].generation == second.depth
                && shown[0].reason == second.reason && shown[0].gc_type == second.gc_type
            &&& shown[1].count == first.count && shown[1].generation == first.depth
                && shown[1].reason == first.reason && shown[1].gc_type == first.gc_type
        }),
{
}

/// The pause between a suspend and a restart belongs to the collection that starts next.
pub proof fn a_pause_belongs_to_the_next_collection(
    m: RuntimeModel,
    suspended: u64,
    restarted: u64,
    frequency: i64,
    start: GcStart,
)
    requires
        m.pending is None,
        suspended < restarted,
        frequency > 0,
    ensures
        m.suspended(suspended).restarted(restarted, frequency).gc_started(start).pending->0.pause
            == Some(Pause { ticks: (restarted - suspended) as u64, frequency }),
{
}

/// Neither a restart without a suspend, nor a clock that stands still or runs backwards, counts as
/// a pause.
pub proof fn bogus_pauses_do_not_count(m: RuntimeModel, timestamp: u64, frequency: i64)
    requires
        m.suspend_started is None || frequency <= 0 || timestamp <= m.suspend_started->0,
    ensures
        m.restarted(timestamp, frequency).total_pause == m.total_pause,
        m.restarted(timestamp, frequency).pending == m.pending,
        m.restarted(timestamp, frequency).last_pause == m.last_pause,
{
}

} // verus!
