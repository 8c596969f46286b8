//! What the runtime's events do to what is known of it.
use vstd::prelude::*;

use super::events::{AllocationKind, GcHeapStats, GcStart};
use super::state::{
    heavier, heaviest, more_frequent, most_frequent, Collection, Pause, RuntimeModel, SiteModel,
    ThrownModel,
};
use crate::text::text_le;

verus! {

/// Whether nothing that collections are told by has changed.
pub open spec fn same_collections(a: RuntimeModel, b: RuntimeModel) -> bool {
    &&& a.recent == b.recent
    &&& a.pending == b.pending
    &&& a.gc_counts == b.gc_counts
    &&& a.last_pause == b.last_pause
    &&& a.suspend_started == b.suspend_started
    &&& a.total_pause == b.total_pause
}

/// Whether nothing that allocations are told by has changed.
pub open spec fn same_allocations(a: RuntimeModel, b: RuntimeModel) -> bool {
    &&& a.allocations == b.allocations
    &&& a.total_allocated_bytes == b.total_allocated_bytes
    &&& a.allocation_ticks == b.allocation_ticks
}

/// Whether nothing that exceptions and locks are told by has changed.
pub open spec fn same_failures(a: RuntimeModel, b: RuntimeModel) -> bool {
    &&& a.exceptions == b.exceptions
    &&& a.total_exceptions == b.total_exceptions
    &&& a.contention == b.contention
}

/// A tick of a type that was seen before adds its bytes and one tick to that type's site and to the
/// totals. The site keeps its place and its heap, unless the tick is on the large object heap,
/// which it then stays on. No other site changes, and nothing else does.
pub proof fn a_tick_counts_for_its_type(
    m: RuntimeModel,
    i: int,
    bytes: u64,
    kind: AllocationKind,
)
    requires
        m.valid(),
        m.events_seen < u64::MAX,
        m.total_allocated_bytes + bytes <= u64::MAX,
        0 <= i < m.allocations.len(),
    ensures
        ({
            let after = m.allocated(m.allocations[i].name, bytes, kind);
            &&& after.allocations.len() == m.allocations.len()
            &&& after.allocations[i].name == m.allocations[i].name
            &&& after.allocations[i].bytes == m.allocations[i].bytes + bytes
            &&& after.allocations[i].ticks == m.allocations[i].ticks + 1
            &&& kind == AllocationKind::Large ==> after.allocations[i].kind
                == AllocationKind::Large
            &&& kind != AllocationKind::Large ==> after.allocations[i].kind
                == m.allocations[i].kind
            &&& forall|j: int|
                0 <= j < m.allocations.len() && j != i ==> #[trigger] after.allocations[j]
                    == m.allocations[j]
            &&& after.total_allocated_bytes == m.total_allocated_bytes + bytes
            &&& after.allocation_ticks == m.allocation_ticks + 1
            &&& after.events_seen == m.events_seen + 1
            &&& same_collections(m, after)
            &&& same_failures(m, after)
        }),
{
    super::state::sums_bound(m.allocations, i);
    let name = m.allocations[i].name;
    let k = super::state::site_place(m.allocations, name)->0;
    assert(m.allocations[i].name == name);
    if k < i {
        assert(m.allocations[k].name != m.allocations[i].name);
    }
    if i < k {
        assert(m.allocations[i].name != m.allocations[k].name);
    }
}

/// The first tick of a type opens a site of its own behind the others, which stay as they are.
pub proof fn a_new_type_gets_its_own_site(
    m: RuntimeModel,
    name: Seq<char>,
    bytes: u64,
    kind: AllocationKind,
)
    requires
        m.valid(),
        m.events_seen < u64::MAX,
        m.total_allocated_bytes + bytes <= u64::MAX,
        forall|i: int| 0 <= i < m.allocations.len() ==> (#[trigger] m.allocations[i]).name != name,
    ensures
        ({
            let after = m.allocated(name, bytes, kind);
            let n = m.allocations.len() as int;
            &&& after.allocations.len() == n + 1
            &&& after.allocations.take(n) == m.allocations
            &&& after.allocations[n].name == name
            &&& after.allocations[n].bytes == bytes
            &&& after.allocations[n].ticks == 1
            &&& after.allocations[n].kind == kind
            &&& after.total_allocated_bytes == m.total_allocated_bytes + bytes
            &&& after.allocation_ticks == m.allocation_ticks + 1
            &&& after.events_seen == m.events_seen + 1
            &&& same_collections(m, after)
            &&& same_failures(m, after)
        }),
{
    let after = m.allocated(name, bytes, kind);
    assert(after.allocations.take(m.allocations.len() as int) =~= m.allocations);
}

/// An exception of a type that was seen before adds one to that type's count and to the total. The
/// message that came first is the one that is kept.
pub proof fn a_throw_counts_for_its_type(m: RuntimeModel, i: int, message: Seq<char>)
    requires
        m.valid(),
        m.events_seen < u64::MAX,
        0 <= i < m.exceptions.len(),
    ensures
        ({
            let after = m.threw(m.exceptions[i].name, message);
            &&& after.exceptions.len() == m.exceptions.len()
            &&& after.exceptions[i].name == m.exceptions[i].name
            &&& after.exceptions[i].message == m.exceptions[i].message
            &&& after.exceptions[i].count == m.exceptions[i].count + 1
            &&& forall|j: int|
                0 <= j < m.exceptions.len() && j != i ==> #[trigger] after.exceptions[j]
                    == m.exceptions[j]
            &&& after.total_exceptions == m.total_exceptions + 1
            &&& after.events_seen == m.events_seen + 1
            &&& after.contention == m.contention
            &&& same_collections(m, after)
            &&& same_allocations(m, after)
        }),
{
    super::state::throws_update(m.exceptions, i, m.exceptions[i]);
    let name = m.exceptions[i].name;
    let k = super::state::thrown_place(m.exceptions, name)->0;
    assert(m.exceptions[i].name == name);
    if k < i {
        assert(m.exceptions[k].name != m.exceptions[i].name);
    }
    if i < k {
        assert(m.exceptions[i].name != m.exceptions[k].name);
    }
}

/// The first exception of a type is kept behind the others, with its own message.
pub proof fn a_new_exception_is_kept(m: RuntimeModel, name: Seq<char>, message: Seq<char>)
    requires
        m.valid(),
        m.events_seen < u64::MAX,
        forall|i: int| 0 <= i < m.exceptions.len() ==> (#[trigger] m.exceptions[i]).name != name,
    ensures
        ({
            let after = m.threw(name, message);
            let n = m.exceptions.len() as int;
            &&& after.exceptions.len() == n + 1
            &&& after.exceptions.take(n) == m.exceptions
            &&& after.exceptions[n].name == name
            &&& after.exceptions[n].message == message
            &&& after.exceptions[n].count == 1
            &&& after.total_exceptions == m.total_exceptions + 1
            &&& after.events_seen == m.events_seen + 1
            &&& after.contention == m.contention
            &&& same_collections(m, after)
            &&& same_allocations(m, after)
        }),
{
    let after = m.threw(name, message);
    assert(after.exceptions.take(m.exceptions.len() as int) =~= m.exceptions);
}

/// Waiting for a lock is counted, and changes nothing else.
pub proof fn waits_are_counted(m: RuntimeModel)
    requires
        m.valid(),
        m.events_seen < u64::MAX,
    ensures
        ({
            let after = m.contended();
            &&& after.contention.events == m.contention.events + 1
            &&& after.events_seen == m.events_seen + 1
            &&& after.exceptions == m.exceptions
            &&& after.total_exceptions == m.total_exceptions
            &&& same_collections(m, after)
            &&& same_allocations(m, after)
        }),
{
}

/// A collection that starts is the one in flight, as it was announced, with a pause that was held
/// for it and with nothing known of its survivors. It counts once, for its own generation, where
/// all generations from the second on count as the second. A pause is handed out once.
pub proof fn a_start_is_counted_once(m: RuntimeModel, start: GcStart)
    requires
        m.valid(),
        m.events_seen < u64::MAX,
    ensures
        ({
            let after = m.gc_started(start);
            &&& after.pending is Some
            &&& after.pending->0.count == start.count
            &&& after.pending->0.generation == start.depth
            &&& after.pending->0.reason == start.reason
            &&& after.pending->0.gc_type == start.gc_type
            &&& after.pending->0.pause == m.last_pause
            &&& after.pending->0.promoted_bytes is None
            &&& after.last_pause is None
            &&& after.suspend_started == m.suspend_started
            &&& after.total_pause == m.total_pause
            &&& after.gc_counts.len() == 3
            &&& after.gc_counts[0] == m.gc_counts[0] + if start.depth == 0 { 1int } else { 0 }
            &&& after.gc_counts[1] == m.gc_counts[1] + if start.depth == 1 { 1int } else { 0 }
            &&& after.gc_counts[2] == m.gc_counts[2] + if start.depth >= 2 { 1int } else { 0 }
            &&& after.events_seen == m.events_seen + 1
            &&& m.pending is None ==> after.recent == m.recent
            &&& same_allocations(m, after)
            &&& same_failures(m, after)
        }),
{
}

/// What the heap holds after a collection goes to the collection in flight, summed over the three
/// generations and the large objects; whatever else is known of it stays. Without one it goes
/// nowhere.
pub proof fn survivors_belong_to_the_collection_in_flight(m: RuntimeModel, stats: GcHeapStats)
    requires
        m.valid(),
        m.events_seen < u64::MAX,
        m.pending is Some ==> stats.gen0_promoted + stats.gen1_promoted + stats.gen2_promoted
            + stats.loh_promoted <= u64::MAX,
    ensures
        ({
            let after = m.heap_measured(stats);
            &&& m.pending is None ==> after.pending is None
            &&& m.pending is Some ==> {
                &&& after.pending is Some
                &&& after.pending->0.promoted_bytes is Some
                &&& after.pending->0.promoted_bytes->0 == stats.gen0_promoted
                    + stats.gen1_promoted + stats.gen2_promoted + stats.loh_promoted
                &&& after.pending->0.count == m.pending->0.count
                &&& after.pending->0.generation == m.pending->0.generation
                &&& after.pending->0.reason == m.pending->0.reason
                &&& after.pending->0.gc_type == m.pending->0.gc_type
                &&& after.pending->0.pause == m.pending->0.pause
            }
            &&& after.recent == m.recent
            &&& after.gc_counts == m.gc_counts
            &&& after.last_pause == m.last_pause
            &&& after.suspend_started == m.suspend_started
            &&& after.total_pause == m.total_pause
            &&& after.events_seen == m.events_seen + 1
            &&& same_allocations(m, after)
            &&& same_failures(m, after)
        }),
{
}

/// A collection that ends is the newest of those that have ended, as it was in flight. The others
/// stay in their order; only the oldest leaves, and only where there were sixty-four already. An
/// end without a start changes nothing.
pub proof fn an_end_keeps_the_collection(m: RuntimeModel)
    requires
        m.valid(),
        m.events_seen < u64::MAX,
    ensures
        ({
            let after = m.gc_ended();
            &&& after.pending is None
            &&& m.pending is None ==> after.recent == m.recent
            &&& m.pending is Some ==> {
                &&& after.recent.len() > 0
                &&& after.recent.last() == m.pending->0
                &&& m.recent.len() < 64 ==> after.recent.drop_last() == m.recent
                &&& m.recent.len() == 64 ==> after.recent.drop_last() == m.recent.skip(1)
            }
            &&& m.recent.len() <= 64
            &&& after.gc_counts == m.gc_counts
            &&& after.last_pause == m.last_pause
            &&& after.suspend_started == m.suspend_started
            &&& after.total_pause == m.total_pause
            &&& after.events_seen == m.events_seen + 1
            &&& same_allocations(m, after)
            &&& same_failures(m, after)
        }),
{
    let after = m.gc_ended();
    if m.pending is Some {
        let longer = m.recent.push(m.pending->0);
        if m.recent.len() < 64 {
            assert(after.recent.drop_last() =~= m.recent);
        } else {
            assert(after.recent =~= longer.skip(1));
            assert(after.recent.drop_last() =~= m.recent.skip(1));
        }
    }
}

/// A suspend sets the clock, over any suspend before it, and does nothing else.
pub proof fn a_suspend_sets_the_clock(m: RuntimeModel, timestamp: u64)
    requires
        m.valid(),
        m.events_seen < u64::MAX,
    ensures
        ({
            let after = m.suspended(timestamp);
            &&& after.suspend_started == Some(timestamp)
            &&& after.recent == m.recent
            &&& after.pending == m.pending
            &&& after.gc_counts == m.gc_counts
            &&& after.last_pause == m.last_pause
            &&& after.total_pause == m.total_pause
            &&& after.events_seen == m.events_seen + 1
            &&& same_allocations(m, after)
            &&& same_failures(m, after)
        }),
{
}

/// How long the clocks of one frequency have stood still in all.
pub open spec fn paused_at(m: RuntimeModel, frequency: i64) -> int {
    if exists|i: int|
        0 <= i < m.total_pause.len() && (#[trigger] m.total_pause[i]).frequency == frequency {
        let i = choose|i: int|
            0 <= i < m.total_pause.len() && (#[trigger] m.total_pause[i]).frequency == frequency;
        m.total_pause[i].ticks as int
    } else {
        0
    }
}

/// A pause is as long as the time from the suspend to the restart. It is added to the total of its
/// own clock and to no other, and the next restart does not measure it again. The collection in
/// flight gets it where it has none, and it is then held for no other; otherwise it is held for the
/// collection that starts next, and the one in flight stays as it is.
pub proof fn a_pause_is_given_once(m: RuntimeModel, timestamp: u64, frequency: i64, other: i64)
    requires
        m.valid(),
        m.events_seen < u64::MAX,
        m.suspend_started is Some,
        m.suspend_started->0 < timestamp,
        frequency > 0,
    ensures
        ({
            let after = m.restarted(timestamp, frequency);
            let ticks = timestamp - m.suspend_started->0;
            &&& m.measured_pause(timestamp, frequency) is Some
            &&& m.measured_pause(timestamp, frequency)->0.ticks == ticks
            &&& m.measured_pause(timestamp, frequency)->0.frequency == frequency
            &&& after.suspend_started is None
            &&& paused_at(after, frequency) == paused_at(m, frequency) + ticks
            &&& other != frequency ==> paused_at(after, other) == paused_at(m, other)
            &&& m.pending is Some && m.pending->0.pause is None ==> {
                &&& after.pending is Some
                &&& after.pending->0.pause is Some
                &&& after.pending->0.pause->0.ticks == ticks
                &&& after.pending->0.pause->0.frequency == frequency
                &&& after.pending->0.count == m.pending->0.count
                &&& after.pending->0.generation == m.pending->0.generation
                &&& after.pending->0.reason == m.pending->0.reason
                &&& after.pending->0.gc_type == m.pending->0.gc_type
                &&& after.pending->0.promoted_bytes == m.pending->0.promoted_bytes
                &&& after.last_pause == m.last_pause
            }
            &&& m.pending is None || m.pending->0.pause is Some ==> {
                &&& after.pending == m.pending
                &&& after.last_pause is Some
                &&& after.last_pause->0.ticks == ticks
                &&& after.last_pause->0.frequency == frequency
            }
            &&& after.recent == m.recent
            &&& after.gc_counts == m.gc_counts
            &&& after.events_seen == m.events_seen + 1
            &&& same_allocations(m, after)
            &&& same_failures(m, after)
        }),
{
    let after = m.restarted(timestamp, frequency);
    match super::state::pause_place(m.total_pause, frequency) {
        Some(k) => {
            assert(after.total_pause[k].frequency == frequency);
            assert forall|i: int|
                0 <= i < after.total_pause.len() && (#[trigger] after.total_pause[i]).frequency
                    == frequency implies i == k by {
                if i != k {
                    assert(m.total_pause[i].frequency == frequency);
                    if i < k {
                        assert(m.total_pause[i].frequency != m.total_pause[k].frequency);
                    } else {
                        assert(m.total_pause[k].frequency != m.total_pause[i].frequency);
                    }
                }
            }
            assert(m.total_pause[k].ticks <= u64::MAX * m.events_seen);
            assert(u64::MAX * m.events_seen <= u64::MAX * u64::MAX) by (nonlinear_arith)
                requires
                    m.events_seen <= u64::MAX,
            ;
        },
        None => {
            let n = m.total_pause.len() as int;
            assert(after.total_pause[n].frequency == frequency);
            assert forall|i: int|
                0 <= i < after.total_pause.len() && (#[trigger] after.total_pause[i]).frequency
                    == frequency implies i == n by {
                if i < n {
                    assert(m.total_pause[i].frequency == frequency);
                }
            }
        },
    }
    if other != frequency {
        others_keep_their_pauses(m, after, frequency, other);
    }
}

proof fn others_keep_their_pauses(
    m: RuntimeModel,
    after: RuntimeModel,
    frequency: i64,
    other: i64,
)
    requires
        m.valid(),
        other != frequency,
        m.total_pause.len() <= after.total_pause.len(),
        forall|i: int|
            0 <= i < after.total_pause.len() ==> (#[trigger] after.total_pause[i]).frequency
                == frequency || i < m.total_pause.len() && after.total_pause[i]
                == m.total_pause[i],
        forall|i: int|
            0 <= i < m.total_pause.len() && (#[trigger] m.total_pause[i]).frequency != frequency
                ==> after.total_pause[i] == m.total_pause[i],
    ensures
        paused_at(after, other) == paused_at(m, other),
{
    if exists|i: int|
        0 <= i < m.total_pause.len() && (#[trigger] m.total_pause[i]).frequency == other {
        let i = choose|i: int|
            0 <= i < m.total_pause.len() && (#[trigger] m.total_pause[i]).frequency == other;
        assert(after.total_pause[i].frequency == other);
        assert forall|j: int|
            0 <= j < after.total_pause.len() && (#[trigger] after.total_pause[j]).frequency
                == other implies j == i by {
            assert(after.total_pause[j] == m.total_pause[j]);
            if i < j {
                assert(m.total_pause[i].frequency != m.total_pause[j].frequency);
            }
            if j < i {
                assert(m.total_pause[j].frequency != m.total_pause[i].frequency);
            }
        }
    } else {
        assert forall|j: int| 0 <= j < after.total_pause.len() implies (
        #[trigger] after.total_pause[j]).frequency != other by {
            if after.total_pause[j].frequency == other {
                assert(m.total_pause[j].frequency == other);
            }
        }
    }
}

/// A collection that starts while the application stands still gets the whole pause when execution
/// restarts, and keeps it when it ends. Nothing of the pause is left for a collection that follows.
pub proof fn a_pause_belongs_to_the_collection_in_flight(
    m: RuntimeModel,
    suspended: u64,
    start: GcStart,
    restarted: u64,
    frequency: i64,
    next: GcStart,
)
    requires
        m.valid(),
        m.last_pause is None,
        suspended < restarted,
        frequency > 0,
    ensures
        ({
            let pause = Pause { ticks: (restarted - suspended) as u64, frequency };
            let running = m.suspended(suspended).gc_started(start).restarted(restarted, frequency);
            let ended = running.gc_ended();
            let following = ended.gc_started(next);
            let over = following.gc_ended();
            let collection = Collection {
                count: start.count,
                generation: start.depth,
                reason: start.reason,
                gc_type: start.gc_type,
                pause: Some(pause),
                promoted_bytes: None,
            };
            &&& running.pending == Some(collection)
            &&& running.last_pause is None
            &&& running.suspend_started is None
            &&& ended.pending is None
            &&& ended.recent.last() == collection
            &&& ended.last_pause is None
            &&& following.pending is Some
            &&& following.pending->0.count == next.count
            &&& following.pending->0.pause is None
            &&& over.recent.len() >= 2
            &&& over.recent[over.recent.len() - 1].count == next.count
            &&& over.recent[over.recent.len() - 1].pause is None
            &&& over.recent[over.recent.len() - 2] == collection
        }),
{
}

/// The heaviest types are listed by bytes, the most first, and types of as many bytes by name. What
/// is not listed has no more bytes than what is.
pub proof fn allocations_are_listed_by_bytes(
    top: Seq<SiteModel>,
    sites: Seq<SiteModel>,
    limit: int,
    k: int,
    l: int,
    i: int,
)
    requires
        heaviest(top, sites, limit),
        0 <= k < l < top.len(),
        0 <= i < sites.len(),
    ensures
        top.len() <= limit,
        limit >= sites.len() ==> top.len() == sites.len(),
        top[k].bytes >= top[l].bytes,
        top[k].bytes == top[l].bytes ==> text_le(top[k].name, top[l].name),
        sites.contains(top[k]),
        !top.contains(sites[i]) ==> sites[i].bytes <= top[k].bytes && top.len() == limit,
{
    assert(top.contains(sites[i]) || heavier(top[k], sites[i]));
    if limit >= sites.len() && !top.contains(sites[i]) {
        all_are_listed(top, sites, limit, i);
    }
}

/// As many different sites as there are leave none out.
proof fn all_are_listed(top: Seq<SiteModel>, sites: Seq<SiteModel>, limit: int, i: int)
    requires
        heaviest(top, sites, limit),
        limit >= sites.len(),
        0 <= i < sites.len(),
    ensures
        top.contains(sites[i]),
{
    assert forall|k: int, l: int| 0 <= k < l < top.len() implies top[k] != top[l] by {
        assert(heavier(top[k], top[l]));
    }
    if !top.contains(sites[i]) {
        let others = sites.remove(i);
        assert forall|k: int| 0 <= k < top.len() implies others.contains(#[trigger] top[k]) by {
            assert(sites.contains(top[k]));
            let j = choose|j: int| 0 <= j < sites.len() && sites[j] == top[k];
            assert(j != i) by {
                assert(top.contains(top[k]));
            }
            assert(others[if j < i { j } else { j - 1 }] == top[k]);
        }
        distinct_parts_are_no_longer(top, others);
    }
}

proof fn distinct_parts_are_no_longer(a: Seq<SiteModel>, b: Seq<SiteModel>)
    requires
        forall|k: int, l: int| 0 <= k < l < a.len() ==> a[k] != a[l],
        forall|k: int| 0 <= k < a.len() ==> b.contains(#[trigger] a[k]),
    ensures
        a.len() <= b.len(),
    decreases a.len(),
{
    if a.len() > 0 {
        let last = a.last();
        let front = a.drop_last();
        assert(b.contains(a[a.len() - 1]));
        let j = choose|j: int| 0 <= j < b.len() && b[j] == last;
        let rest = b.remove(j);
        assert forall|k: int| 0 <= k < front.len() implies rest.contains(#[trigger] front[k]) by {
            assert(b.contains(a[k]));
            let m = choose|m: int| 0 <= m < b.len() && b[m] == a[k];
            assert(a[k] != a[a.len() - 1]);
            assert(rest[if m < j { m } else { m - 1 }] == front[k]);
        }
        distinct_parts_are_no_longer(front, rest);
    }
}

/// The most frequent exceptions are listed by how often they were thrown, the most first, and those
/// thrown as often by name.
pub proof fn exceptions_are_listed_by_count(
    top: Seq<ThrownModel>,
    sites: Seq<ThrownModel>,
    limit: int,
    k: int,
    l: int,
    i: int,
)
    requires
        most_frequent(top, sites, limit),
        0 <= k < l < top.len(),
        0 <= i < sites.len(),
    ensures
        top.len() <= limit,
        limit >= sites.len() ==> top.len() == sites.len(),
        top[k].count >= top[l].count,
        top[k].count == top[l].count ==> text_le(top[k].name, top[l].name),
        sites.contains(top[k]),
        !top.contains(sites[i]) ==> sites[i].count <= top[k].count,
{
    assert(top.contains(sites[i]) || more_frequent(top[k], sites[i]));
}

/// Collections are shown newest first: the one in flight, if there is one, and then those that have
/// ended, the last to end first.
pub proof fn collections_are_shown_newest_first(m: RuntimeModel, k: int)
    requires
        0 <= k < m.recent.len(),
    ensures
        ({
            let shown = m.shown_collections();
            let flying: int = if m.pending is Some { 1 } else { 0 };
            &&& shown.len() == m.recent.len() + flying
            &&& m.pending is Some ==> shown[0] == m.pending->0
            &&& shown[flying + k] == m.recent[m.recent.len() - 1 - k]
        }),
{
}

/// After a reset nothing is known: no type, no exception, no collection, no pause and no wait.
pub proof fn nothing_is_known_at_first()
    ensures
        ({
            let m = RuntimeModel::blank();
            &&& m.valid()
            &&& m.allocations.len() == 0 && m.exceptions.len() == 0 && m.recent.len() == 0
            &&& m.total_pause.len() == 0 && m.contention.events == 0
            &&& m.total_allocated_bytes == 0 && m.allocation_ticks == 0 && m.total_exceptions == 0
            &&& m.gc_counts == seq![0u64, 0u64, 0u64]
            &&& m.pending is None && m.suspend_started is None && m.last_pause is None
            &&& m.events_seen == 0
        }),
{
}

} // verus!
