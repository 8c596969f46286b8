//! What happens to the dashboard's state, event by event.
use vstd::prelude::*;
use vstd::view::View as _;

use super::{
    ranks_profile, since, two_digits, uptime_words, AppModel, HotModel, PhaseModel, RawProfile,
    Reading, SeriesModel, StatusModel, View,
};
use crate::counters::sample::SampleModel;
use crate::profile::state::is_ranking;
use crate::rates::{rung, stepped, Seconds};
use crate::runtime::history::{
    a_new_exception_is_kept, a_new_type_gets_its_own_site, a_start_is_counted_once,
    a_throw_counts_for_its_type, a_tick_counts_for_its_type, an_end_keeps_the_collection,
    same_allocations, same_collections, same_failures,
    survivors_belong_to_the_collection_in_flight,
};
use crate::runtime::session::RuntimeEventModel;
use crate::runtime::state::{site_place, thrown_place};
use crate::text::{decimal, digit};

verus! {

/// Whether a sample only counts: nothing of what is shown besides the readings changes, and neither
/// does what was asked for.
pub open spec fn same_screens(a: AppModel, b: AppModel) -> bool {
    &&& a.process == b.process
    &&& a.info == b.info
    &&& a.interval == b.interval
    &&& a.pending_interval == b.pending_interval
    &&& a.paused == b.paused
    &&& a.show_help == b.show_help
    &&& a.exit == b.exit
    &&& a.view == b.view
    &&& a.runtime == b.runtime
    &&& a.runtime_error == b.runtime_error
    &&& same_profiles(a, b)
    &&& a.investigating_since == b.investigating_since
    &&& a.started == b.started
}

/// Whether nothing of a profile has changed.
pub open spec fn same_profiles(a: AppModel, b: AppModel) -> bool {
    &&& a.profile_phase == b.profile_phase
    &&& a.profile == b.profile
    &&& a.profile_result == b.profile_result
    &&& a.profile_samples == b.profile_samples
    &&& a.profile_show_waiting == b.profile_show_waiting
    &&& a.profile_seconds == b.profile_seconds
}

/// Whether nothing of the counters has changed.
pub open spec fn same_readings(a: AppModel, b: AppModel) -> bool {
    &&& a.counters == b.counters
    &&& a.providers == b.providers
    &&& a.status == b.status
    &&& a.last_sample_at == b.last_sample_at
    &&& a.samples_seen == b.samples_seen
    &&& a.interval == b.interval
    &&& a.pending_interval == b.pending_interval
    &&& a.paused == b.paused
}

/// A sample brings the session to life, is counted, and makes its provider known, paused or not.
/// Providers that were known stay known, and no other becomes known.
pub proof fn samples_are_counted(m: AppModel, sample: SampleModel, now: u64, other: Seq<char>)
    requires
        m.samples_seen < u64::MAX,
    ensures
        ({
            let after = m.recorded(sample, now);
            &&& after.status == StatusModel::Live
            &&& after.samples_seen == m.samples_seen + 1
            &&& after.last_sample_at == Some(now)
            &&& after.providers.contains(sample.provider)
            &&& other != sample.provider ==> after.providers.contains(other)
                == m.providers.contains(other)
            &&& m.paused ==> after.counters == m.counters
            &&& same_screens(m, after)
        }),
{
}

/// A reading goes to the end of its counter's history, with its own time and value. What was there
/// stays in its order; only the oldest reading leaves, and only where there were six hundred.
pub proof fn histories_grow_at_the_end(series: SeriesModel, sample: SampleModel, now: u64)
    requires
        series.valid(),
    ensures
        ({
            let after = series.pushed(sample, now);
            &&& after.latest == Some(sample)
            &&& after.history.len() > 0
            &&& after.history.last() == Reading { at: now, value: sample.value }
            &&& series.history.len() <= 600
            &&& series.history.len() < 600 ==> after.history.drop_last() == series.history
            &&& series.history.len() == 600 ==> after.history.drop_last() == series.history.skip(1)
        }),
{
    let after = series.pushed(sample, now);
    let longer = series.history.push(Reading { at: now, value: sample.value });
    if series.history.len() < 600 {
        assert(after.history.drop_last() =~= series.history);
    } else {
        assert(after.history =~= longer.skip(1));
        assert(after.history.drop_last() =~= series.history.skip(1));
    }
}

/// A new rate is the one in force. Every counter keeps its place, its name and its latest reading,
/// and of its history nothing but that reading. A rate that was asked for since is not forgotten.
pub proof fn a_new_rate_starts_histories_over(m: AppModel, interval: Seconds, i: int)
    requires
        m.valid(),
        0 <= i < m.counters.len(),
    ensures
        ({
            let after = m.interval_applied(interval);
            let before = m.counters[i];
            &&& after.interval == interval
            &&& after.pending_interval == m.pending_interval
            &&& after.counters.len() == m.counters.len()
            &&& after.counters[i].provider == before.provider
            &&& after.counters[i].name == before.name
            &&& after.counters[i].series.latest == before.series.latest
            &&& before.series.history.len() == 0 ==> after.counters[i].series.history.len() == 0
            &&& before.series.history.len() > 0 ==> {
                &&& after.counters[i].series.history.len() == 1
                &&& after.counters[i].series.history[0] == before.series.history.last()
            }
            &&& after.providers == m.providers
            &&& after.status == m.status
            &&& after.samples_seen == m.samples_seen
            &&& after.last_sample_at == m.last_sample_at
            &&& after.view == m.view
            &&& after.runtime == m.runtime
            &&& same_profiles(m, after)
        }),
{
}

/// The ladder of rates: a quarter of a second, a half, one, two, three, five and ten seconds.
pub proof fn the_ladder_has_seven_rungs(i: int)
    ensures
        i == 0 ==> rung(i).bits == 0x3FD0_0000_0000_0000,
        i == 1 ==> rung(i).bits == 0x3FE0_0000_0000_0000,
        i == 2 ==> rung(i).bits == 0x3FF0_0000_0000_0000,
        i == 3 ==> rung(i).bits == 0x4000_0000_0000_0000,
        i == 4 ==> rung(i).bits == 0x4008_0000_0000_0000,
        i == 5 ==> rung(i).bits == 0x4014_0000_0000_0000,
        i == 6 ==> rung(i).bits == 0x4024_0000_0000_0000,
        1 <= i < 7 ==> stepped(rung(i), true) == rung(i - 1),
        0 <= i < 6 ==> stepped(rung(i), false) == rung(i + 1),
        stepped(rung(0), true) == rung(0),
        stepped(rung(6), false) == rung(6),
{
}

/// A step asks for the next rate from the one that was asked for last, and for none where the
/// ladder ends. Nothing else changes, the rate in force least of all.
pub proof fn steps_start_from_what_was_asked_for(m: AppModel, faster: bool)
    ensures
        ({
            let after = m.interval_stepped(faster);
            let from = if m.pending_interval is Some {
                m.pending_interval->0
            } else {
                m.interval
            };
            let next = stepped(from, faster);
            &&& next != from ==> after.pending_interval == Some(next)
            &&& next == from ==> after.pending_interval == m.pending_interval
            &&& after.interval == m.interval
            &&& after.counters == m.counters
            &&& after.status == m.status
            &&& after.view == m.view
            &&& after.runtime == m.runtime
            &&& same_profiles(m, after)
        }),
{
}

/// The investigation opens from any other screen, at its time and with no failure to tell of, and
/// is left for the dashboard. Either way nothing that was found or collected is lost.
pub proof fn the_investigation_opens_and_closes(m: AppModel, now: u64)
    ensures
        ({
            let after = m.investigation_toggled(now);
            &&& m.view != View::Investigate ==> {
                &&& after.view == View::Investigate
                &&& after.investigating_since == Some(now)
                &&& after.runtime_error is None
            }
            &&& m.view == View::Investigate ==> {
                &&& after.view == View::Dashboard
                &&& after.investigating_since == m.investigating_since
                &&& after.runtime_error == m.runtime_error
            }
            &&& after.runtime == m.runtime
            &&& same_profiles(m, after)
            &&& same_readings(m, after)
        }),
{
}

/// A profile starts on its own screen with nothing counted and nothing ranked, and is collected for
/// as many seconds as were asked for. What was collected before, and whether waits are shown, is
/// kept. The dashboard and the investigation are not touched.
pub proof fn a_profile_starts_afresh(m: AppModel, now: u64)
    ensures
        ({
            let after = m.profile_started(now);
            &&& after.view == View::Profile
            &&& after.profile is None
            &&& after.profile_samples == 0
            &&& after.profile_phase == (PhaseModel::Collecting {
                until: now + m.profile_seconds * 1_000_000_000,
            })
            &&& after.profile_result == m.profile_result
            &&& after.profile_show_waiting == m.profile_show_waiting
            &&& after.profile_seconds == m.profile_seconds
            &&& after.runtime == m.runtime
            &&& after.runtime_error == m.runtime_error
            &&& after.investigating_since == m.investigating_since
            &&& same_readings(m, after)
        }),
{
}

/// Cancelling a profile leads back to the dashboard. One that is still being collected has failed
/// by it, and one that is not stays as it is, its ranking included.
pub proof fn cancelling_keeps_what_is_done(m: AppModel)
    ensures
        ({
            let after = m.profile_cancelled();
            &&& after.view == View::Dashboard
            &&& m.profile_phase is Collecting ==> after.profile_phase == PhaseModel::Failed(
                "cancelled"@,
            )
            &&& !(m.profile_phase is Collecting) ==> after.profile_phase == m.profile_phase
            &&& after.profile == m.profile
            &&& after.profile_result == m.profile_result
            &&& after.profile_samples == m.profile_samples
            &&& after.profile_show_waiting == m.profile_show_waiting
            &&& after.profile_seconds == m.profile_seconds
            &&& after.runtime == m.runtime
            &&& same_readings(m, after)
        }),
{
}

/// The state on attaching: nothing has arrived, nothing is paused or shown besides the dashboard,
/// and a profile would take five seconds and leave waits out.
pub proof fn attaching_starts_from_nothing(m: AppModel, interval: Seconds, now: u64)
    ensures
        ({
            let fresh = AppModel::attached(m.process, m.info, interval, now);
            &&& fresh.process == m.process
            &&& fresh.info == m.info
            &&& fresh.interval == interval
            &&& fresh.pending_interval is None
            &&& fresh.counters.len() == 0
            &&& forall|p: Seq<char>| !fresh.providers.contains(p)
            &&& fresh.status == StatusModel::Connecting
            &&& !fresh.paused && !fresh.show_help
            &&& fresh.exit is None
            &&& fresh.view == View::Dashboard
            &&& fresh.runtime.events_seen == 0
            &&& fresh.profile is None && fresh.profile_result is None
            &&& fresh.profile_samples == 0
            &&& !fresh.profile_show_waiting
            &&& fresh.profile_seconds == 5
            &&& fresh.investigating_since is None
            &&& fresh.started == now
            &&& fresh.last_sample_at is None
            &&& fresh.samples_seen == 0
        }),
{
}

/// The panels for a web host are shown once either of the two providers that only such a host has
/// has reported.
pub proof fn web_hosts_are_told_by_their_providers(m: AppModel)
    ensures
        m.is_aspnet() <==> m.providers.contains("Microsoft.AspNetCore.Hosting"@)
            || m.providers.contains("Microsoft-AspNetCore-Server-Kestrel"@),
{
}

/// A runtime event is counted once, and does what its kind does: an allocation adds its bytes, a
/// start its collection, sizes their survivors, an end the finished collection, a suspend its time,
/// an exception one throw, and a wait one wait. The dashboard and the profile are not touched.
pub proof fn runtime_events_go_where_they_belong(
    m: AppModel,
    event: RuntimeEventModel,
    frequency: i64,
)
    requires
        m.valid(),
        m.has_room(event),
    ensures
        ({
            let after = m.runtime_recorded(event, frequency);
            let r = after.runtime;
            let old_r = m.runtime;
            &&& r.events_seen == old_r.events_seen + 1
            &&& same_readings(m, after)
            &&& same_profiles(m, after)
            &&& after.view == m.view
            &&& event is Allocation ==> {
                &&& r.total_allocated_bytes == old_r.total_allocated_bytes
                    + event->Allocation_0.amount
                &&& r.allocation_ticks == old_r.allocation_ticks + 1
                &&& same_collections(old_r, r)
                &&& same_failures(old_r, r)
            }
            &&& event is GcStart ==> {
                &&& r.pending is Some
                &&& r.pending->0.count == event->GcStart_0.count
                &&& same_allocations(old_r, r)
                &&& same_failures(old_r, r)
            }
            &&& event is GcEnd ==> {
                &&& r.pending is None
                &&& old_r.pending is Some ==> r.recent.last() == old_r.pending->0
                &&& same_allocations(old_r, r)
                &&& same_failures(old_r, r)
            }
            &&& event is HeapStats ==> {
                &&& old_r.pending is Some ==> r.pending is Some
                    && r.pending->0.promoted_bytes is Some
                    && r.pending->0.promoted_bytes->0 == event->HeapStats_0.gen0_promoted
                    + event->HeapStats_0.gen1_promoted + event->HeapStats_0.gen2_promoted
                    + event->HeapStats_0.loh_promoted
                &&& old_r.pending is None ==> r.pending is None
                &&& r.recent == old_r.recent
                &&& same_allocations(old_r, r)
                &&& same_failures(old_r, r)
            }
            &&& event is SuspendBegin ==> {
                &&& r.suspend_started == Some(event->SuspendBegin_timestamp)
                &&& r.pending == old_r.pending
                &&& r.recent == old_r.recent
            }
            &&& event is RestartEnd ==> {
                &&& r.suspend_started is None
                &&& r.recent == old_r.recent
                &&& same_allocations(old_r, r)
                &&& same_failures(old_r, r)
            }
            &&& event is Exception ==> {
                &&& r.total_exceptions == old_r.total_exceptions + 1
                &&& exists|i: int|
                    0 <= i < r.exceptions.len() && (#[trigger] r.exceptions[i]).name
                        == event->Exception_name
                &&& r.contention == old_r.contention
                &&& same_collections(old_r, r)
                &&& same_allocations(old_r, r)
            }
            &&& event is Contention ==> {
                &&& r.contention.events == old_r.contention.events + 1
                &&& r.exceptions == old_r.exceptions
                &&& same_collections(old_r, r)
                &&& same_allocations(old_r, r)
            }
        }),
{
    let r = m.runtime;
    match event {
        RuntimeEventModel::Allocation(tick) => {
            match site_place(r.allocations, tick.name) {
                Some(i) => {
                    assert(r.allocations[i].name == tick.name);
                    a_tick_counts_for_its_type(r, i, tick.amount, tick.kind);
                },
                None => {
                    a_new_type_gets_its_own_site(r, tick.name, tick.amount, tick.kind);
                },
            }
        },
        RuntimeEventModel::Exception { name, message } => {
            match thrown_place(r.exceptions, name) {
                Some(i) => {
                    assert(r.exceptions[i].name == name);
                    a_throw_counts_for_its_type(r, i, message);
                    assert(r.threw(name, message).exceptions[i].name == name);
                },
                None => {
                    a_new_exception_is_kept(r, name, message);
                    let n = r.exceptions.len() as int;
                    assert(r.threw(name, message).exceptions[n].name == name);
                },
            }
        },
        RuntimeEventModel::GcStart(start) => {
            a_start_is_counted_once(r, start);
        },
        RuntimeEventModel::GcEnd => {
            an_end_keeps_the_collection(r);
        },
        RuntimeEventModel::HeapStats(stats) => {
            survivors_belong_to_the_collection_in_flight(r, stats);
        },
        _ => {},
    }
}

/// A time is shown in hours and minutes from an hour on, in minutes and seconds from a minute on,
/// and in seconds below. What follows the first number always has two digits.
pub proof fn times_are_shown_by_their_size(hours: nat, minutes: nat, seconds: nat)
    requires
        minutes < 60,
        seconds < 60,
    ensures
        ({
            let words = uptime_words(3600 * hours + 60 * minutes + seconds);
            let pair = |n: nat| seq![digit(n / 10), digit(n % 10)];
            &&& hours > 0 ==> words == decimal(hours) + "h"@ + pair(minutes) + "m"@
            &&& hours == 0 && minutes > 0 ==> words == decimal(minutes) + "m"@ + pair(seconds)
                + "s"@
            &&& hours == 0 && minutes == 0 ==> words == decimal(seconds) + "s"@
        }),
{
    let total = 3600 * hours + 60 * minutes + seconds;
    assert(total / 3600 == hours && (total % 3600) / 60 == minutes && total % 60 == seconds)
        by (nonlinear_arith)
        requires
            total == 3600 * hours + 60 * minutes + seconds,
            minutes < 60,
            seconds < 60,
    ;
    pairs_have_two_digits(minutes);
    pairs_have_two_digits(seconds);
}

proof fn pairs_have_two_digits(n: nat)
    requires
        n < 60,
    ensures
        two_digits(n) == seq![digit(n / 10), digit(n % 10)],
{
    reveal_with_fuel(decimal, 3);
    assert(two_digits(n) =~= seq![digit(n / 10), digit(n % 10)]);
}

/// Times are counted from when they began, and what is yet to come has not begun.
pub proof fn times_are_counted_from_their_start(now: u64, at: u64)
    ensures
        at <= now ==> since(now, at) == now - at,
        at > now ==> since(now, at) == 0,
{
}

/// A ranking that is shown holds two hundred rows at most, and its samples are shares of all usable
/// ones, of which there is at least one to divide by.
pub proof fn rankings_are_shown_in_part(hot: HotModel, raw: RawProfile, show_waiting: bool)
    requires
        ranks_profile(Some(hot), Some(raw), show_waiting),
    ensures
        hot.rows.len() <= 200,
        hot.working_samples + hot.waiting_samples == raw.state.usable(),
        hot.denominator >= 1,
        raw.state.usable() >= 1 ==> hot.denominator == raw.state.usable(),
        is_ranking(hot.rows, raw.state, raw.methods, show_waiting, 200),
{
}

} // verus!
