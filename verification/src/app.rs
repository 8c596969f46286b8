//! Dashboard state: what we know about the target, and the recent history of every counter.
//!
//! Times are nanoseconds of a clock that never goes back. Whoever holds the state reads that
//! clock, and passes in what it shows.
use vstd::prelude::*;
use vstd::view::View as _;

use crate::counters::catalog;
use crate::counters::sample::{CounterSample, SampleModel};
use crate::ipc::commands::{text_view, InfoModel, ProcessInfo};
use crate::ipc::discovery::DotnetProcess;
use crate::nettrace::payload::Number;
use crate::profile::methods::MethodModel;
use crate::profile::run::{frames_models, ProfileResult};
use crate::profile::state::{
    charged_hidden, is_ranking, row_models, HotProfile, ProfileModel, RowModel,
};
use crate::rates::{step, stepped, Seconds};
use crate::runtime::session::{RuntimeEvent, RuntimeEventModel};
use crate::runtime::state::{promoted, Pause, RuntimeModel, RuntimeState};
use crate::text::{
    decimal, digit, push_decimal, same_text, text_at_most, text_le, text_le_antisymmetric,
    text_le_total, text_le_transitive,
};

pub use crate::ui::keys::AppEvent;

pub mod conduct;

verus! {

/// Samples retained per counter. At the default one-second interval this is ten minutes.
pub const HISTORY_CAPACITY: usize = 600;

/// Default CPU profile window, in seconds. Long enough for a stable picture at ~13,000
/// samples/second, short enough not to feel like a wait.
pub const DEFAULT_PROFILE_SECONDS: u64 = 5;

/// Hot methods retained from a profile: more than fits on screen, so the filter can be toggled
/// without losing the tail.
pub const PROFILE_ROWS: usize = 200;

/// Nanoseconds in a second.
pub const SECOND: u64 = 1_000_000_000;

/// Which screen is showing.
#[derive(Debug, Clone, Copy, PartialEq, Eq, Structural)]
pub enum View {
    Dashboard,
    /// Runtime events: allocations, collections, exceptions, contention.
    Investigate,
    /// A fixed-window CPU profile.
    Profile,
}

/// Where a CPU profile has got to. It is not a live view: names only exist once the session ends.
#[derive(Debug, Clone, PartialEq, Eq)]
pub enum ProfilePhase {
    /// Samples arrive until the clock shows `until`.
    Collecting { until: u128 },
    /// The window is up and the rundown is being read.
    Resolving,
    Done,
    Failed(String),
}

/// A [`ProfilePhase`] over sequences.
pub enum PhaseModel {
    Collecting { until: int },
    Resolving,
    Done,
    Failed(Seq<char>),
}

impl vstd::view::View for ProfilePhase {
    type V = PhaseModel;

    open spec fn view(&self) -> PhaseModel {
        match self {
            ProfilePhase::Collecting { until } => PhaseModel::Collecting { until: *until as int },
            ProfilePhase::Resolving => PhaseModel::Resolving,
            ProfilePhase::Done => PhaseModel::Done,
            ProfilePhase::Failed(error) => PhaseModel::Failed(error@),
        }
    }
}

/// How a dashboard session ended.
#[derive(Debug, Clone, Copy, PartialEq, Eq, Structural)]
pub enum Exit {
    /// Leave entirely.
    Quit,
    /// Go back to the process picker to attach to something else.
    Detach,
}

#[derive(Debug, Clone, PartialEq, Eq)]
pub enum Status {
    /// Attached, but no counters have arrived yet.
    Connecting,
    Live,
    /// The session ended cleanly: usually the target process exited.
    Ended,
    Failed(String),
}

/// A [`Status`] over sequences.
pub enum StatusModel {
    Connecting,
    Live,
    Ended,
    Failed(Seq<char>),
}

impl vstd::view::View for Status {
    type V = StatusModel;

    open spec fn view(&self) -> StatusModel {
        match self {
            Status::Connecting => StatusModel::Connecting,
            Status::Live => StatusModel::Live,
            Status::Ended => StatusModel::Ended,
            Status::Failed(error) => StatusModel::Failed(error@),
        }
    }
}

// ---------------------------------------------------------------------------------------------
// Series

/// One value of a counter, and when it arrived.
#[derive(Debug, Clone, Copy, PartialEq, Eq, Structural)]
pub struct Reading {
    pub at: u64,
    pub value: Number,
}

/// The readings of one counter.
#[derive(Debug, Clone)]
pub struct Series {
    pub latest: Option<CounterSample>,
    /// Oldest first.
    pub history: Vec<Reading>,
}

/// A [`Series`] over sequences.
pub struct SeriesModel {
    pub latest: Option<SampleModel>,
    pub history: Seq<Reading>,
}

impl vstd::view::View for Series {
    type V = SeriesModel;

    open spec fn view(&self) -> SeriesModel {
        SeriesModel {
            latest: match self.latest {
                Some(sample) => Some(sample@),
                None => None,
            },
            history: self.history@,
        }
    }
}

/// The last readings that there is room for.
pub open spec fn recent(readings: Seq<Reading>) -> Seq<Reading> {
    if readings.len() > HISTORY_CAPACITY {
        readings.skip(readings.len() - HISTORY_CAPACITY)
    } else {
        readings
    }
}

impl SeriesModel {
    pub open spec fn blank() -> SeriesModel {
        SeriesModel { latest: None, history: Seq::empty() }
    }

    /// The series with one more reading.
    pub open spec fn pushed(self, sample: SampleModel, now: u64) -> SeriesModel {
        SeriesModel {
            latest: Some(sample),
            history: recent(self.history.push(Reading { at: now, value: sample.value })),
        }
    }

    /// The series with nothing but its latest reading.
    pub open spec fn restarted(self) -> SeriesModel {
        SeriesModel {
            latest: self.latest,
            history: if self.history.len() > 0 {
                seq![self.history.last()]
            } else {
                self.history
            },
        }
    }

    /// The history is bounded, and ends in the latest reading.
    pub open spec fn valid(self) -> bool {
        &&& self.history.len() <= HISTORY_CAPACITY
        &&& match self.latest {
            Some(sample) => self.history.len() > 0 && self.history.last().value == sample.value,
            None => self.history.len() == 0,
        }
    }
}

impl Default for Series {
    fn default() -> (s: Self)
        ensures
            s@ == SeriesModel::blank(),
    {
        let s = Series { latest: None, history: Vec::new() };
        assert(s@.history =~= Seq::<Reading>::empty());
        s
    }
}

impl Series {
    fn push(&mut self, sample: CounterSample, now: u64)
        requires
            old(self)@.valid(),
        ensures
            final(self)@ == old(self)@.pushed(sample@, now),
            final(self)@.valid(),
    {
        let ghost before = self.history@;
        if self.history.len() == HISTORY_CAPACITY {
            self.history.remove(0);
        }
        let reading = Reading { at: now, value: sample.value };
        self.history.push(reading);
        assert(self.history@ =~= recent(before.push(reading)));
        self.latest = Some(sample);
    }

    fn restart(&mut self)
        ensures
            final(self)@ == old(self)@.restarted(),
    {
        let n: usize = self.history.len();
        if n > 0 {
            let last = self.history[n - 1];
            self.history = vec![last];
        }
        assert(self.history@ =~= old(self)@.restarted().history);
    }
}

/// A counter and its readings. Names are only unique within a provider.
#[derive(Debug, Clone)]
pub struct Counter {
    pub provider: String,
    pub name: String,
    pub series: Series,
}

/// A [`Counter`] over sequences.
pub struct CounterModel {
    pub provider: Seq<char>,
    pub name: Seq<char>,
    pub series: SeriesModel,
}

impl vstd::view::View for Counter {
    type V = CounterModel;

    open spec fn view(&self) -> CounterModel {
        CounterModel { provider: self.provider@, name: self.name@, series: self.series@ }
    }
}

impl CounterModel {
    pub open spec fn is(self, provider: Seq<char>, name: Seq<char>) -> bool {
        self.provider == provider && self.name == name
    }
}

/// Where a counter is kept, if it has reported.
pub open spec fn counter_place(
    counters: Seq<CounterModel>,
    provider: Seq<char>,
    name: Seq<char>,
) -> Option<int> {
    if exists|i: int| 0 <= i < counters.len() && (#[trigger] counters[i]).is(provider, name) {
        Some(choose|i: int| 0 <= i < counters.len() && (#[trigger] counters[i]).is(provider, name))
    } else {
        None
    }
}

/// Whether no counter is kept twice.
pub open spec fn one_each(counters: Seq<CounterModel>) -> bool {
    forall|i: int, j: int|
        0 <= i < j < counters.len() ==> !(#[trigger] counters[i]).is(
            (#[trigger] counters[j]).provider,
            counters[j].name,
        )
}

/// The counters with one more reading.
pub open spec fn with_reading(counters: Seq<CounterModel>, sample: SampleModel, now: u64) -> Seq<
    CounterModel,
> {
    match counter_place(counters, sample.provider, sample.name) {
        Some(i) => counters.update(
            i,
            CounterModel { series: counters[i].series.pushed(sample, now), ..counters[i] },
        ),
        None => counters.push(
            CounterModel {
                provider: sample.provider,
                name: sample.name,
                series: SeriesModel::blank().pushed(sample, now),
            },
        ),
    }
}

/// The models of a list of counters.
pub open spec fn counter_models(counters: Seq<Counter>) -> Seq<CounterModel> {
    Seq::new(counters.len(), |i: int| counters[i]@)
}

// ---------------------------------------------------------------------------------------------
// Providers

/// Whether texts are in order, each of them once.
pub open spec fn ascending(texts: Seq<Seq<char>>) -> bool {
    forall|i: int, j: int|
        0 <= i < j < texts.len() ==> text_le(#[trigger] texts[i], #[trigger] texts[j]) && texts[i]
            != texts[j]
}

/// The texts of a list.
pub open spec fn text_views(texts: Seq<String>) -> Seq<Seq<char>> {
    Seq::new(texts.len(), |i: int| texts[i]@)
}

/// Whether a list is in order and holds exactly some names.
pub open spec fn lists(texts: Seq<Seq<char>>, names: Set<Seq<char>>) -> bool {
    &&& ascending(texts)
    &&& forall|name: Seq<char>| texts.contains(name) <==> #[trigger] names.contains(name)
}

// ---------------------------------------------------------------------------------------------
// The model

/// A [`HotProfile`] over sequences.
pub struct HotModel {
    pub rows: Seq<RowModel>,
    pub working_samples: int,
    pub waiting_samples: int,
    pub denominator: int,
}

/// A profile that may be absent.
pub open spec fn hot_view(profile: Option<HotProfile>) -> Option<HotModel> {
    match profile {
        Some(hot) => Some(
            HotModel {
                rows: row_models(hot.rows@),
                working_samples: hot.working_samples as int,
                waiting_samples: hot.waiting_samples as int,
                denominator: hot.denominator as int,
            },
        ),
        None => None,
    }
}

/// What a profile was made from: the samples, the methods to look them up in, and the stacks that
/// were kept as examples.
pub struct RawProfile {
    pub state: ProfileModel,
    pub methods: Seq<MethodModel>,
    pub sample_stacks: Seq<Seq<u64>>,
}

/// Samples that may be absent.
pub open spec fn raw_view(result: Option<ProfileResult>) -> Option<RawProfile> {
    match result {
        Some(r) => Some(
            RawProfile {
                state: r.state@,
                methods: r.methods@.methods,
                sample_stacks: frames_models(r.sample_stacks@),
            },
        ),
        None => None,
    }
}

/// Whether a profile can be ranked.
pub open spec fn is_complete(result: ProfileResult) -> bool {
    &&& result.state.wf()
    &&& result.methods.wf()
    &&& result.methods@.sorted
}

/// Whether `hot` is the ranking of some samples: there is one if and only if there are any.
pub open spec fn ranks_profile(
    hot: Option<HotModel>,
    raw: Option<RawProfile>,
    show_waiting: bool,
) -> bool {
    match (hot, raw) {
        (Some(h), Some(r)) => {
            &&& is_ranking(h.rows, r.state, r.methods, show_waiting, PROFILE_ROWS as int)
            &&& h.waiting_samples == charged_hidden(
                r.state.self_counts,
                r.methods,
                show_waiting,
                r.state.self_counts.len(),
            )
            &&& h.working_samples + h.waiting_samples == r.state.usable()
            &&& h.denominator == (if r.state.usable() > 1 {
                r.state.usable()
            } else {
                1
            })
        },
        (None, None) => true,
        _ => false,
    }
}

/// An [`App`] as a value.
pub struct AppModel {
    pub process: DotnetProcess,
    pub info: InfoModel,
    pub interval: Seconds,
    pub pending_interval: Option<Seconds>,
    pub counters: Seq<CounterModel>,
    pub providers: Set<Seq<char>>,
    pub status: StatusModel,
    pub paused: bool,
    pub show_help: bool,
    pub exit: Option<Exit>,
    pub view: View,
    pub runtime: RuntimeModel,
    pub runtime_error: Option<Seq<char>>,
    pub profile_phase: PhaseModel,
    pub profile: Option<HotModel>,
    pub profile_result: Option<RawProfile>,
    pub profile_samples: u64,
    pub profile_show_waiting: bool,
    pub profile_seconds: u64,
    pub investigating_since: Option<u64>,
    pub started: u64,
    pub last_sample_at: Option<u64>,
    pub samples_seen: u64,
}

/// How long ago a time was. What is yet to come was just now.
pub open spec fn since(now: u64, at: u64) -> u64 {
    if now > at {
        (now - at) as u64
    } else {
        0
    }
}

impl AppModel {
    /// The state on attaching.
    pub open spec fn attached(
        process: DotnetProcess,
        info: InfoModel,
        interval: Seconds,
        now: u64,
    ) -> AppModel {
        AppModel {
            process,
            info,
            interval,
            pending_interval: None,
            counters: Seq::empty(),
            providers: Set::empty(),
            status: StatusModel::Connecting,
            paused: false,
            show_help: false,
            exit: None,
            view: View::Dashboard,
            runtime: RuntimeModel::blank(),
            runtime_error: None,
            profile_phase: PhaseModel::Resolving,
            profile: None,
            profile_result: None,
            profile_samples: 0,
            profile_show_waiting: false,
            profile_seconds: DEFAULT_PROFILE_SECONDS,
            investigating_since: None,
            started: now,
            last_sample_at: None,
            samples_seen: 0,
        }
    }

    /// No counter is kept twice, every history is bounded and ends in the latest reading, and what
    /// the runtime reported adds up.
    pub open spec fn valid(self) -> bool {
        &&& one_each(self.counters)
        &&& forall|i: int|
            0 <= i < self.counters.len() ==> (#[trigger] self.counters[i]).series.valid()
        &&& self.runtime.valid()
    }

    pub open spec fn recorded(self, sample: SampleModel, now: u64) -> AppModel {
        AppModel {
            status: StatusModel::Live,
            samples_seen: (self.samples_seen + 1) as u64,
            last_sample_at: Some(now),
            providers: self.providers.insert(sample.provider),
            counters: if self.paused {
                self.counters
            } else {
                with_reading(self.counters, sample, now)
            },
            ..self
        }
    }

    /// The rate that was last asked for, or else the one that is running.
    pub open spec fn wanted_interval(self) -> Seconds {
        match self.pending_interval {
            Some(rate) => rate,
            None => self.interval,
        }
    }

    pub open spec fn interval_stepped(self, faster: bool) -> AppModel {
        let next = stepped(self.wanted_interval(), faster);
        if next != self.wanted_interval() {
            AppModel { pending_interval: Some(next), ..self }
        } else {
            self
        }
    }

    pub open spec fn interval_applied(self, interval: Seconds) -> AppModel {
        AppModel {
            interval,
            counters: Seq::new(
                self.counters.len(),
                |i: int|
                    CounterModel {
                        series: self.counters[i].series.restarted(),
                        ..self.counters[i]
                    },
            ),
            ..self
        }
    }

    /// The series of a counter.
    pub open spec fn series_of(self, provider: Seq<char>, name: Seq<char>) -> Option<SeriesModel> {
        match counter_place(self.counters, provider, name) {
            Some(i) => Some(self.counters[i].series),
            None => None,
        }
    }

    /// The latest reading of a counter.
    pub open spec fn latest_of(self, provider: Seq<char>, name: Seq<char>) -> Option<SampleModel> {
        match self.series_of(provider, name) {
            Some(series) => series.latest,
            None => None,
        }
    }

    /// Whether anything that only an ASP.NET host has reported.
    pub open spec fn is_aspnet(self) -> bool {
        self.providers.contains(catalog::ASPNET_HOSTING@) || self.providers.contains(
            catalog::KESTREL@,
        )
    }

    /// Whether samples are being collected and the window for that is up.
    pub open spec fn window_elapsed(self, now: u64) -> bool {
        match self.profile_phase {
            PhaseModel::Collecting { until } => now >= until,
            _ => false,
        }
    }

    pub open spec fn investigation_toggled(self, now: u64) -> AppModel {
        if self.view == View::Investigate {
            AppModel { view: View::Dashboard, ..self }
        } else {
            AppModel {
                view: View::Investigate,
                runtime_error: None,
                investigating_since: Some(now),
                ..self
            }
        }
    }

    pub open spec fn profile_started(self, now: u64) -> AppModel {
        AppModel {
            view: View::Profile,
            profile: None,
            profile_samples: 0,
            profile_phase: PhaseModel::Collecting { until: now + self.profile_seconds * SECOND },
            ..self
        }
    }

    pub open spec fn profile_cancelled(self) -> AppModel {
        AppModel {
            view: View::Dashboard,
            profile_phase: if self.profile_phase is Collecting {
                PhaseModel::Failed("cancelled"@)
            } else {
                self.profile_phase
            },
            ..self
        }
    }

    /// Whether there is room to count one more runtime event.
    pub open spec fn has_room(self, event: RuntimeEventModel) -> bool {
        &&& self.runtime.events_seen < u64::MAX
        &&& event matches RuntimeEventModel::Allocation(tick)
            ==> self.runtime.total_allocated_bytes + tick.amount <= u64::MAX
        &&& event matches RuntimeEventModel::HeapStats(stats) ==> (self.runtime.pending is Some
            ==> promoted(stats) <= u64::MAX)
    }

    pub open spec fn runtime_recorded(self, event: RuntimeEventModel, frequency: i64) -> AppModel {
        AppModel {
            runtime: match event {
                RuntimeEventModel::Allocation(tick) => self.runtime.allocated(
                    tick.name,
                    tick.amount,
                    tick.kind,
                ),
                RuntimeEventModel::GcStart(start) => self.runtime.gc_started(start),
                RuntimeEventModel::GcEnd => self.runtime.gc_ended(),
                RuntimeEventModel::HeapStats(stats) => self.runtime.heap_measured(stats),
                RuntimeEventModel::SuspendBegin { timestamp } => self.runtime.suspended(timestamp),
                RuntimeEventModel::RestartEnd { timestamp } => self.runtime.restarted(
                    timestamp,
                    frequency,
                ),
                RuntimeEventModel::Exception { name, message } => self.runtime.threw(name, message),
                RuntimeEventModel::Contention(_) => self.runtime.contended(),
            },
            ..self
        }
    }
}

// ---------------------------------------------------------------------------------------------
// The state

#[derive(Debug)]
pub struct App {
    pub process: DotnetProcess,
    pub info: ProcessInfo,
    /// The rate the live session is actually running at.
    pub interval: Seconds,
    /// A rate the user has asked for, until the session has been restarted at it.
    pub pending_interval: Option<Seconds>,
    /// Every counter that has reported, in the order in which they first did.
    pub counters: Vec<Counter>,
    /// Every provider that has reported, in order.
    pub providers: Vec<String>,
    pub status: Status,
    pub paused: bool,
    pub show_help: bool,
    /// Set once the user asks to leave this dashboard, and how.
    pub exit: Option<Exit>,
    pub view: View,
    /// Accumulated runtime events. Only populated while investigating.
    pub runtime: RuntimeState,
    pub runtime_error: Option<String>,
    pub profile_phase: ProfilePhase,
    /// The ranked result currently on screen.
    pub profile: Option<HotProfile>,
    /// The raw samples and method table behind it, kept so the ranking can be recomputed when
    /// the parked-thread filter is toggled: no need to profile again.
    pub profile_result: Option<ProfileResult>,
    /// Samples seen so far, for the progress display.
    pub profile_samples: u64,
    /// Whether parked threads are included in the ranking.
    pub profile_show_waiting: bool,
    /// How long each profile runs, in seconds. Fixed rather than open-ended, because the result
    /// only exists once the window closes.
    pub profile_seconds: u64,
    /// When the current investigation session began.
    pub investigating_since: Option<u64>,
    pub started: u64,
    pub last_sample_at: Option<u64>,
    /// Counts every sample received, so the footer can show the session is alive.
    pub samples_seen: u64,
}

impl vstd::view::View for App {
    type V = AppModel;

    open spec fn view(&self) -> AppModel {
        AppModel {
            process: self.process,
            info: self.info@,
            interval: self.interval,
            pending_interval: self.pending_interval,
            counters: counter_models(self.counters@),
            providers: text_views(self.providers@).to_set(),
            status: self.status@,
            paused: self.paused,
            show_help: self.show_help,
            exit: self.exit,
            view: self.view,
            runtime: self.runtime@,
            runtime_error: text_view(self.runtime_error),
            profile_phase: self.profile_phase@,
            profile: hot_view(self.profile),
            profile_result: raw_view(self.profile_result),
            profile_samples: self.profile_samples,
            profile_show_waiting: self.profile_show_waiting,
            profile_seconds: self.profile_seconds,
            investigating_since: self.investigating_since,
            started: self.started,
            last_sample_at: self.last_sample_at,
            samples_seen: self.samples_seen,
        }
    }
}

impl App {
    pub open spec fn wf(&self) -> bool {
        &&& self@.valid()
        &&& ascending(text_views(self.providers@))
        &&& match self.profile_result {
            Some(result) => is_complete(result),
            None => true,
        }
    }

    pub fn new(process: DotnetProcess, info: ProcessInfo, interval: Seconds, now: u64) -> (app: Self)
        ensures
            app.wf(),
            app@ == AppModel::attached(process, info@, interval, now),
    {
        let app = App {
            process,
            info,
            interval,
            pending_interval: None,
            counters: Vec::new(),
            providers: Vec::new(),
            status: Status::Connecting,
            paused: false,
            show_help: false,
            exit: None,
            view: View::Dashboard,
            runtime: RuntimeState::new(),
            runtime_error: None,
            profile_phase: ProfilePhase::Resolving,
            profile: None,
            profile_result: None,
            profile_samples: 0,
            profile_show_waiting: false,
            profile_seconds: DEFAULT_PROFILE_SECONDS,
            investigating_since: None,
            started: now,
            last_sample_at: None,
            samples_seen: 0,
        };
        assert(app@.counters =~= Seq::<CounterModel>::empty());
        assert(app@.providers =~= Set::<Seq<char>>::empty());
        app
    }

    fn find_counter(&self, provider: &str, name: &str) -> (place: Option<usize>)
        requires
            one_each(self@.counters),
        ensures
            match (place, counter_place(self@.counters, provider@, name@)) {
                (Some(i), Some(j)) => i == j && i < self.counters@.len(),
                (None, None) => true,
                _ => false,
            },
    {
        let mut i: usize = 0;
        while i < self.counters.len()
            invariant
                i <= self.counters@.len(),
                one_each(self@.counters),
                forall|k: int|
                    0 <= k < i ==> !(#[trigger] self@.counters[k]).is(provider@, name@),
            decreases self.counters@.len() - i,
        {
            let counter = &self.counters[i];
            if same_text(counter.provider.as_str(), provider) && same_text(
                counter.name.as_str(),
                name,
            ) {
                assert(self@.counters[i as int].is(provider@, name@));
                return Some(i);
            }
            assert(!self@.counters[i as int].is(provider@, name@));
            i += 1;
        }
        None
    }

    fn note_provider(&mut self, provider: &str)
        requires
            old(self).wf(),
        ensures
            final(self).wf(),
            final(self)@ == (AppModel {
                providers: old(self)@.providers.insert(provider@),
                ..old(self)@
            }),
    {
        let ghost names = text_views(self.providers@);
        let mut i: usize = 0;
        while i < self.providers.len() && !text_at_most(provider, self.providers[i].as_str())
            invariant
                i <= self.providers@.len(),
                *self == *old(self),
                names == text_views(self.providers@),
                ascending(names),
                forall|k: int| 0 <= k < i ==> !text_le(provider@, #[trigger] names[k]),
            decreases self.providers@.len() - i,
        {
            assert(self.providers@[i as int]@ == names[i as int]);
            i += 1;
        }
        if i < self.providers.len() && same_text(self.providers[i].as_str(), provider) {
            assert(names[i as int] == provider@);
            assert(names.contains(provider@));
            assert(self@.providers =~= old(self)@.providers.insert(provider@));
            return;
        }
        proof {
            if i < names.len() {
                assert(self.providers@[i as int]@ == names[i as int]);
            }
        }
        self.providers.insert(i, provider.to_owned());
        proof {
            let after = text_views(self.providers@);
            assert(after =~= names.insert(i as int, provider@));
            inserted_in_order(names, i as int, provider@);
            assert(self@.providers =~= old(self)@.providers.insert(provider@)) by {
                assert forall|name: Seq<char>|
                    after.contains(name) <==> names.contains(name) || name == provider@ by {
                    if names.contains(name) {
                        let k = choose|k: int| 0 <= k < names.len() && names[k] == name;
                        assert(after[if k < i {
                            k
                        } else {
                            k + 1
                        }] == name);
                    }
                    assert(after[i as int] == provider@);
                    if after.contains(name) {
                        let k = choose|k: int| 0 <= k < after.len() && after[k] == name;
                        if k < i {
                            assert(names[k] == name);
                        } else if k > i {
                            assert(names[k - 1] == name);
                        }
                    }
                }
            }
        }
    }

    /// Record a sample. Pausing freezes the graphs but keeps the session running, so history is
    /// continuous when you unpause rather than showing a misleading gap.
    pub fn record(&mut self, sample: CounterSample, now: u64)
        requires
            old(self).wf(),
            old(self)@.samples_seen < u64::MAX,
        ensures
            final(self).wf(),
            final(self)@ == old(self)@.recorded(sample@, now),
    {
        self.note_provider(sample.provider.as_str());
        self.status = Status::Live;
        self.samples_seen += 1;
        self.last_sample_at = Some(now);
        if self.paused {
            return;
        }
        let ghost before = self@.counters;
        let ghost reading = sample@;
        match self.find_counter(sample.provider.as_str(), sample.name.as_str()) {
            Some(i) => {
                assert(before[i as int].series == self.counters@[i as int].series@);
                self.counters[i].series.push(sample, now);
                assert(self@.counters =~= with_reading(before, reading, now));
            },
            None => {
                let mut counter = Counter {
                    provider: sample.provider.clone(),
                    name: sample.name.clone(),
                    series: Series::default(),
                };
                counter.series.push(sample, now);
                self.counters.push(counter);
                assert(self@.counters =~= with_reading(before, reading, now));
            },
        }
    }
}

impl App {
    /// Step the refresh rate one rung along the ladder. `faster` shortens the interval.
    ///
    /// This only records the request. The rate is fixed when the counter session is created (the
    /// runtime is told it as provider filter data), so applying it means opening a new session,
    /// which is the event loop's job. Until that succeeds the dashboard keeps reporting the rate
    /// it is really running at.
    pub fn step_interval(&mut self, faster: bool)
        requires
            old(self).wf(),
        ensures
            final(self).wf(),
            final(self)@ == old(self)@.interval_stepped(faster),
    {
        let from = match self.pending_interval {
            Some(rate) => rate,
            None => self.interval,
        };
        let next = step(from, faster);
        // An interval given on the command line need not be on the ladder, so snapping it to the
        // nearest rung counts as a change; landing back on the rate we already have does not.
        if next != from {
            self.pending_interval = Some(next);
        }
    }

    /// The rate the session should be restarted at, if the user has asked for one.
    pub fn take_pending_interval(&mut self) -> (rate: Option<Seconds>)
        requires
            old(self).wf(),
        ensures
            final(self).wf(),
            rate == old(self)@.pending_interval,
            final(self)@ == (AppModel { pending_interval: None, ..old(self)@ }),
    {
        let rate = self.pending_interval;
        self.pending_interval = None;
        rate
    }

    /// Adopt a rate the session is now running at.
    ///
    /// History gathered at the old rate is dropped: the graphs place samples by index, so two
    /// cadences in one series would silently stretch part of the trace. The latest reading of each
    /// counter survives, so the number panels stay populated while the graphs refill.
    pub fn apply_interval(&mut self, interval: Seconds)
        requires
            old(self).wf(),
        ensures
            final(self).wf(),
            final(self)@ == old(self)@.interval_applied(interval),
    {
        let ghost before = self@;
        let ghost target = before.interval_applied(interval);
        self.interval = interval;
        let mut i: usize = 0;
        while i < self.counters.len()
            invariant
                i <= self.counters@.len(),
                target == before.interval_applied(interval),
                before.valid(),
                self.counters@.len() == before.counters.len(),
                self@ == (AppModel { interval, counters: self@.counters, ..before }),
                ascending(text_views(self.providers@)),
                match self.profile_result {
                    Some(result) => is_complete(result),
                    None => true,
                },
                forall|k: int|
                    0 <= k < i ==> #[trigger] self@.counters[k] == target.counters[k],
                forall|k: int|
                    i <= k < before.counters.len() ==> #[trigger] self@.counters[k]
                        == before.counters[k],
            decreases self.counters@.len() - i,
        {
            let ghost held = self@.counters;
            assert(self.counters@[i as int]@ == held[i as int]);
            self.counters[i].series.restart();
            assert(self@.counters =~= held.update(i as int, target.counters[i as int]));
            i += 1;
        }
        assert(self@.counters =~= target.counters);
    }

    pub fn series(&self, provider: &str, name: &str) -> (series: Option<&Series>)
        requires
            self.wf(),
        ensures
            match (series, self@.series_of(provider@, name@)) {
                (Some(s), Some(m)) => s@ == m,
                (None, None) => true,
                _ => false,
            },
    {
        match self.find_counter(provider, name) {
            Some(i) => {
                assert(self@.counters[i as int].series == self.counters@[i as int].series@);
                Some(&self.counters[i].series)
            },
            None => None,
        }
    }

    pub fn latest(&self, provider: &str, name: &str) -> (sample: Option<&CounterSample>)
        requires
            self.wf(),
        ensures
            match (sample, self@.latest_of(provider@, name@)) {
                (Some(s), Some(m)) => s@ == m,
                (None, None) => true,
                _ => false,
            },
    {
        match self.series(provider, name) {
            Some(series) => match &series.latest {
                Some(sample) => Some(sample),
                None => None,
            },
            None => None,
        }
    }

    pub fn value(&self, provider: &str, name: &str) -> (value: Option<Number>)
        requires
            self.wf(),
        ensures
            value == (match self@.latest_of(provider@, name@) {
                Some(sample) => Some(sample.value),
                None => None,
            }),
    {
        match self.latest(provider, name) {
            Some(sample) => Some(sample.value),
            None => None,
        }
    }

    /// The readings of a counter, oldest first. One that has not reported has none.
    pub fn history(&self, provider: &str, name: &str) -> (readings: &[Reading])
        requires
            self.wf(),
        ensures
            readings@ == (match self@.series_of(provider@, name@) {
                Some(series) => series.history,
                None => Seq::empty(),
            }),
    {
        match self.series(provider, name) {
            Some(series) => series.history.as_slice(),
            None => &[],
        }
    }

    pub fn has_provider(&self, provider: &str) -> (yes: bool)
        ensures
            yes == self@.providers.contains(provider@),
    {
        let mut i: usize = 0;
        while i < self.providers.len()
            invariant
                i <= self.providers@.len(),
                forall|k: int| 0 <= k < i ==> (#[trigger] self.providers@[k])@ != provider@,
            decreases self.providers@.len() - i,
        {
            if same_text(self.providers[i].as_str(), provider) {
                assert(text_views(self.providers@)[i as int] == provider@);
                return true;
            }
            i += 1;
        }
        assert(!text_views(self.providers@).contains(provider@));
        false
    }

    /// Whether to show the ASP.NET panels.
    ///
    /// There is no "is ASP.NET" flag anywhere in the protocol. Subscribing to a provider that no
    /// EventSource implements succeeds and silently yields nothing, so the arrival of events is
    /// the signal. The hosting counters are polling counters, so they report even on an idle app.
    pub fn is_aspnet(&self) -> (yes: bool)
        ensures
            yes == self@.is_aspnet(),
    {
        self.has_provider(catalog::ASPNET_HOSTING) || self.has_provider(catalog::KESTREL)
    }

    /// The providers that have reported, in order.
    pub fn providers(&self) -> (providers: &Vec<String>)
        requires
            self.wf(),
        ensures
            lists(text_views(providers@), self@.providers),
    {
        &self.providers
    }

    pub fn counter_count(&self) -> (n: usize)
        ensures
            n == self@.counters.len(),
    {
        self.counters.len()
    }

    /// How long the dashboard has been attached.
    pub fn uptime(&self, now: u64) -> (elapsed: u64)
        ensures
            elapsed == since(now, self@.started),
    {
        elapsed_since(now, self.started)
    }

    /// How long nothing has arrived: since the last sample, or since attaching.
    pub fn quiet_for(&self, now: u64) -> (elapsed: u64)
        ensures
            elapsed == (match self@.last_sample_at {
                Some(at) => since(now, at),
                None => since(now, self@.started),
            }),
    {
        match self.last_sample_at {
            Some(at) => elapsed_since(now, at),
            None => self.uptime(now),
        }
    }

    /// Enter or leave the investigation screen.
    ///
    /// Leaving keeps what was gathered, so flicking back and forth does not throw the findings
    /// away; the session itself is stopped by the event loop, which is what actually costs the
    /// target process. From anywhere else, even a finished profile, this opens the investigation.
    pub fn toggle_investigate(&mut self, now: u64)
        requires
            old(self).wf(),
        ensures
            final(self).wf(),
            final(self)@ == old(self)@.investigation_toggled(now),
    {
        if self.view == View::Investigate {
            self.view = View::Dashboard;
        } else {
            self.runtime_error = None;
            self.investigating_since = Some(now);
            self.view = View::Investigate;
        }
    }

    pub fn is_investigating(&self) -> (yes: bool)
        ensures
            yes == (self@.view == View::Investigate),
    {
        self.view == View::Investigate
    }

    /// How long the investigation has been going on.
    pub fn investigating_for(&self, now: u64) -> (elapsed: u64)
        ensures
            elapsed == (match self@.investigating_since {
                Some(at) => since(now, at),
                None => 0,
            }),
    {
        match self.investigating_since {
            Some(at) => elapsed_since(now, at),
            None => 0,
        }
    }

    /// Enter the profile screen and begin a collection window.
    pub fn start_profile(&mut self, now: u64)
        requires
            old(self).wf(),
        ensures
            final(self).wf(),
            final(self)@ == old(self)@.profile_started(now),
    {
        self.view = View::Profile;
        self.profile = None;
        self.profile_samples = 0;
        proof {
            assert(self.profile_seconds * SECOND <= u64::MAX * SECOND) by (nonlinear_arith)
                requires
                    self.profile_seconds <= u64::MAX,
            ;
        }
        self.profile_phase =
        ProfilePhase::Collecting {
            until: now as u128 + self.profile_seconds as u128 * SECOND as u128,
        };
    }

    pub fn is_profiling(&self) -> (yes: bool)
        ensures
            yes == (self@.view == View::Profile),
    {
        self.view == View::Profile
    }

    pub fn profile_collecting(&self) -> (yes: bool)
        ensures
            yes == self@.profile_phase is Collecting,
    {
        match self.profile_phase {
            ProfilePhase::Collecting { .. } => true,
            _ => false,
        }
    }

    /// Show or hide parked threads, re-ranking what is already collected.
    ///
    /// No new session is needed: the samples are kept, only the filter changes.
    pub fn toggle_profile_waiting(&mut self)
        requires
            old(self).wf(),
        ensures
            final(self).wf(),
            final(self)@ == (AppModel {
                profile_show_waiting: !old(self)@.profile_show_waiting,
                profile: final(self)@.profile,
                ..old(self)@
            }),
            ranks_profile(
                final(self)@.profile,
                old(self)@.profile_result,
                !old(self)@.profile_show_waiting,
            ),
    {
        self.profile_show_waiting = !self.profile_show_waiting;
        self.rank_profile();
    }

    /// Store a finished profile and rank it.
    pub fn finish_profile(&mut self, result: ProfileResult)
        requires
            old(self).wf(),
            is_complete(result),
        ensures
            final(self).wf(),
            final(self)@ == (AppModel {
                profile_result: raw_view(Some(result)),
                profile_phase: PhaseModel::Done,
                profile: final(self)@.profile,
                ..old(self)@
            }),
            ranks_profile(
                final(self)@.profile,
                raw_view(Some(result)),
                old(self)@.profile_show_waiting,
            ),
    {
        self.profile_result = Some(result);
        self.profile_phase = ProfilePhase::Done;
        self.rank_profile();
    }

    fn rank_profile(&mut self)
        requires
            old(self).wf(),
        ensures
            final(self).wf(),
            final(self)@ == (AppModel { profile: final(self)@.profile, ..old(self)@ }),
            ranks_profile(
                final(self)@.profile,
                old(self)@.profile_result,
                old(self)@.profile_show_waiting,
            ),
    {
        let profile = match &self.profile_result {
            Some(result) => Some(
                result.state.hot_methods(&result.methods, PROFILE_ROWS, self.profile_show_waiting),
            ),
            None => None,
        };
        self.profile = profile;
    }

    /// Leave the profile screen, abandoning any collection in flight.
    pub fn cancel_profile(&mut self)
        requires
            old(self).wf(),
        ensures
            final(self).wf(),
            final(self)@ == old(self)@.profile_cancelled(),
    {
        if self.profile_collecting() {
            self.profile_phase = ProfilePhase::Failed("cancelled".to_owned());
        }
        self.view = View::Dashboard;
    }

    /// Whether the collection window has elapsed and the session should be stopped.
    pub fn profile_window_elapsed(&self, now: u64) -> (yes: bool)
        ensures
            yes == self@.window_elapsed(now),
    {
        match self.profile_phase {
            ProfilePhase::Collecting { until } => now as u128 >= until,
            _ => false,
        }
    }

    /// How much of the collection window is left, in nanoseconds.
    pub fn profile_remaining(&self, now: u64) -> (left: u128)
        ensures
            left == (match self@.profile_phase {
                PhaseModel::Collecting { until } if now < until => until - now,
                _ => 0,
            }),
    {
        match self.profile_phase {
            ProfilePhase::Collecting { until } => {
                if (now as u128) < until {
                    until - now as u128
                } else {
                    0
                }
            },
            _ => 0,
        }
    }

    /// Whether there is room to count one more runtime event.
    pub fn has_room(&self, event: &RuntimeEvent) -> (yes: bool)
        ensures
            yes == self@.has_room(event@),
    {
        if self.runtime.seen() == u64::MAX {
            return false;
        }
        match event {
            RuntimeEvent::Allocation(tick) => self.runtime.allocated_bytes().checked_add(
                tick.amount,
            ).is_some(),
            RuntimeEvent::HeapStats(stats) => self.runtime.pending.is_none()
                || stats.gen0_promoted as u128 + stats.gen1_promoted as u128
                + stats.gen2_promoted as u128 + stats.loh_promoted as u128 <= u64::MAX as u128,
            _ => true,
        }
    }

    /// Fold a decoded runtime event into the investigation state. Returns the pause that it ends,
    /// if any.
    pub fn record_runtime(&mut self, event: RuntimeEvent, qpc_frequency: i64) -> (pause: Option<
        Pause,
    >)
        requires
            old(self).wf(),
            old(self)@.has_room(event@),
        ensures
            final(self).wf(),
            final(self)@ == old(self)@.runtime_recorded(event@, qpc_frequency),
            pause == (match event@ {
                RuntimeEventModel::RestartEnd { timestamp } => old(self)@.runtime.measured_pause(
                    timestamp,
                    qpc_frequency,
                ),
                _ => None,
            }),
    {
        match event {
            RuntimeEvent::Allocation(tick) => {
                self.runtime.record_allocation(tick.name, tick.amount, tick.kind);
                None
            },
            RuntimeEvent::GcStart(start) => {
                self.runtime.record_gc_start(start);
                None
            },
            RuntimeEvent::GcEnd => {
                self.runtime.record_gc_end();
                None
            },
            RuntimeEvent::HeapStats(stats) => {
                self.runtime.record_heap_stats(stats);
                None
            },
            RuntimeEvent::SuspendBegin { timestamp } => {
                self.runtime.record_suspend(timestamp);
                None
            },
            RuntimeEvent::RestartEnd { timestamp } => self.runtime.record_restart(
                timestamp,
                qpc_frequency,
            ),
            RuntimeEvent::Exception(thrown) => {
                self.runtime.record_exception(thrown);
                None
            },
            RuntimeEvent::Contention(_) => {
                self.runtime.record_contention();
                None
            },
        }
    }
}

fn elapsed_since(now: u64, at: u64) -> (elapsed: u64)
    ensures
        elapsed == since(now, at),
{
    if now > at {
        now - at
    } else {
        0
    }
}

/// A number as two digits at least.
pub open spec fn two_digits(n: nat) -> Seq<char> {
    if n < 10 {
        seq!['0', digit(n)]
    } else {
        decimal(n)
    }
}

/// A time span as the header shows it, by its magnitude: seconds; minutes and seconds; or hours
/// and minutes.
pub open spec fn uptime_words(total: nat) -> Seq<char> {
    let hours = total / 3600;
    let minutes = (total % 3600) / 60;
    let seconds = total % 60;
    if hours > 0 {
        decimal(hours) + "h"@ + two_digits(minutes) + "m"@
    } else if minutes > 0 {
        decimal(minutes) + "m"@ + two_digits(seconds) + "s"@
    } else {
        decimal(seconds) + "s"@
    }
}

fn push_two_digits(out: &mut String, n: u64)
    ensures
        final(out)@ == old(out)@ + two_digits(n as nat),
{
    let ghost before = out@;
    if n < 10 {
        out.push('0');
        out.push((48 + n as u8) as char);
        assert(out@ =~= before + two_digits(n as nat));
    } else {
        push_decimal(out, n);
    }
}

/// Format a number of seconds as the header shows it.
pub fn format_uptime(total: u64) -> (s: String)
    ensures
        s@ == uptime_words(total as nat),
{
    let hours: u64 = total / 3600;
    let minutes: u64 = (total % 3600) / 60;
    let seconds: u64 = total % 60;
    let mut s = String::new();
    if hours > 0 {
        push_decimal(&mut s, hours);
        s.append("h");
        push_two_digits(&mut s, minutes);
        s.append("m");
    } else if minutes > 0 {
        push_decimal(&mut s, minutes);
        s.append("m");
        push_two_digits(&mut s, seconds);
        s.append("s");
    } else {
        push_decimal(&mut s, seconds);
        s.append("s");
    }
    assert(s@ =~= uptime_words(total as nat));
    s
}

/// A name put where everything before it is smaller and nothing after it is leaves a list in order.
proof fn inserted_in_order(names: Seq<Seq<char>>, i: int, name: Seq<char>)
    requires
        ascending(names),
        0 <= i <= names.len(),
        forall|k: int| 0 <= k < i ==> !text_le(name, #[trigger] names[k]),
        i < names.len() ==> text_le(name, names[i]) && names[i] != name,
    ensures
        ascending(names.insert(i, name)),
{
    let after = names.insert(i, name);
    assert forall|j: int, k: int| 0 <= j < k < after.len() implies text_le(
        #[trigger] after[j],
        #[trigger] after[k],
    ) && after[j] != after[k] by {
        if k == i {
            assert(after[j] == names[j]);
            text_le_total(name, names[j]);
            text_le_total(name, name);
        } else if j == i {
            assert(after[k] == names[k - 1]);
            if k - 1 > i {
                assert(text_le(names[i], names[k - 1]));
                text_le_transitive(name, names[i], names[k - 1]);
                if names[k - 1] == name {
                    text_le_antisymmetric(name, names[i]);
                }
            }
        } else {
            let p = if j < i {
                j
            } else {
                j - 1
            };
            let q = if k < i {
                k
            } else {
                k - 1
            };
            assert(after[j] == names[p] && after[k] == names[q]);
        }
    }
}

// ---------------------------------------------------------------------------------------------
// What holds of the state

/// A counter is found where it is kept.
proof fn kept_counter(counters: Seq<CounterModel>, i: int)
    requires
        one_each(counters),
        0 <= i < counters.len(),
    ensures
        counter_place(counters, counters[i].provider, counters[i].name) == Some(i),
{
    let provider = counters[i].provider;
    let name = counters[i].name;
    assert(counters[i].is(provider, name));
    let j = choose|j: int| 0 <= j < counters.len() && (#[trigger] counters[j]).is(provider, name);
    assert(counters[j].is(provider, name));
    if j < i {
        assert(!counters[j].is(counters[i].provider, counters[i].name));
    } else if i < j {
        assert(!counters[i].is(counters[j].provider, counters[j].name));
    }
}

/// Recording keeps a state valid.
pub proof fn recording_keeps_validity(m: AppModel, sample: SampleModel, now: u64)
    requires
        m.valid(),
    ensures
        m.recorded(sample, now).valid(),
{
    let after = with_reading(m.counters, sample, now);
    match counter_place(m.counters, sample.provider, sample.name) {
        Some(i) => {
            assert(m.counters[i].is(sample.provider, sample.name));
            assert forall|j: int, k: int| 0 <= j < k < after.len() implies !(
            #[trigger] after[j]).is((#[trigger] after[k]).provider, after[k].name) by {
                assert(!m.counters[j].is(m.counters[k].provider, m.counters[k].name));
            }
        },
        None => {
            assert forall|j: int, k: int| 0 <= j < k < after.len() implies !(
            #[trigger] after[j]).is((#[trigger] after[k]).provider, after[k].name) by {
                if k < m.counters.len() {
                    assert(!m.counters[j].is(m.counters[k].provider, m.counters[k].name));
                } else {
                    assert(!m.counters[j].is(sample.provider, sample.name));
                }
            }
        },
    }
}

/// A reading becomes its counter's latest, at the end of the history.
pub proof fn a_reading_is_the_latest(m: AppModel, sample: SampleModel, now: u64)
    requires
        m.valid(),
        !m.paused,
    ensures
        m.recorded(sample, now).latest_of(sample.provider, sample.name) == Some(sample),
        m.recorded(sample, now).series_of(sample.provider, sample.name) == Some(
            (match m.series_of(sample.provider, sample.name) {
                Some(series) => series,
                None => SeriesModel::blank(),
            }).pushed(sample, now),
        ),
{
    recording_keeps_validity(m, sample, now);
    let after = with_reading(m.counters, sample, now);
    match counter_place(m.counters, sample.provider, sample.name) {
        Some(i) => {
            assert(m.counters[i].is(sample.provider, sample.name));
            kept_counter(after, i);
        },
        None => {
            kept_counter(after, m.counters.len() as int);
        },
    }
}

/// Counters from different providers do not collide, nor do those of one provider: a reading
/// leaves every counter but its own as it was.
pub proof fn readings_leave_other_counters_alone(
    m: AppModel,
    sample: SampleModel,
    now: u64,
    provider: Seq<char>,
    name: Seq<char>,
)
    requires
        m.valid(),
        provider != sample.provider || name != sample.name,
    ensures
        m.recorded(sample, now).series_of(provider, name) == m.series_of(provider, name),
{
    if !m.paused {
        recording_keeps_validity(m, sample, now);
        let after = with_reading(m.counters, sample, now);
        let own = counter_place(m.counters, sample.provider, sample.name);
        if let Some(i) = own {
            assert(m.counters[i].is(sample.provider, sample.name));
        }
        match counter_place(m.counters, provider, name) {
            Some(i) => {
                assert(m.counters[i].is(provider, name));
                assert(after[i] == m.counters[i]);
                kept_counter(after, i);
            },
            None => {
                assert forall|i: int| 0 <= i < after.len() implies !(#[trigger] after[i]).is(
                    provider,
                    name,
                ) by {
                    if i < m.counters.len() {
                        assert(!m.counters[i].is(provider, name));
                    }
                }
            },
        }
    }
}

/// Pausing freezes the readings but not the session: arrivals are still counted.
pub proof fn pausing_freezes_readings_only(m: AppModel, sample: SampleModel, now: u64)
    requires
        m.paused,
        m.samples_seen < u64::MAX,
    ensures
        m.recorded(sample, now).counters == m.counters,
        m.recorded(sample, now).status == StatusModel::Live,
        m.recorded(sample, now).samples_seen == m.samples_seen + 1,
        m.recorded(sample, now).last_sample_at == Some(now),
{
}

/// The state after samples that arrive one after the other, each at its time.
pub open spec fn recorded_all(m: AppModel, samples: Seq<(SampleModel, u64)>) -> AppModel
    decreases samples.len(),
{
    if samples.len() == 0 {
        m
    } else {
        recorded_all(m, samples.drop_last()).recorded(samples.last().0, samples.last().1)
    }
}

/// The readings of some samples.
pub open spec fn readings_of(samples: Seq<(SampleModel, u64)>) -> Seq<Reading> {
    Seq::new(samples.len(), |i: int| Reading { at: samples[i].1, value: samples[i].0.value })
}

/// The history of a counter is its last readings, in the order of their arrival: the oldest are
/// the first to go.
pub proof fn history_is_the_last_readings(
    m: AppModel,
    samples: Seq<(SampleModel, u64)>,
    provider: Seq<char>,
    name: Seq<char>,
)
    requires
        m.valid(),
        !m.paused,
        m.series_of(provider, name) == None::<SeriesModel>,
        samples.len() > 0,
        forall|i: int|
            0 <= i < samples.len() ==> (#[trigger] samples[i]).0.provider == provider
                && samples[i].0.name == name,
    ensures
        recorded_all(m, samples).valid(),
        !recorded_all(m, samples).paused,
        recorded_all(m, samples).series_of(provider, name) == Some(
            SeriesModel {
                latest: Some(samples.last().0),
                history: recent(readings_of(samples)),
            },
        ),
    decreases samples.len(),
{
    let fewer = samples.drop_last();
    let before = recorded_all(m, fewer);
    let (last, now) = samples.last();
    let reading = Reading { at: now, value: last.value };
    assert(samples.last() == samples[samples.len() - 1]);
    assert(readings_of(samples) =~= readings_of(fewer).push(reading));
    if samples.len() == 1 {
        assert(fewer =~= Seq::<(SampleModel, u64)>::empty());
        assert(readings_of(fewer) =~= Seq::<Reading>::empty());
    } else {
        assert forall|i: int| 0 <= i < fewer.len() implies (#[trigger] fewer[i]).0.provider
            == provider && fewer[i].0.name == name by {
            assert(fewer[i] == samples[i]);
        }
        history_is_the_last_readings(m, fewer, provider, name);
        assert(recent(recent(readings_of(fewer)).push(reading)) =~= recent(readings_of(samples)));
    }
    a_reading_is_the_latest(before, last, now);
    recording_keeps_validity(before, last, now);
}

/// A new rate drops the history gathered at the old one, and keeps the current readings.
pub proof fn a_new_rate_keeps_current_readings(
    m: AppModel,
    interval: Seconds,
    provider: Seq<char>,
    name: Seq<char>,
)
    requires
        m.valid(),
    ensures
        m.interval_applied(interval).interval == interval,
        m.interval_applied(interval).latest_of(provider, name) == m.latest_of(provider, name),
        m.series_of(provider, name) matches Some(series) ==> m.interval_applied(interval).series_of(
            provider,
            name,
        ) == Some(series.restarted()),
{
    let after = m.interval_applied(interval).counters;
    assert(one_each(after)) by {
        assert forall|j: int, k: int| 0 <= j < k < after.len() implies !(#[trigger] after[j]).is(
            (#[trigger] after[k]).provider,
            after[k].name,
        ) by {
            assert(!m.counters[j].is(m.counters[k].provider, m.counters[k].name));
        }
    }
    match counter_place(m.counters, provider, name) {
        Some(i) => {
            assert(m.counters[i].is(provider, name));
            kept_counter(after, i);
        },
        None => {
            assert forall|i: int| 0 <= i < after.len() implies !(#[trigger] after[i]).is(
                provider,
                name,
            ) by {
                assert(!m.counters[i].is(provider, name));
            }
        },
    }
}

/// Asking for a rate does not change the one that is reported. Only the request does change, and
/// the next request starts from it.
pub proof fn a_rate_is_not_adopted_until_applied(m: AppModel, faster: bool)
    ensures
        m.interval_stepped(faster).interval == m.interval,
        m.interval_stepped(faster).counters == m.counters,
        m.interval_stepped(faster).wanted_interval() == stepped(m.wanted_interval(), faster),
{
}

/// Leaving the investigation and coming back keeps what was found, and forgets what failed.
pub proof fn flicking_back_and_forth_keeps_the_findings(m: AppModel, out: u64, back: u64)
    requires
        m.view == View::Investigate,
    ensures
        m.investigation_toggled(out).investigation_toggled(back) == (AppModel {
            runtime_error: None,
            investigating_since: Some(back),
            ..m
        }),
{
}

/// A collection window opens when it is started, is as long as was asked for, and closes.
pub proof fn a_window_opens_and_closes(m: AppModel, start: u64, now: u64)
    ensures
        m.profile_started(start).window_elapsed(now) <==> now >= start + m.profile_seconds
            * SECOND,
        !m.profile_started(start).profile_cancelled().window_elapsed(now),
{
}

} // verus!
