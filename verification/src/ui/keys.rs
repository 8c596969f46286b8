//! What the keys and the events of a dashboard do.
use vstd::prelude::*;
use vstd::view::View as _;

use super::graph::next_plot;
use super::theme::Theme;
use crate::app::{
    is_complete, ranks_profile, raw_view, App, AppModel, Exit, PhaseModel, ProfilePhase, Status,
    StatusModel, View,
};
use crate::counters::sample::CounterSample;
use crate::profile::run::ProfileResult;
use crate::runtime::session::RuntimeEvent;
use crate::runtime::state::RuntimeModel;

verus! {

#[derive(Debug, Clone, Copy, PartialEq, Eq, Structural)]
pub enum KeyCode {
    Char(char),
    Esc,
    Enter,
    Up,
    Down,
    PageUp,
    PageDown,
    Home,
    End,
    /// Any key that nothing is bound to.
    Other,
}

/// A key that went down or up, or is being held.
#[derive(Debug, Clone, Copy, PartialEq, Eq, Structural)]
pub struct KeyEvent {
    pub code: KeyCode,
    /// Whether the control key was down.
    pub control: bool,
    /// Whether the key went down. Some terminals report releases too, and those must not act
    /// again.
    pub pressed: bool,
}

impl KeyEvent {
    /// A key that went down.
    pub fn new(code: KeyCode, control: bool) -> (key: Self)
        ensures
            key == (KeyEvent { code, control, pressed: true }),
    {
        KeyEvent { code, control, pressed: true }
    }
}

/// What the terminal reports.
#[derive(Debug, Clone, Copy, PartialEq, Eq, Structural)]
pub enum Event {
    Key(KeyEvent),
    /// Anything but a key: the mouse, a resize, a paste.
    Other,
}

/// Messages the UI thread reacts to.
#[derive(Debug)]
pub enum AppEvent {
    Input(Event),
    Sample(Box<CounterSample>),
    /// The counter session finished; `Some` carries the failure that ended it.
    SessionEnded(Option<String>),
    /// A decoded runtime event, with the clock frequency needed to scale pause durations.
    Runtime(Box<RuntimeEvent>, i64),
    /// The investigation session could not start, or ended unexpectedly.
    RuntimeFailed(String),
    /// Samples collected so far in the current profile.
    ProfileProgress(u64),
    /// A finished profile: raw samples plus the method table to rank them against.
    ProfileDone(Box<ProfileResult>),
    ProfileFailed(String),
}

/// What a key does.
#[derive(Debug, Clone, Copy, PartialEq, Eq, Structural)]
pub enum Action {
    Nothing,
    DismissHelp,
    ShowHelp,
    Leave(Exit),
    ToggleInvestigate,
    ResetFindings,
    StartProfile,
    CancelProfile,
    ToggleWaiting,
    TogglePause,
    CyclePlot,
    /// One rung along the ladder of rates; `true` is faster.
    StepInterval(bool),
}

/// What a key does on the dashboard.
pub open spec fn dashboard_action(key: KeyEvent) -> Action {
    match key.code {
        KeyCode::Esc => Action::Leave(Exit::Quit),
        KeyCode::Char(c) => if c == 'q' {
            Action::Leave(Exit::Quit)
        } else if c == 'c' {
            if key.control {
                Action::Leave(Exit::Quit)
            } else {
                Action::StartProfile
            }
        } else if c == 'd' {
            Action::Leave(Exit::Detach)
        } else if c == 'i' {
            Action::ToggleInvestigate
        } else if c == 'p' || c == ' ' {
            Action::TogglePause
        } else if c == 'm' {
            Action::CyclePlot
        } else if c == '-' || c == '_' {
            Action::StepInterval(true)
        } else if c == '+' || c == '=' {
            Action::StepInterval(false)
        } else if c == '?' || c == 'h' {
            Action::ShowHelp
        } else {
            Action::Nothing
        },
        _ => Action::Nothing,
    }
}

/// What a key does while investigating. Escape backs out of the screen rather than quitting
/// outright.
pub open spec fn investigation_action(key: KeyEvent) -> Action {
    match key.code {
        KeyCode::Esc => Action::ToggleInvestigate,
        KeyCode::Char(c) => if c == 'i' {
            Action::ToggleInvestigate
        } else if c == 'r' {
            Action::ResetFindings
        } else if c == 'q' || (c == 'c' && key.control) {
            Action::Leave(Exit::Quit)
        } else if c == 'd' {
            Action::Leave(Exit::Detach)
        } else if c == '?' || c == 'h' {
            Action::ShowHelp
        } else {
            Action::Nothing
        },
        _ => Action::Nothing,
    }
}

/// What a key does on the profile screen. Re-running is the only way to refresh: a profile is a
/// fixed window, not a stream.
pub open spec fn profile_action(key: KeyEvent, collecting: bool) -> Action {
    match key.code {
        KeyCode::Esc => Action::CancelProfile,
        KeyCode::Char(c) => if c == 'c' {
            if key.control {
                Action::Leave(Exit::Quit)
            } else {
                Action::CancelProfile
            }
        } else if c == 'r' && !collecting {
            Action::StartProfile
        } else if c == 'w' && !collecting {
            Action::ToggleWaiting
        } else if c == 'q' {
            Action::Leave(Exit::Quit)
        } else if c == 'd' {
            Action::Leave(Exit::Detach)
        } else {
            Action::Nothing
        },
        _ => Action::Nothing,
    }
}

/// What a key does. Help swallows the next keypress, so it can be dismissed with anything.
pub open spec fn action_of(m: AppModel, key: KeyEvent) -> Action {
    if m.show_help {
        Action::DismissHelp
    } else {
        match m.view {
            View::Profile => profile_action(key, m.profile_phase is Collecting),
            View::Investigate => investigation_action(key),
            View::Dashboard => dashboard_action(key),
        }
    }
}

/// The state after an action that says all about it: any but [`Action::ToggleWaiting`].
pub open spec fn acted(m: AppModel, action: Action, now: u64) -> AppModel {
    match action {
        Action::DismissHelp => AppModel { show_help: false, ..m },
        Action::ShowHelp => AppModel { show_help: true, ..m },
        Action::Leave(exit) => AppModel { exit: Some(exit), ..m },
        Action::ToggleInvestigate => m.investigation_toggled(now),
        Action::ResetFindings => AppModel { runtime: RuntimeModel::blank(), ..m },
        Action::StartProfile => m.profile_started(now),
        Action::CancelProfile => m.profile_cancelled(),
        Action::TogglePause => AppModel { paused: !m.paused, ..m },
        Action::StepInterval(faster) => m.interval_stepped(faster),
        Action::Nothing | Action::CyclePlot | Action::ToggleWaiting => m,
    }
}

/// Whether `after` is what an action makes of `before`.
pub open spec fn follows(before: AppModel, after: AppModel, action: Action, now: u64) -> bool {
    if action == Action::ToggleWaiting {
        &&& after == (AppModel {
            profile_show_waiting: !before.profile_show_waiting,
            profile: after.profile,
            ..before
        })
        &&& ranks_profile(after.profile, before.profile_result, !before.profile_show_waiting)
    } else {
        after == acted(before, action, now)
    }
}

/// The theme after an action.
pub open spec fn restyled(theme: Theme, action: Action) -> Theme {
    if action == Action::CyclePlot {
        Theme { plot: next_plot(theme.plot), ..theme }
    } else {
        theme
    }
}

fn on_dashboard(key: KeyEvent) -> (action: Action)
    ensures
        action == dashboard_action(key),
{
    match key.code {
        KeyCode::Char('q') | KeyCode::Esc => Action::Leave(Exit::Quit),
        KeyCode::Char('c') => {
            if key.control {
                Action::Leave(Exit::Quit)
            } else {
                Action::StartProfile
            }
        },
        KeyCode::Char('d') => Action::Leave(Exit::Detach),
        KeyCode::Char('i') => Action::ToggleInvestigate,
        KeyCode::Char('p') | KeyCode::Char(' ') => Action::TogglePause,
        KeyCode::Char('m') => Action::CyclePlot,
        // btop's convention: `+` adds to the update timer and so slows it down. Both faces of each
        // key are bound, because whether you get `+` or `=` depends on the shift key.
        KeyCode::Char('-') | KeyCode::Char('_') => Action::StepInterval(true),
        KeyCode::Char('+') | KeyCode::Char('=') => Action::StepInterval(false),
        KeyCode::Char('?') | KeyCode::Char('h') => Action::ShowHelp,
        _ => Action::Nothing,
    }
}

fn while_investigating(key: KeyEvent) -> (action: Action)
    ensures
        action == investigation_action(key),
{
    match key.code {
        KeyCode::Char('i') | KeyCode::Esc => Action::ToggleInvestigate,
        KeyCode::Char('r') => Action::ResetFindings,
        KeyCode::Char('q') => Action::Leave(Exit::Quit),
        KeyCode::Char('c') => {
            if key.control {
                Action::Leave(Exit::Quit)
            } else {
                Action::Nothing
            }
        },
        KeyCode::Char('d') => Action::Leave(Exit::Detach),
        KeyCode::Char('?') | KeyCode::Char('h') => Action::ShowHelp,
        _ => Action::Nothing,
    }
}

fn while_profiling(key: KeyEvent, collecting: bool) -> (action: Action)
    ensures
        action == profile_action(key, collecting),
{
    match key.code {
        KeyCode::Esc => Action::CancelProfile,
        KeyCode::Char('c') => {
            if key.control {
                Action::Leave(Exit::Quit)
            } else {
                Action::CancelProfile
            }
        },
        KeyCode::Char('r') => {
            if collecting {
                Action::Nothing
            } else {
                Action::StartProfile
            }
        },
        KeyCode::Char('w') => {
            if collecting {
                Action::Nothing
            } else {
                Action::ToggleWaiting
            }
        },
        KeyCode::Char('q') => Action::Leave(Exit::Quit),
        KeyCode::Char('d') => Action::Leave(Exit::Detach),
        _ => Action::Nothing,
    }
}

/// What a key does, as things stand.
pub fn decide(app: &App, key: KeyEvent) -> (action: Action)
    ensures
        action == action_of(app@, key),
{
    if app.show_help {
        Action::DismissHelp
    } else {
        match app.view {
            View::Profile => while_profiling(key, app.profile_collecting()),
            View::Investigate => while_investigating(key),
            View::Dashboard => on_dashboard(key),
        }
    }
}

/// React to a key.
pub fn handle_key(app: &mut App, theme: &mut Theme, key: KeyEvent, now: u64)
    requires
        old(app).wf(),
    ensures
        final(app).wf(),
        follows(old(app)@, final(app)@, action_of(old(app)@, key), now),
        *final(theme) == restyled(*old(theme), action_of(old(app)@, key)),
{
    match decide(app, key) {
        Action::Nothing => {},
        Action::DismissHelp => {
            app.show_help = false;
        },
        Action::ShowHelp => {
            app.show_help = true;
        },
        Action::Leave(exit) => {
            app.exit = Some(exit);
        },
        Action::ToggleInvestigate => app.toggle_investigate(now),
        Action::ResetFindings => app.runtime.reset(),
        Action::StartProfile => app.start_profile(now),
        Action::CancelProfile => app.cancel_profile(),
        Action::ToggleWaiting => app.toggle_profile_waiting(),
        Action::TogglePause => {
            app.paused = !app.paused;
        },
        Action::CyclePlot => theme.cycle_plot(),
        Action::StepInterval(faster) => app.step_interval(faster),
    }
}

/// Whether there is room to count what an event brings.
pub open spec fn is_countable(m: AppModel, event: AppEvent) -> bool {
    match event {
        AppEvent::Sample(_) => m.samples_seen < u64::MAX,
        AppEvent::Runtime(event, _) => m.has_room(event@),
        _ => true,
    }
}

/// Whether `after` is what an event makes of `before`.
pub open spec fn reacts(before: AppModel, after: AppModel, event: AppEvent, now: u64) -> bool {
    match event {
        AppEvent::Sample(sample) => after == before.recorded(sample@, now),
        AppEvent::SessionEnded(error) => after == (AppModel {
            status: match error {
                Some(e) => StatusModel::Failed(e@),
                None => StatusModel::Ended,
            },
            ..before
        }),
        AppEvent::Runtime(event, frequency) => after == before.runtime_recorded(
            event@,
            frequency,
        ),
        AppEvent::RuntimeFailed(error) => after == (AppModel {
            runtime_error: Some(error@),
            ..before
        }),
        AppEvent::ProfileProgress(samples) => after == (AppModel {
            profile_samples: samples,
            ..before
        }),
        AppEvent::ProfileDone(result) => {
            &&& after == (AppModel {
                profile_result: raw_view(Some(*result)),
                profile_phase: PhaseModel::Done,
                profile: after.profile,
                ..before
            })
            &&& ranks_profile(
                after.profile,
                raw_view(Some(*result)),
                before.profile_show_waiting,
            )
        },
        AppEvent::ProfileFailed(error) => after == (AppModel {
            profile_phase: PhaseModel::Failed(error@),
            ..before
        }),
        AppEvent::Input(Event::Key(key)) => if key.pressed {
            follows(before, after, action_of(before, key), now)
        } else {
            after == before
        },
        AppEvent::Input(Event::Other) => after == before,
    }
}

/// The theme after an event.
pub open spec fn themed(theme: Theme, m: AppModel, event: AppEvent) -> Theme {
    match event {
        AppEvent::Input(Event::Key(key)) => if key.pressed {
            restyled(theme, action_of(m, key))
        } else {
            theme
        },
        _ => theme,
    }
}

/// Whether there is room to count what an event brings.
pub fn has_room(app: &App, event: &AppEvent) -> (yes: bool)
    ensures
        yes == is_countable(app@, *event),
{
    match event {
        AppEvent::Sample(_) => app.samples_seen < u64::MAX,
        AppEvent::Runtime(event, _) => app.has_room(event),
        _ => true,
    }
}

/// React to an event.
pub fn handle_event(app: &mut App, theme: &mut Theme, event: AppEvent, now: u64)
    requires
        old(app).wf(),
        is_countable(old(app)@, event),
        event matches AppEvent::ProfileDone(result) ==> is_complete(*result),
    ensures
        final(app).wf(),
        reacts(old(app)@, final(app)@, event, now),
        *final(theme) == themed(*old(theme), old(app)@, event),
{
    match event {
        AppEvent::Sample(sample) => app.record(*sample, now),
        AppEvent::SessionEnded(error) => {
            app.status =
            match error {
                Some(e) => Status::Failed(e),
                None => Status::Ended,
            };
        },
        AppEvent::Runtime(event, qpc_frequency) => {
            let _ = app.record_runtime(*event, qpc_frequency);
        },
        AppEvent::RuntimeFailed(error) => {
            app.runtime_error = Some(error);
        },
        AppEvent::ProfileProgress(samples) => {
            app.profile_samples = samples;
        },
        AppEvent::ProfileDone(result) => app.finish_profile(*result),
        AppEvent::ProfileFailed(error) => {
            app.profile_phase = ProfilePhase::Failed(error);
        },
        AppEvent::Input(Event::Key(key)) => {
            if key.pressed {
                handle_key(app, theme, key, now);
            }
        },
        AppEvent::Input(Event::Other) => {},
    }
}

// ---------------------------------------------------------------------------------------------
// What holds of keys

/// While help is showing, a key closes it and does nothing else: leaving takes two presses.
pub proof fn help_takes_a_press_of_its_own(m: AppModel, key: KeyEvent, now: u64)
    requires
        m.show_help,
    ensures
        acted(m, action_of(m, key), now) == (AppModel { show_help: false, ..m }),
{
}

/// Control and C leaves from every screen, and C alone from none.
pub proof fn control_c_always_quits(m: AppModel)
    requires
        !m.show_help,
    ensures
        action_of(m, KeyEvent { code: KeyCode::Char('c'), control: true, pressed: true })
            == Action::Leave(Exit::Quit),
        !(action_of(m, KeyEvent { code: KeyCode::Char('c'), control: false, pressed: true })
            is Leave),
{
}

/// Escape never leaves from another screen than the dashboard: it leads back there.
pub proof fn escape_backs_out(m: AppModel, now: u64)
    requires
        !m.show_help,
        m.view != View::Dashboard,
    ensures
        ({
            let key = KeyEvent { code: KeyCode::Esc, control: false, pressed: true };
            let after = acted(m, action_of(m, key), now);
            &&& after.view == View::Dashboard
            &&& after.exit == m.exit
        }),
{
}

/// The rate keys act on the dashboard only: the sessions of the other screens carry no interval,
/// and restarting counters underneath them is pointless.
pub proof fn rates_change_on_the_dashboard_only(m: AppModel, key: KeyEvent)
    requires
        m.view != View::Dashboard,
    ensures
        !(action_of(m, key) is StepInterval),
{
}

/// Nothing that a key does touches the counters, or what has arrived.
pub proof fn keys_leave_readings_alone(m: AppModel, after: AppModel, key: KeyEvent, now: u64)
    requires
        follows(m, after, action_of(m, key), now),
    ensures
        after.counters == m.counters,
        after.samples_seen == m.samples_seen,
        after.interval == m.interval,
{
}

} // verus!
