//! When sessions on the target are opened and closed.
//!
//! The event loop asks here what to do, does it, and hands back what came of it. A session costs
//! the target real CPU, so it exists only while it is wanted.
use vstd::prelude::*;
use vstd::view::View as _;

use super::keys::AppEvent;
use crate::app::{App, AppModel, PhaseModel, ProfilePhase, Status, StatusModel, View};
use crate::rates::Seconds;

verus! {

/// What is to become of a session.
#[derive(Debug, Clone, Copy, PartialEq, Eq, Structural)]
pub enum Change {
    Keep,
    Open,
    Close,
    /// Close it because its window is up: stopping is what makes the method names arrive.
    Finish,
}

/// Whether a session is open after a change.
pub open spec fn open_after(open: bool, change: Change) -> bool {
    match change {
        Change::Keep => open,
        Change::Open => true,
        Change::Close | Change::Finish => false,
    }
}

/// What is to become of the investigation session: it is there while its screen is.
pub open spec fn wanted_investigation(m: AppModel, open: bool) -> Change {
    if m.view == View::Investigate && !open {
        Change::Open
    } else if m.view != View::Investigate && open {
        Change::Close
    } else {
        Change::Keep
    }
}

/// What is to become of the profile session: it is opened when a collection window is, and closed
/// when the window is up or its screen is left.
pub open spec fn wanted_profile(m: AppModel, open: bool, now: u64) -> Change {
    let collecting = m.profile_phase is Collecting;
    if collecting && !open {
        Change::Open
    } else if !collecting && open && m.view != View::Profile {
        Change::Close
    } else if collecting && open && m.window_elapsed(now) {
        Change::Finish
    } else {
        Change::Keep
    }
}

/// Reconcile the investigation session with the screen.
pub fn investigation_change(app: &App, open: bool) -> (change: Change)
    ensures
        change == wanted_investigation(app@, open),
{
    if app.is_investigating() {
        if open {
            Change::Keep
        } else {
            Change::Open
        }
    } else if open {
        Change::Close
    } else {
        Change::Keep
    }
}

/// Reconcile the profile session with its window. A window that is up is closed for good: the
/// method names are then read.
pub fn profile_change(app: &mut App, open: bool, now: u64) -> (change: Change)
    requires
        old(app).wf(),
    ensures
        final(app).wf(),
        change == wanted_profile(old(app)@, open, now),
        final(app)@ == (if change == Change::Finish {
            AppModel { profile_phase: PhaseModel::Resolving, ..old(app)@ }
        } else {
            old(app)@
        }),
{
    let collecting = app.profile_collecting();
    if collecting && !open {
        Change::Open
    } else if !collecting && open && !app.is_profiling() {
        Change::Close
    } else if collecting && open && app.profile_window_elapsed(now) {
        app.profile_phase = ProfilePhase::Resolving;
        Change::Finish
    } else {
        Change::Keep
    }
}

/// Note that a session could not be opened: the investigation's.
pub fn investigation_failed(app: &mut App, error: String)
    requires
        old(app).wf(),
    ensures
        final(app).wf(),
        final(app)@ == (AppModel { runtime_error: Some(error@), ..old(app)@ }),
{
    app.runtime_error = Some(error);
}

/// Note that a session could not be opened: the profile's.
pub fn profile_failed(app: &mut App, error: String)
    requires
        old(app).wf(),
    ensures
        final(app).wf(),
        final(app)@ == (AppModel { profile_phase: PhaseModel::Failed(error@), ..old(app)@ }),
{
    app.profile_phase = ProfilePhase::Failed(error);
}

/// How far replacing the counter session got.
pub enum Restart {
    /// A session at the new rate is running.
    Done,
    /// The old session would not close. A second one is not stacked on top: the old one's reader
    /// is blocked on a socket that now has no way to reach its end, and every further rate change
    /// would leak another of each.
    NotClosed(String),
    /// The old session is closed, and no new one could be opened.
    NotOpened(String),
}

/// What is said of a session that could not be replaced; `rate` is spelled out.
pub open spec fn restart_words(restart: Restart, rate: Seq<char>) -> Option<Seq<char>> {
    match restart {
        Restart::Done => None,
        Restart::NotClosed(error) => Some("could not close the counter session: "@ + error@),
        Restart::NotOpened(error) => Some(
            "could not restart counters at "@ + rate + "s: "@ + error@,
        ),
    }
}

/// Take note of how replacing the counter session went. `spelled` is the rate in decimal.
pub fn after_restart(app: &mut App, rate: Seconds, spelled: &str, restart: Restart)
    requires
        old(app).wf(),
    ensures
        final(app).wf(),
        final(app)@ == (match restart_words(restart, spelled@) {
            None => old(app)@.interval_applied(rate),
            Some(words) => AppModel { status: StatusModel::Failed(words), ..old(app)@ },
        }),
{
    match restart {
        Restart::Done => app.apply_interval(rate),
        Restart::NotClosed(error) => {
            let mut words = "could not close the counter session: ".to_owned();
            words.append(error.as_str());
            app.status = Status::Failed(words);
        },
        Restart::NotOpened(error) => {
            let mut words = "could not restart counters at ".to_owned();
            words.append(spelled);
            words.append("s: ");
            words.append(error.as_str());
            app.status = Status::Failed(words);
        },
    }
}

/// What the reader of a counter session reports when it ends. One that was asked to stop says
/// nothing: a replacement session may already be running, and must not be buried under the old
/// one's obituary.
pub fn counters_ended(silenced: bool, error: Option<String>) -> (event: Option<AppEvent>)
    ensures
        silenced ==> event is None,
        !silenced ==> (event matches Some(AppEvent::SessionEnded(e)) && e == error),
{
    if silenced {
        None
    } else {
        Some(AppEvent::SessionEnded(error))
    }
}

/// What the reader of an investigation session reports when it ends. A read error after it was
/// asked to stop is just the socket closing underneath it.
pub fn investigation_ended(silenced: bool, error: Option<String>) -> (event: Option<AppEvent>)
    ensures
        silenced || error is None ==> event is None,
        !silenced && error is Some ==> (event matches Some(AppEvent::RuntimeFailed(e)) && Some(e)
            == error),
{
    if silenced {
        return None;
    }
    match error {
        Some(e) => Some(AppEvent::RuntimeFailed(e)),
        None => None,
    }
}

/// Whether a counter session that would not close is worth mentioning. The usual cause is that the
/// process already exited, which is not.
pub fn is_worth_a_note(app: &App) -> (yes: bool)
    ensures
        yes == !(app@.status is Ended),
{
    match app.status {
        Status::Ended => false,
        _ => true,
    }
}

// ---------------------------------------------------------------------------------------------
// What holds of sessions

/// After reconciling, the investigation session is open if and only if its screen is showing; and
/// reconciling again changes nothing.
pub proof fn investigations_are_open_while_looked_at(m: AppModel, open: bool)
    ensures
        open_after(open, wanted_investigation(m, open)) == (m.view == View::Investigate),
        wanted_investigation(m, open_after(open, wanted_investigation(m, open))) == Change::Keep,
{
}

/// A profile session is open while its window is, and no longer.
pub proof fn profiles_are_open_while_collecting(m: AppModel, open: bool, now: u64)
    ensures
        m.profile_phase is Collecting && !m.window_elapsed(now) ==> open_after(
            open,
            wanted_profile(m, open, now),
        ),
        m.profile_phase is Collecting && m.window_elapsed(now) && open ==> wanted_profile(
            m,
            open,
            now,
        ) == Change::Finish,
        m.view != View::Profile && !(m.profile_phase is Collecting) ==> !open_after(
            open,
            wanted_profile(m, open, now),
        ),
{
}

/// Leaving the profile screen abandons a collection: its session is closed, whatever the clock
/// shows.
pub proof fn cancelling_closes_the_session(m: AppModel, now: u64)
    ensures
        wanted_profile(m.profile_cancelled(), true, now) == Change::Close,
{
}

/// A rate that could not be applied leaves the one that is running as it was, and the next step
/// starts from it.
pub proof fn a_failed_restart_keeps_the_rate(m: AppModel, words: Seq<char>)
    requires
        m.pending_interval is None,
    ensures
        (AppModel { status: StatusModel::Failed(words), ..m }).interval == m.interval,
        (AppModel { status: StatusModel::Failed(words), ..m }).wanted_interval() == m.interval,
{
}

} // verus!
