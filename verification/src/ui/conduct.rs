//! What keys and other events lead to.
use vstd::prelude::*;
use vstd::view::View as _;

use super::keys::{action_of, follows, reacts, Event, KeyCode, KeyEvent};
use super::picker::{moved, place_after, step_of, Step};
use super::sessions::{wanted_profile, Change};
use crate::app::conduct::{same_profiles, same_readings, same_screens};
use crate::app::{AppEvent, AppModel, Exit, PhaseModel, StatusModel, View};
use crate::profile::run::ProfileResult;
use crate::rates::stepped;

verus! {

/// Whether a key is one of two characters.
pub open spec fn is_either(key: KeyEvent, a: char, b: char) -> bool {
    key.code == KeyCode::Char(a) || key.code == KeyCode::Char(b)
}

/// On the dashboard, escape, Q, or control with C quits, and D detaches. I opens the investigation
/// and C a profile. P or the space bar pauses and goes on. Minus asks for a faster rate and plus
/// for a slower one, with or without the shift key. A question mark or H shows the help. M changes
/// only how things are drawn, and any other key nothing.
pub proof fn dashboard_keys(m: AppModel, after: AppModel, key: KeyEvent, now: u64)
    requires
        !m.show_help,
        m.view == View::Dashboard,
        follows(m, after, action_of(m, key), now),
    ensures
        ({
            let quits = key.code == KeyCode::Esc || key.code == KeyCode::Char('q') || (key.code
                == KeyCode::Char('c') && key.control);
            let detaches = key.code == KeyCode::Char('d');
            let investigates = key.code == KeyCode::Char('i');
            let profiles = key.code == KeyCode::Char('c') && !key.control;
            let pauses = is_either(key, 'p', ' ');
            let faster = is_either(key, '-', '_');
            let slower = is_either(key, '+', '=');
            let helps = is_either(key, '?', 'h');
            &&& quits ==> after.exit == Some(Exit::Quit)
            &&& detaches ==> after.exit == Some(Exit::Detach)
            &&& !quits && !detaches ==> after.exit == m.exit
            &&& investigates <==> after.view == View::Investigate
            &&& profiles <==> after.view == View::Profile
            &&& profiles ==> after.profile_phase is Collecting
            &&& after.paused == (if pauses { !m.paused } else { m.paused })
            &&& faster ==> after.wanted_interval() == stepped(m.wanted_interval(), true)
            &&& slower ==> after.wanted_interval() == stepped(m.wanted_interval(), false)
            &&& !faster && !slower ==> after.pending_interval == m.pending_interval
            &&& after.show_help == helps
            &&& after.runtime == m.runtime
            &&& after.counters == m.counters
            &&& !profiles ==> same_profiles(m, after)
            &&& !quits && !detaches && !investigates && !profiles && !pauses && !faster && !slower
                && !helps ==> after == m
        }),
{
}

/// While investigating, escape or I leads back to the dashboard, R forgets what was found, Q or
/// control with C quits, D detaches, and a question mark or H shows the help. Any other key does
/// nothing.
pub proof fn investigation_keys(m: AppModel, after: AppModel, key: KeyEvent, now: u64)
    requires
        !m.show_help,
        m.view == View::Investigate,
        follows(m, after, action_of(m, key), now),
    ensures
        ({
            let leaves = key.code == KeyCode::Esc || key.code == KeyCode::Char('i');
            let forgets = key.code == KeyCode::Char('r');
            let quits = key.code == KeyCode::Char('q') || (key.code == KeyCode::Char('c')
                && key.control);
            let detaches = key.code == KeyCode::Char('d');
            let helps = is_either(key, '?', 'h');
            &&& after.view == (if leaves { View::Dashboard } else { View::Investigate })
            &&& forgets ==> after.runtime.events_seen == 0 && after.runtime.recent.len() == 0
                && after.runtime.allocations.len() == 0 && after.runtime.exceptions.len() == 0
                && after.runtime.pending is None
            &&& !forgets ==> after.runtime == m.runtime
            &&& quits ==> after.exit == Some(Exit::Quit)
            &&& detaches ==> after.exit == Some(Exit::Detach)
            &&& !quits && !detaches ==> after.exit == m.exit
            &&& after.show_help == helps
            &&& same_readings(m, after)
            &&& same_profiles(m, after)
            &&& !leaves && !forgets && !quits && !detaches && !helps ==> after == m
        }),
{
}

/// On the profile screen, escape or C leads back to the dashboard and abandons a collection. R
/// starts over and W shows or hides waits, but neither while samples are collected. Q or control
/// with C quits and D detaches. Any other key does nothing.
pub proof fn profile_keys(m: AppModel, after: AppModel, key: KeyEvent, now: u64)
    requires
        !m.show_help,
        m.view == View::Profile,
        follows(m, after, action_of(m, key), now),
    ensures
        ({
            let collecting = m.profile_phase is Collecting;
            let leaves = key.code == KeyCode::Esc || (key.code == KeyCode::Char('c')
                && !key.control);
            let again = key.code == KeyCode::Char('r') && !collecting;
            let waits = key.code == KeyCode::Char('w') && !collecting;
            let quits = key.code == KeyCode::Char('q') || (key.code == KeyCode::Char('c')
                && key.control);
            let detaches = key.code == KeyCode::Char('d');
            &&& after.view == (if leaves { View::Dashboard } else { View::Profile })
            &&& leaves ==> !(after.profile_phase is Collecting)
            &&& again ==> after.profile_phase is Collecting && after.profile is None
            &&& !leaves && !again ==> after.profile_phase == m.profile_phase
            &&& after.profile_show_waiting == (if waits {
                !m.profile_show_waiting
            } else {
                m.profile_show_waiting
            })
            &&& after.profile_result == m.profile_result
            &&& quits ==> after.exit == Some(Exit::Quit)
            &&& detaches ==> after.exit == Some(Exit::Detach)
            &&& !quits && !detaches ==> after.exit == m.exit
            &&& !after.show_help
            &&& after.runtime == m.runtime
            &&& same_readings(m, after)
            &&& !leaves && !again && !waits && !quits && !detaches ==> after == m
        }),
{
}

/// A key that is let go does nothing, and neither does any input that is not a key.
pub proof fn only_presses_count(m: AppModel, after: AppModel, key: KeyEvent, now: u64)
    ensures
        !key.pressed && reacts(m, after, AppEvent::Input(Event::Key(key)), now) ==> after == m,
        key.pressed && reacts(m, after, AppEvent::Input(Event::Key(key)), now) ==> follows(
            m,
            after,
            action_of(m, key),
            now,
        ),
        reacts(m, after, AppEvent::Input(Event::Other), now) ==> after == m,
{
}

/// The end of a session is told by its error, where it has one, and leaves all readings to be seen.
/// A failure of an investigation or of a profile is told on its own screen only.
pub proof fn endings_are_told_where_they_belong(
    m: AppModel,
    after: AppModel,
    event: AppEvent,
    now: u64,
)
    requires
        reacts(m, after, event, now),
        event is SessionEnded || event is RuntimeFailed || event is ProfileFailed || event
            is ProfileProgress,
    ensures
        after.counters == m.counters,
        after.providers == m.providers,
        after.samples_seen == m.samples_seen,
        after.view == m.view,
        after.exit == m.exit,
        after.runtime == m.runtime,
        after.profile == m.profile,
        after.profile_result == m.profile_result,
        event matches AppEvent::SessionEnded(error) ==> {
            &&& error is None ==> after.status == StatusModel::Ended
            &&& error is Some ==> after.status == StatusModel::Failed(error->0@)
            &&& same_screens(m, after)
        },
        event matches AppEvent::RuntimeFailed(error) ==> {
            &&& after.runtime_error == Some(error@)
            &&& after.status == m.status
            &&& same_profiles(m, after)
        },
        event matches AppEvent::ProfileFailed(error) ==> {
            &&& after.profile_phase == PhaseModel::Failed(error@)
            &&& after.status == m.status
            &&& after.runtime_error == m.runtime_error
        },
        event matches AppEvent::ProfileProgress(samples) ==> {
            &&& after.profile_samples == samples
            &&& after.profile_phase == m.profile_phase
            &&& after.status == m.status
        },
{
}

/// A profile session is opened while its window is open, finished when the window is up, and closed
/// when its screen is left without one. Otherwise it is left as it is; one whose names are still
/// being read stays open.
pub proof fn profile_sessions_follow_their_window(m: AppModel, open: bool, now: u64)
    ensures
        ({
            let change = wanted_profile(m, open, now);
            let collecting = m.profile_phase is Collecting;
            let up = collecting && now >= m.profile_phase->until;
            &&& change == Change::Open <==> collecting && !open
            &&& change == Change::Finish <==> open && up
            &&& change == Change::Close <==> open && !collecting && m.view != View::Profile
        }),
{
}

/// The selection stays in the list. A step up undoes a step down, except at the end of the list.
pub proof fn selections_stay_in_the_list(place: usize, delta: int, len: int)
    requires
        place < len,
    ensures
        0 <= moved(place, delta, len) < len,
        0 <= place + delta < len ==> moved(place, delta, len) == place + delta,
        place + delta < 0 ==> moved(place, delta, len) == 0,
        place + delta >= len ==> moved(place, delta, len) == len - 1,
        moved(place, 0, len) == place,
{
}

/// Arrows, or K and J, move the selection by one, the page keys by ten, and home and end to the
/// ends of the list. No other key moves it, and no key that is let go. Enter chooses what is
/// selected, if there is anything; escape, Q, or control with C cancels; and everything else stays.
pub proof fn picker_keys(key: KeyEvent, place: usize, len: int)
    requires
        place < len,
    ensures
        ({
            let after = place_after(key, place, len);
            let step = step_of(key, len);
            let up = key.pressed && (key.code == KeyCode::Up || key.code == KeyCode::Char('k'));
            let down = key.pressed && (key.code == KeyCode::Down || key.code == KeyCode::Char('j'));
            let page_up = key.pressed && key.code == KeyCode::PageUp;
            let page_down = key.pressed && key.code == KeyCode::PageDown;
            let home = key.pressed && key.code == KeyCode::Home;
            let end = key.pressed && key.code == KeyCode::End;
            &&& up ==> after == (if place >= 1 { place - 1 } else { 0 })
            &&& down ==> after == (if place + 1 < len { place + 1 } else { len - 1 })
            &&& page_up ==> after == (if place >= 10 { place - 10 } else { 0 })
            &&& page_down ==> after == (if place + 10 < len { place + 10 } else { len - 1 })
            &&& home ==> after == 0
            &&& end ==> after == len - 1
            &&& !up && !down && !page_up && !page_down && !home && !end ==> after == place
            &&& step == Step::Chosen <==> key.pressed && key.code == KeyCode::Enter
            &&& step == Step::Cancelled <==> key.pressed && (key.code == KeyCode::Esc || key.code
                == KeyCode::Char('q') || key.code == KeyCode::Char('c') && key.control)
            &&& step_of(key, 0) != Step::Chosen
        }),
{
}

/// A profile that is done is kept, is shown as done, and is ranked with waits or without, as they
/// are shown. How many samples were counted so far, the readings and the findings stay.
pub proof fn finished_profiles_are_kept(
    m: AppModel,
    after: AppModel,
    result: Box<ProfileResult>,
    now: u64,
)
    requires
        reacts(m, after, AppEvent::ProfileDone(result), now),
    ensures
        after.profile_phase is Done,
        after.profile_result is Some,
        after.profile_result->0.state == result.state@,
        after.profile_result->0.methods == result.methods@.methods,
        after.profile is Some,
        after.profile->0.working_samples + after.profile->0.waiting_samples
            == result.state@.usable(),
        after.profile_show_waiting == m.profile_show_waiting,
        after.profile_samples == m.profile_samples,
        after.view == m.view,
        after.runtime == m.runtime,
        same_readings(m, after),
{
}

} // verus!
