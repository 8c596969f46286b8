//! The state of the dashboard, its keys and its sessions.
use countercow::app::{
    format_uptime, App, Exit, ProfilePhase, Reading, Status, View, HISTORY_CAPACITY, SECOND,
};
use countercow::counters::catalog;
use countercow::counters::sample::{CounterKind, CounterSample};
use countercow::ipc::commands::ProcessInfo;
use countercow::ipc::discovery::DotnetProcess;
use countercow::nettrace::payload::Number;
use countercow::profile::methods::{Method, MethodTable};
use countercow::profile::run::ProfileResult;
use countercow::profile::state::ProfileState;
use countercow::rates::{intervals, nearest_interval, step, Seconds};
use countercow::runtime::events::{
    AllocationKind, AllocationTick, ContentionStop, ExceptionThrown, GcHeapStats, GcReason,
    GcStart, GcType,
};
use countercow::runtime::session::RuntimeEvent;
use countercow::runtime::state::Pause;
use countercow::ui::gradient::Depth;
use countercow::ui::keys::{
    decide, handle_event, handle_key, has_room, Action, AppEvent, Event, KeyCode, KeyEvent,
};
use countercow::ui::sessions::{
    after_restart, counters_ended, investigation_change, investigation_ended,
    investigation_failed, is_worth_a_note, profile_change, profile_failed, Change, Restart,
};
use countercow::ui::theme::Theme;

fn seconds(v: f64) -> Seconds {
    Seconds { bits: v.to_bits() }
}

fn number(v: f64) -> Number {
    Number::Double(v.to_bits())
}

fn process() -> DotnetProcess {
    DotnetProcess {
        pid: 1,
        socket: b"/tmp/socket".to_vec(),
        name: "Test".into(),
        command: "test".into(),
        start_key_verified: true,
    }
}

fn app() -> App {
    App::new(process(), ProcessInfo::default(), seconds(1.0), 0)
}

fn theme() -> Theme {
    Theme::new(Depth::True)
}

fn sample(provider: &str, name: &str, value: f64) -> CounterSample {
    CounterSample {
        provider: provider.into(),
        name: name.into(),
        display_name: name.into(),
        display_units: String::new(),
        value: number(value),
        kind: CounterKind::Mean,
        interval_sec: number(1.0),
        rate_time_scale: None,
        timestamp: 0,
    }
}

/// The values of a counter's history.
fn history(app: &App, provider: &str, name: &str) -> Vec<Number> {
    app.history(provider, name).iter().map(|reading| reading.value).collect()
}

fn values(of: &[f64]) -> Vec<Number> {
    of.iter().map(|v| number(*v)).collect()
}

// Recording

#[test]
fn records_history_in_arrival_order() {
    let mut app = app();
    for v in [1.0, 2.0, 3.0] {
        app.record(sample(catalog::SYSTEM_RUNTIME, "cpu-usage", v), 7);
    }
    assert_eq!(history(&app, catalog::SYSTEM_RUNTIME, "cpu-usage"), values(&[1.0, 2.0, 3.0]));
    assert_eq!(app.value(catalog::SYSTEM_RUNTIME, "cpu-usage"), Some(number(3.0)));
    assert_eq!(app.status, Status::Live);
}

#[test]
fn readings_carry_their_arrival() {
    let mut app = app();
    app.record(sample("P", "c", 1.0), 10);
    app.record(sample("P", "c", 2.0), 30);
    assert_eq!(
        app.history("P", "c"),
        &[Reading { at: 10, value: number(1.0) }, Reading { at: 30, value: number(2.0) }]
    );
    assert_eq!(app.last_sample_at, Some(30));
}

#[test]
fn history_is_bounded_and_drops_oldest_first() {
    let mut app = app();
    for i in 0..HISTORY_CAPACITY + 50 {
        app.record(sample(catalog::SYSTEM_RUNTIME, "cpu-usage", i as f64), i as u64);
    }
    let history = history(&app, catalog::SYSTEM_RUNTIME, "cpu-usage");
    assert_eq!(history.len(), HISTORY_CAPACITY);
    assert_eq!(history[0], number(50.0), "oldest samples are discarded");
    assert_eq!(history[history.len() - 1], number((HISTORY_CAPACITY + 49) as f64));
}

#[test]
fn counters_from_different_providers_do_not_collide() {
    // "current-requests" exists on both Hosting and System.Net.Http.
    let mut app = app();
    app.record(sample(catalog::ASPNET_HOSTING, "current-requests", 5.0), 0);
    app.record(sample(catalog::NET_HTTP, "current-requests", 9.0), 0);

    assert_eq!(app.value(catalog::ASPNET_HOSTING, "current-requests"), Some(number(5.0)));
    assert_eq!(app.value(catalog::NET_HTTP, "current-requests"), Some(number(9.0)));
    assert_eq!(app.counter_count(), 2);
}

#[test]
fn pausing_freezes_history_but_keeps_the_session_live() {
    let mut app = app();
    app.record(sample(catalog::SYSTEM_RUNTIME, "cpu-usage", 1.0), 1);
    app.paused = true;
    app.record(sample(catalog::SYSTEM_RUNTIME, "cpu-usage", 2.0), 2);

    assert_eq!(history(&app, catalog::SYSTEM_RUNTIME, "cpu-usage"), values(&[1.0]));
    assert_eq!(app.samples_seen, 2, "still counting arrivals");
    assert!(app.last_sample_at.is_some());
}

#[test]
fn aspnet_is_detected_from_arriving_events_only() {
    let mut app = app();
    app.record(sample(catalog::SYSTEM_RUNTIME, "cpu-usage", 1.0), 0);
    assert!(!app.is_aspnet(), "runtime counters alone prove nothing");

    app.record(sample(catalog::ASPNET_HOSTING, "total-requests", 0.0), 0);
    assert!(app.is_aspnet());
}

#[test]
fn kestrel_alone_also_identifies_an_aspnet_host() {
    let mut app = app();
    app.record(sample(catalog::KESTREL, "total-connections", 0.0), 0);
    assert!(app.is_aspnet());
}

#[test]
fn missing_counters_have_no_readings() {
    let app = app();
    assert!(app.latest(catalog::SYSTEM_RUNTIME, "cpu-usage").is_none());
    assert!(app.history(catalog::SYSTEM_RUNTIME, "cpu-usage").is_empty());
    assert!(app.series(catalog::SYSTEM_RUNTIME, "cpu-usage").is_none());
    assert_eq!(app.value(catalog::SYSTEM_RUNTIME, "cpu-usage"), None);
}

#[test]
fn providers_are_listed_in_order_and_once() {
    let mut app = app();
    for provider in ["b", "a", "c", "b"] {
        app.record(sample(provider, "x", 0.0), 0);
    }
    assert_eq!(app.providers(), &vec!["a".to_string(), "b".to_string(), "c".to_string()]);
    assert!(app.has_provider("c") && !app.has_provider("d"));
}

// Rates

#[test]
fn the_rate_steps_along_the_ladder_in_both_directions() {
    let mut faster = app();
    assert_eq!(faster.interval, seconds(1.0));
    faster.step_interval(true);
    assert_eq!(faster.take_pending_interval(), Some(seconds(0.5)), "- is faster");

    let mut slower = app();
    slower.step_interval(false);
    assert_eq!(slower.take_pending_interval(), Some(seconds(2.0)), "+ is slower");
}

#[test]
fn repeated_presses_step_from_the_pending_rate_not_the_live_one() {
    let mut app = app();
    app.step_interval(false);
    app.step_interval(false);
    assert_eq!(app.take_pending_interval(), Some(seconds(3.0)), "two rungs, not one");
}

#[test]
fn the_ladder_stops_at_both_ends_without_asking_for_a_restart() {
    let mut app = app();
    // Step the way the event loop does: ask, then adopt what the new session runs at.
    for _ in 0..10 {
        app.step_interval(true);
        if let Some(interval) = app.take_pending_interval() {
            app.apply_interval(interval);
        }
    }
    assert_eq!(app.interval, intervals()[0]);

    // Already at the fastest rung: nothing to apply, so no session churn.
    app.step_interval(true);
    assert_eq!(app.take_pending_interval(), None);
}

#[test]
fn a_rate_that_could_not_be_applied_leaves_the_next_step_where_it_was() {
    // The event loop drops the request when the session will not restart, so the next press must
    // step from the rate that is really running rather than from the one that failed.
    let mut app = app();
    app.step_interval(true);
    assert_eq!(app.take_pending_interval(), Some(seconds(0.5)));

    app.step_interval(true);
    assert_eq!(app.take_pending_interval(), Some(seconds(0.5)), "still one rung below 1s");
}

#[test]
fn an_off_ladder_interval_snaps_to_the_nearest_rung() {
    // --interval 0.7 sits between rungs; stepping slower should reach 1.0, not 1.4.
    let mut app = App::new(process(), ProcessInfo::default(), seconds(0.7), 0);
    app.step_interval(false);
    assert_eq!(app.take_pending_interval(), Some(seconds(1.0)));
}

#[test]
fn applying_a_rate_clears_history_but_keeps_the_current_readings() {
    let mut app = app();
    for v in [1.0, 2.0, 3.0] {
        app.record(sample(catalog::SYSTEM_RUNTIME, "cpu-usage", v), 0);
    }

    app.apply_interval(seconds(0.5));
    assert_eq!(app.interval, seconds(0.5));
    assert_eq!(
        history(&app, catalog::SYSTEM_RUNTIME, "cpu-usage"),
        values(&[3.0]),
        "history at the old cadence is dropped, the latest reading is not"
    );
    assert_eq!(app.value(catalog::SYSTEM_RUNTIME, "cpu-usage"), Some(number(3.0)));
}

#[test]
fn a_rate_is_not_adopted_until_it_is_applied() {
    let mut app = app();
    app.step_interval(true);
    assert_eq!(app.interval, seconds(1.0), "the dashboard reports the live rate, not the wanted one");
}

/// The rung closest to a rate, by the distance itself.
fn closest(interval: f64) -> usize {
    let ladder = [0.25, 0.5, 1.0, 2.0, 3.0, 5.0, 10.0f64];
    let mut best = 0;
    for i in 1..ladder.len() {
        let (a, b) = ((ladder[i] - interval).abs(), (ladder[best] - interval).abs());
        if a < b {
            best = i;
        }
    }
    best
}

#[test]
fn the_nearest_rung_is_the_closest_in_value() {
    let mut rates = vec![
        0.0,
        -1.0,
        1e-300,
        0.375,
        0.3750000001,
        0.75,
        1.5,
        2.5,
        4.0,
        7.5,
        60.0,
        1e9,
        1e17,
        1.44e17,
        1.45e17,
        1e300,
        f64::INFINITY,
        f64::NEG_INFINITY,
        f64::NAN,
    ];
    // Distances that round to the same number are equally close.
    for power in 50..60 {
        let rate = (1u64 << power) as f64;
        for bits in [rate.to_bits() - 1, rate.to_bits(), rate.to_bits() + 1] {
            rates.push(f64::from_bits(bits));
        }
        rates.push(rate * 1.5);
    }
    let mut rate = 0.01;
    while rate < 20.0 {
        rates.push(rate);
        rate += 0.013;
    }
    for rate in rates {
        assert_eq!(nearest_interval(seconds(rate)), closest(rate), "{rate}");
    }
}

#[test]
fn the_ladder_holds_the_documented_rates() {
    let ladder: Vec<f64> = intervals().iter().map(|s| f64::from_bits(s.bits)).collect();
    assert_eq!(ladder, vec![0.25, 0.5, 1.0, 2.0, 3.0, 5.0, 10.0]);
    assert_eq!(step(seconds(10.0), false), seconds(10.0));
    assert_eq!(step(step(seconds(3.0), true), false), seconds(3.0));
}

// Times

#[test]
fn uptime_formats_by_magnitude() {
    assert_eq!(format_uptime(9), "9s");
    assert_eq!(format_uptime(75), "1m15s");
    assert_eq!(format_uptime(3_725), "1h02m");
}

#[test]
fn times_are_measured_from_what_the_clock_showed() {
    let mut app = App::new(process(), ProcessInfo::default(), seconds(1.0), 5 * SECOND);
    assert_eq!(app.uptime(8 * SECOND), 3 * SECOND);
    assert_eq!(app.uptime(0), 0, "a clock does not go back");
    assert_eq!(app.quiet_for(8 * SECOND), 3 * SECOND);
    app.record(sample("P", "c", 1.0), 7 * SECOND);
    assert_eq!(app.quiet_for(8 * SECOND), SECOND);
    assert_eq!(app.investigating_for(9 * SECOND), 0);
    app.toggle_investigate(8 * SECOND);
    assert_eq!(app.investigating_for(9 * SECOND), SECOND);
}

// Profiles

/// Addresses chosen so each method occupies an obvious range.
const MIX: u64 = 1_000;
const CHECKSUM: u64 = 2_000;
const ENDPOINT: u64 = 3_000;
const MONITOR_WAIT: u64 = 4_000;

fn methods() -> MethodTable {
    let mut table = MethodTable::new();
    for (start, namespace, name) in [
        (MIX, "Workload", "Mix"),
        (CHECKSUM, "Workload", "Checksum"),
        (ENDPOINT, "Microsoft.AspNetCore.Routing", "EndpointMiddleware.Invoke"),
        (MONITOR_WAIT, "System.Threading", "Monitor.Wait"),
    ] {
        table.insert(Method {
            start_address: start,
            size: 100,
            namespace: namespace.into(),
            name: name.into(),
            signature: "()".into(),
        });
    }
    table.finish();
    table
}

/// A profile shaped like a real one: work under an endpoint, plus idle threads.
fn result() -> ProfileResult {
    let mut state = ProfileState::new();
    // 30 samples deep in Mix, 20 in Checksum itself, both under the endpoint.
    for _ in 0..30 {
        state.record_stack(&[MIX + 10, CHECKSUM + 10, ENDPOINT + 10]);
    }
    for _ in 0..20 {
        state.record_stack(&[CHECKSUM + 20, ENDPOINT + 10]);
    }
    // 50 samples of threads parked in a wait.
    for _ in 0..50 {
        state.record_stack(&[MONITOR_WAIT + 5]);
    }
    ProfileResult { state, methods: methods(), sample_stacks: Vec::new() }
}

fn finished() -> App {
    let mut app = app();
    app.start_profile(0);
    app.finish_profile(result());
    app
}

#[test]
fn the_hottest_method_leads_the_list() {
    let app = finished();
    let hot = app.profile.as_ref().unwrap();

    assert_eq!(hot.rows[0].name, "Workload.Mix", "30 self samples");
    assert_eq!(hot.rows[0].self_samples, 30);
    assert_eq!(hot.rows[1].name, "Workload.Checksum", "20 self samples");
}

#[test]
fn total_time_includes_callees() {
    let app = finished();
    let hot = app.profile.as_ref().unwrap();

    let checksum = hot.rows.iter().find(|m| m.name == "Workload.Checksum").unwrap();
    // Checksum is on 50 stacks: its own 20 plus the 30 where it called Mix.
    assert_eq!(checksum.self_samples, 20);
    assert_eq!(checksum.total_samples, 50);

    // The middleware did no work itself but is under everything.
    let endpoint = hot.rows.iter().find(|m| m.name.contains("EndpointMiddleware")).unwrap();
    assert_eq!(endpoint.self_samples, 0);
    assert_eq!(endpoint.total_samples, 50);
}

#[test]
fn parked_threads_are_hidden_but_counted() {
    let app = finished();
    let hot = app.profile.as_ref().unwrap();

    assert!(
        !hot.rows.iter().any(|m| m.name.contains("Monitor.Wait")),
        "a sleeping thread is not hot code"
    );
    assert_eq!(hot.waiting_samples, 50);
    assert_eq!(hot.working_samples, 50);
    let all = hot.waiting_samples + hot.working_samples;
    assert_eq!(hot.waiting_samples as f64 / all as f64 * 100.0, 50.0);
}

#[test]
fn showing_parked_threads_reranks_without_reprofiling() {
    let mut app = finished();
    let before = app.profile.as_ref().unwrap().rows.len();

    app.toggle_profile_waiting();

    let hot = app.profile.as_ref().unwrap();
    assert!(hot.rows.len() > before, "the wait frame reappears");
    assert_eq!(hot.rows[0].name, "System.Threading.Monitor.Wait", "50 samples, the most of any");
    assert_eq!(hot.waiting_samples, 0);
    // Still finished: toggling must not restart collection.
    assert_eq!(app.profile_phase, ProfilePhase::Done);
}

#[test]
fn starting_a_profile_enters_the_screen_and_the_collecting_phase() {
    let mut app = app();
    assert_eq!(app.view, View::Dashboard);

    app.start_profile(SECOND);
    assert_eq!(app.view, View::Profile);
    assert!(app.profile_collecting());
    assert!(!app.profile_window_elapsed(SECOND), "the window has just opened");
    assert!(app.profile_remaining(SECOND) > 0);
    assert!(!app.profile_window_elapsed(6 * SECOND - 1));
    assert!(app.profile_window_elapsed(6 * SECOND));
    assert_eq!(app.profile_remaining(2 * SECOND), u128::from(4 * SECOND));
    assert_eq!(app.profile_remaining(9 * SECOND), 0);
}

#[test]
fn leaving_mid_collection_cancels_rather_than_leaving_a_session_running() {
    let mut app = app();
    app.start_profile(0);

    app.cancel_profile();
    assert_eq!(app.view, View::Dashboard);
    assert!(!app.profile_collecting(), "the event loop stops the session on this");
    assert_eq!(app.profile_phase, ProfilePhase::Failed("cancelled".into()));
}

#[test]
fn a_finished_profile_keeps_its_example_stacks() {
    let mut app = app();
    app.start_profile(0);
    let stacks = vec![vec![MIX, CHECKSUM, ENDPOINT, 7, 8], vec![1, 2, 3, 4, 5]];
    app.finish_profile(ProfileResult { sample_stacks: stacks.clone(), ..result() });
    app.toggle_profile_waiting();
    assert_eq!(app.profile_result.as_ref().unwrap().sample_stacks, stacks);
}

#[test]
fn re_running_discards_the_previous_result() {
    let mut app = finished();
    assert!(app.profile.is_some());

    app.start_profile(0);
    assert!(app.profile.is_none(), "stale results must not linger under a new run");
    assert!(app.profile_collecting());
}

#[test]
fn a_process_doing_nothing_says_so() {
    let mut app = app();
    app.start_profile(0);
    let mut state = ProfileState::new();
    for _ in 0..40 {
        state.record_stack(&[MONITOR_WAIT + 5]);
    }
    app.finish_profile(ProfileResult { state, methods: methods(), sample_stacks: Vec::new() });
    let hot = app.profile.as_ref().unwrap();
    assert!(hot.rows.is_empty(), "every thread was parked");
    assert_eq!(hot.waiting_samples, 40);
}

// Investigations

fn allocation(name: &str, amount: u64) -> RuntimeEvent {
    RuntimeEvent::Allocation(AllocationTick {
        amount,
        kind: AllocationKind::Small,
        name: name.into(),
        object_size: None,
    })
}

#[test]
fn runtime_events_are_folded_into_the_findings() {
    let mut app = app();
    app.toggle_investigate(0);
    app.record_runtime(allocation("T", 10), 1_000);
    app.record_runtime(RuntimeEvent::SuspendBegin { timestamp: 5 }, 1_000);
    let pause = app.record_runtime(RuntimeEvent::RestartEnd { timestamp: 25 }, 1_000);
    assert_eq!(pause, Some(Pause { ticks: 20, frequency: 1_000 }));
    let start =
        GcStart { count: 1, depth: 2, reason: GcReason::AllocLarge, gc_type: GcType::Blocking };
    app.record_runtime(RuntimeEvent::GcStart(start), 1_000);
    app.record_runtime(RuntimeEvent::HeapStats(GcHeapStats::default()), 1_000);
    app.record_runtime(RuntimeEvent::GcEnd, 1_000);
    app.record_runtime(
        RuntimeEvent::Exception(ExceptionThrown { name: "E".into(), message: "m".into() }),
        1_000,
    );
    app.record_runtime(
        RuntimeEvent::Contention(ContentionStop { duration_ns: 1.0f64.to_bits() }),
        1_000,
    );
    assert_eq!(app.runtime.events_seen, 8);
    assert_eq!(app.runtime.total_allocated_bytes, 10);
    assert_eq!(app.runtime.total_gcs(), 1);
    assert_eq!(app.runtime.total_exceptions, 1);
    assert_eq!(app.runtime.contention.events, 1);
    assert_eq!(app.runtime.recent_collections(1)[0].pause, pause);
}

#[test]
fn leaving_and_returning_keeps_what_was_gathered() {
    // Flicking back to the dashboard should not throw away findings that cost the target CPU.
    let mut app = app();
    app.toggle_investigate(0);
    app.record_runtime(allocation("T", 10), 1_000);
    let allocated = app.runtime.total_allocated_bytes;

    app.toggle_investigate(1);
    assert!(!app.is_investigating());
    app.toggle_investigate(2);

    assert!(app.is_investigating());
    assert_eq!(app.runtime.total_allocated_bytes, allocated);
}

#[test]
fn resetting_clears_the_findings_but_stays_on_the_screen() {
    let mut app = app();
    app.toggle_investigate(0);
    app.record_runtime(allocation("T", 10), 1_000);
    assert!(!app.runtime.is_empty());

    app.runtime.reset();
    assert!(app.runtime.is_empty());
    assert!(app.is_investigating(), "reset should not leave the screen");
}

#[test]
fn room_runs_out_with_the_numbers() {
    let mut app = app();
    app.record_runtime(allocation("T", u64::MAX - 5), 1_000);
    assert!(app.has_room(&allocation("T", 5)));
    assert!(!app.has_room(&allocation("T", 6)));
    let stats = GcHeapStats { gen0_promoted: u64::MAX, gen1_promoted: 1, ..Default::default() };
    // Statistics are added up for the collection in flight, and for nothing else.
    assert!(app.has_room(&RuntimeEvent::HeapStats(stats)));
    app.record_runtime(RuntimeEvent::HeapStats(stats), 1_000);
    assert_eq!(app.runtime.events_seen, 2);
    let start =
        GcStart { count: 1, depth: 0, reason: GcReason::AllocSmall, gc_type: GcType::Blocking };
    app.record_runtime(RuntimeEvent::GcStart(start), 1_000);
    assert!(!app.has_room(&RuntimeEvent::HeapStats(stats)));
    let event = AppEvent::Runtime(Box::new(allocation("T", 6)), 1_000);
    assert!(!has_room(&app, &event));
    assert!(has_room(&app, &AppEvent::SessionEnded(None)));
}

// Keys

fn press(code: KeyCode) -> KeyEvent {
    KeyEvent::new(code, false)
}

#[test]
fn q_and_escape_quit() {
    for code in [KeyCode::Char('q'), KeyCode::Esc] {
        let mut app = app();
        handle_key(&mut app, &mut theme(), press(code), 0);
        assert_eq!(app.exit, Some(Exit::Quit), "{code:?} should quit");
    }
}

#[test]
fn d_detaches_rather_than_quitting() {
    let mut app = app();
    handle_key(&mut app, &mut theme(), press(KeyCode::Char('d')), 0);
    assert_eq!(app.exit, Some(Exit::Detach));
}

#[test]
fn ctrl_c_quits() {
    let mut app = app();
    handle_key(&mut app, &mut theme(), KeyEvent::new(KeyCode::Char('c'), true), 0);
    assert_eq!(app.exit, Some(Exit::Quit));
}

#[test]
fn plain_c_does_not_quit() {
    let mut app = app();
    handle_key(&mut app, &mut theme(), press(KeyCode::Char('c')), 0);
    assert_eq!(app.exit, None);
}

#[test]
fn p_toggles_pause() {
    let mut app = app();
    handle_key(&mut app, &mut theme(), press(KeyCode::Char('p')), 0);
    assert!(app.paused);
    handle_key(&mut app, &mut theme(), press(KeyCode::Char('p')), 0);
    assert!(!app.paused);
}

#[test]
fn m_switches_the_plot_glyphs() {
    let mut theme = theme();
    handle_key(&mut app(), &mut theme, press(KeyCode::Char('m')), 0);
    assert_eq!(theme.plot_name(), "block");
}

#[test]
fn minus_asks_for_a_faster_rate_and_plus_a_slower_one() {
    let mut app = app();
    handle_key(&mut app, &mut theme(), press(KeyCode::Char('-')), 0);
    assert_eq!(app.take_pending_interval(), Some(seconds(0.5)));

    handle_key(&mut app, &mut theme(), press(KeyCode::Char('+')), 0);
    assert_eq!(app.take_pending_interval(), Some(seconds(2.0)));
}

#[test]
fn the_unshifted_faces_of_the_rate_keys_work_too() {
    // Whether the key reports `+` or `=` depends on the shift key, and both should step.
    let mut app = app();
    handle_key(&mut app, &mut theme(), press(KeyCode::Char('=')), 0);
    assert_eq!(app.take_pending_interval(), Some(seconds(2.0)));

    handle_key(&mut app, &mut theme(), press(KeyCode::Char('_')), 0);
    assert_eq!(app.take_pending_interval(), Some(seconds(0.5)));
}

#[test]
fn the_rate_keys_do_nothing_on_the_other_screens() {
    // Those sessions carry no interval, and restarting counters underneath them is pointless.
    let mut app = app();
    app.toggle_investigate(0);
    handle_key(&mut app, &mut theme(), press(KeyCode::Char('-')), 0);
    assert_eq!(app.take_pending_interval(), None);
}

#[test]
fn any_key_dismisses_help() {
    let mut app = app();
    app.show_help = true;
    handle_key(&mut app, &mut theme(), press(KeyCode::Char('x')), 0);
    assert!(!app.show_help);
    // Dismissing must not also act on the key.
    assert_eq!(app.exit, None);
}

#[test]
fn quitting_while_help_is_open_takes_two_presses() {
    let mut app = app();
    app.show_help = true;
    handle_key(&mut app, &mut theme(), press(KeyCode::Char('q')), 0);
    assert_eq!(app.exit, None, "first press only closes help");
    handle_key(&mut app, &mut theme(), press(KeyCode::Char('q')), 0);
    assert_eq!(app.exit, Some(Exit::Quit));
}

#[test]
fn detaching_while_help_is_open_also_takes_two_presses() {
    let mut app = app();
    app.show_help = true;
    handle_key(&mut app, &mut theme(), press(KeyCode::Char('d')), 0);
    assert_eq!(app.exit, None);
    handle_key(&mut app, &mut theme(), press(KeyCode::Char('d')), 0);
    assert_eq!(app.exit, Some(Exit::Detach));
}

#[test]
fn samples_reach_the_app_state() {
    let mut app = app();
    let sample = CounterSample {
        display_name: "CPU Usage".into(),
        display_units: "%".into(),
        ..sample("System.Runtime", "cpu-usage", 12.5)
    };
    handle_event(&mut app, &mut theme(), AppEvent::Sample(Box::new(sample)), 0);
    assert_eq!(app.value("System.Runtime", "cpu-usage"), Some(number(12.5)));
}

#[test]
fn session_end_is_reflected_in_status() {
    let mut clean = app();
    handle_event(&mut clean, &mut theme(), AppEvent::SessionEnded(None), 0);
    assert_eq!(clean.status, Status::Ended);

    let mut failed = app();
    handle_event(
        &mut failed,
        &mut theme(),
        AppEvent::SessionEnded(Some("socket closed".into())),
        0,
    );
    assert_eq!(failed.status, Status::Failed("socket closed".into()));
}

#[test]
fn every_event_reaches_its_part_of_the_state() {
    let mut app = app();
    let mut theme = theme();
    handle_event(&mut app, &mut theme, AppEvent::ProfileProgress(42), 0);
    assert_eq!(app.profile_samples, 42);
    handle_event(&mut app, &mut theme, AppEvent::ProfileFailed("gone".into()), 0);
    assert_eq!(app.profile_phase, ProfilePhase::Failed("gone".into()));
    handle_event(&mut app, &mut theme, AppEvent::ProfileDone(Box::new(result())), 0);
    assert_eq!(app.profile_phase, ProfilePhase::Done);
    assert!(app.profile.is_some());
    handle_event(&mut app, &mut theme, AppEvent::RuntimeFailed("no".into()), 0);
    assert_eq!(app.runtime_error.as_deref(), Some("no"));
    handle_event(&mut app, &mut theme, AppEvent::Runtime(Box::new(allocation("T", 3)), 1), 0);
    assert_eq!(app.runtime.total_allocated_bytes, 3);
    handle_event(&mut app, &mut theme, AppEvent::Input(Event::Other), 0);
    let released = KeyEvent { code: KeyCode::Char('q'), control: false, pressed: false };
    handle_event(&mut app, &mut theme, AppEvent::Input(Event::Key(released)), 0);
    assert_eq!(app.exit, None, "a release does not act");
    handle_event(&mut app, &mut theme, AppEvent::Input(Event::Key(press(KeyCode::Esc))), 0);
    assert_eq!(app.exit, Some(Exit::Quit));
}

#[test]
fn screens_bind_their_own_keys() {
    let mut app = app();
    app.toggle_investigate(0);
    assert_eq!(decide(&app, press(KeyCode::Esc)), Action::ToggleInvestigate);
    assert_eq!(decide(&app, press(KeyCode::Char('r'))), Action::ResetFindings);
    assert_eq!(decide(&app, press(KeyCode::Char('c'))), Action::Nothing);
    app.start_profile(0);
    assert_eq!(decide(&app, press(KeyCode::Char('r'))), Action::Nothing, "still collecting");
    assert_eq!(decide(&app, press(KeyCode::Char('c'))), Action::CancelProfile);
    app.finish_profile(result());
    assert_eq!(decide(&app, press(KeyCode::Char('r'))), Action::StartProfile);
    assert_eq!(decide(&app, press(KeyCode::Char('w'))), Action::ToggleWaiting);
    handle_key(&mut app, &mut theme(), press(KeyCode::Char('w')), 0);
    assert!(app.profile_show_waiting);
    handle_key(&mut app, &mut theme(), press(KeyCode::Esc), 0);
    assert_eq!((app.view, app.exit), (View::Dashboard, None));
}

// Sessions

#[test]
fn the_investigation_session_follows_its_screen() {
    let mut app = app();
    assert_eq!(investigation_change(&app, false), Change::Keep);
    app.toggle_investigate(0);
    assert_eq!(investigation_change(&app, false), Change::Open);
    assert_eq!(investigation_change(&app, true), Change::Keep);
    app.toggle_investigate(0);
    assert_eq!(investigation_change(&app, true), Change::Close);
}

#[test]
fn the_profile_session_lasts_as_long_as_its_window() {
    let mut app = app();
    assert_eq!(profile_change(&mut app, false, 0), Change::Keep);
    app.start_profile(0);
    assert_eq!(profile_change(&mut app, false, 0), Change::Open);
    assert_eq!(profile_change(&mut app, true, SECOND), Change::Keep);
    assert_eq!(profile_change(&mut app, true, 5 * SECOND), Change::Finish);
    assert_eq!(app.profile_phase, ProfilePhase::Resolving);
    assert_eq!(profile_change(&mut app, false, 5 * SECOND), Change::Keep);

    app.start_profile(0);
    app.cancel_profile();
    assert_eq!(profile_change(&mut app, true, 0), Change::Close);
}

#[test]
fn sessions_that_cannot_be_opened_are_reported() {
    let mut app = app();
    investigation_failed(&mut app, "refused".into());
    assert_eq!(app.runtime_error.as_deref(), Some("refused"));
    profile_failed(&mut app, "refused".into());
    assert_eq!(app.profile_phase, ProfilePhase::Failed("refused".into()));
}

#[test]
fn replacing_the_counter_session_is_taken_note_of() {
    let mut app = app();
    after_restart(&mut app, seconds(0.5), "0.5", Restart::NotClosed("gone".into()));
    assert_eq!(
        app.status,
        Status::Failed("could not close the counter session: gone".into())
    );
    after_restart(&mut app, seconds(0.5), "0.5", Restart::NotOpened("gone".into()));
    assert_eq!(app.status, Status::Failed("could not restart counters at 0.5s: gone".into()));
    assert_eq!(app.interval, seconds(1.0), "nothing was applied");
    after_restart(&mut app, seconds(0.5), "0.5", Restart::Done);
    assert_eq!(app.interval, seconds(0.5));
}

#[test]
fn silenced_sessions_end_without_a_word() {
    assert!(counters_ended(true, Some("x".into())).is_none());
    assert!(matches!(counters_ended(false, None), Some(AppEvent::SessionEnded(None))));
    assert!(investigation_ended(true, Some("x".into())).is_none());
    assert!(investigation_ended(false, None).is_none());
    assert!(matches!(
        investigation_ended(false, Some("x".into())),
        Some(AppEvent::RuntimeFailed(_))
    ));
    let mut app = app();
    assert!(is_worth_a_note(&app));
    app.status = Status::Ended;
    assert!(!is_worth_a_note(&app));
}
