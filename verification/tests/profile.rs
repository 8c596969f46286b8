//! CPU profiles: method tables, samples and their ranking.
use countercow::nettrace::blocks::NettraceParser;
use countercow::nettrace::fastserial::{tag, NETTRACE_MAGIC, SERIALIZER_HEADER};
use countercow::nettrace::reader::StreamReader;
use countercow::profile::methods::{decode_method, Method, MethodTable};
use countercow::profile::run::{collect, is_method_event, ProfileCollector};
use countercow::profile::session::{
    event_id, trace_config, SampleType, RUNDOWN_PROVIDER, RUNTIME_PROVIDER, SAMPLE_PROFILER,
};
use countercow::profile::state::{
    is_wait_frame, HotMethod, HotProfile, ProfileState, NATIVE_LABEL,
};

/// A method's own share of all usable samples.
fn self_percent(method: &HotMethod, hot: &HotProfile) -> f64 {
    method.self_samples as f64 / hot.denominator as f64 * 100.0
}

/// The share of a method and what it calls.
fn total_percent(method: &HotMethod, hot: &HotProfile) -> f64 {
    method.total_samples as f64 / hot.denominator as f64 * 100.0
}

/// Share of attributable samples that found a thread parked.
fn waiting_percent(hot: &HotProfile) -> f64 {
    let total = hot.working_samples + hot.waiting_samples;
    if total == 0 {
        0.0
    } else {
        hot.waiting_samples as f64 / total as f64 * 100.0
    }
}

// Method tables

fn method(start: u64, size: u32, name: &str) -> Method {
    Method {
        start_address: start,
        size,
        namespace: "Ns".into(),
        name: name.into(),
        signature: "()".into(),
    }
}

fn table_of(methods: Vec<Method>) -> MethodTable {
    let mut table = MethodTable::new();
    for m in methods {
        table.insert(m);
    }
    table.finish();
    table
}

#[test]
fn resolves_an_address_inside_a_method() {
    let table = table_of(vec![method(1000, 100, "A"), method(2000, 100, "B")]);
    assert_eq!(table.resolve(1000).unwrap().name, "A");
    assert_eq!(table.resolve(1050).unwrap().name, "A");
    assert_eq!(table.resolve(2099).unwrap().name, "B");
}

#[test]
fn addresses_outside_every_method_resolve_to_nothing() {
    // Native frames are normal; guessing at them would be worse than admitting ignorance.
    let table = table_of(vec![method(1000, 100, "A"), method(2000, 100, "B")]);
    assert!(table.resolve(999).is_none(), "before the first method");
    assert!(table.resolve(1100).is_none(), "in the gap between methods");
    assert!(table.resolve(5000).is_none(), "past the last method");
}

#[test]
fn boundaries_are_half_open() {
    let table = table_of(vec![method(1000, 100, "A")]);
    assert!(table.resolve(1000).is_some(), "start is inclusive");
    assert!(table.resolve(1099).is_some());
    assert!(table.resolve(1100).is_none(), "start + size is exclusive");
}

#[test]
fn insertion_order_does_not_matter() {
    let table =
        table_of(vec![method(3000, 10, "C"), method(1000, 10, "A"), method(2000, 10, "B")]);
    assert_eq!(table.resolve(1005).unwrap().name, "A");
    assert_eq!(table.resolve(2005).unwrap().name, "B");
    assert_eq!(table.resolve(3005).unwrap().name, "C");
}

#[test]
fn zero_length_methods_are_rejected() {
    let mut table = MethodTable::new();
    table.insert(method(1000, 0, "Empty"));
    table.finish();
    assert!(table.is_empty());
    assert!(table.resolve(1000).is_none());
}

#[test]
fn qualified_name_handles_a_missing_namespace() {
    let mut global = method(0, 1, "Main");
    global.namespace = String::new();
    assert_eq!(global.qualified_name(), "Main");
    assert_eq!(method(0, 1, "Run").qualified_name(), "Ns.Run");
}

#[test]
fn an_empty_table_resolves_nothing_without_panicking() {
    let table = table_of(vec![]);
    assert!(table.resolve(1234).is_none());
}

// Events

#[test]
fn method_events_are_recognised_from_both_providers() {
    // Methods jitted during the session come from the runtime provider; everything already loaded
    // arrives in the rundown.
    assert!(is_method_event(RUNTIME_PROVIDER, 143));
    assert!(is_method_event(RUNDOWN_PROVIDER, 144));
    assert!(is_method_event(RUNDOWN_PROVIDER, 141));
}

#[test]
fn other_providers_and_ids_are_not_mistaken_for_methods() {
    assert!(!is_method_event(SAMPLE_PROFILER, event_id::THREAD_SAMPLE));
    assert!(!is_method_event("System.Runtime", 143));
    assert!(!is_method_event(RUNTIME_PROVIDER, 1));
    assert!(!is_method_event(RUNTIME_PROVIDER, 150));
}

#[test]
fn rundown_is_requested_because_names_depend_on_it() {
    let config = trace_config();
    assert!(config.request_rundown, "without this, frames are bare addresses");
}

#[test]
fn sample_types_decode_from_the_four_byte_payload() {
    // Captured from a live runtime: a thread parked in a wait.
    assert_eq!(SampleType::from_payload(&[0x01, 0, 0, 0]), SampleType::External);
    assert_eq!(SampleType::from_payload(&[0x02, 0, 0, 0]), SampleType::Managed);
    assert_eq!(SampleType::from_payload(&[0x00, 0, 0, 0]), SampleType::Error);
}

#[test]
fn a_truncated_sample_payload_is_not_mistaken_for_managed() {
    assert!(!matches!(SampleType::from_payload(&[]), SampleType::Managed));
    assert!(!matches!(SampleType::from_payload(&[2, 0]), SampleType::Managed));
}

#[test]
fn subscribes_to_the_profiler_and_the_jit() {
    let config = trace_config();
    let names: Vec<&str> = config.providers.iter().map(|p| p.name.as_str()).collect();
    assert!(names.contains(&SAMPLE_PROFILER));
    assert!(names.contains(&RUNTIME_PROVIDER));
}

// Ranking

fn table() -> MethodTable {
    let mut table = MethodTable::new();
    for (start, name) in [(1000u64, "Work"), (2000, "Helper"), (3000, "Main")] {
        table.insert(Method {
            start_address: start,
            size: 100,
            namespace: "App".into(),
            name: name.into(),
            signature: "()".into(),
        });
    }
    table.finish();
    table
}

#[test]
fn the_innermost_frame_gets_the_self_time() {
    let mut state = ProfileState::new();
    // Main -> Helper -> Work, innermost first.
    for _ in 0..10 {
        state.record_stack(&[1050, 2050, 3050]);
    }

    let hot = state.hot_methods(&table(), 10, false);
    assert_eq!(hot.rows[0].name, "App.Work");
    assert_eq!(hot.rows[0].self_samples, 10);
    assert_eq!(self_percent(&hot.rows[0], &hot), 100.0);

    // The callers get total time but no self time.
    let main = hot.rows.iter().find(|m| m.name == "App.Main").unwrap();
    assert_eq!(main.self_samples, 0);
    assert_eq!(main.total_samples, 10);
    assert_eq!(total_percent(main, &hot), 100.0);
}

#[test]
fn ranking_is_by_self_time_not_total() {
    // Main is on every stack but does no work itself; it must not top the list.
    let mut state = ProfileState::new();
    for _ in 0..5 {
        state.record_stack(&[1050, 3050]);
    }
    for _ in 0..3 {
        state.record_stack(&[2050, 3050]);
    }

    let hot = state.hot_methods(&table(), 10, false).rows;
    assert_eq!(hot[0].name, "App.Work", "5 self samples");
    assert_eq!(hot[1].name, "App.Helper", "3 self samples");
    assert_eq!(hot[2].name, "App.Main", "8 total, 0 self");
}

#[test]
fn recursion_counts_once_per_stack() {
    // Work calling itself should not report 300% total.
    let mut state = ProfileState::new();
    state.record_stack(&[1050, 1050, 1050, 3050]);

    let hot = state.hot_methods(&table(), 10, false);
    let work = hot.rows.iter().find(|m| m.name == "App.Work").unwrap();
    assert_eq!(work.total_samples, 1);
    assert_eq!(total_percent(work, &hot), 100.0);
}

#[test]
fn different_addresses_of_a_method_each_count() {
    // Samples are counted per address: one stack through two places of a method is two of its
    // total, and one of its self time.
    let mut state = ProfileState::new();
    state.record_stack(&[1010, 1090, 3050]);

    let hot = state.hot_methods(&table(), 10, false).rows;
    assert_eq!((hot[0].name.as_str(), hot[0].self_samples, hot[0].total_samples), ("App.Work", 1, 2));
}

#[test]
fn frames_in_the_same_method_aggregate() {
    // Two different addresses inside one method are one method.
    let mut state = ProfileState::new();
    state.record_stack(&[1010]);
    state.record_stack(&[1090]);

    let hot = state.hot_methods(&table(), 10, false).rows;
    assert_eq!(hot.len(), 1);
    assert_eq!(hot[0].name, "App.Work");
    assert_eq!(hot[0].self_samples, 2);
}

#[test]
fn unresolvable_addresses_are_labelled_not_dropped() {
    let mut state = ProfileState::new();
    for _ in 0..4 {
        state.record_stack(&[999_999]);
    }
    state.record_stack(&[1050]);

    let hot = state.hot_methods(&table(), 10, false);
    let native = hot.rows.iter().find(|m| m.name == NATIVE_LABEL).expect("native bucket");
    assert_eq!(native.self_samples, 4);
    assert_eq!(self_percent(native, &hot), 80.0);
}

#[test]
fn missing_and_empty_stacks_are_counted_but_not_charged_to_anyone() {
    let mut state = ProfileState::new();
    state.record_stack(&[1050]);
    state.record_missing_stack();
    state.record_stack(&[]);

    assert_eq!(state.samples, 3);
    assert_eq!(state.unresolved_stacks, 1);
    assert_eq!(state.empty_stacks, 1);
    assert_eq!(state.usable_samples(), 1);

    // The one usable sample is 100% of what could be attributed.
    let hot = state.hot_methods(&table(), 10, false);
    assert_eq!(self_percent(&hot.rows[0], &hot), 100.0);
}

#[test]
fn a_profile_with_no_usable_samples_does_not_divide_by_zero() {
    let mut state = ProfileState::new();
    state.record_missing_stack();
    assert_eq!(state.usable_samples(), 0);
    let hot = state.hot_methods(&table(), 10, false);
    assert!(hot.rows.is_empty());
    assert_eq!(hot.denominator, 1);
}

#[test]
fn the_limit_is_respected() {
    let mut state = ProfileState::new();
    state.record_stack(&[1050]);
    state.record_stack(&[2050]);
    state.record_stack(&[3050]);
    assert_eq!(state.hot_methods(&table(), 2, false).rows.len(), 2);
}

/// A table containing one real method and one blocking primitive.
fn table_with_wait() -> MethodTable {
    let mut table = MethodTable::new();
    table.insert(Method {
        start_address: 1000,
        size: 100,
        namespace: "App".into(),
        name: "Work".into(),
        signature: "()".into(),
    });
    table.insert(Method {
        start_address: 4000,
        size: 100,
        namespace: "System.Threading".into(),
        name: "Monitor.Wait".into(),
        signature: "()".into(),
    });
    table.finish();
    table
}

#[test]
fn parked_threads_are_excluded_from_the_ranking_by_default() {
    // Nine samples of a thread asleep, one of real work. Unfiltered, the sleeping thread would top
    // the list at 90%.
    let mut state = ProfileState::new();
    for _ in 0..9 {
        state.record_stack(&[4050]);
    }
    state.record_stack(&[1050]);

    let hot = state.hot_methods(&table_with_wait(), 10, false);
    assert_eq!(hot.rows.len(), 1);
    assert_eq!(hot.rows[0].name, "App.Work", "only the working method survives");
    assert_eq!(hot.working_samples, 1);
    assert_eq!(hot.waiting_samples, 9);
    assert_eq!(waiting_percent(&hot), 90.0);
    // Percentages are shares of all sampled time, so the single working sample reads as 10% of the
    // process, not 100% of the work. That keeps self and total on one scale.
    assert_eq!(self_percent(&hot.rows[0], &hot), 10.0);
}

#[test]
fn a_method_on_every_stack_cannot_exceed_one_hundred_percent() {
    // Thread entry points sit under everything. With a filtered denominator they would report
    // several hundred percent.
    let mut state = ProfileState::new();
    for _ in 0..9 {
        state.record_stack(&[4050, 1050]);
    }
    state.record_stack(&[1050]);

    let hot = state.hot_methods(&table_with_wait(), 10, false);
    let work = hot.rows.iter().find(|m| m.name == "App.Work").unwrap();
    assert!(total_percent(work, &hot) <= 100.0, "got {}%", total_percent(work, &hot));
    assert_eq!(total_percent(work, &hot), 100.0, "Work is on every stack");
}

#[test]
fn parked_threads_can_be_shown_on_request() {
    let mut state = ProfileState::new();
    for _ in 0..9 {
        state.record_stack(&[4050]);
    }
    state.record_stack(&[1050]);

    let hot = state.hot_methods(&table_with_wait(), 10, true);
    assert_eq!(hot.rows.len(), 2);
    assert_eq!(hot.rows[0].name, "System.Threading.Monitor.Wait");
    assert_eq!(self_percent(&hot.rows[0], &hot), 90.0);
    assert_eq!(hot.waiting_samples, 0, "nothing was filtered out");
}

#[test]
fn spin_waits_count_as_work_because_they_burn_cpu() {
    assert!(!is_wait_frame("System.Threading.Thread.LongSpinWait"));
    assert!(!is_wait_frame("System.Threading.SpinWait.SpinOnce"));
    assert!(is_wait_frame("System.Threading.Monitor.Wait"));
}

#[test]
fn a_method_merely_named_wait_is_not_treated_as_blocking() {
    // Matching is exact, so application code is never silently hidden.
    assert!(!is_wait_frame("MyApp.Orders.WaitForCustomer"));
    assert!(!is_wait_frame("System.Threading.Monitor.WaitHelper"));
}

#[test]
fn waiting_percent_of_nothing_is_zero() {
    assert_eq!(waiting_percent(&HotProfile::default()), 0.0);
}

#[test]
fn state_reset_clears_everything() {
    let mut state = ProfileState::new();
    state.record_stack(&[1050]);
    assert!(!state.is_empty());
    state.reset();
    assert!(state.is_empty());
    assert!(state.hot_methods(&table(), 10, false).rows.is_empty());
}

// A whole session

fn wstr(s: &str) -> Vec<u8> {
    let mut out = Vec::new();
    for unit in s.encode_utf16() {
        out.extend_from_slice(&unit.to_le_bytes());
    }
    out.extend_from_slice(&[0, 0]);
    out
}

fn object_header(name: &str) -> Vec<u8> {
    let mut out =
        vec![tag::BEGIN_PRIVATE_OBJECT, tag::BEGIN_PRIVATE_OBJECT, tag::NULL_REFERENCE];
    out.extend_from_slice(&4i32.to_le_bytes());
    out.extend_from_slice(&4i32.to_le_bytes());
    out.extend_from_slice(&(name.len() as i32).to_le_bytes());
    out.extend_from_slice(name.as_bytes());
    out.push(tag::END_OBJECT);
    out
}

fn push_raw(stream: &mut Vec<u8>, name: &str, content: &[u8]) {
    stream.extend(object_header(name));
    stream.extend_from_slice(&(content.len() as i32).to_le_bytes());
    while stream.len() % 4 != 0 {
        stream.push(0);
    }
    stream.extend_from_slice(content);
    stream.push(tag::END_OBJECT);
}

fn push_block(stream: &mut Vec<u8>, name: &str, rows: &[u8]) {
    let mut content = Vec::new();
    content.extend_from_slice(&20u16.to_le_bytes());
    content.extend_from_slice(&1u16.to_le_bytes());
    content.extend_from_slice(&[0; 16]);
    content.extend_from_slice(rows);
    push_raw(stream, name, &content);
}

/// A row of an event that was raised from a stack.
fn row(metadata_id: u8, stack_id: u8, payload: &[u8]) -> Vec<u8> {
    let mut row = vec![0b1000_1001u8, metadata_id, stack_id, 1, payload.len() as u8];
    row.extend_from_slice(payload);
    row
}

fn record(id: u32, provider: &str, event_id: i32) -> Vec<u8> {
    let mut out = id.to_le_bytes().to_vec();
    out.extend(wstr(provider));
    out.extend_from_slice(&event_id.to_le_bytes());
    out.extend(wstr(""));
    out.extend_from_slice(&[0; 16]);
    out.extend_from_slice(&0i32.to_le_bytes());
    out
}

fn method_payload(start: u64, name: &str) -> Vec<u8> {
    let mut out = vec![0u8; 16];
    out.extend_from_slice(&start.to_le_bytes());
    out.extend_from_slice(&100u32.to_le_bytes());
    out.extend_from_slice(&[0; 8]);
    out.extend(wstr("W"));
    out.extend(wstr(name));
    out.extend(wstr("()"));
    out
}

#[test]
fn a_method_record_is_decoded() {
    let method = decode_method(&method_payload(1000, "Mix")).unwrap();
    assert_eq!((method.start_address, method.size), (1000, 100));
    assert_eq!(method.qualified_name(), "W.Mix");
    assert!(method.contains(1099) && !method.contains(1100));
    assert!(decode_method(&method_payload(1000, "Mix")[..20]).is_none());
}

/// The start of a session on a 64-bit process, with the records of samples (1) and methods (2).
fn session() -> Vec<u8> {
    let mut stream = NETTRACE_MAGIC.to_vec();
    stream.extend_from_slice(&20i32.to_le_bytes());
    stream.extend_from_slice(SERIALIZER_HEADER);
    stream.extend(object_header("Trace"));
    stream.extend_from_slice(&[0; 32]);
    stream.extend_from_slice(&8i32.to_le_bytes());
    stream.extend_from_slice(&[0; 12]);
    stream.push(tag::END_OBJECT);

    let mut records = row(0, 0, &record(1, SAMPLE_PROFILER, event_id::THREAD_SAMPLE));
    records.extend(row(0, 0, &record(2, RUNDOWN_PROVIDER, 144)));
    push_block(&mut stream, "MetadataBlock", &records);
    stream
}

/// A block of stacks with consecutive ids.
fn push_stacks(stream: &mut Vec<u8>, first: u32, stacks: &[&[u64]]) {
    let mut content = first.to_le_bytes().to_vec();
    content.extend_from_slice(&(stacks.len() as u32).to_le_bytes());
    for frames in stacks {
        content.extend_from_slice(&(frames.len() as u32 * 8).to_le_bytes());
        for frame in *frames {
            content.extend_from_slice(&frame.to_le_bytes());
        }
    }
    push_raw(stream, "StackBlock", &content);
}

/// A block of samples of managed code, by stack id.
fn push_samples(stream: &mut Vec<u8>, ids: &[u8]) {
    let rows: Vec<u8> = ids.iter().flat_map(|id| row(1, *id, &[2, 0, 0, 0])).collect();
    push_block(stream, "EventBlock", &rows);
}

fn push_methods(stream: &mut Vec<u8>) {
    let mut methods = row(2, 0, &method_payload(2000, "Checksum"));
    methods.extend(row(2, 0, &method_payload(1000, "Mix")));
    push_block(stream, "EventBlock", &methods);
}

/// The rows of the ranking a whole session comes to.
fn ranking(mut stream: Vec<u8>) -> Vec<(String, u64, u128)> {
    stream.push(tag::NULL_REFERENCE);
    let parser = NettraceParser::new(StreamReader::new(stream)).unwrap();
    let result = collect(parser).unwrap();
    let hot = result.state.hot_methods(&result.methods, 10, false);
    hot.rows.into_iter().map(|m| (m.name, m.self_samples, m.total_samples)).collect()
}

#[test]
fn a_session_becomes_a_ranking() {
    let mut stream = session();
    push_stacks(&mut stream, 1, &[&[1010, 2010], &[2020]]);
    push_samples(&mut stream, &[1, 1, 2, 9]);
    push_methods(&mut stream);
    stream.push(tag::NULL_REFERENCE);

    let parser = NettraceParser::new(StreamReader::new(stream)).unwrap();
    let mut collector = ProfileCollector::new(parser);
    let mut seen = 0;
    while let Some(progress) = collector.step().unwrap() {
        assert!(progress.samples >= seen);
        seen = progress.samples;
    }
    assert_eq!(seen, 4);
    let result = collector.into_result();
    assert_eq!(result.state.samples, 4);
    assert_eq!(result.state.unresolved_stacks, 1);
    assert_eq!(result.methods.len(), 2);

    let hot = result.state.hot_methods(&result.methods, 10, false);
    let rows: Vec<(&str, u64, u128)> =
        hot.rows.iter().map(|m| (m.name.as_str(), m.self_samples, m.total_samples)).collect();
    assert_eq!(rows, vec![("W.Mix", 2, 2), ("W.Checksum", 1, 3)]);
}

#[test]
fn recycled_stack_ids_mean_the_stack_of_their_own_stretch() {
    // The id is used before and behind a sequence point, for two different stacks.
    let mut stream = session();
    push_stacks(&mut stream, 1, &[&[1010]]);
    push_samples(&mut stream, &[1, 1]);
    push_raw(&mut stream, "SPBlock", &[0; 8]);
    push_stacks(&mut stream, 1, &[&[2010]]);
    push_samples(&mut stream, &[1]);
    push_methods(&mut stream);
    assert_eq!(
        ranking(stream),
        vec![("W.Mix".to_string(), 2, 2), ("W.Checksum".to_string(), 1, 1)]
    );
}

#[test]
fn stacks_may_lag_the_samples_that_refer_to_them() {
    let mut stream = session();
    push_samples(&mut stream, &[1]);
    push_stacks(&mut stream, 1, &[&[1010]]);
    push_raw(&mut stream, "SPBlock", &[0; 8]);
    push_samples(&mut stream, &[1, 1]);
    push_stacks(&mut stream, 1, &[&[2010]]);
    push_methods(&mut stream);
    assert_eq!(
        ranking(stream),
        vec![("W.Checksum".to_string(), 2, 2), ("W.Mix".to_string(), 1, 1)]
    );
}

#[test]
fn a_session_that_breaks_off_is_an_error() {
    let mut stream = session();
    push_samples(&mut stream, &[1]);
    let parser = NettraceParser::new(StreamReader::new(stream)).unwrap();
    assert!(collect(parser).is_err());
}
