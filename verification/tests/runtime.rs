//! Runtime events, and what they add up to.
use countercow::counters::session as counter_session;
use countercow::nettrace::blocks::NettraceParser;
use countercow::nettrace::fastserial::{tag, NETTRACE_MAGIC, SERIALIZER_HEADER};
use countercow::nettrace::reader::StreamReader;
use countercow::runtime::events::{
    decode_allocation_tick, decode_contention_stop, decode_exception_thrown, decode_gc_end,
    decode_gc_heap_stats, decode_gc_start, AllocationKind, ExceptionThrown, GcHeapStats, GcReason,
    GcStart, GcType,
};
use countercow::runtime::session::{
    trace_config, RuntimeEvent, RuntimeStream, LEVEL_VERBOSE,
};
use countercow::profile::session::RUNTIME_PROVIDER;
use countercow::runtime::state::{Pause, RuntimeState, MAX_RECENT_GCS};

// Payloads captured verbatim from a live .NET 10 runtime. Keeping the real bytes means these tests
// fail if a decoder drifts from what runtimes emit.

/// GCStart_V2: collection 240, gen 2, reason 4, blocking.
const GC_START: &[u8] = &[
    0xf0, 0x00, 0x00, 0x00, 0x02, 0x00, 0x00, 0x00, 0x04, 0x00, 0x00, 0x00, 0x00, 0x00, 0x00, 0x00,
    0x00, 0x00, 0x00, 0x00, 0x00, 0x00, 0x00, 0x00, 0x00, 0x00,
];

/// GCEnd_V1: collection 36, gen 2.
const GC_END: &[u8] = &[0x24, 0x00, 0x00, 0x00, 0x02, 0x00, 0x00, 0x00, 0x00, 0x00];

/// GCSuspendEEBegin_V1: reason 1, count 35.
const GC_SUSPEND: &[u8] = &[0x01, 0x00, 0x00, 0x00, 0x23, 0x00, 0x00, 0x00, 0x00, 0x00];

/// GCAllocationTick_V4: a 1 MiB System.Byte[] on the large object heap.
const ALLOCATION_TICK: &[u8] = &[
    0x18, 0x00, 0x10, 0x00, 0x01, 0x00, 0x00, 0x00, 0x00, 0x00, 0x18, 0x00, 0x10, 0x00, 0x00, 0x00,
    0x00, 0x00, 0x20, 0x82, 0xe5, 0x0b, 0x01, 0x00, 0x00, 0x00, 0x53, 0x00, 0x79, 0x00, 0x73, 0x00,
    0x74, 0x00, 0x65, 0x00, 0x6d, 0x00, 0x2e, 0x00, 0x42, 0x00, 0x79, 0x00, 0x74, 0x00, 0x65, 0x00,
    0x5b, 0x00, 0x5d, 0x00, 0x00, 0x00, 0x0b, 0x00, 0x00, 0x00, 0x38, 0x40, 0x00, 0xb0, 0x73, 0x00,
    0x00, 0x00, 0x20, 0x00, 0x10, 0x00, 0x00, 0x00, 0x00, 0x00,
];

/// GCHeapStats_V2: 110 bytes.
const HEAP_STATS: &[u8] = &[
    0x20, 0x01, 0x00, 0x00, 0x00, 0x00, 0x00, 0x00, 0xf0, 0xb2, 0x03, 0x00, 0x00, 0x00, 0x00, 0x00,
    0x18, 0x21, 0x07, 0x00, 0x00, 0x00, 0x00, 0x00, 0x00, 0x00, 0x00, 0x00, 0x00, 0x00, 0x00, 0x00,
    0xd8, 0xd4, 0x0b, 0x00, 0x00, 0x00, 0x00, 0x00, 0xd0, 0x33, 0x0f, 0x00, 0x00, 0x00, 0x00, 0x00,
    0xa8, 0x81, 0x11, 0x00, 0x00, 0x00, 0x00, 0x00, 0x50, 0x81, 0x01, 0x00, 0x00, 0x00, 0x00, 0x00,
    0x08, 0x57, 0x00, 0x00, 0x00, 0x00, 0x00, 0x00, 0x14, 0x00, 0x00, 0x00, 0x00, 0x00, 0x00, 0x00,
    0x01, 0x00, 0x00, 0x00, 0x03, 0x00, 0x00, 0x00, 0xfc, 0x02, 0x00, 0x00, 0x00, 0x00, 0x68, 0xa8,
    0x00, 0x00, 0x00, 0x00, 0x00, 0x00, 0x00, 0x00, 0x00, 0x00, 0x00, 0x00, 0x00, 0x00,
];

/// ExceptionThrown_V1: System.InvalidOperationException / "sample failure".
const EXCEPTION: &[u8] = &[
    0x53, 0x00, 0x79, 0x00, 0x73, 0x00, 0x74, 0x00, 0x65, 0x00, 0x6d, 0x00, 0x2e, 0x00, 0x49, 0x00,
    0x6e, 0x00, 0x76, 0x00, 0x61, 0x00, 0x6c, 0x00, 0x69, 0x00, 0x64, 0x00, 0x4f, 0x00, 0x70, 0x00,
    0x65, 0x00, 0x72, 0x00, 0x61, 0x00, 0x74, 0x00, 0x69, 0x00, 0x6f, 0x00, 0x6e, 0x00, 0x45, 0x00,
    0x78, 0x00, 0x63, 0x00, 0x65, 0x00, 0x70, 0x00, 0x74, 0x00, 0x69, 0x00, 0x6f, 0x00, 0x6e, 0x00,
    0x00, 0x00, 0x73, 0x00, 0x61, 0x00, 0x6d, 0x00, 0x70, 0x00, 0x6c, 0x00, 0x65, 0x00, 0x20, 0x00,
    0x66, 0x00, 0x61, 0x00, 0x69, 0x00, 0x6c, 0x00, 0x75, 0x00, 0x72, 0x00, 0x65, 0x00, 0x00, 0x00,
    0x00, 0x00, 0x00, 0x00, 0x00, 0x00, 0x00, 0x00, 0x00, 0x00, 0x00, 0x00, 0x00, 0x00, 0x00, 0x00,
];

/// ContentionStop_V1: 11 bytes.
const CONTENTION_STOP: &[u8] =
    &[0x00, 0x00, 0x00, 0x00, 0x00, 0x00, 0x68, 0x1f, 0xde, 0x97, 0x41];

#[test]
fn gc_start_reports_generation_and_cause() {
    let gc = decode_gc_start(GC_START).unwrap();
    assert_eq!(gc.count, 240);
    assert_eq!(gc.depth, 2);
    // This capture came from an app allocating 1 MiB arrays, which go straight to the LOH.
    assert_eq!(gc.reason, GcReason::AllocLarge);
    assert_eq!(gc.gc_type, GcType::Blocking);
    assert_eq!(gc.reason.label(), "large alloc");
    assert!(!gc.reason.is_pressure(), "a large allocation is routine, not pressure");
}

#[test]
fn gc_end_matches_its_start() {
    let gc = decode_gc_end(GC_END).unwrap();
    assert_eq!(gc.count, 36);
    assert_eq!(gc.depth, 2);
}

#[test]
fn allocation_tick_names_the_allocating_type() {
    let tick = decode_allocation_tick(ALLOCATION_TICK, 8).unwrap();
    assert_eq!(tick.name, "System.Byte[]");
    // 1 MiB plus array overhead, exactly what `new byte[1024 * 1024]` costs.
    assert_eq!(tick.amount, 1_048_600);
    assert_eq!(tick.kind, AllocationKind::Large);
    assert_eq!(tick.object_size, Some(1_048_608));
}

#[test]
fn allocation_tick_pointer_size_shifts_the_type_name() {
    // Decoding a 64-bit payload as 32-bit must not silently produce a plausible-looking name.
    let wrong = decode_allocation_tick(ALLOCATION_TICK, 4).unwrap();
    assert_ne!(wrong.name, "System.Byte[]");
}

#[test]
fn heap_stats_expose_promoted_bytes_per_generation() {
    let stats = decode_gc_heap_stats(HEAP_STATS).unwrap();
    assert_eq!(stats.gen0_size, 288);
    assert_eq!(stats.gen0_promoted, 242_416);
    assert_eq!(stats.gen1_size, 467_224);
    assert_eq!(stats.gen1_promoted, 0);
    assert_eq!(stats.gen2_size, 775_384);
    assert_eq!(stats.gen2_promoted, 996_304);
    assert_eq!(stats.loh_size, 1_147_304);
    assert_eq!(stats.finalization_promoted_count, 20);
    assert_eq!(stats.pinned_object_count, 1);
    assert_eq!(stats.gc_handle_count, 764);
}

#[test]
fn exception_carries_type_and_message() {
    let thrown = decode_exception_thrown(EXCEPTION).unwrap();
    assert_eq!(thrown.name, "System.InvalidOperationException");
    assert_eq!(thrown.message, "sample failure");
}

#[test]
fn contention_stop_decodes_a_plausible_duration() {
    let stop = decode_contention_stop(CONTENTION_STOP).unwrap();
    let duration_ns = f64::from_bits(stop.duration_ns);
    assert!(duration_ns > 0.0, "duration should be positive");
    // Sanity bounds: a lock wait is longer than a nanosecond and shorter than a minute.
    assert!(duration_ns > 1.0);
    assert!(duration_ns < 60e9);
}

#[test]
fn suspend_payload_is_the_expected_size() {
    // Not decoded for its fields (only its timestamp matters), but its length confirms the event
    // id mapping is right.
    assert_eq!(GC_SUSPEND.len(), 10);
}

#[test]
fn truncated_payloads_return_none_rather_than_guessing() {
    assert!(decode_gc_start(&[0u8; 4]).is_none());
    assert!(decode_gc_heap_stats(&[0u8; 16]).is_none());
    assert!(decode_allocation_tick(&[0u8; 8], 8).is_none());
    assert!(decode_contention_stop(&[0u8; 4]).is_none());
}

#[test]
fn unknown_enum_values_are_preserved() {
    assert_eq!(GcReason::from_u32(99), GcReason::Unknown(99));
    assert_eq!(GcReason::from_u32(99).label(), "reason 99");
    assert_eq!(AllocationKind::from_u32(7).label(), "?");
}

#[test]
fn pressure_reasons_are_distinguished_from_routine_ones() {
    assert!(GcReason::OutOfSpaceSoh.is_pressure());
    assert!(GcReason::LowMemory.is_pressure());
    assert!(!GcReason::AllocSmall.is_pressure());
    assert!(!GcReason::Induced.is_pressure());
}

// Sessions

#[test]
fn subscribes_to_the_manifest_provider_with_all_three_keywords() {
    let config = trace_config();
    assert_eq!(config.providers.len(), 1);

    let provider = &config.providers[0];
    assert_eq!(provider.name, RUNTIME_PROVIDER);
    assert_eq!(provider.keywords, 0x1 | 0x4000 | 0x8000);
    // Allocation ticks are verbose-level; anything lower silently omits them.
    assert_eq!(provider.level, LEVEL_VERBOSE);
    // Manifest-based providers take no EventCounterIntervalSec-style arguments.
    assert!(provider.filter_data.is_empty());
}

#[test]
fn the_buffer_is_larger_than_the_counter_session() {
    // These events arrive orders of magnitude faster than counters; too small a buffer means the
    // runtime drops them rather than blocking.
    let runtime = trace_config();
    let counters = counter_session::trace_config(&format!("{}", 1.0f64));
    assert!(
        runtime.circular_buffer_mb > counters.circular_buffer_mb,
        "runtime sessions need more headroom than counter sessions"
    );
}

fn wstr(s: &str) -> Vec<u8> {
    let mut out = Vec::new();
    for unit in s.encode_utf16() {
        out.extend_from_slice(&unit.to_le_bytes());
    }
    out.extend_from_slice(&[0, 0]);
    out
}

fn object_header(name: &str) -> Vec<u8> {
    let mut out =
        vec![tag::BEGIN_PRIVATE_OBJECT, tag::BEGIN_PRIVATE_OBJECT, tag::NULL_REFERENCE];
    out.extend_from_slice(&4i32.to_le_bytes());
    out.extend_from_slice(&4i32.to_le_bytes());
    out.extend_from_slice(&(name.len() as i32).to_le_bytes());
    out.extend_from_slice(name.as_bytes());
    out.push(tag::END_OBJECT);
    out
}

fn push_block(stream: &mut Vec<u8>, name: &str, rows: &[u8]) {
    stream.extend(object_header(name));
    let mut content = Vec::new();
    content.extend_from_slice(&20u16.to_le_bytes());
    content.extend_from_slice(&1u16.to_le_bytes());
    content.extend_from_slice(&[0; 16]);
    content.extend_from_slice(rows);
    stream.extend_from_slice(&(content.len() as i32).to_le_bytes());
    while stream.len() % 4 != 0 {
        stream.push(0);
    }
    stream.extend_from_slice(&content);
    stream.push(tag::END_OBJECT);
}

fn row(metadata_id: u8, delta: u8, payload: &[u8]) -> Vec<u8> {
    let mut row = vec![0b1000_0001u8, metadata_id, delta, payload.len() as u8];
    row.extend_from_slice(payload);
    row
}

fn record(id: u32, provider: &str, event_id: i32) -> Vec<u8> {
    let mut out = id.to_le_bytes().to_vec();
    out.extend(wstr(provider));
    out.extend_from_slice(&event_id.to_le_bytes());
    out.extend(wstr(""));
    out.extend_from_slice(&[0; 16]);
    out.extend_from_slice(&0i32.to_le_bytes());
    out
}

#[test]
fn a_session_yields_the_events_it_understands_and_skips_the_rest() {
    let mut stream = NETTRACE_MAGIC.to_vec();
    stream.extend_from_slice(&20i32.to_le_bytes());
    stream.extend_from_slice(SERIALIZER_HEADER);
    stream.extend(object_header("Trace"));
    stream.extend_from_slice(&[0; 16]);
    stream.extend_from_slice(&0i64.to_le_bytes());
    stream.extend_from_slice(&1_000i64.to_le_bytes());
    stream.extend_from_slice(&8i32.to_le_bytes());
    stream.extend_from_slice(&[0; 12]);
    stream.push(tag::END_OBJECT);
    let mut records = row(0, 0, &record(1, RUNTIME_PROVIDER, 1));
    records.extend(row(0, 0, &record(2, RUNTIME_PROVIDER, 10)));
    records.extend(row(0, 0, &record(3, "System.Runtime", 1)));
    push_block(&mut stream, "MetadataBlock", &records);
    let mut events = row(3, 1, GC_START);
    events.extend(row(1, 1, GC_START));
    events.extend(row(1, 1, &[1, 2]));
    events.extend(row(2, 1, ALLOCATION_TICK));
    push_block(&mut stream, "EventBlock", &events);
    stream.push(tag::NULL_REFERENCE);

    let parser = NettraceParser::new(StreamReader::new(stream)).unwrap();
    let mut session = RuntimeStream::new(parser);
    let (first, frequency) = session.next_event().unwrap().unwrap();
    assert_eq!(frequency, 1_000);
    assert!(matches!(first, RuntimeEvent::GcStart(GcStart { count: 240, .. })));
    let (second, _) = session.next_event().unwrap().unwrap();
    assert!(matches!(second, RuntimeEvent::Allocation(tick) if tick.name == "System.Byte[]"));
    assert!(session.next_event().unwrap().is_none());
}

// The state

fn gc_start(count: u32, depth: u32, reason: GcReason) -> GcStart {
    GcStart { count, depth, reason, gc_type: GcType::Blocking }
}

/// All pauses so far, in milliseconds.
fn total_pause_ms(state: &RuntimeState) -> f64 {
    state.total_pause.iter().map(|t| t.ticks as f64 / t.frequency as f64 * 1000.0).sum()
}

#[test]
fn allocations_accumulate_by_type_and_rank_by_bytes() {
    let mut state = RuntimeState::new();
    state.record_allocation("System.Byte[]".into(), 1_000_000, AllocationKind::Large);
    state.record_allocation("System.Byte[]".into(), 1_000_000, AllocationKind::Large);
    state.record_allocation("System.String".into(), 500_000, AllocationKind::Small);

    let top = state.top_allocations(10);
    assert_eq!(top.len(), 2);
    assert_eq!(top[0].name, "System.Byte[]");
    assert_eq!(top[0].bytes, 2_000_000);
    assert_eq!(top[0].ticks, 2);
    assert_eq!(top[1].name, "System.String");

    assert_eq!(state.total_allocated_bytes, 2_500_000);
    let share = top[0].bytes as f64 / state.total_allocated_bytes as f64 * 100.0;
    assert_eq!(share.round(), 80.0);
}

#[test]
fn a_type_seen_on_both_heaps_reports_the_large_one() {
    let mut state = RuntimeState::new();
    state.record_allocation("System.Byte[]".into(), 100, AllocationKind::Small);
    state.record_allocation("System.Byte[]".into(), 1_000_000, AllocationKind::Large);
    assert_eq!(state.top_allocations(1)[0].kind, AllocationKind::Large);
}

#[test]
fn collections_record_their_generation_and_reason() {
    let mut state = RuntimeState::new();
    state.record_gc_start(gc_start(1, 0, GcReason::AllocSmall));
    state.record_gc_end();
    state.record_gc_start(gc_start(2, 2, GcReason::AllocLarge));
    state.record_gc_end();

    let recent = state.recent_collections(10);
    assert_eq!(recent.len(), 2);
    // Most recent first.
    assert_eq!(recent[0].count, 2);
    assert_eq!(recent[0].generation, 2);
    assert_eq!(recent[0].reason, GcReason::AllocLarge);

    assert_eq!(state.gc_counts[0], 1);
    assert_eq!(state.gc_counts[2], 1);
    assert_eq!(state.total_gcs(), 2);
}

#[test]
fn a_collection_in_flight_is_shown_before_it_ends() {
    let mut state = RuntimeState::new();
    state.record_gc_start(gc_start(5, 1, GcReason::AllocSmall));
    let recent = state.recent_collections(10);
    assert_eq!(recent.len(), 1, "the pending collection should be visible");
    assert_eq!(recent[0].count, 5);
}

#[test]
fn a_collection_without_an_end_is_not_lost_when_the_next_starts() {
    let mut state = RuntimeState::new();
    state.record_gc_start(gc_start(1, 0, GcReason::AllocSmall));
    state.record_gc_start(gc_start(2, 0, GcReason::AllocSmall));

    let recent = state.recent_collections(10);
    assert_eq!(recent.len(), 2);
    assert_eq!(recent[0].count, 2, "the new one is pending");
    assert_eq!(recent[1].count, 1, "the old one was flushed, not dropped");
}

#[test]
fn pause_is_measured_from_suspend_to_restart() {
    let mut state = RuntimeState::new();
    // 1e9 ticks per second, so 2.5e6 ticks is 2.5 ms.
    state.record_suspend(1_000_000);
    let measured = state.record_restart(3_500_000, 1_000_000_000);
    state.record_gc_start(gc_start(1, 2, GcReason::AllocLarge));
    state.record_gc_end();

    let recent = state.recent_collections(1);
    let pause = recent[0].pause.unwrap();
    assert_eq!(measured, Some(pause));
    assert_eq!(pause, Pause { ticks: 2_500_000, frequency: 1_000_000_000 });
    assert_eq!(pause.ticks as f64 / pause.frequency as f64 * 1000.0, 2.5);
    assert_eq!(total_pause_ms(&state), 2.5);
}

#[test]
fn a_restart_without_a_suspend_is_ignored() {
    let mut state = RuntimeState::new();
    assert_eq!(state.record_restart(5_000, 1_000_000_000), None);
    assert_eq!(total_pause_ms(&state), 0.0);
}

#[test]
fn a_backwards_or_zero_frequency_timestamp_does_not_produce_a_bogus_pause() {
    let mut state = RuntimeState::new();
    state.record_suspend(10_000);
    state.record_restart(5_000, 1_000_000_000);
    assert_eq!(total_pause_ms(&state), 0.0);

    state.record_suspend(10_000);
    state.record_restart(20_000, 0);
    assert_eq!(total_pause_ms(&state), 0.0);
}

#[test]
fn heap_stats_attach_promoted_bytes_to_the_collection_in_flight() {
    let mut state = RuntimeState::new();
    state.record_gc_start(gc_start(1, 2, GcReason::AllocLarge));
    state.record_heap_stats(GcHeapStats {
        gen0_promoted: 100,
        gen1_promoted: 200,
        gen2_promoted: 300,
        loh_promoted: 400,
        ..Default::default()
    });
    state.record_gc_end();

    assert_eq!(state.recent_collections(1)[0].promoted_bytes, Some(1000));
}

#[test]
fn exceptions_group_by_type() {
    let mut state = RuntimeState::new();
    for _ in 0..3 {
        state.record_exception(ExceptionThrown {
            name: "System.InvalidOperationException".into(),
            message: "sample failure".into(),
        });
    }
    state.record_exception(ExceptionThrown {
        name: "System.ArgumentNullException".into(),
        message: "value".into(),
    });

    let top = state.top_exceptions(10);
    assert_eq!(top.len(), 2);
    assert_eq!(top[0].name, "System.InvalidOperationException");
    assert_eq!(top[0].count, 3);
    assert_eq!(top[0].message, "sample failure");
    assert_eq!(state.total_exceptions, 4);
}

#[test]
fn contention_is_counted() {
    let mut state = RuntimeState::new();
    state.record_contention();
    state.record_contention();
    assert_eq!(state.contention.events, 2);
    assert_eq!(state.events_seen, 2);
}

#[test]
fn the_recent_collection_list_is_bounded() {
    let mut state = RuntimeState::new();
    for i in 0..MAX_RECENT_GCS as u32 + 20 {
        state.record_gc_start(gc_start(i, 0, GcReason::AllocSmall));
        state.record_gc_end();
    }
    assert_eq!(state.recent_collections(1000).len(), MAX_RECENT_GCS);
    // The newest survive, the oldest are dropped.
    assert_eq!(state.recent_collections(1)[0].count, MAX_RECENT_GCS as u32 + 19);
}

#[test]
fn reset_clears_everything() {
    let mut state = RuntimeState::new();
    state.record_allocation("T".into(), 10, AllocationKind::Small);
    state.record_gc_start(gc_start(1, 0, GcReason::AllocSmall));
    assert!(!state.is_empty());

    state.reset();
    assert!(state.is_empty());
    assert_eq!(state.total_allocated_bytes, 0);
    assert!(state.top_allocations(10).is_empty());
    assert!(state.recent_collections(10).is_empty());
}

#[test]
fn equally_heavy_types_are_listed_by_name() {
    let mut state = RuntimeState::new();
    for name in ["b", "c", "a"] {
        state.record_allocation(name.into(), 10, AllocationKind::Small);
    }
    let names: Vec<String> = state.top_allocations(2).into_iter().map(|s| s.name).collect();
    assert_eq!(names, vec!["a", "b"]);
}
