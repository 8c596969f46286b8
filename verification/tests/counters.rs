//! Counter samples and how they are presented.
use countercow::counters::catalog::{
    byte_scale, group_digits, is_percentage, presentation, Presentation, ASPNET_HOSTING,
    GC_COUNT_COUNTERS, GENERATION_COUNTERS, SYSTEM_RUNTIME,
};
use countercow::counters::sample::{extract, CounterKind, CounterSample, EVENT_COUNTERS};
use countercow::counters::session::{
    trace_config, CounterStream, SessionError, ASPNET_PROVIDERS, LEVEL_INFORMATIONAL, PROVIDERS,
};
use countercow::ipc::commands::CommandError;
use countercow::ipc::frame::IpcError;
use countercow::nettrace::blocks::{NettraceParser, RawEvent};
use countercow::nettrace::fastserial::{tag, NETTRACE_MAGIC, SERIALIZER_HEADER};
use countercow::nettrace::metadata::{EventMetadata, Field, FieldType, TypeCode};
use countercow::nettrace::payload::Number;
use countercow::nettrace::reader::{ParseError, StreamReader};

fn double(v: f64) -> Number {
    Number::Double(v.to_bits())
}

fn as_f64(n: Number) -> f64 {
    match n {
        Number::Bool(b) => f64::from(u8::from(b)),
        Number::Int(i) => i as f64,
        Number::UInt(u) => u as f64,
        Number::Single(bits) => f64::from(f32::from_bits(bits)),
        Number::Double(bits) => f64::from_bits(bits),
    }
}

/// The window of a rate, in seconds.
fn rate_seconds(sample: &CounterSample) -> Option<f64> {
    let parts = sample.rate_parts()?;
    let hours: f64 = parts.hours.parse().ok()?;
    let minutes: f64 = parts.minutes.parse().ok()?;
    let seconds: f64 = parts.seconds.parse().ok()?;
    Some(hours * 3600.0 + minutes * 60.0 + seconds)
}

// The catalog

fn sample(name: &str, units: &str, value: f64, kind: CounterKind) -> CounterSample {
    CounterSample {
        provider: SYSTEM_RUNTIME.into(),
        name: name.into(),
        display_name: name.into(),
        display_units: units.into(),
        value: double(value),
        kind,
        interval_sec: double(1.0),
        rate_time_scale: match kind {
            CounterKind::Rate => Some("00:00:01".into()),
            CounterKind::Mean => None,
        },
        timestamp: 0,
    }
}

fn bytes_value(sample: &CounterSample) -> Option<f64> {
    Some(as_f64(sample.value) * f64::from(byte_scale(sample)?))
}

#[test]
fn megabyte_counters_are_scaled_to_bytes() {
    // 44.5481 MB as the runtime reports it is ~44.5 million bytes, not 44.5 bytes.
    let ws = sample("working-set", "MB", 44.5481, CounterKind::Mean);
    assert_eq!(bytes_value(&ws), Some(44_548_100.0));
}

#[test]
fn byte_counters_pass_through_unscaled() {
    let gen2 = sample("gen-2-size", "B", 1_313_296.0, CounterKind::Mean);
    assert_eq!(bytes_value(&gen2), Some(1_313_296.0));
}

#[test]
fn heap_size_and_generation_sizes_end_up_comparable() {
    // The whole point: these two must be plottable on one axis.
    let heap = sample("gc-heap-size", "MB", 4.1432, CounterKind::Mean);
    let gen2 = sample("gen-2-size", "B", 1_313_296.0, CounterKind::Mean);

    let heap_bytes = bytes_value(&heap).unwrap();
    let gen2_bytes = bytes_value(&gen2).unwrap();
    assert!(heap_bytes > gen2_bytes, "heap should exceed one generation");
    assert!(heap_bytes / gen2_bytes < 10.0, "and be within an order of magnitude");
}

#[test]
fn rate_counters_are_not_treated_as_memory() {
    // alloc-rate is bytes per second, not a memory level.
    let alloc = sample("alloc-rate", "B", 212_656.0, CounterKind::Rate);
    assert_eq!(bytes_value(&alloc), None);
    assert!(matches!(presentation(&alloc, false), Presentation::BytesPerSecond));
}

#[test]
fn formats_counts_with_separators() {
    assert_eq!(group_digits(false, 0), "0");
    assert_eq!(group_digits(false, 91), "91");
    assert_eq!(group_digits(false, 2317), "2,317");
    assert_eq!(group_digits(false, 1_313_296), "1,313,296");
    assert_eq!(group_digits(true, 1_000), "-1,000");
}

#[test]
fn gc_collection_counters_read_per_minute() {
    let mut gc = sample("gen-0-gc-count", "", 3.0, CounterKind::Rate);
    gc.rate_time_scale = Some("00:01:00".into());
    assert_eq!(rate_seconds(&gc), Some(60.0));
    assert!(matches!(presentation(&gc, true), Presentation::CountPerMinute));

    let exceptions = sample("exception-count", "", 5.0, CounterKind::Rate);
    assert_eq!(rate_seconds(&exceptions), Some(1.0));
    assert!(matches!(presentation(&exceptions, false), Presentation::CountPerSecond));
}

#[test]
fn percentages_and_durations_are_told_from_counts() {
    let cpu = sample("cpu-usage", "%", 12.54, CounterKind::Mean);
    assert!(matches!(presentation(&cpu, false), Presentation::Percent));
    let pause = sample("total-pause-time-by-gc", "ms", 44.5875, CounterKind::Mean);
    assert!(matches!(presentation(&pause, false), Presentation::Milliseconds));
    let count = sample("assembly-count", "", 91.0, CounterKind::Mean);
    assert!(matches!(presentation(&count, false), Presentation::Count));
}

#[test]
fn percentage_extraction_is_limited_to_percent_counters() {
    assert!(is_percentage(&sample("cpu-usage", "%", 12.5, CounterKind::Mean)));
    assert!(!is_percentage(&sample("assembly-count", "", 91.0, CounterKind::Mean)));
}

#[test]
fn non_runtime_providers_have_no_byte_interpretation() {
    let mut requests = sample("total-requests", "", 5.0, CounterKind::Mean);
    requests.provider = ASPNET_HOSTING.into();
    assert_eq!(bytes_value(&requests), None);
    assert!(matches!(presentation(&requests, false), Presentation::Count));
}

#[test]
fn the_generations_are_named_youngest_first() {
    assert_eq!(GENERATION_COUNTERS[0], "gen-0-size");
    assert_eq!(GENERATION_COUNTERS[4], "poh-size");
    assert_eq!(GC_COUNT_COUNTERS[2], "gen-2-gc-count");
}

// Samples

fn scalar(name: &str, code: TypeCode) -> Field {
    Field { name: name.into(), ty: FieldType::Scalar(code) }
}

fn wrap(inner: Vec<Field>) -> Vec<Field> {
    let outer = vec![Field { name: "Payload".into(), ty: FieldType::Object(inner) }];
    vec![Field { name: String::new(), ty: FieldType::Object(outer) }]
}

fn wstr(s: &str) -> Vec<u8> {
    let mut out = Vec::new();
    for unit in s.encode_utf16() {
        out.extend_from_slice(&unit.to_le_bytes());
    }
    out.extend_from_slice(&[0, 0]);
    out
}

fn metadata(provider: &str, event_name: &str, fields: Vec<Field>) -> EventMetadata {
    EventMetadata {
        metadata_id: 1,
        provider_name: provider.into(),
        event_id: 0,
        event_name: event_name.into(),
        keywords: 0,
        version: 0,
        level: 0,
        fields,
    }
}

/// The 12-field CounterPayload shape used by EventCounter and PollingCounter.
fn mean_counter(name: &str, display: &str, units: &str, mean: f64) -> (EventMetadata, RawEvent) {
    let fields = wrap(vec![
        scalar("Name", TypeCode::String),
        scalar("DisplayName", TypeCode::String),
        scalar("Mean", TypeCode::Double),
        scalar("StandardDeviation", TypeCode::Double),
        scalar("Count", TypeCode::Int32),
        scalar("Min", TypeCode::Double),
        scalar("Max", TypeCode::Double),
        scalar("IntervalSec", TypeCode::Single),
        scalar("Series", TypeCode::String),
        scalar("CounterType", TypeCode::String),
        scalar("Metadata", TypeCode::String),
        scalar("DisplayUnits", TypeCode::String),
    ]);

    let mut payload = wstr(name);
    payload.extend(wstr(display));
    payload.extend_from_slice(&mean.to_le_bytes());
    payload.extend_from_slice(&0f64.to_le_bytes());
    payload.extend_from_slice(&1i32.to_le_bytes());
    payload.extend_from_slice(&mean.to_le_bytes());
    payload.extend_from_slice(&mean.to_le_bytes());
    payload.extend_from_slice(&1f32.to_le_bytes());
    payload.extend(wstr("Interval=1000"));
    payload.extend(wstr("Mean"));
    payload.extend(wstr(""));
    payload.extend(wstr(units));

    (
        metadata("System.Runtime", EVENT_COUNTERS, fields),
        RawEvent { metadata_id: 1, timestamp: 500, stack_id: 0, payload },
    )
}

/// The 9-field IncrementingCounterPayload shape.
fn rate_counter(name: &str, increment: f64, scale: &str) -> (EventMetadata, RawEvent) {
    let fields = wrap(vec![
        scalar("Name", TypeCode::String),
        scalar("DisplayName", TypeCode::String),
        scalar("DisplayRateTimeScale", TypeCode::String),
        scalar("Increment", TypeCode::Double),
        scalar("IntervalSec", TypeCode::Single),
        scalar("Metadata", TypeCode::String),
        scalar("Series", TypeCode::String),
        scalar("CounterType", TypeCode::String),
        scalar("DisplayUnits", TypeCode::String),
    ]);

    let mut payload = wstr(name);
    payload.extend(wstr(name));
    payload.extend(wstr(scale));
    payload.extend_from_slice(&increment.to_le_bytes());
    payload.extend_from_slice(&1f32.to_le_bytes());
    payload.extend(wstr(""));
    payload.extend(wstr("Interval=1000"));
    payload.extend(wstr("Sum"));
    payload.extend(wstr(""));

    (
        metadata("System.Runtime", EVENT_COUNTERS, fields),
        RawEvent { metadata_id: 1, timestamp: 900, stack_id: 0, payload },
    )
}

#[test]
fn extracts_a_mean_counter() {
    let (md, event) = mean_counter("cpu-usage", "CPU Usage", "%", 12.5);
    let sample = extract(&md, &event).unwrap().unwrap();

    assert_eq!(sample.name, "cpu-usage");
    assert_eq!(sample.label(), "CPU Usage");
    assert_eq!(sample.units(), "%");
    assert_eq!(as_f64(sample.value), 12.5);
    assert_eq!(sample.kind, CounterKind::Mean);
    assert_eq!(as_f64(sample.interval_sec), 1.0);
    assert_eq!(sample.timestamp, 500);
    assert_eq!(rate_seconds(&sample), None);
}

#[test]
fn extracts_a_rate_counter_reading_increment_not_mean() {
    let (md, event) = rate_counter("exception-count", 4.0, "00:00:01");
    let sample = extract(&md, &event).unwrap().unwrap();

    assert_eq!(as_f64(sample.value), 4.0);
    assert_eq!(sample.kind, CounterKind::Rate);
    assert_eq!(rate_seconds(&sample), Some(1.0));
    // A rate with no declared units is a count.
    assert_eq!(sample.units(), "count");
}

#[test]
fn gc_collection_counters_report_a_one_minute_scale() {
    // These are the counters whose rate window differs from every other one.
    let (md, event) = rate_counter("gen-0-gc-count", 3.0, "00:01:00");
    let sample = extract(&md, &event).unwrap().unwrap();
    assert_eq!(rate_seconds(&sample), Some(60.0));
}

#[test]
fn falls_back_to_the_raw_name_when_no_display_name_is_sent() {
    let (md, event) = mean_counter("odd-counter", "", "", 1.0);
    let sample = extract(&md, &event).unwrap().unwrap();
    assert_eq!(sample.label(), "odd-counter");
    assert_eq!(sample.units(), "");
}

#[test]
fn ignores_events_that_are_not_counters() {
    let md = metadata("System.Runtime", "GCStart", vec![]);
    let event = RawEvent { metadata_id: 1, timestamp: 0, stack_id: 0, payload: vec![] };
    assert!(extract(&md, &event).unwrap().is_none());
}

#[test]
fn an_unknown_counter_type_is_skipped_rather_than_misread() {
    let (md, mut event) = mean_counter("cpu-usage", "CPU Usage", "%", 12.5);
    // Rewrite "Mean" to an unrecognised counter type of the same length.
    let needle = wstr("Mean");
    let pos = event.payload.windows(needle.len()).rposition(|w| w == needle.as_slice()).unwrap();
    event.payload[pos..pos + needle.len()].copy_from_slice(&wstr("Xxxx"));

    assert!(extract(&md, &event).unwrap().is_none());
}

#[test]
fn a_payload_that_ends_early_is_an_error() {
    let (md, mut event) = mean_counter("cpu-usage", "CPU Usage", "%", 12.5);
    event.payload.truncate(10);
    assert!(extract(&md, &event).is_err());
}

// Sessions

fn varint(mut v: u64) -> Vec<u8> {
    let mut out = Vec::new();
    loop {
        let byte = (v & 0x7F) as u8;
        v >>= 7;
        if v == 0 {
            out.push(byte);
            return out;
        }
        out.push(byte | 0x80);
    }
}

fn object_header(name: &str) -> Vec<u8> {
    let mut out =
        vec![tag::BEGIN_PRIVATE_OBJECT, tag::BEGIN_PRIVATE_OBJECT, tag::NULL_REFERENCE];
    out.extend_from_slice(&4i32.to_le_bytes());
    out.extend_from_slice(&4i32.to_le_bytes());
    out.extend_from_slice(&(name.len() as i32).to_le_bytes());
    out.extend_from_slice(name.as_bytes());
    out.push(tag::END_OBJECT);
    out
}

fn push_block(stream: &mut Vec<u8>, name: &str, rows: &[u8]) {
    stream.extend(object_header(name));
    let mut content = Vec::new();
    content.extend_from_slice(&20u16.to_le_bytes());
    content.extend_from_slice(&1u16.to_le_bytes());
    content.extend_from_slice(&[0; 16]);
    content.extend_from_slice(rows);
    stream.extend_from_slice(&(content.len() as i32).to_le_bytes());
    while stream.len() % 4 != 0 {
        stream.push(0);
    }
    stream.extend_from_slice(&content);
    stream.push(tag::END_OBJECT);
}

fn row(metadata_id: u32, payload: &[u8]) -> Vec<u8> {
    let mut row = vec![0b1000_0001u8];
    row.extend(varint(u64::from(metadata_id)));
    row.extend(varint(1));
    row.extend(varint(payload.len() as u64));
    row.extend_from_slice(payload);
    row
}

/// A metadata record for gauges of a provider, laid out flat.
fn gauge_metadata(id: u32, provider: &str) -> Vec<u8> {
    let mut out = id.to_le_bytes().to_vec();
    out.extend(wstr(provider));
    out.extend_from_slice(&0i32.to_le_bytes());
    out.extend(wstr(EVENT_COUNTERS));
    out.extend_from_slice(&[0; 16]);
    let fields = [
        ("Name", TypeCode::String),
        ("CounterType", TypeCode::String),
        ("Mean", TypeCode::Double),
    ];
    out.extend_from_slice(&(fields.len() as i32).to_le_bytes());
    for (name, code) in fields {
        out.extend_from_slice(&code.to_i32().to_le_bytes());
        out.extend(wstr(name));
    }
    out
}

fn gauge(name: &str, value: f64) -> Vec<u8> {
    let mut out = wstr(name);
    out.extend(wstr("Mean"));
    out.extend_from_slice(&value.to_le_bytes());
    out
}

/// A session in which several providers report, some of them more than once.
fn loaded() -> Vec<u8> {
    let mut stream = NETTRACE_MAGIC.to_vec();
    stream.extend_from_slice(&20i32.to_le_bytes());
    stream.extend_from_slice(SERIALIZER_HEADER);
    stream.extend(object_header("Trace"));
    stream.extend_from_slice(&[0; 48]);
    stream.push(tag::END_OBJECT);
    let mut records = row(0, &gauge_metadata(1, "System.Runtime"));
    records.extend(row(0, &gauge_metadata(2, "Microsoft.AspNetCore.Hosting")));
    push_block(&mut stream, "MetadataBlock", &records);
    let mut events = row(1, &gauge("cpu-usage", 1.0));
    events.extend(row(2, &gauge("total-requests", 2.0)));
    events.extend(row(9, &[1, 2, 3]));
    push_block(&mut stream, "EventBlock", &events);
    push_block(&mut stream, "EventBlock", &row(1, &gauge("cpu-usage", 3.0)));
    stream.push(tag::NULL_REFERENCE);
    stream
}

fn stream_of(bytes: Vec<u8>) -> CounterStream {
    CounterStream::new(NettraceParser::new(StreamReader::new(bytes)).unwrap())
}

#[test]
fn run_reports_every_payload_the_stream_carries() {
    // An EventSource polls its counters on one timer shared by every session watching it, so a
    // second tool asking for a quarter of a second pins the source there and we receive
    // quarter-second payloads however politely we asked for one second. Nothing is dropped.
    let mut stream = stream_of(loaded());
    let mut reported = Vec::new();
    while let Some(sample) = stream.next_sample().unwrap() {
        reported.push((sample.provider, sample.name, as_f64(sample.value)));
    }
    assert_eq!(
        reported,
        vec![
            ("System.Runtime".to_string(), "cpu-usage".to_string(), 1.0),
            ("Microsoft.AspNetCore.Hosting".to_string(), "total-requests".to_string(), 2.0),
            ("System.Runtime".to_string(), "cpu-usage".to_string(), 3.0),
        ]
    );
}

#[test]
fn a_callback_that_breaks_stops_the_stream() {
    let mut stream = stream_of(loaded());
    let mut seen = 0usize;
    while let Some(_) = stream.next_sample().unwrap() {
        seen += 1;
        break;
    }
    assert_eq!(seen, 1, "breaking on the first payload should read no further");
    let next = stream.next_sample().unwrap().unwrap();
    assert_eq!(next.name, "total-requests", "what was not read is still there");
}

#[test]
fn samples_arrive_as_the_stream_does() {
    let bytes = loaded();
    let mut start = StreamReader::live();
    start.feed(&bytes[..40]);
    let mut stream = CounterStream::new(NettraceParser::new(start).unwrap());
    assert!(matches!(
        stream.next_sample(),
        Err(SessionError::Parse(ParseError::Incomplete { .. }))
    ));
    stream.feed(&bytes[40..]);
    assert_eq!(stream.next_sample().unwrap().unwrap().name, "cpu-usage");
}

#[test]
fn kestrel_provider_is_hyphenated_not_dotted() {
    // The dotted form is the Meter name and yields no EventCounters at all.
    assert!(PROVIDERS.contains(&"Microsoft-AspNetCore-Server-Kestrel"));
    assert!(!PROVIDERS.contains(&"Microsoft.AspNetCore.Server.Kestrel"));
}

#[test]
fn every_provider_requests_the_counter_interval() {
    let config = trace_config(&format!("{}", 1.0f64));
    assert_eq!(config.providers.len(), PROVIDERS.len());
    for provider in &config.providers {
        assert_eq!(provider.filter_data, "EventCounterIntervalSec=1");
        assert_eq!(provider.keywords, 0);
        assert_eq!(provider.level, LEVEL_INFORMATIONAL);
    }
}

#[test]
fn fractional_intervals_use_an_invariant_decimal_point() {
    let config = trace_config(&format!("{}", 0.5f64));
    assert_eq!(config.providers[0].filter_data, "EventCounterIntervalSec=0.5");
}

#[test]
fn aspnet_providers_are_a_subset_of_the_subscription() {
    for provider in ASPNET_PROVIDERS {
        assert!(PROVIDERS.contains(provider), "{provider} must be subscribed");
    }
}

#[test]
fn session_errors_are_what_they_were_made_from() {
    let parse = ParseError::MalformedVarint;
    assert_eq!(SessionError::from(parse.clone()).describe(), parse.describe());
    let command = || CommandError::Ipc(IpcError::Server(7));
    assert_eq!(SessionError::from(command()).describe(), command().describe());
}
