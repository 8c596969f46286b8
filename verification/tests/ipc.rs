//! The diagnostics IPC protocol.
use countercow::ipc::commands::{
    after_identity_answer, first_identity_query, identity_request, parse_process_info,
    parse_session_id, start_request, stop_request, CommandError, IdentityStep, ProcessInfo,
    Provider, TraceConfig,
};
use countercow::ipc::decode::{PayloadReader, TruncatedPayload};
use countercow::ipc::discovery::{
    attachable, display_command, display_name, ipc_root, parse_socket_name, parse_stat_start_key,
    DiscoveryError, Endpoint, LiveProcess, SUN_PATH_MAX,
};
use countercow::ipc::encode::PayloadWriter;
use countercow::ipc::frame::{
    command_set, encode_message, eventpipe, hresult_name, process, read_message, read_response,
    server, write_message, IpcError, UNKNOWN_COMMAND,
};
use countercow::ipc::transport::{ConnectError, ConnectFault};
use countercow::nettrace::reader::{IoError, StreamReader};

// Encoding

#[test]
fn scalars_are_little_endian() {
    let mut w = PayloadWriter::new();
    w.u32(256).u64(1).bool(true).bool(false);
    assert_eq!(w.into_bytes(), vec![0x00, 0x01, 0x00, 0x00, 1, 0, 0, 0, 0, 0, 0, 0, 1, 0]);
}

#[test]
fn ascii_string_counts_the_terminator() {
    let mut w = PayloadWriter::new();
    w.string("ab");
    // length 3 = 2 chars + NUL, then 3 UTF-16LE units
    assert_eq!(w.into_bytes(), vec![3, 0, 0, 0, b'a', 0, b'b', 0, 0, 0]);
}

#[test]
fn empty_string_is_six_bytes_but_null_is_four() {
    let mut empty = PayloadWriter::new();
    empty.string("");
    assert_eq!(empty.into_bytes(), vec![1, 0, 0, 0, 0, 0]);

    let mut null = PayloadWriter::new();
    null.null_string();
    assert_eq!(null.into_bytes(), vec![0, 0, 0, 0]);
}

#[test]
fn non_bmp_chars_count_as_two_units() {
    let mut w = PayloadWriter::new();
    // U+1F600 is a surrogate pair: 2 UTF-16 units, so length is 3 with the NUL, even though the
    // string is 1 char and 4 UTF-8 bytes.
    w.string("\u{1F600}");
    let bytes = w.into_bytes();
    assert_eq!(&bytes[0..4], &[3, 0, 0, 0]);
    assert_eq!(bytes.len(), 4 + 3 * 2);
    assert_eq!(&bytes[4..8], &[0x3D, 0xD8, 0x00, 0xDE]);
}

#[test]
fn collect_tracing2_worked_example_matches_the_spec() {
    // 256MB circular buffer, NetTrace format, no rundown, one provider:
    // System.Runtime at Informational with EventCounterIntervalSec=1.
    // The reference byte dump for this is 115 payload bytes.
    let mut w = PayloadWriter::new();
    w.u32(256)
        .u32(1)
        .bool(false)
        .u32(1)
        .u64(0)
        .u32(4)
        .string("System.Runtime")
        .string("EventCounterIntervalSec=1");

    let bytes = w.into_bytes();
    assert_eq!(bytes.len(), 115, "payload should be 115 bytes");
    // Fixed fields occupy 4+4+1+4 = 13 bytes, then keywords (8) and level (4).
    // name length at 25: 14 chars + NUL = 15
    assert_eq!(&bytes[25..29], &[0x0F, 0, 0, 0]);
    assert_eq!(&bytes[29..33], b"S\0y\0");
    // filterData length at 59 (25 + 4 + 30): 25 chars + NUL = 26 = 0x1A
    assert_eq!(&bytes[59..63], &[0x1A, 0, 0, 0]);
    assert_eq!(&bytes[63..67], b"E\0v\0");
}

#[test]
fn a_fresh_writer_holds_nothing() {
    let mut w = PayloadWriter::new();
    assert!(w.is_empty());
    w.u32(1);
    assert_eq!(w.len(), 4);
    assert!(!w.is_empty());
}

// Decoding

#[test]
fn round_trips_scalars_and_strings() {
    let mut w = PayloadWriter::new();
    w.u32(42).u64(7).string("System.Runtime").string("");

    let bytes = w.into_bytes();
    let mut r = PayloadReader::new(&bytes);
    assert_eq!(r.u32().unwrap(), 42);
    assert_eq!(r.u64().unwrap(), 7);
    assert_eq!(r.string().unwrap(), "System.Runtime");
    assert_eq!(r.string().unwrap(), "");
    assert!(r.is_empty());
}

#[test]
fn round_trips_non_bmp() {
    let mut w = PayloadWriter::new();
    w.string("hej \u{1F600}");
    let bytes = w.into_bytes();
    assert_eq!(PayloadReader::new(&bytes).string().unwrap(), "hej \u{1F600}");
}

#[test]
fn truncation_is_an_error_not_a_panic() {
    let bytes = [1u8, 0, 0];
    assert!(PayloadReader::new(&bytes).u32().is_err());

    // Claims 10 code units but supplies none.
    let bytes = [10u8, 0, 0, 0];
    assert!(PayloadReader::new(&bytes).string().is_err());
}

#[test]
fn null_string_reads_as_empty() {
    let bytes = [0u8, 0, 0, 0];
    assert_eq!(PayloadReader::new(&bytes).string().unwrap(), "");
}

#[test]
fn a_truncated_payload_says_what_it_needed() {
    let bytes = [1u8, 0, 0];
    let error = PayloadReader::new(&bytes).u32().unwrap_err();
    assert_eq!((error.wanted, error.remaining), (4, 3));
    assert!(error.describe().contains('4') && error.describe().contains('3'));
}

#[test]
fn a_lone_surrogate_reads_as_a_replacement() {
    // One unit and a terminator: a high surrogate with nothing behind it.
    let bytes = [2u8, 0, 0, 0, 0x3D, 0xD8, 0, 0];
    assert_eq!(PayloadReader::new(&bytes).string().unwrap(), "\u{FFFD}");
}

#[test]
fn a_guid_is_sixteen_bytes() {
    let bytes: Vec<u8> = (0u8..17).collect();
    let mut r = PayloadReader::new(&bytes);
    let guid = r.guid().unwrap();
    assert_eq!(guid[0], 0);
    assert_eq!(guid[15], 15);
    assert_eq!(r.remaining(), 1);
    assert!(r.guid().is_err());
}

// Frames

#[test]
fn header_layout_is_twenty_bytes() {
    let msg = encode_message(command_set::EVENTPIPE, eventpipe::COLLECT_TRACING2, &[]).unwrap();
    assert_eq!(msg.len(), 20);
    assert_eq!(&msg[0..14], b"DOTNET_IPC_V1\0");
    assert_eq!(&msg[14..16], &[20, 0]);
    assert_eq!(msg[16], 0x02);
    assert_eq!(msg[17], 0x03);
    assert_eq!(&msg[18..20], &[0, 0]);
}

#[test]
fn size_covers_header_plus_payload() {
    // The worked CollectTracing2 example is 115 payload bytes => size 135 = 0x0087.
    let msg = encode_message(0x02, 0x03, &vec![0u8; 115]).unwrap();
    assert_eq!(&msg[14..16], &[0x87, 0x00]);
}

#[test]
fn oversized_payload_is_rejected_not_truncated() {
    let err = encode_message(0x02, 0x03, &vec![0u8; 70_000]).unwrap_err();
    assert!(matches!(err, IpcError::PayloadTooLarge(70_000)));
}

#[test]
fn reads_stop_at_the_message_boundary() {
    // A success reply carrying a u64 session id, with trailing stream bytes after it.
    let mut wire = encode_message(command_set::SERVER, server::OK, &7u64.to_le_bytes()).unwrap();
    wire.extend_from_slice(b"Nettrace");

    let mut stream = StreamReader::new(wire);
    let payload = read_response(&mut stream).unwrap();
    assert_eq!(payload, 7u64.to_le_bytes());

    // The continuation must be untouched.
    let rest = stream.read_exact_bytes(8).unwrap();
    assert_eq!(rest, b"Nettrace");
    assert!(stream.u8().is_err());
}

#[test]
fn error_reply_surfaces_the_hresult() {
    let wire =
        encode_message(command_set::SERVER, server::ERROR, &UNKNOWN_COMMAND.to_le_bytes()).unwrap();
    let err = read_response(&mut StreamReader::new(wire)).unwrap_err();
    match err {
        IpcError::Server(hr) => assert_eq!(hr, UNKNOWN_COMMAND),
        other => panic!("expected a server error, got {other:?}"),
    }
}

#[test]
fn bad_magic_is_rejected() {
    let mut wire = vec![0u8; 20];
    wire[14] = 20;
    let err = read_message(&mut StreamReader::new(wire)).unwrap_err();
    assert!(matches!(err, IpcError::BadMagic(_)));
}

#[test]
fn a_message_shorter_than_its_header_is_rejected() {
    let mut wire = encode_message(0x02, 0x03, &[]).unwrap();
    wire[14] = 19;
    let err = read_message(&mut StreamReader::new(wire)).unwrap_err();
    assert_eq!(err, IpcError::ShortMessage(19));
}

#[test]
fn an_unexpected_reply_is_named() {
    let wire = encode_message(0x02, 0x03, &[]).unwrap();
    let err = read_response(&mut StreamReader::new(wire)).unwrap_err();
    assert_eq!(err, IpcError::UnexpectedResponse { command_set: 0x02, command_id: 0x03 });
}

#[test]
fn a_reply_that_has_not_arrived_in_full_is_waited_for() {
    let wire = encode_message(command_set::SERVER, server::OK, &7u64.to_le_bytes()).unwrap();
    let mut stream = StreamReader::live();
    stream.feed(&wire[..10]);
    assert!(matches!(read_response(&mut stream), Err(IpcError::Incomplete { .. })));
    stream.feed(&wire[10..25]);
    assert!(matches!(read_response(&mut stream), Err(IpcError::Incomplete { .. })));
    stream.feed(&wire[25..]);
    assert_eq!(read_response(&mut stream).unwrap(), 7u64.to_le_bytes());
}

#[test]
fn a_connection_that_closes_early_is_an_io_error() {
    let wire = encode_message(command_set::SERVER, server::OK, &[]).unwrap();
    let mut stream = StreamReader::new(wire[..12].to_vec());
    assert_eq!(read_response(&mut stream), Err(IpcError::Io(IoError::UnexpectedEof)));
}

#[test]
fn written_messages_are_the_encoded_ones() {
    let mut out = vec![0xEE];
    write_message(&mut out, 0x04, 0x08, &[1, 2, 3]).unwrap();
    assert_eq!(out[0], 0xEE);
    assert_eq!(&out[1..], &encode_message(0x04, 0x08, &[1, 2, 3]).unwrap()[..]);
}

#[test]
fn well_known_results_have_names() {
    assert!(hresult_name(UNKNOWN_COMMAND).is_some());
    assert_eq!(hresult_name(0), None);
    let words = IpcError::Server(UNKNOWN_COMMAND).describe();
    assert!(words.contains(hresult_name(UNKNOWN_COMMAND).unwrap()), "{words}");
}

// Commands

fn versioned(raw: &str) -> ProcessInfo {
    ProcessInfo { clr_version: Some(raw.to_owned()), ..Default::default() }
}

#[test]
fn clr_version_strips_prerelease_and_metadata() {
    let cases = [
        ("9.0.7", Some((9, 0))),
        ("6.0.0-preview.6.12345", Some((6, 0))),
        ("10.0.1+abc123", Some((10, 0))),
        ("8.0.19-servicing+deadbeef", Some((8, 0))),
        ("not-a-version", None),
    ];
    for (raw, expected) in cases {
        assert_eq!(versioned(raw).clr_major_minor(), expected, "{raw}");
    }
}

#[test]
fn framework_label_reads_naturally() {
    assert_eq!(versioned("9.0.7").framework_label().as_deref(), Some("net9.0"));
}

#[test]
fn missing_clr_version_yields_no_label() {
    assert_eq!(ProcessInfo::default().framework_label(), None);
}

#[test]
fn display_name_prefers_the_assembly_only_for_host_launched_apps() {
    let info = ProcessInfo { assembly_name: Some("CrimeRate.Front".into()), ..Default::default() };
    // Framework-dependent: the OS only knows it as "dotnet".
    assert_eq!(info.display_name("dotnet"), "CrimeRate.Front");
    // Self-contained: the executable name is already meaningful and more specific.
    assert_eq!(info.display_name("Rider.Backend"), "Rider.Backend");
}

#[test]
fn display_name_falls_back_when_no_assembly_is_reported() {
    // ProcessInfo v1 carries no assembly name at all.
    assert_eq!(ProcessInfo::default().display_name("dotnet"), "dotnet");

    let empty = ProcessInfo { assembly_name: Some(String::new()), ..Default::default() };
    assert_eq!(empty.display_name("dotnet"), "dotnet");
}

#[test]
fn trace_payload_matches_the_worked_example() {
    let config = TraceConfig {
        circular_buffer_mb: 256,
        request_rundown: false,
        providers: vec![Provider {
            name: "System.Runtime".into(),
            keywords: 0,
            level: 4,
            filter_data: "EventCounterIntervalSec=1".into(),
        }],
    };
    let payload = config.to_payload();
    assert_eq!(payload.len(), 115);

    let message =
        encode_message(command_set::EVENTPIPE, eventpipe::COLLECT_TRACING2, &payload).unwrap();
    assert_eq!(message.len(), 135);
    assert_eq!(&message[14..16], &[0x87, 0x00]);
    // format = NetTrace, requestRundown = false
    assert_eq!(&message[24..28], &[1, 0, 0, 0]);
    assert_eq!(message[28], 0);
    assert_eq!(start_request(&config).unwrap(), message);
}

fn identity_payload(version: u8) -> Vec<u8> {
    let mut w = PayloadWriter::new();
    if version == process::PROCESS_INFO3 {
        w.u32(1);
    }
    w.u64(4711).u64(1).u64(2).string("app --flag").string("Linux").string("x64");
    if version != process::PROCESS_INFO {
        w.string("My.App").string("9.0.7");
    }
    if version == process::PROCESS_INFO3 {
        w.string("linux-x64");
    }
    w.into_bytes()
}

#[test]
fn every_version_of_an_identity_is_understood() {
    let oldest = parse_process_info(
        process::PROCESS_INFO,
        &identity_payload(process::PROCESS_INFO),
    )
    .unwrap();
    assert_eq!((oldest.pid, oldest.command_line.as_str()), (4711, "app --flag"));
    assert_eq!((oldest.os.as_str(), oldest.arch.as_str()), ("Linux", "x64"));
    assert_eq!((oldest.assembly_name, oldest.clr_version), (None, None));

    let middle = parse_process_info(
        process::PROCESS_INFO2,
        &identity_payload(process::PROCESS_INFO2),
    )
    .unwrap();
    assert_eq!(middle.assembly_name.as_deref(), Some("My.App"));
    assert_eq!(middle.clr_version.as_deref(), Some("9.0.7"));
    assert_eq!(middle.runtime_identifier, None);

    let newest = parse_process_info(
        process::PROCESS_INFO3,
        &identity_payload(process::PROCESS_INFO3),
    )
    .unwrap();
    assert_eq!(newest.assembly_name.as_deref(), Some("My.App"));
    assert_eq!(newest.runtime_identifier.as_deref(), Some("linux-x64"));
}

#[test]
fn identity_queries_walk_down_to_what_the_runtime_knows() {
    let unknown = || Err(CommandError::Ipc(IpcError::Server(UNKNOWN_COMMAND)));
    assert_eq!(first_identity_query(), process::PROCESS_INFO3);
    assert!(matches!(
        after_identity_answer(process::PROCESS_INFO3, unknown()),
        IdentityStep::Ask(process::PROCESS_INFO2)
    ));
    assert!(matches!(
        after_identity_answer(process::PROCESS_INFO2, unknown()),
        IdentityStep::Ask(process::PROCESS_INFO)
    ));
    assert!(matches!(
        after_identity_answer(process::PROCESS_INFO, unknown()),
        IdentityStep::Failed(CommandError::Ipc(IpcError::Server(UNKNOWN_COMMAND)))
    ));
    // Any other answer is final.
    assert!(matches!(
        after_identity_answer(process::PROCESS_INFO3, Err(CommandError::Ipc(IpcError::Server(1)))),
        IdentityStep::Failed(_)
    ));
    assert!(matches!(
        after_identity_answer(process::PROCESS_INFO3, Ok(ProcessInfo::default())),
        IdentityStep::Found(_)
    ));
}

#[test]
fn requests_name_their_command() {
    let identity = identity_request(process::PROCESS_INFO2).unwrap();
    assert_eq!((identity[16], identity[17]), (command_set::PROCESS, process::PROCESS_INFO2));
    let stop = stop_request(0x0102).unwrap();
    assert_eq!((stop[16], stop[17]), (command_set::EVENTPIPE, eventpipe::STOP_TRACING));
    assert_eq!(&stop[20..], &0x0102u64.to_le_bytes());
    assert_eq!(parse_session_id(&stop[20..]).unwrap(), 0x0102);
    assert!(parse_session_id(&[1, 2]).is_err());
}

#[test]
fn command_errors_are_what_they_were_made_from() {
    let short = TruncatedPayload { wanted: 4, remaining: 3 };
    assert_eq!(CommandError::from(short.clone()).describe(), short.describe());
    let server = IpcError::Server(5);
    assert_eq!(CommandError::from(server.clone()).describe(), server.describe());
    let gone = ConnectError { socket: "/tmp/s".into(), source: ConnectFault::NotListening };
    assert_eq!(CommandError::from(gone.clone()).describe(), gone.describe());
}

#[test]
fn connection_failures_say_what_is_wrong() {
    let describe = |source| ConnectError { socket: "/tmp/s".into(), source }.describe();
    assert_eq!(
        describe(ConnectFault::NotListening),
        "the process is no longer listening (stale socket /tmp/s)"
    );
    assert_eq!(
        describe(ConnectFault::PermissionDenied),
        "permission denied connecting to /tmp/s; the process belongs to another user"
    );
    assert_eq!(
        describe(ConnectFault::Other("broken".into())),
        "could not connect to /tmp/s: broken"
    );
}

// Discovery

#[test]
fn parses_a_well_formed_socket_name() {
    let name = "dotnet-diagnostic-77686-1786223894-socket";
    assert_eq!(parse_socket_name(name), Some((77686, 1786223894)));
}

#[test]
fn rejects_dsrouter_and_malformed_names() {
    for name in [
        "dotnet-diagnostic-dsrouter-77686-1786223894-socket",
        "dotnet-diagnostic-77686-socket",
        "dotnet-diagnostic-77686-1786223894",
        "clr-debug-pipe-1234",
        "dotnet-diagnostic-abc-123-socket",
    ] {
        assert_eq!(parse_socket_name(name), None, "{name}");
    }
}

#[test]
fn ipc_root_prefers_tmpdir() {
    assert!(!ipc_root(None).is_empty());
    assert_eq!(ipc_root(Some(b"/var/tmp".to_vec())), b"/var/tmp");
    assert_eq!(ipc_root(Some(Vec::new())), b"/tmp");
    assert_eq!(ipc_root(None), b"/tmp");
}

#[test]
fn the_start_key_is_the_twenty_second_field() {
    // The command may hold spaces and brackets of its own.
    let stat = "42 (a (b) c) S 1 2 3 4 5 6 7 8 9 10 11 12 13 14 15 16 17 18 9876 20";
    assert_eq!(parse_stat_start_key(stat), Some(9876));
    assert_eq!(parse_stat_start_key("42 (a) S 1 2"), None);
    assert_eq!(parse_stat_start_key("nonsense"), None);
}

#[test]
fn processes_are_named_after_their_executable() {
    assert_eq!(display_name(Some("My.App"), "dotnet"), "My.App");
    assert_eq!(display_name(None, "dotnet"), "dotnet");
}

#[test]
fn commands_are_joined_or_replaced_by_the_executable() {
    let args = vec!["dotnet".to_string(), "run".to_string()];
    assert_eq!(display_command(&args, Some("/usr/bin/dotnet")), "dotnet run");
    assert_eq!(display_command(&Vec::new(), Some("/usr/bin/dotnet")), "/usr/bin/dotnet");
    assert_eq!(display_command(&Vec::new(), None), "");
}

fn endpoint(pid: u32, key: u64, modified: i128, process: Option<LiveProcess>) -> Endpoint {
    Endpoint { pid, key, path: format!("/tmp/{pid}-{key}").into_bytes(), modified, process }
}

fn live(user: u32, start_key: Option<u64>, name: &str) -> Option<LiveProcess> {
    Some(LiveProcess { user: Some(user), start_key, name: name.into(), command: "cmd".into() })
}

#[test]
fn endpoints_that_cannot_be_used_are_counted() {
    let mut long = endpoint(5, 50, 0, live(1, Some(50), "long"));
    long.path = vec![b'x'; SUN_PATH_MAX + 1];
    let found = attachable(
        &vec![
            endpoint(1, 10, 0, None),
            endpoint(2, 20, 0, live(2, Some(20), "foreign")),
            endpoint(3, 30, 0, live(1, Some(31), "reused")),
            endpoint(4, 40, 0, live(1, Some(40), "good")),
            long,
            endpoint(6, 60, 0, live(1, None, "unsure")),
        ],
        Some(1),
    );
    assert_eq!((found.stale, found.foreign), (1, 1));
    assert_eq!((found.mismatched, found.too_long), (1, 1));
    let offered: Vec<(u32, bool)> =
        found.processes.iter().map(|p| (p.pid, p.start_key_verified)).collect();
    assert_eq!(offered.len(), 2);
    assert!(offered.contains(&(4, true)) && offered.contains(&(6, false)));
}

#[test]
fn a_process_is_offered_once_through_its_newest_endpoint() {
    let found = attachable(
        &vec![
            endpoint(7, 1, 10, live(1, None, "app")),
            endpoint(8, 5, 10, live(1, None, "other")),
            endpoint(7, 2, 30, live(1, None, "app")),
            endpoint(7, 3, 20, live(1, None, "app")),
        ],
        None,
    );
    assert_eq!(found.processes.len(), 2);
    let app = found.processes.iter().find(|p| p.pid == 7).unwrap();
    assert_eq!(app.socket, b"/tmp/7-2");
}

#[test]
fn an_unreadable_directory_is_named() {
    let error =
        DiscoveryError::UnreadableRoot { path: "/tmp".into(), source: "no such file".into() };
    assert_eq!(
        error.describe(),
        "cannot read the diagnostic socket directory /tmp: no such file"
    );
}
