//! The nettrace stream format.
use countercow::nettrace::blocks::{Elapsed, NettraceParser, TraceInfo};
use countercow::nettrace::event::{
    EventHeader, ACTIVITY_ID, CAPTURE_THREAD_AND_SEQUENCE, IS_SORTED, METADATA_ID, PAYLOAD_SIZE,
    RELATED_ACTIVITY_ID, STACK_ID, THREAD_ID,
};
use countercow::nettrace::fastserial::{
    expect_tag, read_object_header, read_preamble, tag, NETTRACE_MAGIC, SERIALIZER_HEADER,
};
use countercow::nettrace::metadata::{
    parse, Field, FieldType, TypeCode, TAG_OPCODE, TAG_PARAMETER_PAYLOAD_V2,
};
use countercow::nettrace::payload::{decode_flat, FlatPayload, Number, Value};
use countercow::nettrace::reader::{IoError, ParseError, Reader, StreamReader};
use countercow::nettrace::stacks::{parse_stacks, StackTable};

fn varint(mut v: u64) -> Vec<u8> {
    let mut out = Vec::new();
    loop {
        let byte = (v & 0x7F) as u8;
        v >>= 7;
        if v == 0 {
            out.push(byte);
            return out;
        }
        out.push(byte | 0x80);
    }
}

fn wstr(s: &str) -> Vec<u8> {
    let mut out = Vec::new();
    for unit in s.encode_utf16() {
        out.extend_from_slice(&unit.to_le_bytes());
    }
    out.extend_from_slice(&[0, 0]);
    out
}

// Readers

#[test]
fn reads_little_endian_scalars() {
    let bytes = [0x01, 0x02, 0x03, 0x04, 0xFF, 0xFF];
    let mut r = Reader::new(&bytes);
    assert_eq!(r.i32().unwrap(), 0x04030201);
    assert_eq!(r.i16().unwrap(), -1);
    assert!(r.is_empty());
}

#[test]
fn varint_single_byte() {
    let bytes = [0x7F];
    assert_eq!(Reader::new(&bytes).varuint32().unwrap(), 127);
}

#[test]
fn varint_multi_byte_boundaries() {
    // 128 => 0x80 0x01
    assert_eq!(Reader::new(&[0x80, 0x01]).varuint32().unwrap(), 128);
    // 300 => 0xAC 0x02
    assert_eq!(Reader::new(&[0xAC, 0x02]).varuint32().unwrap(), 300);
    // u32::MAX => 5 bytes
    assert_eq!(Reader::new(&[0xFF, 0xFF, 0xFF, 0xFF, 0x0F]).varuint32().unwrap(), u32::MAX);
    // u64::MAX => 10 bytes
    let max = [0xFF, 0xFF, 0xFF, 0xFF, 0xFF, 0xFF, 0xFF, 0xFF, 0xFF, 0x01];
    assert_eq!(Reader::new(&max).varuint64().unwrap(), u64::MAX);
}

#[test]
fn varint_round_trips() {
    for value in [0u64, 1, 127, 128, 16_383, 16_384, 1 << 31, 1 << 62, u64::MAX] {
        let bytes = varint(value);
        assert_eq!(Reader::new(&bytes).varuint64().unwrap(), value, "{value}");
    }
}

#[test]
fn overlong_varint_is_rejected() {
    // Eleven continuation bytes exceeds the u64 limit.
    let bytes = [0x80u8; 11];
    assert!(matches!(Reader::new(&bytes).varuint64(), Err(ParseError::MalformedVarint)));
}

#[test]
fn reads_nul_terminated_utf16() {
    let mut bytes = Vec::new();
    for unit in "System.Runtime".encode_utf16() {
        bytes.extend_from_slice(&unit.to_le_bytes());
    }
    bytes.extend_from_slice(&[0, 0]);
    bytes.extend_from_slice(&[0xAB, 0xCD]); // trailing data must be left alone

    let mut r = Reader::new(&bytes);
    assert_eq!(r.utf16_nul_string().unwrap(), "System.Runtime");
    assert_eq!(r.remaining(), 2);
}

#[test]
fn empty_utf16_string_is_just_the_terminator() {
    let bytes = [0u8, 0];
    assert_eq!(Reader::new(&bytes).utf16_nul_string().unwrap(), "");
}

#[test]
fn truncation_reports_context() {
    let bytes = [1u8, 2];
    match Reader::new(&bytes).i32() {
        Err(ParseError::Truncated { what, wanted, remaining }) => {
            assert_eq!((what, wanted, remaining), ("i32", 4, 2));
        }
        other => panic!("expected truncation, got {other:?}"),
    }
}

#[test]
fn stream_reader_tracks_absolute_position() {
    let data = vec![0u8; 100];
    let mut r = StreamReader::new(data);
    r.read_exact_bytes(8).unwrap();
    assert_eq!(r.position(), 8);
    r.skip(5).unwrap();
    assert_eq!(r.position(), 13);
    r.u8().unwrap();
    assert_eq!(r.position(), 14);
}

#[test]
fn an_open_stream_waits_and_a_closed_one_ends() {
    let mut r = StreamReader::live();
    r.feed(&[1, 2]);
    assert_eq!(r.i32(), Err(ParseError::Incomplete { missing: 2 }));
    assert_eq!(r.position(), 0);
    r.feed(&[3]);
    assert_eq!(r.i32(), Err(ParseError::Incomplete { missing: 1 }));
    r.feed(&[4, 5]);
    assert_eq!(r.i32(), Ok(0x04030201));
    r.close();
    assert_eq!(r.read_exact_bytes(2), Err(ParseError::Io(IoError::UnexpectedEof)));
}

#[test]
fn every_width_is_read() {
    let bytes: Vec<u8> = (1u8..=34).collect();
    let mut r = Reader::new(&bytes);
    assert_eq!(r.u8(), Ok(1));
    assert_eq!(r.u16(), Ok(0x0302));
    assert_eq!(r.u32(), Ok(0x07060504));
    assert_eq!(r.u64(), Ok(0x0F0E0D0C0B0A0908));
    assert_eq!(r.i64(), Ok(0x1716151413121110));
    assert_eq!(r.bytes(2, "pair"), Ok(&[0x18u8, 0x19][..]));
    assert_eq!(r.skip(4, "rest"), Ok(()));
    assert_eq!((r.position(), r.remaining()), (29, 5));
    assert!(matches!(r.skip(6, "rest"), Err(ParseError::Truncated { what: "rest", .. })));
}

#[test]
fn errors_are_put_into_words() {
    let truncated = ParseError::Truncated { what: "i32", wanted: 4, remaining: 2 };
    assert!(truncated.describe().contains("i32"));
    assert!(!ParseError::MalformedVarint.describe().is_empty());
    let ended = ParseError::Io(IoError::UnexpectedEof).describe();
    assert!(ended.contains("failed to fill whole buffer"), "{ended}");
}

// Objects

fn preamble() -> Vec<u8> {
    let mut out = NETTRACE_MAGIC.to_vec();
    out.extend_from_slice(&20i32.to_le_bytes());
    out.extend_from_slice(SERIALIZER_HEADER);
    out
}

#[test]
fn accepts_a_valid_preamble_and_consumes_exactly_32_bytes() {
    let mut r = StreamReader::new(preamble());
    read_preamble(&mut r).unwrap();
    assert_eq!(r.position(), 32);
}

#[test]
fn rejects_a_foreign_stream() {
    let mut bytes = b"NotTrace".to_vec();
    bytes.extend_from_slice(&20i32.to_le_bytes());
    bytes.extend_from_slice(SERIALIZER_HEADER);
    let mut r = StreamReader::new(bytes);
    assert!(read_preamble(&mut r).is_err());
}

fn object_header(name: &str, version: i32) -> Vec<u8> {
    let mut out =
        vec![tag::BEGIN_PRIVATE_OBJECT, tag::BEGIN_PRIVATE_OBJECT, tag::NULL_REFERENCE];
    out.extend_from_slice(&version.to_le_bytes());
    out.extend_from_slice(&version.to_le_bytes());
    out.extend_from_slice(&(name.len() as i32).to_le_bytes());
    out.extend_from_slice(name.as_bytes());
    out.push(tag::END_OBJECT);
    out
}

#[test]
fn reads_a_trace_object_header() {
    let mut r = StreamReader::new(object_header("Trace", 4));
    let header = read_object_header(&mut r).unwrap().unwrap();
    assert_eq!(header.object_type, "Trace");
    assert_eq!(header.version, 4);
    assert_eq!(header.min_reader_version, 4);
}

#[test]
fn null_reference_signals_end_of_stream() {
    let mut r = StreamReader::new(vec![tag::NULL_REFERENCE]);
    assert!(read_object_header(&mut r).unwrap().is_none());
}

#[test]
fn a_stray_tag_is_an_error() {
    let mut r = StreamReader::new(vec![0x42]);
    assert!(read_object_header(&mut r).is_err());
}

#[test]
fn full_preamble_then_trace_header_lands_at_the_documented_offset() {
    let mut bytes = preamble();
    bytes.extend(object_header("Trace", 4));
    let mut r = StreamReader::new(bytes);
    read_preamble(&mut r).unwrap();
    read_object_header(&mut r).unwrap().unwrap();
    // 32-byte preamble + 3 tags + 3 i32 + 5 name bytes + 1 end tag = 53.
    assert_eq!(r.position(), 53);
}

#[test]
fn a_name_that_is_no_utf8_is_read_with_replacements() {
    let mut bytes = object_header("Trace", 4);
    bytes[15] = 0xFF;
    let header = read_object_header(&mut StreamReader::new(bytes)).unwrap().unwrap();
    assert_eq!(header.object_type, "\u{FFFD}race");
}

#[test]
fn an_expected_tag_is_checked() {
    assert_eq!(expect_tag(&mut StreamReader::new(vec![6]), tag::END_OBJECT, "end"), Ok(()));
    let wrong = expect_tag(&mut StreamReader::new(vec![5]), tag::END_OBJECT, "end");
    assert!(matches!(wrong, Err(ParseError::Unexpected { .. })));
}

// Event headers

#[test]
fn minimal_row_carries_everything_forward() {
    // Only the timestamp delta is present.
    let mut bytes = vec![0u8];
    bytes.extend(varint(500));

    let mut header = EventHeader {
        metadata_id: 3,
        thread_id: 99,
        payload_size: 42,
        timestamp: 1_000,
        sequence_number: 5,
        ..Default::default()
    };
    header.read_compressed(&mut Reader::new(&bytes)).unwrap();

    assert_eq!(header.timestamp, 1_500, "timestamp is a delta");
    assert_eq!(header.metadata_id, 3, "retained");
    assert_eq!(header.thread_id, 99, "retained");
    assert_eq!(header.payload_size, 42, "retained");
    // metadata_id is non-zero, so the sequence still advances by one.
    assert_eq!(header.sequence_number, 6);
}

#[test]
fn capture_thread_flag_sets_three_fields_and_offsets_the_sequence() {
    let mut bytes = vec![CAPTURE_THREAD_AND_SEQUENCE];
    bytes.extend(varint(2)); // sequence delta; true increment is 3
    bytes.extend(varint(77)); // capture thread id
    bytes.extend(varint(4)); // processor number
    bytes.extend(varint(10)); // timestamp delta

    let mut header = EventHeader { sequence_number: 100, ..Default::default() };
    header.read_compressed(&mut Reader::new(&bytes)).unwrap();

    assert_eq!(header.sequence_number, 103, "delta + 1");
    assert_eq!(header.capture_thread_id, 77);
    assert_eq!(header.processor_number, 4);
    assert_eq!(header.timestamp, 10);
}

#[test]
fn sequence_does_not_advance_when_metadata_id_is_zero() {
    // Metadata rows carry id 0 and must not bump the sequence.
    let mut bytes = vec![0u8];
    bytes.extend(varint(1));

    let mut header = EventHeader { metadata_id: 0, sequence_number: 9, ..Default::default() };
    header.read_compressed(&mut Reader::new(&bytes)).unwrap();
    assert_eq!(header.sequence_number, 9);
}

#[test]
fn all_fields_present_decodes_in_order() {
    let mut bytes = vec![
        METADATA_ID
            | CAPTURE_THREAD_AND_SEQUENCE
            | THREAD_ID
            | STACK_ID
            | ACTIVITY_ID
            | RELATED_ACTIVITY_ID
            | IS_SORTED
            | PAYLOAD_SIZE,
    ];
    bytes.extend(varint(11)); // metadata id
    bytes.extend(varint(0)); // sequence delta
    bytes.extend(varint(22)); // capture thread
    bytes.extend(varint(1)); // processor
    bytes.extend(varint(33)); // thread id
    bytes.extend(varint(44)); // stack id
    bytes.extend(varint(55)); // timestamp delta
    bytes.extend([0xAA; 16]); // activity id
    bytes.extend([0xBB; 16]); // related activity id
    bytes.extend(varint(66)); // payload size

    let mut header = EventHeader::default();
    header.read_compressed(&mut Reader::new(&bytes)).unwrap();

    assert_eq!(header.metadata_id, 11);
    assert_eq!(header.sequence_number, 1);
    assert_eq!(header.capture_thread_id, 22);
    assert_eq!(header.processor_number, 1);
    assert_eq!(header.thread_id, 33);
    assert_eq!(header.stack_id, 44);
    assert_eq!(header.timestamp, 55);
    assert_eq!(header.activity_id, [0xAA; 16]);
    assert_eq!(header.related_activity_id, [0xBB; 16]);
    assert!(header.is_sorted);
    assert_eq!(header.payload_size, 66);
}

#[test]
fn is_sorted_consumes_no_bytes() {
    // Same row twice, once with the IsSorted bit: both must read the same field values.
    let mut plain = vec![0u8];
    plain.extend(varint(7));
    let mut sorted = vec![IS_SORTED];
    sorted.extend(varint(7));

    let mut a = EventHeader::default();
    a.read_compressed(&mut Reader::new(&plain)).unwrap();
    let mut b = EventHeader::default();
    b.read_compressed(&mut Reader::new(&sorted)).unwrap();

    assert_eq!(a.timestamp, b.timestamp);
    assert!(!a.is_sorted);
    assert!(b.is_sorted);
}

#[test]
fn consecutive_rows_accumulate_timestamps() {
    let mut bytes = Vec::new();
    for delta in [100u64, 50, 25] {
        bytes.push(0);
        bytes.extend(varint(delta));
    }

    let mut r = Reader::new(&bytes);
    let mut header = EventHeader::default();
    let mut seen = Vec::new();
    for _ in 0..3 {
        header.read_compressed(&mut r).unwrap();
        seen.push(header.timestamp);
    }
    assert_eq!(seen, vec![100, 150, 175]);
}

#[test]
fn uncompressed_rows_hold_every_field() {
    let mut bytes = Vec::new();
    bytes.extend_from_slice(&99u32.to_le_bytes()); // size
    bytes.extend_from_slice(&(0x8000_0000u32 | 7).to_le_bytes()); // not sorted, id 7
    bytes.extend_from_slice(&3u32.to_le_bytes()); // sequence
    bytes.extend_from_slice(&11u64.to_le_bytes()); // thread
    bytes.extend_from_slice(&12u64.to_le_bytes()); // capture thread
    bytes.extend_from_slice(&5u32.to_le_bytes()); // processor
    bytes.extend_from_slice(&6u32.to_le_bytes()); // stack
    bytes.extend_from_slice(&1_000u64.to_le_bytes()); // time
    bytes.extend([0x11; 16]);
    bytes.extend([0x22; 16]);
    bytes.extend_from_slice(&8u32.to_le_bytes()); // payload
    let mut r = Reader::new(&bytes);
    let mut header = EventHeader::default();
    header.read_uncompressed(&mut r).unwrap();
    assert!(r.is_empty());
    assert_eq!((header.metadata_id, header.is_sorted), (7, false));
    assert_eq!((header.sequence_number, header.thread_id), (3, 11));
    assert_eq!((header.capture_thread_id, header.processor_number), (12, 5));
    assert_eq!((header.stack_id, header.timestamp), (6, 1_000));
    assert_eq!((header.activity_id, header.related_activity_id), ([0x11; 16], [0x22; 16]));
    assert_eq!(header.payload_size, 8);
}

// Metadata

/// Builds metadata payloads the way the runtime does, so the tests exercise real layouts.
#[derive(Default)]
struct MetadataBuilder {
    buf: Vec<u8>,
}

impl MetadataBuilder {
    fn i32(&mut self, v: i32) -> &mut Self {
        self.buf.extend_from_slice(&v.to_le_bytes());
        self
    }
    fn u32(&mut self, v: u32) -> &mut Self {
        self.buf.extend_from_slice(&v.to_le_bytes());
        self
    }
    fn i64(&mut self, v: i64) -> &mut Self {
        self.buf.extend_from_slice(&v.to_le_bytes());
        self
    }
    fn u8(&mut self, v: u8) -> &mut Self {
        self.buf.push(v);
        self
    }
    fn wstr(&mut self, s: &str) -> &mut Self {
        self.buf.extend(wstr(s));
        self
    }
    fn header(&mut self, id: u32, provider: &str, event: &str) -> &mut Self {
        self.u32(id).wstr(provider).i32(0).wstr(event).i64(0).i32(1).i32(4)
    }
}

#[test]
fn parses_header_and_flat_v1_fields() {
    let mut b = MetadataBuilder::default();
    b.header(7, "System.Runtime", "EventCounters")
        .i32(2) // field count
        .i32(TypeCode::Int32.to_i32())
        .wstr("Count")
        .i32(TypeCode::String.to_i32())
        .wstr("Name");

    let md = parse(&b.buf).unwrap();
    assert_eq!(md.metadata_id, 7);
    assert_eq!(md.provider_name, "System.Runtime");
    assert_eq!(md.event_name, "EventCounters");
    assert_eq!(md.version, 1);
    assert_eq!(md.level, 4);
    assert_eq!(md.fields.len(), 2);
    assert_eq!(md.fields[0].name, "Count");
    assert!(matches!(md.fields[0].ty, FieldType::Scalar(TypeCode::Int32)));
    assert_eq!(md.fields[1].name, "Name");
}

#[test]
fn parses_nested_v1_objects() {
    // The real EventCounters shape: an unnamed outer struct wrapping a "Payload" struct.
    let mut b = MetadataBuilder::default();
    b.header(3, "System.Runtime", "EventCounters")
        .i32(1)
        .i32(TypeCode::Object.to_i32())
        .i32(1)
        .i32(TypeCode::Object.to_i32())
        .i32(2)
        .i32(TypeCode::String.to_i32())
        .wstr("Name")
        .i32(TypeCode::Double.to_i32())
        .wstr("Mean")
        .wstr("Payload")
        .wstr("");

    let md = parse(&b.buf).unwrap();
    assert_eq!(md.fields.len(), 1);
    assert_eq!(md.fields[0].name, "");
    let FieldType::Object(outer) = &md.fields[0].ty else {
        panic!("expected an outer object");
    };
    assert_eq!(outer[0].name, "Payload");
    let FieldType::Object(inner) = &outer[0].ty else {
        panic!("expected a Payload object");
    };
    assert_eq!(inner.len(), 2);
    assert_eq!(inner[0].name, "Name");
    assert_eq!(inner[1].name, "Mean");
}

#[test]
fn no_field_list_means_no_payload() {
    let mut b = MetadataBuilder::default();
    b.header(1, "P", "E");
    let md = parse(&b.buf).unwrap();
    assert!(md.fields.is_empty());
}

#[test]
fn opcode_tag_is_skipped_without_disturbing_fields() {
    let mut b = MetadataBuilder::default();
    b.header(4, "P", "E")
        .i32(1)
        .i32(TypeCode::Int32.to_i32())
        .wstr("N")
        // tag: 1 payload byte, kind Opcode
        .i32(1)
        .u8(TAG_OPCODE)
        .u8(9);

    let md = parse(&b.buf).unwrap();
    assert_eq!(md.fields.len(), 1);
    assert_eq!(md.fields[0].name, "N");
}

#[test]
fn v2_tag_supersedes_the_v1_list_and_inverts_field_order() {
    // V2 field body: name first, then type, the opposite of V1.
    let mut field = MetadataBuilder::default();
    field.wstr("Duration").i32(TypeCode::Double.to_i32());
    let field_size = 4 + field.buf.len() as i32;

    let mut v2 = MetadataBuilder::default();
    v2.i32(1).i32(field_size);
    v2.buf.extend_from_slice(&field.buf);

    let mut b = MetadataBuilder::default();
    b.header(5, "P", "E")
        // A V1 list that must be discarded once the V2 tag appears.
        .i32(1)
        .i32(TypeCode::Int32.to_i32())
        .wstr("stale");
    b.i32(v2.buf.len() as i32).u8(TAG_PARAMETER_PAYLOAD_V2);
    b.buf.extend_from_slice(&v2.buf);

    let md = parse(&b.buf).unwrap();
    assert_eq!(md.fields.len(), 1);
    assert_eq!(md.fields[0].name, "Duration", "V2 list must win");
    assert!(matches!(md.fields[0].ty, FieldType::Scalar(TypeCode::Double)));
}

#[test]
fn v2_field_padding_is_absorbed() {
    // Declare a field larger than its contents; the slack is padding.
    let mut field = MetadataBuilder::default();
    field.wstr("X").i32(TypeCode::Int32.to_i32());
    let padded_size = 4 + field.buf.len() as i32 + 3;

    let mut v2 = MetadataBuilder::default();
    v2.i32(1).i32(padded_size);
    v2.buf.extend_from_slice(&field.buf);
    v2.buf.extend_from_slice(&[0, 0, 0]);
    // A second field proves the reader resumed at the right offset.
    let mut second = MetadataBuilder::default();
    second.wstr("Y").i32(TypeCode::Int64.to_i32());
    v2.i32(4 + second.buf.len() as i32);
    v2.buf.extend_from_slice(&second.buf);
    // Fix the count now that there are two.
    v2.buf[0..4].copy_from_slice(&2i32.to_le_bytes());

    let mut b = MetadataBuilder::default();
    b.header(6, "P", "E").i32(0);
    b.i32(v2.buf.len() as i32).u8(TAG_PARAMETER_PAYLOAD_V2);
    b.buf.extend_from_slice(&v2.buf);

    let md = parse(&b.buf).unwrap();
    assert_eq!(md.fields.len(), 2);
    assert_eq!(md.fields[0].name, "X");
    assert_eq!(md.fields[1].name, "Y");
    assert!(matches!(md.fields[1].ty, FieldType::Scalar(TypeCode::Int64)));
}

#[test]
fn unknown_type_code_is_preserved_not_guessed() {
    let mut b = MetadataBuilder::default();
    b.header(8, "P", "E").i32(1).i32(999).wstr("Odd");
    let md = parse(&b.buf).unwrap();
    assert!(matches!(md.fields[0].ty, FieldType::Unknown(999)));
}

#[test]
fn deep_nesting_is_rejected_rather_than_overflowing_the_stack() {
    let mut b = MetadataBuilder::default();
    b.header(9, "P", "E");
    for _ in 0..64 {
        b.i32(1).i32(TypeCode::Object.to_i32());
    }
    b.i32(0);
    assert!(parse(&b.buf).is_err());
}

#[test]
fn type_codes_go_to_numbers_and_back() {
    for v in -1..40 {
        if let Some(code) = TypeCode::from_i32(v) {
            assert_eq!(code.to_i32(), v);
        }
    }
    assert_eq!(TypeCode::from_i32(9), Some(TypeCode::Int32));
    assert_eq!(TypeCode::from_i32(2), None);
    assert_eq!(TypeCode::Guid.fixed_size(), Some(16));
    assert_eq!(TypeCode::String.fixed_size(), None);
}

// Payloads

fn scalar(name: &str, code: TypeCode) -> Field {
    Field { name: name.into(), ty: FieldType::Scalar(code) }
}

fn at<'a>(map: &'a FlatPayload, name: &str) -> &'a Value {
    map.get(name).unwrap()
}

/// A number as it counts: whatever its form, as a double.
fn as_f64(value: &Value) -> Option<f64> {
    value.as_number().map(|n| match n {
        Number::Bool(b) => f64::from(u8::from(b)),
        Number::Int(i) => i as f64,
        Number::UInt(u) => u as f64,
        Number::Single(bits) => f64::from(f32::from_bits(bits)),
        Number::Double(bits) => f64::from_bits(bits),
    })
}

#[test]
fn decodes_scalars_at_natural_width() {
    let fields = vec![
        scalar("i", TypeCode::Int32),
        scalar("f", TypeCode::Single),
        scalar("d", TypeCode::Double),
        scalar("b", TypeCode::Boolean),
    ];
    let mut payload = Vec::new();
    payload.extend_from_slice(&(-7i32).to_le_bytes());
    payload.extend_from_slice(&1.5f32.to_le_bytes());
    payload.extend_from_slice(&2.25f64.to_le_bytes());
    payload.extend_from_slice(&1i32.to_le_bytes());

    let map = decode_flat(&fields, &payload).unwrap();
    assert_eq!(*at(&map, "i"), Value::Int(-7));
    assert_eq!(as_f64(at(&map, "f")).unwrap(), 1.5);
    assert_eq!(*at(&map, "d"), Value::Double(2.25f64.to_bits()));
    assert_eq!(*at(&map, "b"), Value::Bool(true));
}

#[test]
fn strings_are_nul_terminated_and_consume_exactly_their_bytes() {
    let fields = vec![scalar("name", TypeCode::String), scalar("after", TypeCode::Int32)];
    let mut payload = wstr("cpu-usage");
    payload.extend_from_slice(&99i32.to_le_bytes());

    let map = decode_flat(&fields, &payload).unwrap();
    assert_eq!(at(&map, "name").as_str().unwrap(), "cpu-usage");
    assert_eq!(*at(&map, "after"), Value::Int(99));
}

#[test]
fn nested_objects_are_flattened_and_contribute_no_bytes() {
    // The real EventCounters shape: outer anonymous struct -> "Payload" -> leaves.
    let inner = vec![scalar("Name", TypeCode::String), scalar("Mean", TypeCode::Double)];
    let outer = vec![Field { name: "Payload".into(), ty: FieldType::Object(inner) }];
    let fields = vec![Field { name: String::new(), ty: FieldType::Object(outer) }];

    let mut payload = wstr("gc-heap-size");
    payload.extend_from_slice(&42.5f64.to_le_bytes());

    let map = decode_flat(&fields, &payload).unwrap();
    assert_eq!(map.len(), 2, "only leaves appear");
    assert_eq!(at(&map, "Name").as_str().unwrap(), "gc-heap-size");
    assert_eq!(as_f64(at(&map, "Mean")).unwrap(), 42.5);
}

#[test]
fn arrays_are_length_prefixed() {
    let fields = vec![Field {
        name: "values".into(),
        ty: FieldType::Array(Box::new(FieldType::Scalar(TypeCode::Int32))),
    }];
    let mut payload = 3u16.to_le_bytes().to_vec();
    for v in [1i32, 2, 3] {
        payload.extend_from_slice(&v.to_le_bytes());
    }

    let map = decode_flat(&fields, &payload).unwrap();
    assert_eq!(
        *at(&map, "values"),
        Value::Array(vec![Value::Int(1), Value::Int(2), Value::Int(3)])
    );
}

#[test]
fn unknown_field_type_errors_rather_than_misaligning() {
    let fields = vec![
        Field { name: "odd".into(), ty: FieldType::Unknown(77) },
        scalar("after", TypeCode::Int32),
    ];
    assert!(decode_flat(&fields, &[0u8; 8]).is_err());
}

#[test]
fn truncated_payload_errors() {
    let fields = vec![scalar("d", TypeCode::Double)];
    assert!(decode_flat(&fields, &[0u8; 4]).is_err());
}

#[test]
fn incrementing_counter_payload_shape_round_trips() {
    // IncrementingCounterPayload: 9 fields, Increment rather than Mean.
    let inner = vec![
        scalar("Name", TypeCode::String),
        scalar("DisplayName", TypeCode::String),
        scalar("DisplayRateTimeScale", TypeCode::String),
        scalar("Increment", TypeCode::Double),
        scalar("IntervalSec", TypeCode::Single),
        scalar("Metadata", TypeCode::String),
        scalar("Series", TypeCode::String),
        scalar("CounterType", TypeCode::String),
        scalar("DisplayUnits", TypeCode::String),
    ];
    let outer = vec![Field { name: "Payload".into(), ty: FieldType::Object(inner) }];
    let fields = vec![Field { name: String::new(), ty: FieldType::Object(outer) }];

    let mut payload = Vec::new();
    payload.extend(wstr("gen-0-gc-count"));
    payload.extend(wstr("Gen 0 GC Count"));
    payload.extend(wstr("00:01:00"));
    payload.extend_from_slice(&3.0f64.to_le_bytes());
    payload.extend_from_slice(&1.0f32.to_le_bytes());
    payload.extend(wstr(""));
    payload.extend(wstr("Interval=1000"));
    payload.extend(wstr("Sum"));
    payload.extend(wstr(""));

    let map = decode_flat(&fields, &payload).unwrap();
    assert_eq!(at(&map, "Name").as_str().unwrap(), "gen-0-gc-count");
    assert_eq!(at(&map, "CounterType").as_str().unwrap(), "Sum");
    assert_eq!(as_f64(at(&map, "Increment")).unwrap(), 3.0);
    assert_eq!(at(&map, "DisplayRateTimeScale").as_str().unwrap(), "00:01:00");
    assert_eq!(as_f64(at(&map, "IntervalSec")).unwrap(), 1.0);
}

#[test]
fn a_name_that_comes_twice_keeps_its_last_value() {
    let fields = vec![scalar("a", TypeCode::Byte), scalar("a", TypeCode::Byte)];
    let map = decode_flat(&fields, &[1, 2]).unwrap();
    assert_eq!(map.len(), 1);
    assert_eq!(*at(&map, "a"), Value::UInt(2));
    assert_eq!(at(&map, "a").as_i64(), Some(2));
    assert!(map.get("b").is_none());
}

// Blocks

/// Assembles a nettrace stream the way the runtime does, so the parser is exercised against real
/// framing rather than a convenient approximation.
struct StreamBuilder {
    buf: Vec<u8>,
}

impl StreamBuilder {
    fn new() -> Self {
        Self { buf: preamble() }
    }

    fn object_header(&mut self, name: &str) -> &mut Self {
        self.buf.extend(object_header(name, 4));
        self
    }

    fn trace(&mut self, qpc_frequency: i64, process_id: i32) -> &mut Self {
        self.object_header("Trace");
        for part in [2026i16, 8, 0, 16, 12, 0, 0, 0] {
            self.buf.extend_from_slice(&part.to_le_bytes());
        }
        self.buf.extend_from_slice(&0i64.to_le_bytes()); // sync time qpc
        self.buf.extend_from_slice(&qpc_frequency.to_le_bytes());
        self.buf.extend_from_slice(&8i32.to_le_bytes()); // pointer size
        self.buf.extend_from_slice(&process_id.to_le_bytes());
        self.buf.extend_from_slice(&10i32.to_le_bytes()); // processors
        self.buf.extend_from_slice(&0i32.to_le_bytes()); // sampling rate
        self.buf.push(tag::END_OBJECT);
        self
    }

    /// A block with the given content.
    fn raw_block(&mut self, name: &str, content: &[u8]) -> &mut Self {
        self.object_header(name);
        self.buf.extend_from_slice(&(content.len() as i32).to_le_bytes());
        // Alignment padding is relative to the absolute stream offset.
        let padding = (4 - (self.buf.len() & 3)) & 3;
        self.buf.extend(std::iter::repeat(0u8).take(padding));
        self.buf.extend_from_slice(content);
        self.buf.push(tag::END_OBJECT);
        self
    }

    /// A block whose content is the standard 20-byte header plus the given rows.
    fn block(&mut self, name: &str, rows: &[u8]) -> &mut Self {
        let mut content = Vec::new();
        content.extend_from_slice(&20u16.to_le_bytes()); // header size
        content.extend_from_slice(&1u16.to_le_bytes()); // flags: compressed
        content.extend_from_slice(&0i64.to_le_bytes()); // min timestamp
        content.extend_from_slice(&0i64.to_le_bytes()); // max timestamp
        content.extend_from_slice(rows);
        self.raw_block(name, &content)
    }

    fn end(&mut self) -> Vec<u8> {
        self.buf.push(tag::NULL_REFERENCE);
        self.buf.clone()
    }
}

/// A compressed event row carrying metadata id, timestamp delta and payload.
fn event_row(metadata_id: u32, timestamp_delta: u64, payload: &[u8]) -> Vec<u8> {
    let mut row = vec![0b1000_0001u8]; // MetadataId | PayloadSize
    row.extend(varint(u64::from(metadata_id)));
    row.extend(varint(timestamp_delta));
    row.extend(varint(payload.len() as u64));
    row.extend_from_slice(payload);
    row
}

fn metadata_record(id: u32, provider: &str, event: &str) -> Vec<u8> {
    let mut out = id.to_le_bytes().to_vec();
    out.extend(wstr(provider));
    out.extend_from_slice(&0i32.to_le_bytes()); // event id
    out.extend(wstr(event));
    out.extend_from_slice(&0i64.to_le_bytes()); // keywords
    out.extend_from_slice(&0i32.to_le_bytes()); // version
    out.extend_from_slice(&0i32.to_le_bytes()); // level
    out.extend_from_slice(&1i32.to_le_bytes()); // one field
    out.extend_from_slice(&TypeCode::Int32.to_i32().to_le_bytes());
    out.extend(wstr("Value"));
    out
}

fn parser(bytes: Vec<u8>) -> NettraceParser {
    NettraceParser::new(StreamReader::new(bytes)).unwrap()
}

#[test]
fn parses_the_trace_object() {
    let bytes = StreamBuilder::new().trace(1_000_000_000, 77686).end();
    let mut parser = parser(bytes);
    assert!(parser.next_events().unwrap().is_none());

    let trace = parser.trace_info();
    assert_eq!(trace.process_id, 77686);
    assert_eq!(trace.qpc_frequency, 1_000_000_000);
    assert_eq!(trace.pointer_size, 8);
    assert_eq!(trace.sync_time_utc[0], 2026);
}

#[test]
fn trace_object_has_no_size_prefix_so_following_blocks_still_align() {
    // If the Trace body were treated as length-prefixed, this EventBlock would desync.
    let mut rows = event_row(1, 100, &[1, 0, 0, 0]);
    rows.extend(event_row(1, 50, &[2, 0, 0, 0]));

    let bytes = StreamBuilder::new().trace(1_000_000_000, 1).block("EventBlock", &rows).end();

    let mut parser = parser(bytes);
    let events = parser.next_events().unwrap().unwrap();
    assert_eq!(events.len(), 2);
    assert_eq!(events[0].timestamp, 100);
    assert_eq!(events[1].timestamp, 150);
}

#[test]
fn metadata_blocks_register_rather_than_yield() {
    let record = metadata_record(3, "System.Runtime", "EventCounters");
    let metadata_rows = event_row(0, 10, &record);
    let event_rows = event_row(3, 20, &[7, 0, 0, 0]);

    let bytes = StreamBuilder::new()
        .trace(1_000_000_000, 1)
        .block("MetadataBlock", &metadata_rows)
        .block("EventBlock", &event_rows)
        .end();

    let mut parser = parser(bytes);
    let events = parser.next_events().unwrap().unwrap();

    assert_eq!(events.len(), 1, "only the event block yields events");
    assert_eq!(events[0].metadata_id, 3);

    let md = parser.metadata().get(3).expect("metadata registered");
    assert_eq!(md.provider_name, "System.Runtime");
    assert_eq!(md.event_name, "EventCounters");
    assert_eq!(parser.metadata().len(), 1);
    assert!(!parser.metadata().is_empty());
    assert_eq!(parser.metadata().iter()[0].metadata_id, 3);
}

#[test]
fn stack_and_sequence_point_blocks_are_skipped() {
    let bytes = StreamBuilder::new()
        .trace(1_000_000_000, 1)
        .block("StackBlock", &[0xAB; 12])
        .block("SPBlock", &[0xCD; 8])
        .block("EventBlock", &event_row(1, 5, &[9, 0, 0, 0]))
        .end();

    let mut parser = parser(bytes);
    let events = parser.next_events().unwrap().unwrap();
    assert_eq!(events.len(), 1);
    assert_eq!(events[0].timestamp, 5);
}

#[test]
fn end_of_stream_yields_none() {
    let bytes = StreamBuilder::new().trace(1_000_000_000, 1).end();
    let mut parser = parser(bytes);
    assert!(parser.next_events().unwrap().is_none());
    assert!(parser.next_events().unwrap().is_none(), "stays finished");
}

#[test]
fn header_state_resets_between_blocks() {
    // Both blocks start their timestamps from zero.
    let bytes = StreamBuilder::new()
        .trace(1_000_000_000, 1)
        .block("EventBlock", &event_row(1, 1_000, &[1, 0, 0, 0]))
        .block("EventBlock", &event_row(1, 7, &[2, 0, 0, 0]))
        .end();

    let mut parser = parser(bytes);
    let first = parser.next_events().unwrap().unwrap();
    let second = parser.next_events().unwrap().unwrap();
    assert_eq!(first[0].timestamp, 1_000);
    assert_eq!(second[0].timestamp, 7, "not 1007");
}

#[test]
fn elapsed_seconds_use_the_qpc_frequency() {
    let trace = TraceInfo { qpc_frequency: 1_000_000_000, ..Default::default() };
    let elapsed = trace.elapsed(0, 1_500_000_000);
    assert_eq!(elapsed, Elapsed { ticks: 1_500_000_000, per_second: 1_000_000_000 });
    assert_eq!(elapsed.ticks as f64 / elapsed.per_second as f64, 1.5);
}

#[test]
fn a_truncated_stream_errors_rather_than_hanging() {
    let full = StreamBuilder::new()
        .trace(1_000_000_000, 1)
        .block("EventBlock", &event_row(1, 5, &[1, 0, 0, 0]))
        .end();
    let truncated = &full[..full.len() - 10];

    let mut parser = parser(truncated.to_vec());
    assert!(parser.next_events().is_err());
}

#[test]
fn a_stream_may_arrive_in_pieces_of_any_size() {
    let record = metadata_record(3, "P", "E");
    let bytes = StreamBuilder::new()
        .trace(1_000_000_000, 1)
        .block("MetadataBlock", &event_row(0, 10, &record))
        .block("EventBlock", &event_row(3, 20, &[7, 0, 0, 0]))
        .block("EventBlock", &event_row(3, 5, &[8, 0, 0, 0]))
        .end();
    for size in [1usize, 3, 7, 64] {
        let mut stream = StreamReader::live();
        stream.feed(&bytes[..40]);
        let mut parser = NettraceParser::new(stream).unwrap();
        let mut times = Vec::new();
        let mut ended = false;
        for piece in bytes[40..].chunks(size) {
            parser.feed(piece);
            loop {
                match parser.next_events() {
                    Ok(Some(events)) => times.extend(events.iter().map(|e| e.timestamp)),
                    Ok(None) => {
                        ended = true;
                        break;
                    }
                    Err(ParseError::Incomplete { .. }) => break,
                    Err(other) => panic!("{other:?}"),
                }
            }
        }
        assert!(ended);
        assert_eq!(times, vec![20, 5], "in pieces of {size}");
    }
}

// Stacks

fn stack_content(first: u32, stacks: &[&[u64]]) -> Vec<u8> {
    let mut out = first.to_le_bytes().to_vec();
    out.extend_from_slice(&(stacks.len() as u32).to_le_bytes());
    for frames in stacks {
        out.extend_from_slice(&(frames.len() as u32 * 8).to_le_bytes());
        for frame in *frames {
            out.extend_from_slice(&frame.to_le_bytes());
        }
    }
    out
}

#[test]
fn stacks_are_numbered_from_the_first_id_on() {
    let block = parse_stacks(&stack_content(7, &[&[1, 2], &[], &[3]]), true).unwrap();
    let mut table = StackTable::new();
    table.insert_block(block);
    assert_eq!(table.get(7), Some(&[1u64, 2][..]));
    assert_eq!(table.get(8), Some(&[][..]));
    assert_eq!(table.get(9), Some(&[3u64][..]));
    assert_eq!(table.get(6), None);
    assert_eq!(table.get(10), None);
}

#[test]
fn stacks_outlive_one_sequence_point_but_not_two() {
    let mut table = StackTable::new();
    table.insert_block(parse_stacks(&stack_content(1, &[&[10]]), true).unwrap());
    table.rotate();
    assert_eq!(table.get(1), Some(&[10u64][..]));
    // A recycled id means the newer stack.
    table.insert_block(parse_stacks(&stack_content(1, &[&[20]]), true).unwrap());
    assert_eq!(table.get(1), Some(&[20u64][..]));
    table.rotate();
    table.rotate();
    assert_eq!(table.get(1), None);
}

#[test]
fn a_skip_past_the_end_passes_over_whole_chunks() {
    let mut ended = StreamReader::new(vec![0; 10_000]);
    assert!(ended.skip(3).is_ok());
    assert!(ended.skip(20_000).is_err());
    assert_eq!(ended.position(), 3 + 8192);
    assert!(ended.skip(9_997 - 8192).is_ok());

    let mut arriving = StreamReader::live();
    arriving.feed(&[0; 10_000]);
    assert!(arriving.skip(20_000).is_err());
    assert_eq!(arriving.position(), 0);
}
