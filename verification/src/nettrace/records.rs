//! How metadata records are written down, and what is read back of them.
use vstd::prelude::*;

use super::metadata::{
    field_v2, fields_v1, fields_v2, list_v1, list_v2, record, record_header, tagged_fields,
    type_numbers_are_unique, type_v1, type_v2, FieldModel, MetadataModel, TypeCode, TypeModel,
};
use super::reader::{
    good, take_bytes, take_i32, take_utf16_nul_string, utf16_nul_round_trip, wide_bytes, Fault,
};
use super::rows::{held_long, held_parts, held_word};
use super::values::{held_signed_word, word_bytes};
use crate::bytes::{held_is_between, holds, u32_bytes, u64_bytes, whole_is_held};
use crate::text::utf16_of;

verus! {

/// A text in UTF-16, with the zero that ends it.
pub open spec fn name_bytes(s: Seq<char>) -> Seq<u8> {
    wide_bytes(utf16_of(s))
}

/// The types are numbered as the runtime numbers them, and a number between or beyond them stands
/// for no type.
pub proof fn types_are_numbered(v: i32)
    ensures
        v == 1 <==> TypeCode::of_number(v) == Some(TypeCode::Object),
        v == 3 <==> TypeCode::of_number(v) == Some(TypeCode::Boolean),
        v == 4 <==> TypeCode::of_number(v) == Some(TypeCode::Char),
        v == 5 <==> TypeCode::of_number(v) == Some(TypeCode::SByte),
        v == 6 <==> TypeCode::of_number(v) == Some(TypeCode::Byte),
        v == 7 <==> TypeCode::of_number(v) == Some(TypeCode::Int16),
        v == 8 <==> TypeCode::of_number(v) == Some(TypeCode::UInt16),
        v == 9 <==> TypeCode::of_number(v) == Some(TypeCode::Int32),
        v == 10 <==> TypeCode::of_number(v) == Some(TypeCode::UInt32),
        v == 11 <==> TypeCode::of_number(v) == Some(TypeCode::Int64),
        v == 12 <==> TypeCode::of_number(v) == Some(TypeCode::UInt64),
        v == 13 <==> TypeCode::of_number(v) == Some(TypeCode::Single),
        v == 14 <==> TypeCode::of_number(v) == Some(TypeCode::Double),
        v == 15 <==> TypeCode::of_number(v) == Some(TypeCode::Decimal),
        v == 16 <==> TypeCode::of_number(v) == Some(TypeCode::DateTime),
        v == 17 <==> TypeCode::of_number(v) == Some(TypeCode::Guid),
        v == 18 <==> TypeCode::of_number(v) == Some(TypeCode::String),
        v == 19 <==> TypeCode::of_number(v) == Some(TypeCode::Array),
        v < 1 || v == 2 || v > 19 <==> TypeCode::of_number(v) is None,
{
}

proof fn held_name(b: Seq<u8>, p: int, s: Seq<char>, rest: Seq<u8>)
    requires
        !s.contains('\0'),
        holds(b, p, name_bytes(s) + rest),
    ensures
        take_utf16_nul_string(b, p) == good(s, (p + name_bytes(s).len()) as int),
        holds(b, (p + name_bytes(s).len()) as int, rest),
{
    held_parts(b, p, name_bytes(s), rest);
    held_is_between(b, p, name_bytes(s));
    utf16_nul_round_trip(b.take(p), s, b.skip((p + name_bytes(s).len()) as int));
}

proof fn held_number(b: Seq<u8>, p: int, v: i32, rest: Seq<u8>)
    requires
        holds(b, p, word_bytes(v as int) + rest),
    ensures
        take_i32(b, p) == good(v, p + 4),
        holds(b, p + 4, rest),
{
    held_parts(b, p, word_bytes(v as int), rest);
    held_signed_word(b, p, v);
}

// ---------------------------------------------------------------------------------------------
// The inline list

/// A type as the list inside a record holds it: its number, and behind a struct its fields.
pub open spec fn inline_type(ty: TypeModel) -> Seq<u8>
    decreases ty, 0int,
{
    match ty {
        TypeModel::Scalar(code) => word_bytes(code.number() as int),
        TypeModel::Unknown(v) => word_bytes(v as int),
        TypeModel::Object(fields) => word_bytes(1) + (word_bytes(fields.len() as int)
            + inline_list(fields, 0)),
        TypeModel::Array(_) => Seq::empty(),
    }
}

/// The fields from `i` on: of each first the type, then the name.
pub open spec fn inline_list(fields: Seq<FieldModel>, i: int) -> Seq<u8>
    decreases fields, fields.len() - i,
    when i >= 0
{
    if i >= fields.len() {
        Seq::empty()
    } else {
        inline_type(fields[i].ty) + (name_bytes(fields[i].name) + inline_list(fields, i + 1))
    }
}

/// A list of fields: how many there are, and the fields.
pub open spec fn inline_fields(fields: Seq<FieldModel>) -> Seq<u8> {
    word_bytes(fields.len() as int) + inline_list(fields, 0)
}

/// Whether a type can stand in the list inside a record, with room for some levels of structs.
pub open spec fn fits_inline(ty: TypeModel, room: nat) -> bool
    decreases ty,
{
    match ty {
        TypeModel::Scalar(code) => code != TypeCode::Object,
        TypeModel::Unknown(v) => v < 1 || v == 2 || v > 19,
        TypeModel::Object(fields) => {
            &&& room > 0
            &&& fields.len() <= i32::MAX
            &&& forall|k: int|
                0 <= k < fields.len() ==> !(#[trigger] fields[k]).name.contains('\0')
                    && fits_inline(fields[k].ty, (room - 1) as nat)
        },
        TypeModel::Array(_) => false,
    }
}

/// Whether fields can stand in the list inside a record.
pub open spec fn all_fit_inline(fields: Seq<FieldModel>, room: nat) -> bool {
    &&& fields.len() <= i32::MAX
    &&& forall|k: int|
        0 <= k < fields.len() ==> !(#[trigger] fields[k]).name.contains('\0') && fits_inline(
            fields[k].ty,
            room,
        )
}

proof fn inline_types_read_back(ty: TypeModel, room: nat, b: Seq<u8>, p: int, rest: Seq<u8>)
    requires
        fits_inline(ty, room),
        holds(b, p, inline_type(ty) + rest),
    ensures
        type_v1(b, p, room) == good(ty, (p + inline_type(ty).len()) as int),
        holds(b, (p + inline_type(ty).len()) as int, rest),
    decreases ty, 0int,
{
    held_parts(b, p, inline_type(ty), rest);
    match ty {
        TypeModel::Scalar(code) => {
            held_number(b, p, code.number(), rest);
            type_numbers_are_unique(code, code.number());
        },
        TypeModel::Unknown(v) => {
            held_number(b, p, v, rest);
        },
        TypeModel::Object(fields) => {
            let list = inline_list(fields, 0);
            held_number(b, p, 1, word_bytes(fields.len() as int) + list);
            held_number(b, p + 4, fields.len() as i32, list);
            assert(list + Seq::<u8>::empty() =~= list);
            inline_lists_read_back(fields, 0, (room - 1) as nat, b, p + 8, Seq::empty());
            assert(fields.skip(0) =~= fields);
        },
        TypeModel::Array(_) => {},
    }
}

proof fn inline_lists_read_back(
    fields: Seq<FieldModel>,
    i: int,
    room: nat,
    b: Seq<u8>,
    p: int,
    rest: Seq<u8>,
)
    requires
        0 <= i <= fields.len(),
        all_fit_inline(fields, room),
        holds(b, p, inline_list(fields, i) + rest),
    ensures
        list_v1(b, p, room, (fields.len() - i) as nat) == good(
            fields.skip(i),
            (p + inline_list(fields, i).len()) as int,
        ),
    decreases fields, fields.len() - i,
{
    held_parts(b, p, inline_list(fields, i), rest);
    if i < fields.len() {
        let f = fields[i];
        let later = inline_list(fields, i + 1);
        inline_types_read_back(f.ty, room, b, p, name_bytes(f.name) + later);
        let q = (p + inline_type(f.ty).len()) as int;
        held_name(b, q, f.name, later);
        let s = (q + name_bytes(f.name).len()) as int;
        assert(later + Seq::<u8>::empty() =~= later);
        inline_lists_read_back(fields, i + 1, room, b, s, Seq::empty());
        assert(seq![FieldModel { name: f.name, ty: f.ty }] + fields.skip(i + 1) =~= fields.skip(i));
    } else {
        assert(fields.skip(i) =~= Seq::<FieldModel>::empty());
    }
}

/// A list of fields inside a record reads back as those fields, in order, each with its own name
/// and type, structs within structs included.
pub proof fn inline_fields_read_back(
    fields: Seq<FieldModel>,
    room: nat,
    b: Seq<u8>,
    p: int,
    rest: Seq<u8>,
)
    requires
        all_fit_inline(fields, room),
        holds(b, p, inline_fields(fields) + rest),
    ensures
        fields_v1(b, p, room) == good(fields, (p + inline_fields(fields).len()) as int),
        holds(b, (p + inline_fields(fields).len()) as int, rest),
{
    held_parts(b, p, inline_fields(fields), rest);
    let list = inline_list(fields, 0);
    held_number(b, p, fields.len() as i32, list);
    assert(list + Seq::<u8>::empty() =~= list);
    inline_lists_read_back(fields, 0, room, b, p + 4, Seq::empty());
    assert(fields.skip(0) =~= fields);
}

// ---------------------------------------------------------------------------------------------
// The tagged list

/// A type as the list behind a record holds it: its number, and behind an array the type of its
/// elements, behind a struct its fields.
pub open spec fn tagged_type(ty: TypeModel) -> Seq<u8>
    decreases ty, 0int,
{
    match ty {
        TypeModel::Scalar(code) => word_bytes(code.number() as int),
        TypeModel::Unknown(v) => word_bytes(v as int),
        TypeModel::Object(fields) => word_bytes(1) + (word_bytes(fields.len() as int)
            + tagged_list(fields, 0)),
        TypeModel::Array(element) => word_bytes(19) + tagged_type(*element),
    }
}

/// The fields from `i` on: of each its size, which counts itself, then first the name and then the
/// type.
pub open spec fn tagged_list(fields: Seq<FieldModel>, i: int) -> Seq<u8>
    decreases fields, fields.len() - i,
    when i >= 0
{
    if i >= fields.len() {
        Seq::empty()
    } else {
        let body = name_bytes(fields[i].name) + tagged_type(fields[i].ty);
        word_bytes((body.len() + 4) as int) + (body + tagged_list(fields, i + 1))
    }
}

/// Whether a type can stand in the list behind a record, some levels down.
pub open spec fn fits_tagged(ty: TypeModel, depth: nat) -> bool
    decreases ty,
{
    match ty {
        TypeModel::Scalar(code) => code != TypeCode::Object && code != TypeCode::Array,
        TypeModel::Unknown(v) => v < 1 || v == 2 || v > 19,
        TypeModel::Object(fields) => {
            &&& depth < 16
            &&& fields.len() <= i32::MAX
            &&& forall|k: int|
                0 <= k < fields.len() ==> !(#[trigger] fields[k]).name.contains('\0')
                    && name_bytes(fields[k].name).len() + tagged_type(fields[k].ty).len() + 4
                    <= i32::MAX && fits_tagged(fields[k].ty, depth + 1)
        },
        TypeModel::Array(element) => fits_tagged(*element, depth + 1),
    }
}

/// Whether fields can stand in the list behind a record.
pub open spec fn all_fit_tagged(fields: Seq<FieldModel>, depth: nat) -> bool {
    &&& fields.len() <= i32::MAX
    &&& forall|k: int|
        0 <= k < fields.len() ==> !(#[trigger] fields[k]).name.contains('\0') && name_bytes(
            fields[k].name,
        ).len() + tagged_type(fields[k].ty).len() + 4 <= i32::MAX && fits_tagged(
            fields[k].ty,
            depth,
        )
}

proof fn simple_types_read_back(ty: TypeModel, v: i32, depth: nat, b: Seq<u8>, p: int)
    requires
        fits_tagged(ty, depth),
        ty == TypeModel::Unknown(v) || ty is Scalar && v == ty->Scalar_0.number(),
        holds(b, p, tagged_type(ty)),
    ensures
        type_v2(b, p, depth) == good(ty, (p + tagged_type(ty).len()) as int),
{
    assert(tagged_type(ty) == word_bytes(v as int));
    held_signed_word(b, p, v);
    types_are_numbered(v);
    if let TypeModel::Scalar(code) = ty {
        type_numbers_are_unique(code, v);
    }
}

proof fn struct_types_are_their_fields(
    fields: Seq<FieldModel>,
    depth: nat,
    b: Seq<u8>,
    p: int,
    end: int,
)
    requires
        0 <= p,
        p + 8 <= b.len(),
        depth < 16,
        fields.len() <= i32::MAX,
        take_i32(b, p) == good(1i32, p + 4),
        take_i32(b, p + 4) == good(fields.len() as i32, p + 8),
        list_v2(b, p + 8, depth + 1, fields.len()) == good(fields, end),
    ensures
        type_v2(b, p, depth) == good(TypeModel::Object(fields), end),
{
    assert(fields_v2(b, p + 4, depth + 1) == good(fields, end));
}

proof fn array_types_are_their_elements(
    element: Box<TypeModel>,
    depth: nat,
    b: Seq<u8>,
    p: int,
    end: int,
)
    requires
        0 <= p,
        p + 4 <= b.len(),
        take_i32(b, p) == good(19i32, p + 4),
        type_v2(b, p + 4, depth + 1) == good(*element, end),
    ensures
        type_v2(b, p, depth) == good(TypeModel::Array(element), end),
{
}

proof fn tagged_types_read_back(ty: TypeModel, depth: nat, b: Seq<u8>, p: int)
    requires
        fits_tagged(ty, depth),
        holds(b, p, tagged_type(ty)),
    ensures
        type_v2(b, p, depth) == good(ty, (p + tagged_type(ty).len()) as int),
    decreases ty, 0int,
{
    let none = Seq::<u8>::empty();
    match ty {
        TypeModel::Scalar(code) => {
            simple_types_read_back(ty, code.number(), depth, b, p);
        },
        TypeModel::Unknown(v) => {
            simple_types_read_back(ty, v, depth, b, p);
        },
        TypeModel::Object(fields) => {
            let list = tagged_list(fields, 0);
            held_number(b, p, 1, word_bytes(fields.len() as int) + list);
            held_number(b, p + 4, fields.len() as i32, list);
            whole_is_followed_by_nothing(list);
            tagged_lists_read_back(fields, 0, depth + 1, b, p + 8, none);
            assert(fields.skip(0) =~= fields);
            struct_types_are_their_fields(fields, depth, b, p, (p + 8 + list.len()) as int);
        },
        TypeModel::Array(element) => {
            held_number(b, p, 19, tagged_type(*element));
            let end = (p + 4 + tagged_type(*element).len()) as int;
            tagged_types_read_back(*element, depth + 1, b, p + 4);
            array_types_are_their_elements(element, depth, b, p, end);
        },
    }
}

proof fn tagged_lists_read_back(
    fields: Seq<FieldModel>,
    i: int,
    depth: nat,
    b: Seq<u8>,
    p: int,
    rest: Seq<u8>,
)
    requires
        0 <= i <= fields.len(),
        all_fit_tagged(fields, depth),
        holds(b, p, tagged_list(fields, i) + rest),
    ensures
        list_v2(b, p, depth, (fields.len() - i) as nat) == good(
            fields.skip(i),
            (p + tagged_list(fields, i).len()) as int,
        ),
    decreases fields, fields.len() - i,
{
    held_parts(b, p, tagged_list(fields, i), rest);
    if i < fields.len() {
        let f = fields[i];
        let body = name_bytes(f.name) + tagged_type(f.ty);
        let later = tagged_list(fields, i + 1);
        held_number(b, p, (body.len() + 4) as i32, body + later);
        held_parts(b, p + 4, body, later);
        assert(take_bytes(b, p + 4, body.len() as int, "V2 field body"@) == good(
            body,
            (p + 4 + body.len()) as int,
        ));
        assert(body.subrange(0, body.len() as int) =~= body);
        held_name(body, 0, f.name, tagged_type(f.ty));
        tagged_types_read_back(f.ty, depth, body, name_bytes(f.name).len() as int);
        assert(field_v2(body, depth) == Ok::<_, Fault>(FieldModel { name: f.name, ty: f.ty }));
        assert(later + Seq::<u8>::empty() =~= later);
        tagged_lists_read_back(
            fields,
            i + 1,
            depth,
            b,
            (p + 4 + body.len()) as int,
            Seq::empty(),
        );
        assert(seq![FieldModel { name: f.name, ty: f.ty }] + fields.skip(i + 1) =~= fields.skip(i));
    } else {
        assert(fields.skip(i) =~= Seq::<FieldModel>::empty());
    }
}

/// A list of fields in a tag.
pub open spec fn tagged_fields_bytes(fields: Seq<FieldModel>) -> Seq<u8> {
    word_bytes(fields.len() as int) + tagged_list(fields, 0)
}

/// A list of fields in a tag reads back as those fields, in order, each with its own name and type,
/// arrays and structs within structs included.
pub proof fn tagged_fields_read_back(fields: Seq<FieldModel>)
    requires
        all_fit_tagged(fields, 0),
    ensures
        fields_v2(tagged_fields_bytes(fields), 0, 0).result == Ok::<_, Fault>(fields),
{
    let b = tagged_fields_bytes(fields);
    let list = tagged_list(fields, 0);
    assert(b.subrange(0, b.len() as int) =~= b);
    held_number(b, 0, fields.len() as i32, list);
    assert(list + Seq::<u8>::empty() =~= list);
    tagged_lists_read_back(fields, 0, 0, b, 4, Seq::empty());
    assert(fields.skip(0) =~= fields);
}

/// A tag: the size of what it holds, its kind, and what it holds.
pub open spec fn tag_bytes(kind: u8, body: Seq<u8>) -> Seq<u8> {
    word_bytes(body.len() as int) + (seq![kind] + body)
}

/// A tag of the second kind replaces the fields that a record had. Any other tag is passed over,
/// and what stands behind a tag is read as if the tag were not there.
pub proof fn tags_have_their_say(
    b: Seq<u8>,
    p: int,
    kind: u8,
    body: Seq<u8>,
    fields: Seq<FieldModel>,
    tagged: Seq<FieldModel>,
)
    requires
        body.len() <= i32::MAX,
        holds(b, p, tag_bytes(kind, body)),
        kind == 2 ==> all_fit_tagged(tagged, 0) && body == tagged_fields_bytes(tagged),
    ensures
        ({
            let behind = (p + 5 + body.len()) as int;
            &&& kind == 2 ==> tagged_fields(b, p, fields) == tagged_fields(b, behind, tagged)
            &&& kind != 2 ==> tagged_fields(b, p, fields) == tagged_fields(b, behind, fields)
        }),
{
    held_number(b, p, body.len() as i32, seq![kind] + body);
    held_parts(b, p + 4, seq![kind], body);
    assert(b[p + 4] == b.subrange(p + 4, p + 5)[0]);
    assert(take_bytes(b, p + 5, body.len() as int, "metadata tag payload"@) == good(
        body,
        (p + 5 + body.len()) as int,
    ));
    if kind == 2 {
        tagged_fields_read_back(tagged);
    }
}

/// Less than a tag at the end of a record changes nothing.
pub proof fn remainders_are_ignored(b: Seq<u8>, p: int, fields: Seq<FieldModel>)
    requires
        0 <= p <= b.len() <= p + 4,
    ensures
        tagged_fields(b, p, fields) == Ok::<_, Fault>(fields),
{
}

proof fn whole_is_followed_by_nothing(b: Seq<u8>)
    ensures
        b + Seq::<u8>::empty() == b,
{
    assert(b + Seq::<u8>::empty() =~= b);
}

proof fn some_bytes(fields: Seq<FieldModel>)
    ensures
        inline_fields(fields).len() >= 4,
{
}

// ---------------------------------------------------------------------------------------------
// Records

/// A record up to its fields.
pub open spec fn record_start(m: MetadataModel) -> Seq<u8> {
    u32_bytes(m.metadata_id) + (name_bytes(m.provider_name) + (word_bytes(m.event_id as int) + (
    name_bytes(m.event_name) + (u64_bytes(m.keywords) + (word_bytes(m.version as int)
        + word_bytes(m.level as int))))))
}

#[verifier::rlimit(40)]
proof fn record_starts_read_back(m: MetadataModel, b: Seq<u8>, rest: Seq<u8>)
    requires
        !m.provider_name.contains('\0'),
        !m.event_name.contains('\0'),
        holds(b, 0, record_start(m) + rest),
    ensures
        record_header(b) == good(
            MetadataModel { fields: Seq::empty(), ..m },
            record_start(m).len() as int,
        ),
        holds(b, record_start(m).len() as int, rest),
{
    held_parts(b, 0, record_start(m), rest);
    let t7 = word_bytes(m.level as int);
    let t6 = word_bytes(m.version as int) + t7;
    let t5 = u64_bytes(m.keywords) + t6;
    let t4 = name_bytes(m.event_name) + t5;
    let t3 = word_bytes(m.event_id as int) + t4;
    let t2 = name_bytes(m.provider_name) + t3;
    held_word(b, 0, m.metadata_id, t2);
    held_name(b, 4, m.provider_name, t3);
    let p3 = (4 + name_bytes(m.provider_name).len()) as int;
    held_number(b, p3, m.event_id, t4);
    held_name(b, p3 + 4, m.event_name, t5);
    let p5 = (p3 + 4 + name_bytes(m.event_name).len()) as int;
    held_long(b, p5, m.keywords, t6);
    held_number(b, p5 + 8, m.version, t7);
    assert(t7 + Seq::<u8>::empty() =~= t7);
    held_number(b, p5 + 12, m.level, Seq::empty());
}

/// A record is its start, its fields, and what the tags behind them say.
proof fn record_is_its_parts(
    b: Seq<u8>,
    start: MetadataModel,
    p: int,
    inline: Seq<FieldModel>,
    q: int,
    fields: Seq<FieldModel>,
)
    requires
        record_header(b) == good(start, p),
        p == b.len() ==> inline.len() == 0 && q == p,
        p != b.len() ==> fields_v1(b, p, 16) == good(inline, q),
        tagged_fields(b, q, inline) == Ok::<_, Fault>(fields),
    ensures
        record(b) == Ok::<_, Fault>(MetadataModel { fields, ..start }),
{
    reveal(record);
    if p == b.len() {
        assert(inline =~= Seq::<FieldModel>::empty());
    }
}

/// A metadata record reads back as what it says: its id, its provider, the number and the name of
/// the event, its keywords, its version, its level, and its fields.
pub proof fn records_read_back(b: Seq<u8>, m: MetadataModel)
    requires
        !m.provider_name.contains('\0'),
        !m.event_name.contains('\0'),
        all_fit_inline(m.fields, 16),
        holds(b, 0, record_start(m) + inline_fields(m.fields)),
        b.len() == record_start(m).len() + inline_fields(m.fields).len(),
    ensures
        record(b) == Ok::<_, Fault>(m),
{
    let start = MetadataModel { fields: Seq::empty(), ..m };
    let p = record_start(m).len() as int;
    record_starts_read_back(m, b, inline_fields(m.fields));
    whole_is_followed_by_nothing(inline_fields(m.fields));
    inline_fields_read_back(m.fields, 16, b, p, Seq::empty());
    some_bytes(m.fields);
    remainders_are_ignored(b, b.len() as int, m.fields);
    record_is_its_parts(b, start, p, m.fields, b.len() as int, m.fields);
}

/// A metadata record with nothing behind its level has no fields.
pub proof fn records_may_have_no_fields(b: Seq<u8>, m: MetadataModel)
    requires
        !m.provider_name.contains('\0'),
        !m.event_name.contains('\0'),
        b == record_start(m),
    ensures
        record(b) == Ok::<_, Fault>(MetadataModel { fields: Seq::empty(), ..m }),
{
    let start = MetadataModel { fields: Seq::empty(), ..m };
    let none = Seq::<FieldModel>::empty();
    whole_is_held(b);
    whole_is_followed_by_nothing(b);
    record_starts_read_back(m, b, Seq::empty());
    remainders_are_ignored(b, b.len() as int, none);
    record_is_its_parts(b, start, b.len() as int, none, b.len() as int, none);
}

/// The fields in a tag count over those inside the record: a record that holds one list of fields
/// and a tag with another has those of the tag.
pub proof fn tagged_records_read_back(b: Seq<u8>, m: MetadataModel, inline: Seq<FieldModel>)
    requires
        !m.provider_name.contains('\0'),
        !m.event_name.contains('\0'),
        all_fit_inline(inline, 16),
        all_fit_tagged(m.fields, 0),
        tagged_fields_bytes(m.fields).len() <= i32::MAX,
        holds(
            b,
            0,
            record_start(m) + (inline_fields(inline) + tag_bytes(
                2,
                tagged_fields_bytes(m.fields),
            )),
        ),
        b.len() == record_start(m).len() + inline_fields(inline).len() + tag_bytes(
            2,
            tagged_fields_bytes(m.fields),
        ).len(),
    ensures
        record(b) == Ok::<_, Fault>(m),
{
    let start = MetadataModel { fields: Seq::empty(), ..m };
    let body = tagged_fields_bytes(m.fields);
    let tag = tag_bytes(2, body);
    let p = record_start(m).len() as int;
    let q = (p + inline_fields(inline).len()) as int;
    record_starts_read_back(m, b, inline_fields(inline) + tag);
    inline_fields_read_back(inline, 16, b, p, tag);
    some_bytes(inline);
    tags_have_their_say(b, q, 2, body, inline, m.fields);
    tag_length(2, body);
    remainders_are_ignored(b, b.len() as int, m.fields);
    record_is_its_parts(b, start, p, inline, q, m.fields);
}

proof fn tag_length(kind: u8, body: Seq<u8>)
    ensures
        tag_bytes(kind, body).len() == 5 + body.len(),
{
}

/// Structs within structs are read up to sixteen levels deep, and refused beyond that.
pub proof fn nesting_is_bounded(b: Seq<u8>, p: int, depth: nat)
    requires
        0 <= p <= b.len(),
        holds(b, p, word_bytes(1)),
    ensures
        type_v1(b, p, 0).result is Err,
        depth > 16 ==> fields_v2(b, p, depth).result is Err,
        depth >= 16 ==> type_v2(b, p, depth).result is Err,
{
    held_signed_word(b, p, 1);
    types_are_numbered(1);
    assert(take_i32(b, p) == good(1i32, p + 4));
    if depth >= 16 {
        assert(fields_v2(b, p + 4, depth + 1).result is Err);
    }
}

/// A list that says it has fewer than no fields is refused.
pub proof fn negative_counts_are_refused(b: Seq<u8>, p: int, count: i32, room: nat)
    requires
        0 <= p <= b.len(),
        count < 0,
        holds(b, p, word_bytes(count as int)),
    ensures
        fields_v1(b, p, room).result is Err,
        fields_v2(b, p, room).result is Err,
{
    held_signed_word(b, p, count);
}

} // verus!
