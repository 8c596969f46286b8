//! How the values of a payload are written down, and what is read back of them.
use vstd::prelude::*;

use super::metadata::{FieldModel, TypeCode, TypeModel};
use super::payload::{
    elements_at, fields_at, flat, put, scalar_at, take_parts, value_at, values_of, Entries, Number, ValueModel,
};
use super::reader::{
    good, take_i16, take_i32, take_i64, take_u16, utf16_nul_round_trip, wide_bytes, Fault, Parsed,
};
use super::rows::held_parts;
use crate::bytes::{
    held_is_between, held_u32, held_u64, holds, u16_bytes, u16_round_trip, u32_bytes, u64_bytes,
};
use crate::text::utf16_of;

verus! {

/// The sixteen bits of a signed number.
pub open spec fn short_bytes(v: int) -> Seq<u8> {
    u16_bytes((v % 0x1_0000) as u16)
}

/// The thirty-two bits of a signed number.
pub open spec fn word_bytes(v: int) -> Seq<u8> {
    u32_bytes((v % 0x1_0000_0000) as u32)
}

/// The sixty-four bits of a signed number.
pub open spec fn long_bytes(v: int) -> Seq<u8> {
    u64_bytes((v % 0x1_0000_0000_0000_0000) as u64)
}

pub open spec fn parts_bytes(parts: Seq<i16>) -> Seq<u8>
    decreases parts.len(),
{
    if parts.len() == 0 {
        Seq::empty()
    } else {
        short_bytes(parts[0] as int) + parts_bytes(parts.skip(1))
    }
}

/// Whether a run of bytes is how a value of a type is written. Signed numbers are written in two's
/// complement, and any number but zero is a true Boolean.
pub open spec fn is_written(code: TypeCode, v: ValueModel, part: Seq<u8>) -> bool {
    match (code, v) {
        (TypeCode::Boolean, ValueModel::Number(Number::Bool(yes))) => exists|n: i32|
            #![trigger word_bytes(n as int)]
            part == word_bytes(n as int) && yes == (n != 0),
        (TypeCode::Char, ValueModel::Char(c)) => part == u16_bytes(c),
        (TypeCode::SByte, ValueModel::Number(Number::Int(n))) => -0x80 <= n < 0x80 && part
            == seq![(n % 0x100) as u8],
        (TypeCode::Byte, ValueModel::Number(Number::UInt(n))) => n < 0x100 && part == seq![
            n as u8,
        ],
        (TypeCode::Int16, ValueModel::Number(Number::Int(n))) => -0x8000 <= n < 0x8000 && part
            == short_bytes(n as int),
        (TypeCode::UInt16, ValueModel::Number(Number::UInt(n))) => n < 0x1_0000 && part
            == u16_bytes(n as u16),
        (TypeCode::Int32, ValueModel::Number(Number::Int(n))) => -0x8000_0000 <= n < 0x8000_0000
            && part == word_bytes(n as int),
        (TypeCode::UInt32, ValueModel::Number(Number::UInt(n))) => n < 0x1_0000_0000 && part
            == u32_bytes(n as u32),
        (TypeCode::Int64, ValueModel::Number(Number::Int(n))) => part == long_bytes(n as int),
        (TypeCode::UInt64, ValueModel::Number(Number::UInt(n))) => part == u64_bytes(n),
        (TypeCode::Single, ValueModel::Number(Number::Single(bits))) => part == u32_bytes(bits),
        (TypeCode::Double, ValueModel::Number(Number::Double(bits))) => part == u64_bytes(bits),
        (TypeCode::Decimal, ValueModel::Decimal(bytes)) => part == bytes && bytes.len() == 16,
        (TypeCode::Guid, ValueModel::Guid(bytes)) => part == bytes && bytes.len() == 16,
        (TypeCode::DateTime, ValueModel::DateTime(parts)) => parts.len() == 8 && part
            == parts_bytes(parts),
        (TypeCode::String, ValueModel::Text(s)) => !s.contains('\0') && part == wide_bytes(
            utf16_of(s),
        ),
        _ => false,
    }
}

proof fn held_short(b: Seq<u8>, p: int, v: u16)
    requires
        holds(b, p, u16_bytes(v)),
    ensures
        take_u16(b, p) == good(v, p + 2),
{
    held_is_between(b, p, u16_bytes(v));
    u16_round_trip(b.take(p), v, b.skip(p + 2));
}

pub(crate) proof fn held_signed_short(b: Seq<u8>, p: int, v: i16)
    requires
        holds(b, p, short_bytes(v as int)),
    ensures
        take_i16(b, p) == good(v, p + 2),
{
    held_short(b, p, (v as int % 0x1_0000) as u16);
}

/// A signed word that is written down reads back as itself.
pub proof fn held_signed_word(b: Seq<u8>, p: int, v: i32)
    requires
        holds(b, p, word_bytes(v as int)),
    ensures
        take_i32(b, p) == good(v, p + 4),
{
    held_u32(b, p, (v as int % 0x1_0000_0000) as u32);
}

pub(crate) proof fn held_signed_long(b: Seq<u8>, p: int, v: i64)
    requires
        holds(b, p, long_bytes(v as int)),
    ensures
        take_i64(b, p) == good(v, p + 8),
{
    held_u64(b, p, (v as int % 0x1_0000_0000_0000_0000) as u64);
}

proof fn parts_read_back(b: Seq<u8>, p: int, parts: Seq<i16>)
    requires
        holds(b, p, parts_bytes(parts)),
    ensures
        take_parts(b, p, parts.len()) == good(parts, (p + parts_bytes(parts).len()) as int),
    decreases parts.len(),
{
    if parts.len() == 0 {
        assert(parts =~= Seq::<i16>::empty());
    } else {
        let rest = parts.skip(1);
        held_parts(b, p, short_bytes(parts[0] as int), parts_bytes(rest));
        held_signed_short(b, p, parts[0]);
        parts_read_back(b, p + 2, rest);
        assert(seq![parts[0]] + rest =~= parts);
    }
}

/// A value that is written down reads back as itself, wherever it stands, and nothing behind it is
/// read.
pub proof fn scalars_read_back(code: TypeCode, v: ValueModel, part: Seq<u8>, b: Seq<u8>, p: int)
    requires
        is_written(code, v, part),
        holds(b, p, part),
    ensures
        scalar_at(code, b, p) == good(v, (p + part.len()) as int),
{
    match (code, v) {
        (TypeCode::Boolean, ValueModel::Number(Number::Bool(yes))) => {
            let n = choose|n: i32|
                #![trigger word_bytes(n as int)]
                part == word_bytes(n as int) && yes == (n != 0);
            held_signed_word(b, p, n);
        },
        (TypeCode::Char, ValueModel::Char(c)) => {
            held_short(b, p, c);
        },
        (TypeCode::SByte, _) | (TypeCode::Byte, _) => {
            assert(b[p] == b.subrange(p, p + 1)[0]);
        },
        (TypeCode::Int16, ValueModel::Number(Number::Int(n))) => {
            held_signed_short(b, p, n as i16);
        },
        (TypeCode::UInt16, ValueModel::Number(Number::UInt(n))) => {
            held_short(b, p, n as u16);
        },
        (TypeCode::Int32, ValueModel::Number(Number::Int(n))) => {
            held_signed_word(b, p, n as i32);
        },
        (TypeCode::UInt32, ValueModel::Number(Number::UInt(n))) => {
            held_u32(b, p, n as u32);
        },
        (TypeCode::Int64, ValueModel::Number(Number::Int(n))) => {
            held_signed_long(b, p, n);
        },
        (TypeCode::UInt64, ValueModel::Number(Number::UInt(n))) => {
            held_u64(b, p, n);
        },
        (TypeCode::Single, ValueModel::Number(Number::Single(bits))) => {
            held_u32(b, p, bits);
        },
        (TypeCode::Double, ValueModel::Number(Number::Double(bits))) => {
            held_u64(b, p, bits);
        },
        (TypeCode::DateTime, ValueModel::DateTime(parts)) => {
            parts_read_back(b, p, parts);
        },
        (TypeCode::String, ValueModel::Text(s)) => {
            held_is_between(b, p, part);
            utf16_nul_round_trip(b.take(p), s, b.skip((p + part.len()) as int));
        },
        _ => {},
    }
}

/// An array reads back as its elements: it is written as how many there are and then the elements,
/// one behind the other. `ends` says where each of them ends.
pub proof fn arrays_read_back(
    element: TypeModel,
    values: Seq<ValueModel>,
    ends: Seq<int>,
    b: Seq<u8>,
    p: int,
)
    requires
        values.len() < 0x1_0000,
        ends.len() == values.len() + 1,
        holds(b, p, u16_bytes(values.len() as u16)),
        ends[0] == p + 2,
        forall|k: int|
            0 <= k < values.len() ==> value_at(element, b, #[trigger] ends[k]) == good(
                values[k],
                ends[k + 1],
            ),
    ensures
        value_at(TypeModel::Array(Box::new(element)), b, p) == good(
            ValueModel::Array(values),
            ends.last(),
        ),
{
    held_short(b, p, values.len() as u16);
    elements_read_back(element, values, ends, b);
}

proof fn elements_read_back(
    element: TypeModel,
    values: Seq<ValueModel>,
    ends: Seq<int>,
    b: Seq<u8>,
)
    requires
        ends.len() == values.len() + 1,
        forall|k: int|
            0 <= k < values.len() ==> value_at(element, b, #[trigger] ends[k]) == good(
                values[k],
                ends[k + 1],
            ),
    ensures
        elements_at(element, b, ends[0], values.len()) == good(values, ends.last()),
    decreases values.len(),
{
    if values.len() == 0 {
        assert(values =~= Seq::<ValueModel>::empty());
    } else {
        let later = values.skip(1);
        let later_ends = ends.skip(1);
        assert forall|k: int| 0 <= k < later.len() implies value_at(
            element,
            b,
            #[trigger] later_ends[k],
        ) == good(later[k], later_ends[k + 1]) by {
            assert(later_ends[k] == ends[k + 1]);
        }
        assert(value_at(element, b, ends[0]) == good(values[0], ends[1]));
        elements_read_back(element, later, later_ends, b);
        assert(seq![values[0]] + later =~= values);
    }
}

/// What two readings, one behind the other, come to.
pub open spec fn read_on(
    first: Parsed<Entries>,
    fields: Seq<FieldModel>,
    b: Seq<u8>,
) -> Parsed<Entries> {
    match first.result {
        Err(_) => first,
        Ok(entries) => fields_at(fields, 0, b, first.pos, entries),
    }
}

proof fn later_fields(
    fields: Seq<FieldModel>,
    i: int,
    b: Seq<u8>,
    p: int,
    out: Entries,
)
    requires
        0 <= i <= fields.len(),
    ensures
        fields_at(fields, i, b, p, out) == fields_at(fields.skip(i), 0, b, p, out),
    decreases fields.len() - i,
{
    let rest = fields.skip(i);
    if i < fields.len() {
        assert(rest[0] == fields[i]);
        assert(rest.skip(1) =~= fields.skip(i + 1));
        match fields[i].ty {
            TypeModel::Object(children) => {
                let inner = fields_at(children, 0, b, p, out);
                if let Ok(entries) = inner.result {
                    later_fields(fields, i + 1, b, inner.pos, entries);
                    later_fields(rest, 1, b, inner.pos, entries);
                }
            },
            ty => {
                let value = value_at(ty, b, p);
                if let Ok(v) = value.result {
                    later_fields(fields, i + 1, b, value.pos, put(out, fields[i].name, v));
                    later_fields(rest, 1, b, value.pos, put(out, fields[i].name, v));
                }
            },
        }
    }
}

/// Fields are read in order, each from where the one before it ended.
pub proof fn fields_are_read_in_order(
    first: Seq<FieldModel>,
    second: Seq<FieldModel>,
    b: Seq<u8>,
    p: int,
    out: Entries,
)
    ensures
        fields_at(first + second, 0, b, p, out) == read_on(
            fields_at(first, 0, b, p, out),
            second,
            b,
        ),
    decreases first.len(),
{
    let all = first + second;
    if first.len() == 0 {
        assert(all =~= second);
    } else {
        let rest = first.skip(1);
        assert(all.skip(1) =~= rest + second);
        assert(all[0] == first[0]);
        match first[0].ty {
            TypeModel::Object(children) => {
                let inner = fields_at(children, 0, b, p, out);
                if let Ok(entries) = inner.result {
                    later_fields(all, 1, b, inner.pos, entries);
                    later_fields(first, 1, b, inner.pos, entries);
                    fields_are_read_in_order(rest, second, b, inner.pos, entries);
                }
            },
            ty => {
                let value = value_at(ty, b, p);
                if let Ok(v) = value.result {
                    let more = put(out, first[0].name, v);
                    later_fields(all, 1, b, value.pos, more);
                    later_fields(first, 1, b, value.pos, more);
                    fields_are_read_in_order(rest, second, b, value.pos, more);
                }
            },
        }
    }
}

/// A struct among the fields takes no bytes and no name of its own: a payload says the same whether
/// its fields stand inside the struct or in its place.
pub proof fn structs_are_flattened(
    before: Seq<FieldModel>,
    name: Seq<char>,
    children: Seq<FieldModel>,
    after: Seq<FieldModel>,
    payload: Seq<u8>,
)
    ensures
        flat(
            before + seq![FieldModel { name, ty: TypeModel::Object(children) }] + after,
            payload,
        ) == flat(before + children + after, payload),
{
    let one = seq![FieldModel { name, ty: TypeModel::Object(children) }];
    let none = Entries::empty();
    fields_are_read_in_order(before + one, after, payload, 0, none);
    fields_are_read_in_order(before + children, after, payload, 0, none);
    fields_are_read_in_order(before, one, payload, 0, none);
    fields_are_read_in_order(before, children, payload, 0, none);
    let read = fields_at(before, 0, payload, 0, none);
    if let Ok(entries) = read.result {
        let inner = fields_at(children, 0, payload, read.pos, entries);
        if let Ok(more) = inner.result {
            later_fields(one, 1, payload, inner.pos, more);
            assert(one.skip(1) =~= Seq::<FieldModel>::empty());
        }
    }
}

/// Whether runs of bytes are how some values of simple types are written.
pub open spec fn all_written(
    codes: Seq<TypeCode>,
    values: Seq<ValueModel>,
    parts: Seq<Seq<u8>>,
) -> bool {
    &&& values.len() == codes.len()
    &&& parts.len() == codes.len()
    &&& forall|k: int|
        0 <= k < codes.len() ==> is_written(#[trigger] codes[k], values[k], parts[k])
}

/// Runs of bytes, one behind the other.
pub open spec fn joined(parts: Seq<Seq<u8>>) -> Seq<u8>
    decreases parts.len(),
{
    if parts.len() == 0 {
        Seq::empty()
    } else {
        parts[0] + joined(parts.skip(1))
    }
}

/// Fields of simple types with their names.
pub open spec fn simple_fields(names: Seq<Seq<char>>, codes: Seq<TypeCode>) -> Seq<FieldModel> {
    Seq::new(
        codes.len(),
        |k: int| FieldModel { name: names[k], ty: TypeModel::Scalar(codes[k]) },
    )
}

proof fn simple_fields_read_back(
    names: Seq<Seq<char>>,
    codes: Seq<TypeCode>,
    values: Seq<ValueModel>,
    parts: Seq<Seq<u8>>,
    b: Seq<u8>,
    p: int,
    out: Entries,
)
    requires
        names.len() == codes.len(),
        all_written(codes, values, parts),
        holds(b, p, joined(parts)),
        forall|k: int, l: int| 0 <= k < l < names.len() ==> names[k] != names[l],
        forall|k: int, i: int|
            0 <= k < names.len() && 0 <= i < out.len() ==> #[trigger] names[k] != (
            #[trigger] out[i]).0,
    ensures
        fields_at(simple_fields(names, codes), 0, b, p, out) == good(
            out + Seq::new(names.len(), |k: int| (names[k], values[k])),
            (p + joined(parts).len()) as int,
        ),
    decreases codes.len(),
{
    let fields = simple_fields(names, codes);
    let entries = Seq::new(names.len(), |k: int| (names[k], values[k]));
    if codes.len() == 0 {
        assert(out + entries =~= out);
    } else {
        held_parts(b, p, parts[0], joined(parts.skip(1)));
        assert(is_written(codes[0], values[0], parts[0]));
        scalars_read_back(codes[0], values[0], parts[0], b, p);
        let q = (p + parts[0].len()) as int;
        let more = put(out, names[0], values[0]);
        assert(more =~= out.push((names[0], values[0])));
        let n1 = names.skip(1);
        let c1 = codes.skip(1);
        let v1 = values.skip(1);
        let p1 = parts.skip(1);
        assert forall|k: int| 0 <= k < c1.len() implies is_written(
            #[trigger] c1[k],
            v1[k],
            p1[k],
        ) by {
            assert(is_written(codes[k + 1], values[k + 1], parts[k + 1]));
        }
        assert(fields[0] == FieldModel { name: names[0], ty: TypeModel::Scalar(codes[0]) });
        assert(value_at(fields[0].ty, b, p) == good(values[0], q));
        assert(fields_at(fields, 0, b, p, out) == fields_at(fields, 1, b, q, more));
        later_fields(fields, 1, b, q, more);
        assert(fields.skip(1) =~= simple_fields(n1, c1));
        simple_fields_read_back(n1, c1, v1, p1, b, q, more);
        assert(more + Seq::new(n1.len(), |k: int| (n1[k], v1[k])) =~= out + entries);
    }
}

/// A payload of simple values under different names reads back as those values under those names,
/// in order. Whatever follows the last is not looked at.
pub proof fn payloads_read_back(
    names: Seq<Seq<char>>,
    codes: Seq<TypeCode>,
    values: Seq<ValueModel>,
    parts: Seq<Seq<u8>>,
    tail: Seq<u8>,
)
    requires
        names.len() == codes.len(),
        all_written(codes, values, parts),
        forall|k: int, l: int| 0 <= k < l < names.len() ==> names[k] != names[l],
    ensures
        flat(
            Seq::new(
                codes.len(),
                |k: int| FieldModel { name: names[k], ty: TypeModel::Scalar(codes[k]) },
            ),
            joined(parts) + tail,
        ) == Ok::<_, Fault>(Seq::new(names.len(), |k: int| (names[k], values[k]))),
{
    let b = joined(parts) + tail;
    assert(b.subrange(0, joined(parts).len() as int) =~= joined(parts));
    let none = Entries::empty();
    simple_fields_read_back(names, codes, values, parts, b, 0, none);
    let entries = Seq::new(names.len(), |k: int| (names[k], values[k]));
    assert(none + entries =~= entries);
    assert(simple_fields(names, codes) =~= Seq::new(
        codes.len(),
        |k: int| FieldModel { name: names[k], ty: TypeModel::Scalar(codes[k]) },
    ));
}

/// A struct inside an array comes out as the array of its values, in order, without their names.
pub proof fn structs_in_arrays_lose_their_names(
    names: Seq<Seq<char>>,
    codes: Seq<TypeCode>,
    values: Seq<ValueModel>,
    parts: Seq<Seq<u8>>,
    b: Seq<u8>,
    p: int,
)
    requires
        names.len() == codes.len(),
        all_written(codes, values, parts),
        holds(b, p, joined(parts)),
        forall|k: int, l: int| 0 <= k < l < names.len() ==> names[k] != names[l],
    ensures
        value_at(TypeModel::Object(simple_fields(names, codes)), b, p) == good(
            ValueModel::Array(values),
            (p + joined(parts).len()) as int,
        ),
{
    let none = Entries::empty();
    simple_fields_read_back(names, codes, values, parts, b, p, none);
    let entries = Seq::new(names.len(), |k: int| (names[k], values[k]));
    assert(none + entries =~= entries);
    assert(values_of(entries) =~= values);
}

/// A value of a type that is not known, or that is not a value by itself, is not read: nothing says
/// how long it would be.
pub proof fn unknown_types_are_refused(number: i32, b: Seq<u8>, p: int)
    ensures
        value_at(TypeModel::Unknown(number), b, p).result is Err,
        scalar_at(TypeCode::Object, b, p).result is Err,
        scalar_at(TypeCode::Array, b, p).result is Err,
{
}

} // verus!
