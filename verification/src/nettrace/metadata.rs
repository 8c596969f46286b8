//! Event metadata records: what an event is called, and the shape of its payload.
//!
//! A metadata record carries a header, then a field list in one of two encodings. The V1 list is
//! inline; a V5 "tag" can supersede it with a V2 list. **The field order is inverted between
//! them**: V1 is type-then-name, V2 is size-then-name-then-type.
use std::collections::HashMap;

use vstd::prelude::*;

use super::reader::{
    bad, good, says, take_bytes, take_i32, take_u32, take_u64, take_units, take_utf16_nul_string,
    Fault, ParseError, Parsed, Reader, Result,
};
use crate::text::{decimal, push_decimal, signed_decimal, to_decimal};

verus! {

/// Guards against malformed input driving unbounded recursion through nested Object types.
pub const MAX_TYPE_DEPTH: usize = 16;

/// Field types, as `System.TypeCode` plus two .NET extensions (Guid, Array).
#[derive(Debug, Clone, Copy, PartialEq, Eq, Structural)]
pub enum TypeCode {
    Object,
    Boolean,
    Char,
    SByte,
    Byte,
    Int16,
    UInt16,
    Int32,
    UInt32,
    Int64,
    UInt64,
    Single,
    Double,
    Decimal,
    DateTime,
    Guid,
    String,
    Array,
}

impl TypeCode {
    /// The number that stands for this type on the wire.
    pub open spec fn number(self) -> i32 {
        match self {
            TypeCode::Object => 1,
            TypeCode::Boolean => 3,
            TypeCode::Char => 4,
            TypeCode::SByte => 5,
            TypeCode::Byte => 6,
            TypeCode::Int16 => 7,
            TypeCode::UInt16 => 8,
            TypeCode::Int32 => 9,
            TypeCode::UInt32 => 10,
            TypeCode::Int64 => 11,
            TypeCode::UInt64 => 12,
            TypeCode::Single => 13,
            TypeCode::Double => 14,
            TypeCode::Decimal => 15,
            TypeCode::DateTime => 16,
            TypeCode::Guid => 17,
            TypeCode::String => 18,
            TypeCode::Array => 19,
        }
    }

    /// The type that a number on the wire stands for.
    pub open spec fn of_number(v: i32) -> Option<TypeCode> {
        if v == 1 {
            Some(TypeCode::Object)
        } else if v == 3 {
            Some(TypeCode::Boolean)
        } else if v == 4 {
            Some(TypeCode::Char)
        } else if v == 5 {
            Some(TypeCode::SByte)
        } else if v == 6 {
            Some(TypeCode::Byte)
        } else if v == 7 {
            Some(TypeCode::Int16)
        } else if v == 8 {
            Some(TypeCode::UInt16)
        } else if v == 9 {
            Some(TypeCode::Int32)
        } else if v == 10 {
            Some(TypeCode::UInt32)
        } else if v == 11 {
            Some(TypeCode::Int64)
        } else if v == 12 {
            Some(TypeCode::UInt64)
        } else if v == 13 {
            Some(TypeCode::Single)
        } else if v == 14 {
            Some(TypeCode::Double)
        } else if v == 15 {
            Some(TypeCode::Decimal)
        } else if v == 16 {
            Some(TypeCode::DateTime)
        } else if v == 17 {
            Some(TypeCode::Guid)
        } else if v == 18 {
            Some(TypeCode::String)
        } else if v == 19 {
            Some(TypeCode::Array)
        } else {
            None
        }
    }

    /// The width of a fixed-width type on the wire.
    pub open spec fn width(self) -> Option<usize> {
        match self {
            TypeCode::SByte | TypeCode::Byte => Some(1),
            TypeCode::Char | TypeCode::Int16 | TypeCode::UInt16 => Some(2),
            TypeCode::Boolean | TypeCode::Int32 | TypeCode::UInt32 | TypeCode::Single => Some(4),
            TypeCode::Int64 | TypeCode::UInt64 | TypeCode::Double => Some(8),
            TypeCode::Decimal | TypeCode::Guid | TypeCode::DateTime => Some(16),
            TypeCode::Object | TypeCode::String | TypeCode::Array => None,
        }
    }

    pub fn from_i32(v: i32) -> (code: Option<Self>)
        ensures
            code == TypeCode::of_number(v),
    {
        match v {
            1 => Some(TypeCode::Object),
            3 => Some(TypeCode::Boolean),
            4 => Some(TypeCode::Char),
            5 => Some(TypeCode::SByte),
            6 => Some(TypeCode::Byte),
            7 => Some(TypeCode::Int16),
            8 => Some(TypeCode::UInt16),
            9 => Some(TypeCode::Int32),
            10 => Some(TypeCode::UInt32),
            11 => Some(TypeCode::Int64),
            12 => Some(TypeCode::UInt64),
            13 => Some(TypeCode::Single),
            14 => Some(TypeCode::Double),
            15 => Some(TypeCode::Decimal),
            16 => Some(TypeCode::DateTime),
            17 => Some(TypeCode::Guid),
            18 => Some(TypeCode::String),
            19 => Some(TypeCode::Array),
            _ => None,
        }
    }

    /// The number that stands for this type on the wire.
    pub fn to_i32(self) -> (v: i32)
        ensures
            v == self.number(),
    {
        match self {
            TypeCode::Object => 1,
            TypeCode::Boolean => 3,
            TypeCode::Char => 4,
            TypeCode::SByte => 5,
            TypeCode::Byte => 6,
            TypeCode::Int16 => 7,
            TypeCode::UInt16 => 8,
            TypeCode::Int32 => 9,
            TypeCode::UInt32 => 10,
            TypeCode::Int64 => 11,
            TypeCode::UInt64 => 12,
            TypeCode::Single => 13,
            TypeCode::Double => 14,
            TypeCode::Decimal => 15,
            TypeCode::DateTime => 16,
            TypeCode::Guid => 17,
            TypeCode::String => 18,
            TypeCode::Array => 19,
        }
    }

    /// Fixed wire width, or `None` for variable-length types.
    pub fn fixed_size(self) -> (size: Option<usize>)
        ensures
            size == self.width(),
    {
        match self {
            // A 4-byte int, not one byte.
            TypeCode::Boolean => Some(4),
            TypeCode::Char | TypeCode::Int16 | TypeCode::UInt16 => Some(2),
            TypeCode::SByte | TypeCode::Byte => Some(1),
            TypeCode::Int32 | TypeCode::UInt32 | TypeCode::Single => Some(4),
            TypeCode::Int64 | TypeCode::UInt64 | TypeCode::Double => Some(8),
            TypeCode::Decimal | TypeCode::Guid => Some(16),
            // Eight 16-bit parts.
            TypeCode::DateTime => Some(16),
            TypeCode::Object | TypeCode::String | TypeCode::Array => None,
        }
    }
}

/// Numbers and types stand for each other one to one.
pub proof fn type_numbers_are_unique(code: TypeCode, v: i32)
    ensures
        TypeCode::of_number(code.number()) == Some(code),
        TypeCode::of_number(v) == Some(code) <==> v == code.number(),
{
}

#[derive(Debug)]
pub enum FieldType {
    Scalar(TypeCode),
    /// A nested struct. Contributes no bytes of its own; its fields are inlined.
    Object(Vec<Field>),
    Array(Box<FieldType>),
    /// A type code that is not modelled. Its presence makes the payload undecodable from here on,
    /// which the payload decoder reports rather than guessing at.
    Unknown(i32),
}

#[derive(Debug)]
pub struct Field {
    pub name: String,
    pub ty: FieldType,
}

/// A [`FieldType`] over sequences.
pub enum TypeModel {
    Scalar(TypeCode),
    Object(Seq<FieldModel>),
    Array(Box<TypeModel>),
    Unknown(i32),
}

/// A [`Field`] over sequences.
pub struct FieldModel {
    pub name: Seq<char>,
    pub ty: TypeModel,
}

impl FieldType {
    pub open spec fn model(self) -> TypeModel
        decreases self,
    {
        match self {
            FieldType::Scalar(code) => TypeModel::Scalar(code),
            FieldType::Object(fields) => TypeModel::Object(field_models(fields@)),
            FieldType::Array(element) => TypeModel::Array(Box::new((*element).model())),
            FieldType::Unknown(code) => TypeModel::Unknown(code),
        }
    }
}

/// The models of a list of fields.
pub open spec fn field_models(fields: Seq<Field>) -> Seq<FieldModel>
    decreases fields,
{
    if fields.len() == 0 {
        Seq::empty()
    } else {
        field_models(fields.drop_last()).push(
            FieldModel { name: fields.last().name@, ty: fields.last().ty.model() },
        )
    }
}

/// A list of fields and its models go hand in hand.
pub proof fn field_models_index(fields: Seq<Field>)
    ensures
        field_models(fields).len() == fields.len(),
        forall|i: int|
            0 <= i < fields.len() ==> (#[trigger] field_models(fields)[i]) == (FieldModel {
                name: fields[i].name@,
                ty: fields[i].ty.model(),
            }),
    decreases fields.len(),
{
    if fields.len() > 0 {
        field_models_index(fields.drop_last());
    }
}

proof fn field_models_push(fields: Seq<Field>, field: Field)
    ensures
        field_models(fields.push(field)) == field_models(fields).push(
            FieldModel { name: field.name@, ty: field.ty.model() },
        ),
{
    assert(fields.push(field).drop_last() =~= fields);
}

#[derive(Debug)]
pub struct EventMetadata {
    pub metadata_id: u32,
    pub provider_name: String,
    pub event_id: i32,
    pub event_name: String,
    pub keywords: u64,
    pub version: i32,
    pub level: i32,
    pub fields: Vec<Field>,
}

/// An [`EventMetadata`] over sequences.
pub struct MetadataModel {
    pub metadata_id: u32,
    pub provider_name: Seq<char>,
    pub event_id: i32,
    pub event_name: Seq<char>,
    pub keywords: u64,
    pub version: i32,
    pub level: i32,
    pub fields: Seq<FieldModel>,
}

impl View for EventMetadata {
    type V = MetadataModel;

    open spec fn view(&self) -> MetadataModel {
        MetadataModel {
            metadata_id: self.metadata_id,
            provider_name: self.provider_name@,
            event_id: self.event_id,
            event_name: self.event_name@,
            keywords: self.keywords,
            version: self.version,
            level: self.level,
            fields: field_models(self.fields@),
        }
    }
}

impl DeepView for EventMetadata {
    type V = MetadataModel;

    open spec fn deep_view(&self) -> MetadataModel {
        self@
    }
}

// ---------------------------------------------------------------------------------------------
// The field lists

/// A type in the V1 encoding, with `room` levels of nesting left.
pub open spec fn type_v1(b: Seq<u8>, p: int, room: nat) -> Parsed<TypeModel>
    decreases room, 0nat, 0nat,
{
    let raw = take_i32(b, p);
    match raw.result {
        Err(f) => bad(f, raw.pos),
        Ok(v) => match TypeCode::of_number(v) {
            Some(TypeCode::Object) => if room == 0 {
                too_deep(1 + MAX_TYPE_DEPTH as nat, raw.pos)
            } else {
                let fields = fields_v1(b, raw.pos, (room - 1) as nat);
                match fields.result {
                    Err(f) => bad(f, fields.pos),
                    Ok(fs) => good(TypeModel::Object(fs), fields.pos),
                }
            },
            Some(code) => good(TypeModel::Scalar(code), raw.pos),
            None => good(TypeModel::Unknown(v), raw.pos),
        },
    }
}

pub open spec fn too_deep<T>(depth: nat, p: int) -> Parsed<T> {
    bad(
        Fault::Unexpected { what: "metadata nesting depth"@, got: signed_decimal(depth as int) },
        p,
    )
}

/// `n` fields in the V1 encoding: each its *type first*, then its name.
pub open spec fn list_v1(b: Seq<u8>, p: int, room: nat, n: nat) -> Parsed<Seq<FieldModel>>
    decreases room, 1nat, n,
{
    if n == 0 {
        good(Seq::empty(), p)
    } else {
        let ty = type_v1(b, p, room);
        match ty.result {
            Err(f) => bad(f, ty.pos),
            Ok(t) => {
                let name = take_utf16_nul_string(b, ty.pos);
                match name.result {
                    Err(f) => bad(f, name.pos),
                    Ok(s) => {
                        let rest = list_v1(b, name.pos, room, (n - 1) as nat);
                        match rest.result {
                            Err(f) => bad(f, rest.pos),
                            Ok(fs) => good(
                                seq![FieldModel { name: s, ty: t }] + fs,
                                rest.pos,
                            ),
                        }
                    },
                }
            },
        }
    }
}

/// A V1 field list: a count, then the fields.
pub open spec fn fields_v1(b: Seq<u8>, p: int, room: nat) -> Parsed<Seq<FieldModel>>
    decreases room, 2nat, 0nat,
{
    let count = take_i32(b, p);
    match count.result {
        Err(f) => bad(f, count.pos),
        Ok(n) => if n < 0 {
            bad(
                Fault::Unexpected { what: "V1 field count"@, got: signed_decimal(n as int) },
                count.pos,
            )
        } else {
            list_v1(b, count.pos, room, n as nat)
        },
    }
}

/// Reading a text leaves the position inside the buffer.
pub proof fn units_advance(b: Seq<u8>, p: int)
    requires
        0 <= p <= b.len(),
    ensures
        p <= take_units(b, p).pos <= b.len(),
    decreases b.len() - p,
{
    if b.len() - p >= 2 {
        units_advance(b, p + 2);
    }
}

/// A type in the V2 encoding, `depth` levels down.
pub open spec fn type_v2(b: Seq<u8>, p: int, depth: nat) -> Parsed<TypeModel>
    decreases b.len() - p, 0nat,
    when 0 <= p <= b.len()
{
    let raw = take_i32(b, p);
    match raw.result {
        Err(f) => bad(f, raw.pos),
        Ok(v) => match TypeCode::of_number(v) {
            Some(TypeCode::Array) => {
                let element = type_v2(b, raw.pos, depth + 1);
                match element.result {
                    Err(f) => bad(f, element.pos),
                    Ok(t) => good(TypeModel::Array(Box::new(t)), element.pos),
                }
            },
            Some(TypeCode::Object) => {
                let fields = fields_v2(b, raw.pos, depth + 1);
                match fields.result {
                    Err(f) => bad(f, fields.pos),
                    Ok(fs) => good(TypeModel::Object(fs), fields.pos),
                }
            },
            Some(code) => good(TypeModel::Scalar(code), raw.pos),
            None => good(TypeModel::Unknown(v), raw.pos),
        },
    }
}

/// One field body in the V2 encoding: the name, and only then the type.
pub open spec fn field_v2(body: Seq<u8>, depth: nat) -> core::result::Result<FieldModel, Fault>
    decreases body.len(), 1nat,
{
    let name = take_utf16_nul_string(body, 0);
    match name.result {
        Err(f) => Err(f),
        Ok(s) => {
            proof {
                units_advance(body, 0);
            }
            let ty = type_v2(body, name.pos, depth);
            match ty.result {
                Err(f) => Err(f),
                Ok(t) => Ok(FieldModel { name: s, ty: t }),
            }
        },
    }
}

/// `n` fields in the V2 encoding. Each has a size that counts itself, so what is left of it behind
/// the type is padding.
pub open spec fn list_v2(b: Seq<u8>, p: int, depth: nat, n: nat) -> Parsed<Seq<FieldModel>>
    decreases b.len() - p, 2nat,
    when 0 <= p <= b.len()
{
    if n == 0 {
        good(Seq::empty(), p)
    } else {
        let size = take_i32(b, p);
        match size.result {
            Err(f) => bad(f, size.pos),
            Ok(len) => if len < 4 {
                bad(
                    Fault::Unexpected { what: "V2 field size"@, got: signed_decimal(len as int) },
                    size.pos,
                )
            } else {
                let body = take_bytes(b, size.pos, len - 4, "V2 field body"@);
                match body.result {
                    Err(f) => bad(f, body.pos),
                    Ok(bytes) => match field_v2(bytes, depth) {
                        Err(f) => bad(f, body.pos),
                        Ok(field) => {
                            let rest = list_v2(b, body.pos, depth, (n - 1) as nat);
                            match rest.result {
                                Err(f) => bad(f, rest.pos),
                                Ok(fs) => good(seq![field] + fs, rest.pos),
                            }
                        },
                    },
                }
            },
        }
    }
}

/// A V2 field list: a count, then the fields.
pub open spec fn fields_v2(b: Seq<u8>, p: int, depth: nat) -> Parsed<Seq<FieldModel>>
    decreases b.len() - p, 3nat,
    when 0 <= p <= b.len()
{
    if depth > MAX_TYPE_DEPTH {
        too_deep(depth, p)
    } else {
        let count = take_i32(b, p);
        match count.result {
            Err(f) => bad(f, count.pos),
            Ok(n) => if n < 0 {
                bad(
                    Fault::Unexpected { what: "V2 field count"@, got: signed_decimal(n as int) },
                    count.pos,
                )
            } else {
                list_v2(b, count.pos, depth, n as nat)
            },
        }
    }
}

/// Whether a call returned the fields, or the fault, that the model of the read says.
pub open spec fn fields_as(
    got: Result<Vec<Field>>,
    want: core::result::Result<Seq<FieldModel>, Fault>,
) -> bool {
    match (got, want) {
        (Ok(fields), Ok(models)) => field_models(fields@) == models,
        (Err(e), Err(f)) => e@ == f,
        _ => false,
    }
}

/// Whether a call returned the type, or the fault, that the model of the read says.
pub open spec fn type_as(
    got: Result<FieldType>,
    want: core::result::Result<TypeModel, Fault>,
) -> bool {
    match (got, want) {
        (Ok(ty), Ok(model)) => ty.model() == model,
        (Err(e), Err(f)) => e@ == f,
        _ => false,
    }
}

fn depth_error(depth: usize) -> (e: ParseError)
    ensures
        e@ == (Fault::Unexpected {
            what: "metadata nesting depth"@,
            got: signed_decimal(depth as int),
        }),
{
    let mut got = String::new();
    push_decimal(&mut got, depth as u64);
    assert(got@ =~= decimal(depth as nat));
    ParseError::Unexpected { what: "metadata nesting depth", got }
}

/// V1 field list: a count, then per field the *type first*, then the name.
fn read_fields_v1(r: &mut Reader<'_>, depth: usize) -> (fields: Result<Vec<Field>>)
    requires
        old(r).wf(),
        depth <= MAX_TYPE_DEPTH + 1,
    ensures
        final(r).wf(),
        final(r)@.bytes == old(r)@.bytes,
        ({
            let want = if depth > MAX_TYPE_DEPTH {
                too_deep(depth as nat, old(r)@.pos)
            } else {
                fields_v1(old(r)@.bytes, old(r)@.pos, (MAX_TYPE_DEPTH - depth) as nat)
            };
            fields_as(fields, want.result) && final(r)@.pos == want.pos
        }),
    decreases MAX_TYPE_DEPTH + 1 - depth, 1nat,
{
    if depth > MAX_TYPE_DEPTH {
        return Err(depth_error(depth));
    }
    let count: i32 = r.i32()?;
    if count < 0 {
        return Err(
            ParseError::Unexpected { what: "V1 field count", got: to_decimal(count as i64) },
        );
    }
    let ghost b = r@.bytes;
    let ghost start = r@.pos;
    let ghost room = (MAX_TYPE_DEPTH - depth) as nat;
    let mut fields: Vec<Field> = Vec::new();
    let mut i: i32 = 0;
    while i < count
        invariant
            0 <= i <= count,
            depth <= MAX_TYPE_DEPTH,
            room == MAX_TYPE_DEPTH - depth,
            r.wf(),
            r@.bytes == b,
            b == old(r)@.bytes,
            fields_v1(b, old(r)@.pos, room) == list_v1(b, start, room, count as nat),
            ({
                let whole = list_v1(b, start, room, count as nat);
                let rest = list_v1(b, r@.pos, room, (count - i) as nat);
                &&& whole.pos == rest.pos
                &&& match rest.result {
                    Ok(fs) => whole.result == Ok::<Seq<FieldModel>, Fault>(
                        field_models(fields@) + fs,
                    ),
                    Err(f) => whole.result == Err::<Seq<FieldModel>, Fault>(f),
                }
            }),
        decreases count - i,
    {
        let ghost before = fields@;
        let ghost p = r@.pos;
        let ty = read_type_v1(r, depth)?;
        let name = r.utf16_nul_string()?;
        let field = Field { name, ty };
        proof {
            field_models_push(before, field);
            let model = FieldModel { name: field.name@, ty: field.ty.model() };
            let rest = list_v1(b, r@.pos, room, (count - i - 1) as nat);
            if let Ok(fs) = rest.result {
                assert(field_models(before) + (seq![model] + fs) =~= field_models(before).push(
                    model,
                ) + fs);
            }
        }
        fields.push(field);
        i += 1;
    }
    assert(field_models(fields@) + Seq::<FieldModel>::empty() =~= field_models(fields@));
    Ok(fields)
}

fn read_type_v1(r: &mut Reader<'_>, depth: usize) -> (ty: Result<FieldType>)
    requires
        old(r).wf(),
        depth <= MAX_TYPE_DEPTH,
    ensures
        final(r).wf(),
        final(r)@.bytes == old(r)@.bytes,
        ({
            let want = type_v1(old(r)@.bytes, old(r)@.pos, (MAX_TYPE_DEPTH - depth) as nat);
            type_as(ty, want.result) && final(r)@.pos == want.pos
        }),
    decreases MAX_TYPE_DEPTH + 1 - depth, 0nat,
{
    let raw: i32 = r.i32()?;
    match TypeCode::from_i32(raw) {
        Some(TypeCode::Object) => {
            let fields = read_fields_v1(r, depth + 1)?;
            Ok(FieldType::Object(fields))
        },
        Some(code) => Ok(FieldType::Scalar(code)),
        None => Ok(FieldType::Unknown(raw)),
    }
}

/// V2 field list: a count, then per field a *size prefix*, the name, and only then the type.
///
/// The size is inclusive of itself, so slicing to `size - 4` both bounds the field and absorbs
/// its trailing padding.
fn read_fields_v2(r: &mut Reader<'_>, depth: usize) -> (fields: Result<Vec<Field>>)
    requires
        old(r).wf(),
        depth + (old(r)@.bytes.len() - old(r)@.pos) <= usize::MAX,
    ensures
        final(r).wf(),
        final(r)@.bytes == old(r)@.bytes,
        ({
            let want = fields_v2(old(r)@.bytes, old(r)@.pos, depth as nat);
            fields_as(fields, want.result) && final(r)@.pos == want.pos
        }),
    decreases old(r)@.bytes.len() - old(r)@.pos, 2nat,
{
    if depth > MAX_TYPE_DEPTH {
        return Err(depth_error(depth));
    }
    let count: i32 = r.i32()?;
    if count < 0 {
        return Err(
            ParseError::Unexpected { what: "V2 field count", got: to_decimal(count as i64) },
        );
    }
    let ghost b = r@.bytes;
    let ghost start = r@.pos;
    let mut fields: Vec<Field> = Vec::new();
    let mut i: i32 = 0;
    while i < count
        invariant
            0 <= i <= count,
            depth <= MAX_TYPE_DEPTH,
            r.wf(),
            r@.bytes == b,
            b == old(r)@.bytes,
            start == old(r)@.pos + 4,
            start <= r@.pos,
            depth + (b.len() - old(r)@.pos) <= usize::MAX,
            fields_v2(b, old(r)@.pos, depth as nat) == list_v2(
                b,
                start,
                depth as nat,
                count as nat,
            ),
            ({
                let whole = list_v2(b, start, depth as nat, count as nat);
                let rest = list_v2(b, r@.pos, depth as nat, (count - i) as nat);
                &&& whole.pos == rest.pos
                &&& match rest.result {
                    Ok(fs) => whole.result == Ok::<Seq<FieldModel>, Fault>(
                        field_models(fields@) + fs,
                    ),
                    Err(f) => whole.result == Err::<Seq<FieldModel>, Fault>(f),
                }
            }),
        decreases count - i,
    {
        let ghost before = fields@;
        let size: i32 = r.i32()?;
        if size < 4 {
            return Err(
                ParseError::Unexpected { what: "V2 field size", got: to_decimal(size as i64) },
            );
        }
        let body = r.bytes(size as usize - 4, "V2 field body")?;
        let field = read_field_v2(body, depth)?;
        proof {
            field_models_push(before, field);
            let model = FieldModel { name: field.name@, ty: field.ty.model() };
            let rest = list_v2(b, r@.pos, depth as nat, (count - i - 1) as nat);
            if let Ok(fs) = rest.result {
                assert(field_models(before) + (seq![model] + fs) =~= field_models(before).push(
                    model,
                ) + fs);
            }
        }
        fields.push(field);
        i += 1;
    }
    assert(field_models(fields@) + Seq::<FieldModel>::empty() =~= field_models(fields@));
    Ok(fields)
}

fn read_field_v2(body: &[u8], depth: usize) -> (field: Result<Field>)
    requires
        depth + body@.len() <= usize::MAX,
    ensures
        match (field, field_v2(body@, depth as nat)) {
            (Ok(f), Ok(m)) => FieldModel { name: f.name@, ty: f.ty.model() } == m,
            (Err(e), Err(f)) => e@ == f,
            _ => false,
        },
    decreases body@.len(), 1nat,
{
    let mut r = Reader::new(body);
    proof {
        units_advance(body@, 0);
    }
    let name = r.utf16_nul_string()?;
    let ty = read_type_v2(&mut r, depth)?;
    Ok(Field { name, ty })
}

fn read_type_v2(r: &mut Reader<'_>, depth: usize) -> (ty: Result<FieldType>)
    requires
        old(r).wf(),
        depth + (old(r)@.bytes.len() - old(r)@.pos) <= usize::MAX,
    ensures
        final(r).wf(),
        final(r)@.bytes == old(r)@.bytes,
        ({
            let want = type_v2(old(r)@.bytes, old(r)@.pos, depth as nat);
            type_as(ty, want.result) && final(r)@.pos == want.pos
        }),
    decreases old(r)@.bytes.len() - old(r)@.pos, 0nat,
{
    let raw: i32 = r.i32()?;
    match TypeCode::from_i32(raw) {
        Some(TypeCode::Array) => {
            let element = read_type_v2(r, depth + 1)?;
            Ok(FieldType::Array(Box::new(element)))
        },
        Some(TypeCode::Object) => {
            let fields = read_fields_v2(r, depth + 1)?;
            Ok(FieldType::Object(fields))
        },
        Some(code) => Ok(FieldType::Scalar(code)),
        None => Ok(FieldType::Unknown(raw)),
    }
}

// ---------------------------------------------------------------------------------------------
// The record

/// A single opcode byte; not needed for counters.
pub const TAG_OPCODE: u8 = 1;

/// A V2 field list.
pub const TAG_PARAMETER_PAYLOAD_V2: u8 = 2;

/// The field list that holds once the tags from `p` on have had their say: that of the last V2
/// tag, or else `fields`. Other tags are passed over.
pub open spec fn tagged_fields(
    b: Seq<u8>,
    p: int,
    fields: Seq<FieldModel>,
) -> core::result::Result<Seq<FieldModel>, Fault>
    decreases b.len() - p,
    when 0 <= p <= b.len()
{
    if b.len() - p <= 4 {
        Ok(fields)
    } else {
        let len = take_i32(b, p);
        match len.result {
            Err(f) => Err(f),
            Ok(n) => if n < 0 {
                Err(
                    Fault::Unexpected {
                        what: "metadata tag length"@,
                        got: signed_decimal(n as int),
                    },
                )
            } else {
                let body = take_bytes(b, p + 5, n as int, "metadata tag payload"@);
                match body.result {
                    Err(f) => Err(f),
                    Ok(bytes) => if b[p + 4] == TAG_PARAMETER_PAYLOAD_V2 {
                        match fields_v2(bytes, 0, 0).result {
                            Err(f) => Err(f),
                            Ok(fs) => tagged_fields(b, body.pos, fs),
                        }
                    } else {
                        tagged_fields(b, body.pos, fields)
                    },
                }
            },
        }
    }
}

/// A metadata record up to its field list.
pub open spec fn record_header(b: Seq<u8>) -> Parsed<MetadataModel> {
    let id = take_u32(b, 0);
    let provider = take_utf16_nul_string(b, id.pos);
    let event_id = take_i32(b, provider.pos);
    let event = take_utf16_nul_string(b, event_id.pos);
    let keywords = take_u64(b, event.pos);
    let version = take_i32(b, keywords.pos);
    let level = take_i32(b, version.pos);
    if let Err(f) = id.result {
        bad(f, id.pos)
    } else if let Err(f) = provider.result {
        bad(f, provider.pos)
    } else if let Err(f) = event_id.result {
        bad(f, event_id.pos)
    } else if let Err(f) = event.result {
        bad(f, event.pos)
    } else if let Err(f) = keywords.result {
        bad(f, keywords.pos)
    } else if let Err(f) = version.result {
        bad(f, version.pos)
    } else if let Err(f) = level.result {
        bad(f, level.pos)
    } else {
        good(
            MetadataModel {
                metadata_id: id.result->Ok_0,
                provider_name: provider.result->Ok_0,
                event_id: event_id.result->Ok_0,
                event_name: event.result->Ok_0,
                keywords: keywords.result->Ok_0,
                version: version.result->Ok_0,
                level: level.result->Ok_0,
                fields: Seq::empty(),
            },
            level.pos,
        )
    }
}

/// A metadata record. One that ends behind its header describes an event without payload.
#[verifier::opaque]
pub open spec fn record(b: Seq<u8>) -> core::result::Result<MetadataModel, Fault> {
    let header = record_header(b);
    match header.result {
        Err(f) => Err(f),
        Ok(h) => {
            let inline = if header.pos == b.len() {
                good(Seq::empty(), header.pos)
            } else {
                fields_v1(b, header.pos, MAX_TYPE_DEPTH as nat)
            };
            match inline.result {
                Err(f) => Err(f),
                Ok(fs) => match tagged_fields(b, inline.pos, fs) {
                    Err(f) => Err(f),
                    Ok(fields) => Ok(MetadataModel { fields, ..h }),
                },
            }
        },
    }
}

fn read_record_header(r: &mut Reader<'_>) -> (header: Result<EventMetadata>)
    requires
        old(r).wf(),
        old(r)@.pos == 0,
    ensures
        final(r).wf(),
        final(r)@ == old(r)@.moved_to(record_header(old(r)@.bytes).pos),
        says(header, record_header(old(r)@.bytes).result),
        header is Ok ==> header->Ok_0.fields@.len() == 0,
{
    let metadata_id: u32 = r.u32()?;
    let provider_name = r.utf16_nul_string()?;
    let event_id: i32 = r.i32()?;
    let event_name = r.utf16_nul_string()?;
    let keywords: u64 = r.u64()?;
    let version: i32 = r.i32()?;
    let level: i32 = r.i32()?;
    Ok(
        EventMetadata {
            metadata_id,
            provider_name,
            event_id,
            event_name,
            keywords,
            version,
            level,
            fields: Vec::new(),
        },
    )
}

/// V5 tags follow the V1 list. They are parsed whenever bytes remain rather than gated on a version
/// number: the Trace object reports version 4 even on runtimes that emit V5 tags.
fn read_tags(r: &mut Reader<'_>, inline: Vec<Field>) -> (fields: Result<Vec<Field>>)
    requires
        old(r).wf(),
    ensures
        final(r).wf(),
        fields_as(
            fields,
            tagged_fields(old(r)@.bytes, old(r)@.pos, field_models(inline@)),
        ),
{
    let ghost b = r@.bytes;
    let ghost start = r@.pos;
    let ghost first = field_models(inline@);
    let mut fields = inline;
    while r.remaining() > 4
        invariant
            r.wf(),
            r@.bytes == b,
            b == old(r)@.bytes,
            start == old(r)@.pos,
            first == field_models(inline@),
            tagged_fields(b, start, first) == tagged_fields(b, r@.pos, field_models(fields@)),
        decreases b.len() - r@.pos,
    {
        let tag_payload_bytes: i32 = r.i32()?;
        if tag_payload_bytes < 0 {
            return Err(
                ParseError::Unexpected {
                    what: "metadata tag length",
                    got: to_decimal(tag_payload_bytes as i64),
                },
            );
        }
        let kind: u8 = r.u8()?;
        let body = r.bytes(tag_payload_bytes as usize, "metadata tag payload")?;
        if kind == TAG_PARAMETER_PAYLOAD_V2 {
            // When a V2 list is present it is authoritative.
            let mut tag_reader = Reader::new(body);
            fields = read_fields_v2(&mut tag_reader, 0)?;
        }
    }
    Ok(fields)
}

/// Parse one metadata record, which arrives as the payload of an event inside a MetadataBlock.
pub fn parse(payload: &[u8]) -> (metadata: Result<EventMetadata>)
    ensures
        says(metadata, record(payload@)),
{
    reveal(record);
    let mut r = Reader::new(payload);
    let header = read_record_header(&mut r)?;
    let inline: Vec<Field> = if r.is_empty() {
        Vec::new()
    } else {
        read_fields_v1(&mut r, 0)?
    };
    let fields = read_tags(&mut r, inline)?;
    Ok(
        EventMetadata {
            metadata_id: header.metadata_id,
            provider_name: header.provider_name,
            event_id: header.event_id,
            event_name: header.event_name,
            keywords: header.keywords,
            version: header.version,
            level: header.level,
            fields,
        },
    )
}

/// A fault in the bytes at hand, as against one in how they arrive.
pub open spec fn is_local(f: Fault) -> bool {
    f is Truncated || f is MalformedVarint || f is Unexpected
}

proof fn units_fail_locally(b: Seq<u8>, p: int)
    ensures
        take_units(b, p).result is Err ==> is_local(take_units(b, p).result->Err_0),
    decreases b.len() - p,
{
    if b.len() - p >= 2 && crate::bytes::u16_at(b, p) != 0 {
        units_fail_locally(b, p + 2);
    }
}

proof fn type_v1_fails_locally(b: Seq<u8>, p: int, room: nat)
    ensures
        type_v1(b, p, room).result is Err ==> is_local(type_v1(b, p, room).result->Err_0),
    decreases room, 0nat, 0nat,
{
    let raw = take_i32(b, p);
    if raw.result is Ok && room > 0 {
        fields_v1_fail_locally(b, raw.pos, (room - 1) as nat);
    }
}

proof fn list_v1_fails_locally(b: Seq<u8>, p: int, room: nat, n: nat)
    ensures
        list_v1(b, p, room, n).result is Err ==> is_local(list_v1(b, p, room, n).result->Err_0),
    decreases room, 1nat, n,
{
    if n > 0 {
        type_v1_fails_locally(b, p, room);
        let ty = type_v1(b, p, room);
        units_fail_locally(b, ty.pos);
        let name = take_utf16_nul_string(b, ty.pos);
        list_v1_fails_locally(b, name.pos, room, (n - 1) as nat);
    }
}

proof fn fields_v1_fail_locally(b: Seq<u8>, p: int, room: nat)
    ensures
        fields_v1(b, p, room).result is Err ==> is_local(fields_v1(b, p, room).result->Err_0),
    decreases room, 2nat, 0nat,
{
    let count = take_i32(b, p);
    if count.result is Ok && count.result->Ok_0 >= 0 {
        list_v1_fails_locally(b, count.pos, room, count.result->Ok_0 as nat);
    }
}

proof fn type_v2_fails_locally(b: Seq<u8>, p: int, depth: nat)
    requires
        0 <= p <= b.len(),
    ensures
        type_v2(b, p, depth).result is Err ==> is_local(type_v2(b, p, depth).result->Err_0),
    decreases b.len() - p, 0nat,
{
    let raw = take_i32(b, p);
    if raw.result is Ok {
        type_v2_fails_locally(b, raw.pos, depth + 1);
        fields_v2_fail_locally(b, raw.pos, depth + 1);
    }
}

proof fn field_v2_fails_locally(body: Seq<u8>, depth: nat)
    ensures
        field_v2(body, depth) is Err ==> is_local(field_v2(body, depth)->Err_0),
    decreases body.len(), 1nat,
{
    units_advance(body, 0);
    units_fail_locally(body, 0);
    type_v2_fails_locally(body, take_utf16_nul_string(body, 0).pos, depth);
}

proof fn list_v2_fails_locally(b: Seq<u8>, p: int, depth: nat, n: nat)
    requires
        0 <= p <= b.len(),
    ensures
        list_v2(b, p, depth, n).result is Err ==> is_local(list_v2(b, p, depth, n).result->Err_0),
    decreases b.len() - p, 2nat,
{
    let size = take_i32(b, p);
    if n > 0 && size.result is Ok && size.result->Ok_0 >= 4 {
        let body = take_bytes(b, size.pos, size.result->Ok_0 - 4, "V2 field body"@);
        if body.result is Ok {
            field_v2_fails_locally(body.result->Ok_0, depth);
            list_v2_fails_locally(b, body.pos, depth, (n - 1) as nat);
        }
    }
}

proof fn fields_v2_fail_locally(b: Seq<u8>, p: int, depth: nat)
    requires
        0 <= p <= b.len(),
    ensures
        fields_v2(b, p, depth).result is Err ==> is_local(fields_v2(b, p, depth).result->Err_0),
    decreases b.len() - p, 3nat,
{
    let count = take_i32(b, p);
    if count.result is Ok && count.result->Ok_0 >= 0 {
        list_v2_fails_locally(b, count.pos, depth, count.result->Ok_0 as nat);
    }
}

proof fn tags_fail_locally(b: Seq<u8>, p: int, fields: Seq<FieldModel>)
    requires
        0 <= p <= b.len(),
    ensures
        tagged_fields(b, p, fields) is Err ==> is_local(tagged_fields(b, p, fields)->Err_0),
    decreases b.len() - p,
{
    let len = take_i32(b, p);
    if b.len() - p > 4 && len.result->Ok_0 >= 0 {
        let body = take_bytes(b, p + 5, len.result->Ok_0 as int, "metadata tag payload"@);
        if let Ok(bytes) = body.result {
            fields_v2_fail_locally(bytes, 0, 0);
            tags_fail_locally(b, body.pos, fields);
            if let Ok(fs) = fields_v2(bytes, 0, 0).result {
                tags_fail_locally(b, body.pos, fs);
            }
        }
    }
}

/// Every position that reading a V1 list passes through lies inside the buffer.
proof fn fields_v1_advance(b: Seq<u8>, p: int, room: nat)
    requires
        0 <= p <= b.len(),
    ensures
        p <= fields_v1(b, p, room).pos <= b.len(),
    decreases room, 2nat, 0nat,
{
    let count = take_i32(b, p);
    if count.result is Ok && count.result->Ok_0 >= 0 {
        list_v1_advances(b, count.pos, room, count.result->Ok_0 as nat);
    }
}

proof fn list_v1_advances(b: Seq<u8>, p: int, room: nat, n: nat)
    requires
        0 <= p <= b.len(),
    ensures
        p <= list_v1(b, p, room, n).pos <= b.len(),
    decreases room, 1nat, n,
{
    if n > 0 {
        let raw = take_i32(b, p);
        if raw.result is Ok && room > 0 {
            fields_v1_advance(b, raw.pos, (room - 1) as nat);
        }
        let ty = type_v1(b, p, room);
        units_advance(b, ty.pos);
        let name = take_utf16_nul_string(b, ty.pos);
        list_v1_advances(b, name.pos, room, (n - 1) as nat);
    }
}

/// A metadata record that does not parse is itself at fault: it never waits for more to arrive.
pub proof fn records_fail_locally(b: Seq<u8>)
    ensures
        record(b) is Err ==> is_local(record(b)->Err_0),
{
    reveal(record);
    let id = take_u32(b, 0);
    let provider = take_utf16_nul_string(b, id.pos);
    let event_id = take_i32(b, provider.pos);
    units_fail_locally(b, id.pos);
    units_fail_locally(b, event_id.pos);
    units_advance(b, id.pos);
    let header = record_header(b);
    if header.result is Ok {
        units_advance(b, event_id.pos);
        fields_v1_fail_locally(b, header.pos, MAX_TYPE_DEPTH as nat);
        fields_v1_advance(b, header.pos, MAX_TYPE_DEPTH as nat);
        let inline = if header.pos == b.len() {
            good(Seq::empty(), header.pos)
        } else {
            fields_v1(b, header.pos, MAX_TYPE_DEPTH as nat)
        };
        if let Ok(fs) = inline.result {
            tags_fail_locally(b, inline.pos, fs);
        }
    }
}

// ---------------------------------------------------------------------------------------------
// The registry

/// Registry of metadata records seen so far, keyed by the id events reference.
#[derive(Debug)]
pub struct MetadataStore {
    by_id: HashMap<u32, EventMetadata>,
}

impl View for MetadataStore {
    type V = Map<u32, MetadataModel>;

    closed spec fn view(&self) -> Map<u32, MetadataModel> {
        self.by_id@.map_values(|m: EventMetadata| m@)
    }
}

impl Default for MetadataStore {
    fn default() -> (s: Self)
        ensures
            s.wf(),
            s@ == Map::<u32, MetadataModel>::empty(),
    {
        MetadataStore::new()
    }
}

impl MetadataStore {
    /// Every record is filed under its own id.
    pub closed spec fn wf(&self) -> bool {
        &&& self.by_id@.dom().finite()
        &&& forall|id: u32|
            self.by_id@.contains_key(id) ==> (#[trigger] self.by_id@[id]).metadata_id == id
    }

    /// There are finitely many records, and each says the id it is filed under.
    pub proof fn records_are_filed(&self)
        requires
            self.wf(),
        ensures
            self@.dom().finite(),
            forall|id: u32|
                self@.contains_key(id) ==> (#[trigger] self@[id]).metadata_id == id,
    {
        assert(self@.dom() =~= self.by_id@.dom());
    }

    pub fn new() -> (s: Self)
        ensures
            s.wf(),
            s@ == Map::<u32, MetadataModel>::empty(),
    {
        let s = MetadataStore { by_id: HashMap::new() };
        assert(s@ =~= Map::<u32, MetadataModel>::empty());
        s
    }

    /// A record replaces an earlier one of the same id.
    pub fn insert(&mut self, metadata: EventMetadata)
        requires
            old(self).wf(),
        ensures
            final(self).wf(),
            final(self)@ == old(self)@.insert(metadata.metadata_id, metadata@),
            final(self)@.dom().finite(),
    {
        let ghost before = self@;
        let ghost model = metadata@;
        let id: u32 = metadata.metadata_id;
        self.by_id.insert(id, metadata);
        assert(self@ =~= before.insert(id, model));
        assert(self@.dom() =~= self.by_id@.dom());
    }

    pub fn get(&self, metadata_id: u32) -> (found: Option<&EventMetadata>)
        ensures
            match found {
                Some(m) => self@.contains_key(metadata_id) && m@ == self@[metadata_id],
                None => !self@.contains_key(metadata_id),
            },
    {
        self.by_id.get(&metadata_id)
    }

    pub fn len(&self) -> (n: usize)
        ensures
            n == self@.dom().len(),
    {
        assert(self@.dom() =~= self.by_id@.dom());
        self.by_id.len()
    }

    pub fn is_empty(&self) -> (empty: bool)
        ensures
            empty == self@.dom().is_empty(),
    {
        assert(self@.dom() =~= self.by_id@.dom());
        self.by_id.is_empty()
    }

    /// Every record once, in no particular order.
    pub fn iter(&self) -> (records: Vec<&EventMetadata>)
        requires
            self.wf(),
        ensures
            self@.dom().finite(),
            records@.len() == self@.dom().len(),
            forall|i: int|
                0 <= i < records@.len() ==> self@.contains_key(records@[i].metadata_id)
                    && self@[records@[i].metadata_id] == (#[trigger] records@[i])@,
            forall|i: int, j: int|
                0 <= i < j < records@.len() ==> (#[trigger] records@[i]).metadata_id != (
                #[trigger] records@[j]).metadata_id,
    {
        let mut records: Vec<&EventMetadata> = Vec::new();
        assert(self@.dom() =~= self.by_id@.dom());
        for pair in it: self.by_id.iter()
            invariant
                self.wf(),
                it.seq().no_duplicates(),
                it.seq().len() == self.by_id@.dom().len(),
                forall|i: int|
                    0 <= i < it.seq().len() ==> self.by_id@.contains_key(
                        *(#[trigger] it.seq()[i]).0,
                    ) && self.by_id@[*it.seq()[i].0] == *it.seq()[i].1,
                records@.len() == it.index(),
                forall|i: int| 0 <= i < records@.len() ==> #[trigger] records@[i] == it.seq()[i].1,
        {
            records.push(pair.1);
        }
        records
    }
}

} // verus!
