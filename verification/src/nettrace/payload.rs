//! Decoding an event payload against its metadata.
//!
//! The encoding is as simple as it gets: fields concatenated in metadata order, natural width,
//! little-endian, no alignment and no length prefixes. `Object` contributes no bytes of its own,
//! its children are inlined, which is why a flattened view is the natural output.
use vstd::prelude::*;

use super::event::sixteen;
use super::metadata::{field_models, field_models_index, Field, FieldModel, FieldType, TypeCode, TypeModel};
use super::reader::{
    bad, good, says, take_bytes, take_i16, take_i32, take_i64, take_u16, take_u32, take_u64,
    take_u8, take_utf16_nul_string, Fault, ParseError, Parsed, Reader, Result,
};
use crate::bytes::{signed64, to_signed64};
use crate::text::{same_text, signed_decimal, to_decimal};

verus! {

/// One decoded value. Floating-point numbers are carried as their bits.
#[derive(Debug, PartialEq, Eq)]
pub enum Value {
    Bool(bool),
    Char(u16),
    Int(i64),
    UInt(u64),
    /// The bits of a 32-bit floating-point number.
    Single(u32),
    /// The bits of a 64-bit floating-point number.
    Double(u64),
    String(String),
    Guid([u8; 16]),
    Decimal([u8; 16]),
    /// Year, month, day-of-week, day, hour, minute, second, millisecond.
    DateTime([i16; 8]),
    Array(Vec<Value>),
}

/// A number in whichever form it arrived.
#[derive(Debug, Clone, Copy, PartialEq, Eq, Structural)]
pub enum Number {
    Bool(bool),
    Int(i64),
    UInt(u64),
    /// The bits of a 32-bit floating-point number.
    Single(u32),
    /// The bits of a 64-bit floating-point number.
    Double(u64),
}

/// A [`Value`] over sequences.
pub enum ValueModel {
    Number(Number),
    Char(u16),
    Text(Seq<char>),
    Guid(Seq<u8>),
    Decimal(Seq<u8>),
    DateTime(Seq<i16>),
    Array(Seq<ValueModel>),
}

impl Value {
    pub open spec fn model(self) -> ValueModel
        decreases self,
    {
        match self {
            Value::Bool(v) => ValueModel::Number(Number::Bool(v)),
            Value::Char(v) => ValueModel::Char(v),
            Value::Int(v) => ValueModel::Number(Number::Int(v)),
            Value::UInt(v) => ValueModel::Number(Number::UInt(v)),
            Value::Single(v) => ValueModel::Number(Number::Single(v)),
            Value::Double(v) => ValueModel::Number(Number::Double(v)),
            Value::String(s) => ValueModel::Text(s@),
            Value::Guid(b) => ValueModel::Guid(b@),
            Value::Decimal(b) => ValueModel::Decimal(b@),
            Value::DateTime(parts) => ValueModel::DateTime(parts@),
            Value::Array(values) => ValueModel::Array(value_models(values@)),
        }
    }

    /// Numeric value, whatever integer or float width it arrived as.
    pub fn as_number(&self) -> (n: Option<Number>)
        ensures
            n == (match self.model() {
                ValueModel::Number(n) => Some(n),
                _ => None,
            }),
    {
        match self {
            Value::Double(v) => Some(Number::Double(*v)),
            Value::Single(v) => Some(Number::Single(*v)),
            Value::Int(v) => Some(Number::Int(*v)),
            Value::UInt(v) => Some(Number::UInt(*v)),
            Value::Bool(v) => Some(Number::Bool(*v)),
            _ => None,
        }
    }

    pub fn as_str(&self) -> (s: Option<&str>)
        ensures
            match (s, self.model()) {
                (Some(s), ValueModel::Text(t)) => s@ == t,
                (None, ValueModel::Text(_)) => false,
                (None, _) => true,
                _ => false,
            },
    {
        match self {
            Value::String(s) => Some(s.as_str()),
            _ => None,
        }
    }

    /// An integer as 64 signed bits.
    pub fn as_i64(&self) -> (n: Option<i64>)
        ensures
            n == (match self.model() {
                ValueModel::Number(Number::Int(v)) => Some(v),
                ValueModel::Number(Number::UInt(v)) => Some(signed64(v)),
                _ => None,
            }),
    {
        match self {
            Value::Int(v) => Some(*v),
            Value::UInt(v) => Some(to_signed64(*v)),
            _ => None,
        }
    }
}

impl DeepView for Value {
    type V = ValueModel;

    open spec fn deep_view(&self) -> ValueModel {
        self.model()
    }
}

/// The models of a list of values.
pub open spec fn value_models(values: Seq<Value>) -> Seq<ValueModel>
    decreases values,
{
    if values.len() == 0 {
        Seq::empty()
    } else {
        value_models(values.drop_last()).push(values.last().model())
    }
}

/// A list of values and its models go hand in hand.
pub proof fn value_models_index(values: Seq<Value>)
    ensures
        value_models(values).len() == values.len(),
        forall|i: int|
            0 <= i < values.len() ==> (#[trigger] value_models(values)[i]) == values[i].model(),
    decreases values.len(),
{
    if values.len() > 0 {
        value_models_index(values.drop_last());
    }
}

proof fn value_models_push(values: Seq<Value>, value: Value)
    ensures
        value_models(values.push(value)) == value_models(values).push(value.model()),
{
    assert(values.push(value).drop_last() =~= values);
}

// ---------------------------------------------------------------------------------------------
// Named values

/// Values by name, each name once, in the order in which the names first came up.
pub type Entries = Seq<(Seq<char>, ValueModel)>;

/// Where a name stands, if it does.
pub open spec fn place_of(entries: Entries, name: Seq<char>) -> Option<int> {
    if exists|i: int| 0 <= i < entries.len() && (#[trigger] entries[i]).0 == name {
        Some(choose|i: int| 0 <= i < entries.len() && (#[trigger] entries[i]).0 == name)
    } else {
        None
    }
}

/// The entries with `name` set to `value`: in place if the name is known, at the end if not.
pub open spec fn put(entries: Entries, name: Seq<char>, value: ValueModel) -> Entries {
    match place_of(entries, name) {
        Some(i) => entries.update(i, (name, value)),
        None => entries.push((name, value)),
    }
}

/// The value under a name.
pub open spec fn lookup(entries: Entries, name: Seq<char>) -> Option<ValueModel> {
    match place_of(entries, name) {
        Some(i) => Some(entries[i].1),
        None => None,
    }
}

/// No name occurs twice.
pub open spec fn distinct_names(entries: Entries) -> bool {
    forall|i: int, j: int|
        0 <= i < j < entries.len() ==> (#[trigger] entries[i]).0 != (#[trigger] entries[j]).0
}

/// A payload flattened into named values.
#[derive(Debug)]
pub struct FlatPayload {
    names: Vec<String>,
    values: Vec<Value>,
}

impl View for FlatPayload {
    type V = Entries;

    closed spec fn view(&self) -> Entries {
        Seq::new(
            self.names@.len(),
            |i: int| (self.names@[i]@, self.values@[i].model()),
        )
    }
}

impl FlatPayload {
    pub closed spec fn wf(&self) -> bool {
        &&& self.names@.len() == self.values@.len()
        &&& distinct_names(self@)
    }

    pub fn new() -> (p: Self)
        ensures
            p.wf(),
            p@ == Entries::empty(),
    {
        let p = FlatPayload { names: Vec::new(), values: Vec::new() };
        assert(p@ =~= Entries::empty());
        p
    }

    pub fn len(&self) -> (n: usize)
        ensures
            n == self@.len(),
    {
        self.names.len()
    }

    fn find(&self, name: &str) -> (place: Option<usize>)
        requires
            self.wf(),
        ensures
            match (place, place_of(self@, name@)) {
                (Some(i), Some(j)) => i == j && i < self.names@.len(),
                (None, None) => true,
                _ => false,
            },
    {
        let mut i: usize = 0;
        while i < self.names.len()
            invariant
                i <= self.names@.len(),
                self.wf(),
                forall|k: int| 0 <= k < i ==> (#[trigger] self@[k]).0 != name@,
            decreases self.names@.len() - i,
        {
            if same_text(self.names[i].as_str(), name) {
                assert(self@[i as int].0 == name@);
                return Some(i);
            }
            i += 1;
        }
        None
    }

    /// Set a name's value, replacing what it had.
    pub fn insert(&mut self, name: String, value: Value)
        requires
            old(self).wf(),
        ensures
            final(self).wf(),
            final(self)@ == put(old(self)@, name@, value.model()),
    {
        let ghost before = self@;
        let ghost key = name@;
        let ghost model = value.model();
        match self.find(name.as_str()) {
            Some(i) => {
                self.values.set(i, value);
                assert(self@ =~= before.update(i as int, (key, model)));
            },
            None => {
                self.names.push(name);
                self.values.push(value);
                assert(self@ =~= before.push((key, model)));
                assert forall|i: int, j: int| 0 <= i < j < self@.len() implies (
                #[trigger] self@[i]).0 != (#[trigger] self@[j]).0 by {
                    assert(self@[i] == before[i]);
                    if j < before.len() {
                        assert(self@[j] == before[j]);
                    }
                }
            },
        }
    }

    fn into_values(self) -> (values: Vec<Value>)
        requires
            self.wf(),
        ensures
            value_models(values@) == values_of(self@),
    {
        proof {
            value_models_index(self.values@);
            assert(value_models(self.values@) =~= values_of(self@));
        }
        self.values
    }

    /// The value under a name.
    pub fn get(&self, name: &str) -> (value: Option<&Value>)
        requires
            self.wf(),
        ensures
            match (value, lookup(self@, name@)) {
                (Some(v), Some(m)) => v.model() == m,
                (None, None) => true,
                _ => false,
            },
    {
        match self.find(name) {
            Some(i) => Some(&self.values[i]),
            None => None,
        }
    }
}

/// What was set under a name is found under it, and other names are left alone.
pub proof fn put_then_lookup(
    entries: Entries,
    name: Seq<char>,
    value: ValueModel,
    other: Seq<char>,
)
    requires
        distinct_names(entries),
    ensures
        distinct_names(put(entries, name, value)),
        lookup(put(entries, name, value), name) == Some(value),
        other != name ==> lookup(put(entries, name, value), other) == lookup(entries, other),
{
    let after = put(entries, name, value);
    match place_of(entries, name) {
        Some(i) => {
            assert(after[i].0 == name);
            assert forall|k: int| 0 <= k < after.len() implies (#[trigger] after[k]).0
                == entries[k].0 by {}
        },
        None => {
            assert(after[entries.len() as int].0 == name);
            assert forall|k: int| 0 <= k < entries.len() implies (#[trigger] after[k])
                == entries[k] by {}
        },
    }
    if other != name {
        if let Some(k) = place_of(entries, other) {
            assert(after[k].0 == other);
        }
        if let Some(k) = place_of(after, other) {
            assert(entries[k].0 == other);
        }
    }
}

// ---------------------------------------------------------------------------------------------
// Decoding

/// `n` 16-bit parts.
pub open spec fn take_parts(b: Seq<u8>, p: int, n: nat) -> Parsed<Seq<i16>>
    decreases n,
{
    if n == 0 {
        good(Seq::empty(), p)
    } else {
        let part = take_i16(b, p);
        match part.result {
            Err(f) => bad(f, part.pos),
            Ok(v) => {
                let rest = take_parts(b, part.pos, (n - 1) as nat);
                match rest.result {
                    Err(f) => bad(f, rest.pos),
                    Ok(parts) => good(seq![v] + parts, rest.pos),
                }
            },
        }
    }
}

/// The model of a value read as some type.
pub open spec fn read_as<T>(read: Parsed<T>, f: spec_fn(T) -> ValueModel) -> Parsed<ValueModel> {
    match read.result {
        Err(e) => bad(e, read.pos),
        Ok(v) => good(f(v), read.pos),
    }
}

/// A value of a scalar type, at its natural width. A Boolean is a 4-byte integer.
pub open spec fn scalar_at(code: TypeCode, b: Seq<u8>, p: int) -> Parsed<ValueModel> {
    match code {
        TypeCode::Boolean => read_as(
            take_i32(b, p),
            |v: i32| ValueModel::Number(Number::Bool(v != 0)),
        ),
        TypeCode::Char => read_as(take_u16(b, p), |v: u16| ValueModel::Char(v)),
        TypeCode::SByte => read_as(
            take_u8(b, p),
            |v: u8|
                ValueModel::Number(
                    Number::Int(
                        if v < 0x80 {
                            v as i64
                        } else {
                            (v - 0x100) as i64
                        },
                    ),
                ),
        ),
        TypeCode::Byte => read_as(
            take_u8(b, p),
            |v: u8| ValueModel::Number(Number::UInt(v as u64)),
        ),
        TypeCode::Int16 => read_as(
            take_i16(b, p),
            |v: i16| ValueModel::Number(Number::Int(v as i64)),
        ),
        TypeCode::UInt16 => read_as(
            take_u16(b, p),
            |v: u16| ValueModel::Number(Number::UInt(v as u64)),
        ),
        TypeCode::Int32 => read_as(
            take_i32(b, p),
            |v: i32| ValueModel::Number(Number::Int(v as i64)),
        ),
        TypeCode::UInt32 => read_as(
            take_u32(b, p),
            |v: u32| ValueModel::Number(Number::UInt(v as u64)),
        ),
        TypeCode::Int64 => read_as(take_i64(b, p), |v: i64| ValueModel::Number(Number::Int(v))),
        TypeCode::UInt64 => read_as(take_u64(b, p), |v: u64| ValueModel::Number(Number::UInt(v))),
        TypeCode::Single => read_as(
            take_u32(b, p),
            |v: u32| ValueModel::Number(Number::Single(v)),
        ),
        TypeCode::Double => read_as(
            take_u64(b, p),
            |v: u64| ValueModel::Number(Number::Double(v)),
        ),
        TypeCode::Decimal => read_as(
            take_bytes(b, p, 16, "decimal"@),
            |v: Seq<u8>| ValueModel::Decimal(v),
        ),
        TypeCode::DateTime => read_as(
            take_parts(b, p, 8),
            |v: Seq<i16>| ValueModel::DateTime(v),
        ),
        TypeCode::Guid => read_as(
            take_bytes(b, p, 16, "guid"@),
            |v: Seq<u8>| ValueModel::Guid(v),
        ),
        TypeCode::String => read_as(
            take_utf16_nul_string(b, p),
            |v: Seq<char>| ValueModel::Text(v),
        ),
        TypeCode::Object => bad(
            Fault::Unexpected { what: "scalar field type"@, got: "Object"@ },
            p,
        ),
        TypeCode::Array => bad(
            Fault::Unexpected { what: "scalar field type"@, got: "Array"@ },
            p,
        ),
    }
}

/// A value of any type. An object inside an array comes out as the array of its values.
pub open spec fn value_at(ty: TypeModel, b: Seq<u8>, p: int) -> Parsed<ValueModel>
    decreases ty, 0nat,
{
    match ty {
        TypeModel::Scalar(code) => scalar_at(code, b, p),
        TypeModel::Array(element) => {
            let count = take_u16(b, p);
            match count.result {
                Err(f) => bad(f, count.pos),
                Ok(n) => {
                    let values = elements_at(*element, b, count.pos, n as nat);
                    match values.result {
                        Err(f) => bad(f, values.pos),
                        Ok(vs) => good(ValueModel::Array(vs), values.pos),
                    }
                },
            }
        },
        TypeModel::Object(children) => {
            let nested = fields_at(children, 0, b, p, Entries::empty());
            match nested.result {
                Err(f) => bad(f, nested.pos),
                Ok(entries) => good(ValueModel::Array(values_of(entries)), nested.pos),
            }
        },
        // Nothing says how many bytes an unmodelled type occupies, so everything after it would be
        // misaligned.
        TypeModel::Unknown(code) => bad(
            Fault::Unexpected {
                what: "payload field type"@,
                got: signed_decimal(code as int),
            },
            p,
        ),
    }
}

/// The values of named values.
pub open spec fn values_of(entries: Entries) -> Seq<ValueModel> {
    Seq::new(entries.len(), |i: int| entries[i].1)
}

/// `n` values of one type.
pub open spec fn elements_at(
    element: TypeModel,
    b: Seq<u8>,
    p: int,
    n: nat,
) -> Parsed<Seq<ValueModel>>
    decreases element, n,
{
    if n == 0 {
        good(Seq::empty(), p)
    } else {
        let first = value_at(element, b, p);
        match first.result {
            Err(f) => bad(f, first.pos),
            Ok(v) => {
                let rest = elements_at(element, b, first.pos, (n - 1) as nat);
                match rest.result {
                    Err(f) => bad(f, rest.pos),
                    Ok(vs) => good(seq![v] + vs, rest.pos),
                }
            },
        }
    }
}

/// The fields from `i` on, added to `out`. A nested struct has no bytes of its own: its fields
/// stand in its place.
pub open spec fn fields_at(
    fields: Seq<FieldModel>,
    i: int,
    b: Seq<u8>,
    p: int,
    out: Entries,
) -> Parsed<Entries>
    decreases fields, fields.len() - i,
    when i >= 0
{
    if i >= fields.len() {
        good(out, p)
    } else {
        match fields[i].ty {
            TypeModel::Object(children) => {
                let inner = fields_at(children, 0, b, p, out);
                match inner.result {
                    Err(f) => bad(f, inner.pos),
                    Ok(entries) => fields_at(fields, i + 1, b, inner.pos, entries),
                }
            },
            ty => {
                let value = value_at(ty, b, p);
                match value.result {
                    Err(f) => bad(f, value.pos),
                    Ok(v) => fields_at(fields, i + 1, b, value.pos, put(out, fields[i].name, v)),
                }
            },
        }
    }
}

/// A payload flattened into named values.
pub open spec fn flat(
    fields: Seq<FieldModel>,
    payload: Seq<u8>,
) -> core::result::Result<Entries, Fault> {
    fields_at(fields, 0, payload, 0, Entries::empty()).result
}

fn read_parts(r: &mut Reader<'_>) -> (parts: Result<[i16; 8]>)
    requires
        old(r).wf(),
    ensures
        final(r).wf(),
        ({
            let want = take_parts(old(r)@.bytes, old(r)@.pos, 8);
            &&& match (parts, want.result) {
                (Ok(a), Ok(s)) => a@ == s,
                (Err(e), Err(f)) => e@ == f,
                _ => false,
            }
            &&& final(r)@ == old(r)@.moved_to(want.pos)
        }),
{
    let mut parts: [i16; 8] = [0i16; 8];
    let ghost b = r@.bytes;
    let ghost start = r@.pos;
    let mut i: usize = 0;
    while i < 8
        invariant
            i <= 8,
            r.wf(),
            r@.bytes == b,
            b == old(r)@.bytes,
            start == old(r)@.pos,
            ({
                let whole = take_parts(b, start, 8);
                let rest = take_parts(b, r@.pos, (8 - i) as nat);
                &&& whole.pos == rest.pos
                &&& match rest.result {
                    Ok(s) => whole.result == Ok::<Seq<i16>, Fault>(parts@.take(i as int) + s),
                    Err(f) => whole.result == Err::<Seq<i16>, Fault>(f),
                }
            }),
        decreases 8 - i,
    {
        let ghost before = parts@;
        let part: i16 = r.i16()?;
        parts[i] = part;
        proof {
            let rest = take_parts(b, r@.pos, (8 - i - 1) as nat);
            if let Ok(s) = rest.result {
                assert(before.take(i as int) + (seq![part] + s) =~= parts@.take(i + 1) + s);
            }
        }
        i += 1;
    }
    assert(parts@.take(8) + Seq::<i16>::empty() =~= parts@);
    Ok(parts)
}

fn decode_scalar(code: TypeCode, r: &mut Reader<'_>) -> (value: Result<Value>)
    requires
        old(r).wf(),
    ensures
        final(r).wf(),
        ({
            let want = scalar_at(code, old(r)@.bytes, old(r)@.pos);
            says(value, want.result) && final(r)@ == old(r)@.moved_to(want.pos)
        }),
{
    match code {
        // A .NET Boolean on the wire is a 4-byte int, not a single byte.
        TypeCode::Boolean => Ok(Value::Bool(r.i32()? != 0)),
        TypeCode::Char => Ok(Value::Char(r.u16()?)),
        TypeCode::SByte => {
            let v: u8 = r.u8()?;
            if v < 0x80 {
                Ok(Value::Int(v as i64))
            } else {
                Ok(Value::Int(v as i64 - 0x100))
            }
        },
        TypeCode::Byte => Ok(Value::UInt(r.u8()? as u64)),
        TypeCode::Int16 => Ok(Value::Int(r.i16()? as i64)),
        TypeCode::UInt16 => Ok(Value::UInt(r.u16()? as u64)),
        TypeCode::Int32 => Ok(Value::Int(r.i32()? as i64)),
        TypeCode::UInt32 => Ok(Value::UInt(r.u32()? as u64)),
        TypeCode::Int64 => Ok(Value::Int(r.i64()?)),
        TypeCode::UInt64 => Ok(Value::UInt(r.u64()?)),
        TypeCode::Single => Ok(Value::Single(r.u32()?)),
        TypeCode::Double => Ok(Value::Double(r.u64()?)),
        TypeCode::Decimal => Ok(Value::Decimal(sixteen(r.bytes(16, "decimal")?))),
        TypeCode::DateTime => Ok(Value::DateTime(read_parts(r)?)),
        TypeCode::Guid => Ok(Value::Guid(sixteen(r.bytes(16, "guid")?))),
        TypeCode::String => Ok(Value::String(r.utf16_nul_string()?)),
        // Handled by the caller, which has the nested field list.
        TypeCode::Object => Err(
            ParseError::Unexpected { what: "scalar field type", got: "Object".to_owned() },
        ),
        TypeCode::Array => Err(
            ParseError::Unexpected { what: "scalar field type", got: "Array".to_owned() },
        ),
    }
}

fn decode_value(ty: &FieldType, r: &mut Reader<'_>) -> (value: Result<Value>)
    requires
        old(r).wf(),
    ensures
        final(r).wf(),
        ({
            let want = value_at(ty.model(), old(r)@.bytes, old(r)@.pos);
            says(value, want.result) && final(r)@ == old(r)@.moved_to(want.pos)
        }),
    decreases ty, 0nat,
{
    match ty {
        FieldType::Scalar(code) => decode_scalar(*code, r),
        FieldType::Array(element) => {
            // Arrays are length-prefixed with a u16 count.
            let count: u16 = r.u16()?;
            let ghost b = r@.bytes;
            let ghost start = r@.pos;
            let ghost model = (*element).model();
            let mut values: Vec<Value> = Vec::new();
            let mut i: u16 = 0;
            while i < count
                invariant
                    i <= count,
                    r.wf(),
                    r@.bytes == b,
                    b == old(r)@.bytes,
                    start == old(r)@.pos + 2,
                    b.len() - old(r)@.pos >= 2,
                    count == crate::bytes::u16_at(b, old(r)@.pos),
                    *ty == FieldType::Array(*element),
                    model == (*element).model(),
                    ({
                        let whole = elements_at(model, b, start, count as nat);
                        let rest = elements_at(model, b, r@.pos, (count - i) as nat);
                        &&& whole.pos == rest.pos
                        &&& match rest.result {
                            Ok(vs) => whole.result == Ok::<Seq<ValueModel>, Fault>(
                                value_models(values@) + vs,
                            ),
                            Err(f) => whole.result == Err::<Seq<ValueModel>, Fault>(f),
                        }
                    }),
                decreases count - i,
            {
                let ghost before = values@;
                let value = decode_value(element, r)?;
                proof {
                    value_models_push(before, value);
                    let rest = elements_at(model, b, r@.pos, (count - i - 1) as nat);
                    if let Ok(vs) = rest.result {
                        assert(value_models(before) + (seq![value.model()] + vs)
                            =~= value_models(before).push(value.model()) + vs);
                    }
                }
                values.push(value);
                i += 1;
            }
            assert(value_models(values@) + Seq::<ValueModel>::empty() =~= value_models(values@));
            Ok(Value::Array(values))
        },
        FieldType::Object(children) => {
            // Only reached for an object nested inside an array element. It is represented as an
            // array of its values; silently dropping bytes would be worse.
            let mut nested = FlatPayload::new();
            decode_into(children.as_slice(), r, &mut nested)?;
            Ok(Value::Array(nested.into_values()))
        },
        FieldType::Unknown(code) => Err(
            ParseError::Unexpected { what: "payload field type", got: to_decimal(*code as i64) },
        ),
    }
}

fn decode_into(fields: &[Field], r: &mut Reader<'_>, out: &mut FlatPayload) -> (done: Result<()>)
    requires
        old(r).wf(),
        old(out).wf(),
    ensures
        final(r).wf(),
        final(out).wf(),
        ({
            let want = fields_at(
                field_models(fields@),
                0,
                old(r)@.bytes,
                old(r)@.pos,
                old(out)@,
            );
            &&& match (done, want.result) {
                (Ok(_), Ok(entries)) => final(out)@ == entries,
                (Err(e), Err(f)) => e@ == f,
                _ => false,
            }
            &&& final(r)@ == old(r)@.moved_to(want.pos)
        }),
    decreases fields@, 1nat,
{
    let ghost models = field_models(fields@);
    let ghost b = r@.bytes;
    proof {
        field_models_index(fields@);
    }
    let mut i: usize = 0;
    while i < fields.len()
        invariant
            i <= fields@.len(),
            r.wf(),
            out.wf(),
            r@.bytes == b,
            b == old(r)@.bytes,
            models == field_models(fields@),
            models.len() == fields@.len(),
            forall|k: int|
                0 <= k < fields@.len() ==> (#[trigger] models[k]) == (FieldModel {
                    name: fields@[k].name@,
                    ty: fields@[k].ty.model(),
                }),
            fields_at(models, 0, b, old(r)@.pos, old(out)@) == fields_at(
                models,
                i as int,
                b,
                r@.pos,
                out@,
            ),
        decreases fields@.len() - i,
    {
        let field = &fields[i];
        assert(models[i as int].ty == field.ty.model());
        match &field.ty {
            // A struct level: no bytes of its own, just keep going.
            FieldType::Object(children) => {
                decode_into(children.as_slice(), r, out)?;
            },
            ty => {
                let value = decode_value(ty, r)?;
                out.insert(field.name.clone(), value);
            },
        }
        i += 1;
    }
    Ok(())
}

/// Decode a payload into named values.
///
/// Nested `Object` levels are flattened away: EventCounters wraps its fields in two anonymous
/// struct levels, and the leaf names are unique.
pub fn decode_flat(fields: &[Field], payload: &[u8]) -> (decoded: Result<FlatPayload>)
    ensures
        match (decoded, flat(field_models(fields@), payload@)) {
            (Ok(out), Ok(entries)) => out.wf() && out@ == entries,
            (Err(e), Err(f)) => e@ == f,
            _ => false,
        },
{
    let mut out = FlatPayload::new();
    let mut r = Reader::new(payload);
    decode_into(fields, &mut r, &mut out)?;
    Ok(out)
}

} // verus!
