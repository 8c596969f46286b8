//! Little-endian integers inside byte sequences.
use vstd::prelude::*;

verus! {

/// The 16-bit value stored at `p`.
pub open spec fn u16_at(b: Seq<u8>, p: int) -> u16 {
    (b[p] + 0x100 * b[p + 1]) as u16
}

/// The 32-bit value stored at `p`.
pub open spec fn u32_at(b: Seq<u8>, p: int) -> u32 {
    (b[p] + 0x100 * b[p + 1] + 0x1_0000 * b[p + 2] + 0x100_0000 * b[p + 3]) as u32
}

/// The 64-bit value stored at `p`.
pub open spec fn u64_at(b: Seq<u8>, p: int) -> u64 {
    (u32_at(b, p) + 0x1_0000_0000 * u32_at(b, p + 4)) as u64
}

/// The signed reading of 16 bits.
pub open spec fn signed16(v: u16) -> i16 {
    if v < 0x8000 {
        v as i16
    } else {
        (v - 0x1_0000) as i16
    }
}

/// The signed reading of 32 bits.
pub open spec fn signed32(v: u32) -> i32 {
    if v < 0x8000_0000 {
        v as i32
    } else {
        (v - 0x1_0000_0000) as i32
    }
}

/// The signed reading of 64 bits.
pub open spec fn signed64(v: u64) -> i64 {
    if v < 0x8000_0000_0000_0000 {
        v as i64
    } else {
        (v - 0x1_0000_0000_0000_0000) as i64
    }
}

/// A 16-bit value as stored.
pub open spec fn u16_bytes(v: u16) -> Seq<u8> {
    seq![(v % 0x100) as u8, (v / 0x100) as u8]
}

/// A 32-bit value as stored.
pub open spec fn u32_bytes(v: u32) -> Seq<u8> {
    seq![
        (v % 0x100) as u8,
        (v / 0x100 % 0x100) as u8,
        (v / 0x1_0000 % 0x100) as u8,
        (v / 0x100_0000) as u8,
    ]
}

/// A 64-bit value as stored.
pub open spec fn u64_bytes(v: u64) -> Seq<u8> {
    u32_bytes((v % 0x1_0000_0000) as u32) + u32_bytes((v / 0x1_0000_0000) as u32)
}

pub fn to_signed16(v: u16) -> (r: i16)
    ensures
        r == signed16(v),
{
    if v < 0x8000 {
        v as i16
    } else {
        (v as i32 - 0x1_0000) as i16
    }
}

pub fn to_signed32(v: u32) -> (r: i32)
    ensures
        r == signed32(v),
{
    if v < 0x8000_0000 {
        v as i32
    } else {
        (v as i64 - 0x1_0000_0000) as i32
    }
}

pub fn to_signed64(v: u64) -> (r: i64)
    ensures
        r == signed64(v),
{
    if v < 0x8000_0000_0000_0000 {
        v as i64
    } else {
        (v as i128 - 0x1_0000_0000_0000_0000) as i64
    }
}

pub fn load_u16(b: &[u8], p: usize) -> (v: u16)
    requires
        p + 2 <= b@.len(),
    ensures
        v == u16_at(b@, p as int),
{
    b[p] as u16 + 0x100 * (b[p + 1] as u16)
}

pub fn load_u32(b: &[u8], p: usize) -> (v: u32)
    requires
        p + 4 <= b@.len(),
    ensures
        v == u32_at(b@, p as int),
{
    b[p] as u32 + 0x100 * (b[p + 1] as u32) + 0x1_0000 * (b[p + 2] as u32) + 0x100_0000 * (b[p
        + 3] as u32)
}

pub fn load_u64(b: &[u8], p: usize) -> (v: u64)
    requires
        p + 8 <= b@.len(),
    ensures
        v == u64_at(b@, p as int),
{
    assert(p + 8 <= b.len());
    load_u32(b, p) as u64 + 0x1_0000_0000 * (load_u32(b, p + 4) as u64)
}

pub fn store_u16(out: &mut Vec<u8>, v: u16)
    ensures
        final(out)@ == old(out)@ + u16_bytes(v),
{
    let ghost before = out@;
    out.push((v % 0x100) as u8);
    out.push((v / 0x100) as u8);
    assert(out@ =~= before + u16_bytes(v));
}

pub fn store_u32(out: &mut Vec<u8>, v: u32)
    ensures
        final(out)@ == old(out)@ + u32_bytes(v),
{
    let ghost before = out@;
    out.push((v % 0x100) as u8);
    out.push((v / 0x100 % 0x100) as u8);
    out.push((v / 0x1_0000 % 0x100) as u8);
    out.push((v / 0x100_0000) as u8);
    assert(out@ =~= before + u32_bytes(v));
}

pub fn store_u64(out: &mut Vec<u8>, v: u64)
    ensures
        final(out)@ == old(out)@ + u64_bytes(v),
{
    let ghost before = out@;
    store_u32(out, (v % 0x1_0000_0000) as u32);
    store_u32(out, (v / 0x1_0000_0000) as u32);
    assert(out@ =~= before + u64_bytes(v));
}

/// Appends a run of bytes.
pub fn store_bytes(out: &mut Vec<u8>, b: &[u8])
    ensures
        final(out)@ == old(out)@ + b@,
{
    let ghost before = out@;
    let mut i: usize = 0;
    while i < b.len()
        invariant
            i <= b.len(),
            out@ == before + b@.take(i as int),
        decreases b.len() - i,
    {
        out.push(b[i]);
        assert(b@.take(i + 1) =~= b@.take(i as int).push(b@[i as int]));
        assert(out@ =~= before + b@.take(i + 1));
        i += 1;
    }
    assert(b@.take(b@.len() as int) =~= b@);
}

/// Whether two runs of bytes are the same.
pub fn same_bytes(a: &[u8], b: &[u8]) -> (same: bool)
    ensures
        same == (a@ == b@),
{
    if a.len() != b.len() {
        return false;
    }
    let mut i: usize = 0;
    while i < a.len()
        invariant
            i <= a.len(),
            a.len() == b.len(),
            forall|k: int| 0 <= k < i ==> a@[k] == b@[k],
        decreases a.len() - i,
    {
        if a[i] != b[i] {
            return false;
        }
        i += 1;
    }
    assert(a@ =~= b@);
    true
}

/// A stored value reads back as itself, wherever it stands.
pub proof fn u16_round_trip(front: Seq<u8>, v: u16, back: Seq<u8>)
    ensures
        u16_at(front + u16_bytes(v) + back, front.len() as int) == v,
{
    let all = front + u16_bytes(v) + back;
    let p = front.len() as int;
    assert(all[p] == u16_bytes(v)[0]);
    assert(all[p + 1] == u16_bytes(v)[1]);
}

/// A stored value reads back as itself, wherever it stands.
pub proof fn u32_round_trip(front: Seq<u8>, v: u32, back: Seq<u8>)
    ensures
        u32_at(front + u32_bytes(v) + back, front.len() as int) == v,
{
    let all = front + u32_bytes(v) + back;
    let p = front.len() as int;
    assert(all[p] == u32_bytes(v)[0]);
    assert(all[p + 1] == u32_bytes(v)[1]);
    assert(all[p + 2] == u32_bytes(v)[2]);
    assert(all[p + 3] == u32_bytes(v)[3]);
}

/// A stored value reads back as itself, wherever it stands.
pub proof fn u64_round_trip(front: Seq<u8>, v: u64, back: Seq<u8>)
    ensures
        u64_at(front + u64_bytes(v) + back, front.len() as int) == v,
{
    let all = front + u64_bytes(v) + back;
    let low = (v % 0x1_0000_0000) as u32;
    let high = (v / 0x1_0000_0000) as u32;
    assert(all =~= front + u32_bytes(low) + (u32_bytes(high) + back));
    assert(all =~= (front + u32_bytes(low)) + u32_bytes(high) + back);
    u32_round_trip(front, low, u32_bytes(high) + back);
    u32_round_trip(front + u32_bytes(low), high, back);
}

/// Whether a run of bytes stands at `p`.
pub open spec fn holds(b: Seq<u8>, p: int, part: Seq<u8>) -> bool {
    &&& 0 <= p
    &&& p + part.len() <= b.len()
    &&& b.subrange(p, p + part.len()) == part
}

/// A buffer holds itself.
pub proof fn whole_is_held(b: Seq<u8>)
    ensures
        holds(b, 0, b),
{
    assert(b.subrange(0, b.len() as int) =~= b);
}

/// A buffer is what stands before a run that it holds, the run, and what stands behind it.
pub proof fn held_is_between(b: Seq<u8>, p: int, part: Seq<u8>)
    requires
        holds(b, p, part),
    ensures
        b == b.take(p) + part + b.skip((p + part.len()) as int),
        b.take(p).len() == p,
{
    let part_here = b.subrange(p, p + part.len());
    assert(b =~= b.take(p) + part_here + b.skip((p + part.len()) as int));
}

/// What a buffer holds, a longer one that starts or ends with it holds too.
pub proof fn held_in_longer(front: Seq<u8>, b: Seq<u8>, back: Seq<u8>, p: int, part: Seq<u8>)
    requires
        holds(b, p, part),
    ensures
        holds(front + b + back, front.len() + p, part),
{
    let all = front + b + back;
    let q = front.len() + p;
    assert(all.subrange(q, q + part.len()) =~= b.subrange(p, p + part.len()));
}

/// A value that a buffer holds is the one that is read there.
pub proof fn held_u32(b: Seq<u8>, p: int, v: u32)
    requires
        holds(b, p, u32_bytes(v)),
    ensures
        u32_at(b, p) == v,
        p + 4 <= b.len(),
{
    held_is_between(b, p, u32_bytes(v));
    u32_round_trip(b.take(p), v, b.skip(p + 4));
}

/// A value that a buffer holds is the one that is read there.
pub proof fn held_u64(b: Seq<u8>, p: int, v: u64)
    requires
        holds(b, p, u64_bytes(v)),
    ensures
        u64_at(b, p) == v,
        p + 8 <= b.len(),
{
    held_is_between(b, p, u64_bytes(v));
    u64_round_trip(b.take(p), v, b.skip(p + 8));
}

/// Values are stored with their lowest byte first.
pub proof fn lowest_bytes_come_first(b: Seq<u8>, p: int)
    ensures
        u16_at(b, p) % 0x100 == b[p],
        u16_at(b, p) / 0x100 == b[p + 1],
        u32_at(b, p) % 0x1_0000 == u16_at(b, p),
        u32_at(b, p) / 0x1_0000 == u16_at(b, p + 2),
        u64_at(b, p) % 0x1_0000_0000 == u32_at(b, p),
        u64_at(b, p) / 0x1_0000_0000 == u32_at(b, p + 4),
{
}

/// A signed reading keeps the bits: it is the value itself, or less by all that the bits can count,
/// and it is negative if and only if the highest bit is set.
pub proof fn signs_are_twos_complement(a: u16, b: u32, c: u64)
    ensures
        signed16(a) == a || signed16(a) == a - 0x1_0000,
        signed16(a) < 0 <==> a >= 0x8000,
        signed32(b) == b || signed32(b) == b - 0x1_0000_0000,
        signed32(b) < 0 <==> b >= 0x8000_0000,
        signed64(c) == c || signed64(c) == c - 0x1_0000_0000_0000_0000,
        signed64(c) < 0 <==> c >= 0x8000_0000_0000_0000,
{
}

} // verus!
