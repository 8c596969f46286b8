//! Decoders for `Microsoft-Windows-DotNETRuntime` events.
//!
//! This provider is manifest-based rather than EventSource-based, which changes everything about
//! how it is read: **no event names and no field lists arrive on the wire**, only a numeric event
//! id and version. The metadata-driven decoding used for counters cannot work here, so each
//! event's layout is fixed and keyed on `(id, version)`.
use vstd::prelude::*;

use crate::bytes::{load_u32, load_u64, u32_at, u64_at};
use crate::nettrace::metadata::units_advance;
use crate::nettrace::reader::{take_utf16_nul_string, Reader};
use crate::text::{decimal, push_decimal};

pub mod event_id;
pub mod keyword;

verus! {

/// Provider name for the runtime's manifest-based events.
pub const RUNTIME_PROVIDER: &'static str = "Microsoft-Windows-DotNETRuntime";

/// Why the runtime decided to collect. The field that answers "what caused this GC".
#[derive(Debug, Clone, Copy, PartialEq, Eq, Structural)]
pub enum GcReason {
    AllocSmall,
    Induced,
    LowMemory,
    Empty,
    AllocLarge,
    OutOfSpaceSoh,
    OutOfSpaceLoh,
    InducedNotForced,
    Internal,
    InducedLowMemory,
    InducedCompacting,
    LowMemoryHost,
    PmFullGc,
    LowMemoryHostBlocking,
    Unknown(u32),
}

impl GcReason {
    /// The reason a number stands for.
    pub open spec fn numbered(value: u32) -> GcReason {
        if value == 0 {
            GcReason::AllocSmall
        } else if value == 1 {
            GcReason::Induced
        } else if value == 2 {
            GcReason::LowMemory
        } else if value == 3 {
            GcReason::Empty
        } else if value == 4 {
            GcReason::AllocLarge
        } else if value == 5 {
            GcReason::OutOfSpaceSoh
        } else if value == 6 {
            GcReason::OutOfSpaceLoh
        } else if value == 7 {
            GcReason::InducedNotForced
        } else if value == 8 {
            GcReason::Internal
        } else if value == 9 {
            GcReason::InducedLowMemory
        } else if value == 10 {
            GcReason::InducedCompacting
        } else if value == 11 {
            GcReason::LowMemoryHost
        } else if value == 12 {
            GcReason::PmFullGc
        } else if value == 13 {
            GcReason::LowMemoryHostBlocking
        } else {
            GcReason::Unknown(value)
        }
    }

    pub fn from_u32(value: u32) -> (reason: Self)
        ensures
            reason == GcReason::numbered(value),
    {
        match value {
            0 => GcReason::AllocSmall,
            1 => GcReason::Induced,
            2 => GcReason::LowMemory,
            3 => GcReason::Empty,
            4 => GcReason::AllocLarge,
            5 => GcReason::OutOfSpaceSoh,
            6 => GcReason::OutOfSpaceLoh,
            7 => GcReason::InducedNotForced,
            8 => GcReason::Internal,
            9 => GcReason::InducedLowMemory,
            10 => GcReason::InducedCompacting,
            11 => GcReason::LowMemoryHost,
            12 => GcReason::PmFullGc,
            13 => GcReason::LowMemoryHostBlocking,
            other => GcReason::Unknown(other),
        }
    }

    /// The reason in a few words.
    pub open spec fn words(self) -> Seq<char> {
        match self {
            GcReason::AllocSmall => "small alloc"@,
            GcReason::Induced => "induced"@,
            GcReason::LowMemory => "low memory"@,
            GcReason::Empty => "empty"@,
            GcReason::AllocLarge => "large alloc"@,
            GcReason::OutOfSpaceSoh => "SOH full"@,
            GcReason::OutOfSpaceLoh => "LOH full"@,
            GcReason::InducedNotForced => "induced (soft)"@,
            GcReason::Internal => "internal"@,
            GcReason::InducedLowMemory => "induced, low mem"@,
            GcReason::InducedCompacting => "induced compact"@,
            GcReason::LowMemoryHost => "host low memory"@,
            GcReason::PmFullGc => "provisional full"@,
            GcReason::LowMemoryHostBlocking => "host low mem (block)"@,
            GcReason::Unknown(v) => "reason "@ + decimal(v as nat),
        }
    }

    /// Short label for the dashboard.
    pub fn label(self) -> (s: String)
        ensures
            s@ == self.words(),
    {
        match self {
            GcReason::AllocSmall => "small alloc".to_owned(),
            GcReason::Induced => "induced".to_owned(),
            GcReason::LowMemory => "low memory".to_owned(),
            GcReason::Empty => "empty".to_owned(),
            GcReason::AllocLarge => "large alloc".to_owned(),
            GcReason::OutOfSpaceSoh => "SOH full".to_owned(),
            GcReason::OutOfSpaceLoh => "LOH full".to_owned(),
            GcReason::InducedNotForced => "induced (soft)".to_owned(),
            GcReason::Internal => "internal".to_owned(),
            GcReason::InducedLowMemory => "induced, low mem".to_owned(),
            GcReason::InducedCompacting => "induced compact".to_owned(),
            GcReason::LowMemoryHost => "host low memory".to_owned(),
            GcReason::PmFullGc => "provisional full".to_owned(),
            GcReason::LowMemoryHostBlocking => "host low mem (block)".to_owned(),
            GcReason::Unknown(v) => {
                let mut s = "reason ".to_owned();
                push_decimal(&mut s, v as u64);
                s
            },
        }
    }

    /// Memory pressure, as against routine collection.
    pub open spec fn under_pressure(self) -> bool {
        self == GcReason::LowMemory || self == GcReason::OutOfSpaceSoh || self
            == GcReason::OutOfSpaceLoh || self == GcReason::InducedLowMemory || self
            == GcReason::LowMemoryHost || self == GcReason::LowMemoryHostBlocking
    }

    /// Whether this reason indicates memory pressure rather than routine collection.
    pub fn is_pressure(self) -> (yes: bool)
        ensures
            yes == self.under_pressure(),
    {
        matches!(
            self,
            GcReason::LowMemory
                | GcReason::OutOfSpaceSoh
                | GcReason::OutOfSpaceLoh
                | GcReason::InducedLowMemory
                | GcReason::LowMemoryHost
                | GcReason::LowMemoryHostBlocking
        )
    }
}

#[derive(Debug, Clone, Copy, PartialEq, Eq, Structural)]
pub enum GcType {
    /// A blocking collection: the application is paused throughout.
    Blocking,
    Background,
    Foreground,
    Unknown(u32),
}

impl GcType {
    /// The type a number stands for.
    pub open spec fn numbered(value: u32) -> GcType {
        if value == 0 {
            GcType::Blocking
        } else if value == 1 {
            GcType::Background
        } else if value == 2 {
            GcType::Foreground
        } else {
            GcType::Unknown(value)
        }
    }

    pub fn from_u32(value: u32) -> (t: Self)
        ensures
            t == GcType::numbered(value),
    {
        match value {
            0 => GcType::Blocking,
            1 => GcType::Background,
            2 => GcType::Foreground,
            other => GcType::Unknown(other),
        }
    }

    pub fn label(self) -> (s: &'static str)
        ensures
            s@ == (match self {
                GcType::Blocking => "blocking"@,
                GcType::Background => "background"@,
                GcType::Foreground => "foreground"@,
                GcType::Unknown(_) => "?"@,
            }),
    {
        match self {
            GcType::Blocking => "blocking",
            GcType::Background => "background",
            GcType::Foreground => "foreground",
            GcType::Unknown(_) => "?",
        }
    }
}

/// Which heap an allocation landed on.
#[derive(Debug, Clone, Copy, PartialEq, Eq, Structural)]
pub enum AllocationKind {
    Small,
    Large,
    Pinned,
    Unknown(u32),
}

impl AllocationKind {
    /// The heap a number stands for.
    pub open spec fn numbered(value: u32) -> AllocationKind {
        if value == 0 {
            AllocationKind::Small
        } else if value == 1 {
            AllocationKind::Large
        } else if value == 2 {
            AllocationKind::Pinned
        } else {
            AllocationKind::Unknown(value)
        }
    }

    pub fn from_u32(value: u32) -> (kind: Self)
        ensures
            kind == AllocationKind::numbered(value),
    {
        match value {
            0 => AllocationKind::Small,
            1 => AllocationKind::Large,
            2 => AllocationKind::Pinned,
            other => AllocationKind::Unknown(other),
        }
    }

    pub fn label(self) -> (s: &'static str)
        ensures
            s@ == (match self {
                AllocationKind::Small => "SOH"@,
                AllocationKind::Large => "LOH"@,
                AllocationKind::Pinned => "POH"@,
                AllocationKind::Unknown(_) => "?"@,
            }),
    {
        match self {
            AllocationKind::Small => "SOH",
            AllocationKind::Large => "LOH",
            AllocationKind::Pinned => "POH",
            AllocationKind::Unknown(_) => "?",
        }
    }
}

#[derive(Debug, Clone, Copy, PartialEq, Eq, Structural)]
pub struct GcStart {
    /// Collection number, monotonically increasing.
    pub count: u32,
    /// Generation being collected.
    pub depth: u32,
    pub reason: GcReason,
    pub gc_type: GcType,
}

#[derive(Debug, Clone, Copy, PartialEq, Eq, Structural)]
pub struct GcEnd {
    pub count: u32,
    pub depth: u32,
}

/// Bytes that *survived* a collection, per generation. Promotion is the interesting half: a
/// generation that keeps promoting is what drives collections up the generations.
#[derive(Debug, Clone, Copy, PartialEq, Eq, Structural)]
pub struct GcHeapStats {
    pub gen0_size: u64,
    pub gen0_promoted: u64,
    pub gen1_size: u64,
    pub gen1_promoted: u64,
    pub gen2_size: u64,
    pub gen2_promoted: u64,
    pub loh_size: u64,
    pub loh_promoted: u64,
    pub finalization_promoted_size: u64,
    pub finalization_promoted_count: u64,
    pub pinned_object_count: u32,
    pub sink_block_count: u32,
    pub gc_handle_count: u32,
}

pub open spec fn blank_heap_stats() -> GcHeapStats {
    GcHeapStats {
        gen0_size: 0,
        gen0_promoted: 0,
        gen1_size: 0,
        gen1_promoted: 0,
        gen2_size: 0,
        gen2_promoted: 0,
        loh_size: 0,
        loh_promoted: 0,
        finalization_promoted_size: 0,
        finalization_promoted_count: 0,
        pinned_object_count: 0,
        sink_block_count: 0,
        gc_handle_count: 0,
    }
}

impl Default for GcHeapStats {
    fn default() -> (s: Self)
        ensures
            s == blank_heap_stats(),
    {
        GcHeapStats {
            gen0_size: 0,
            gen0_promoted: 0,
            gen1_size: 0,
            gen1_promoted: 0,
            gen2_size: 0,
            gen2_promoted: 0,
            loh_size: 0,
            loh_promoted: 0,
            finalization_promoted_size: 0,
            finalization_promoted_count: 0,
            pinned_object_count: 0,
            sink_block_count: 0,
            gc_handle_count: 0,
        }
    }
}

/// A sampled allocation. The runtime emits one roughly every 100 KB of small-object allocation,
/// and per allocation for large objects, so counts are a sample, but the byte totals are a good
/// estimate of where allocation pressure comes from.
#[derive(Debug, Clone)]
pub struct AllocationTick {
    pub amount: u64,
    pub kind: AllocationKind,
    /// The name of the type that was allocated.
    pub name: String,
    pub object_size: Option<u64>,
}

/// An [`AllocationTick`] over sequences.
pub struct TickModel {
    pub amount: u64,
    pub kind: AllocationKind,
    pub name: Seq<char>,
    pub object_size: Option<u64>,
}

impl View for AllocationTick {
    type V = TickModel;

    open spec fn view(&self) -> TickModel {
        TickModel {
            amount: self.amount,
            kind: self.kind,
            name: self.name@,
            object_size: self.object_size,
        }
    }
}

#[derive(Debug, Clone)]
pub struct ExceptionThrown {
    /// The name of the exception's type.
    pub name: String,
    pub message: String,
}

#[derive(Debug, Clone, Copy, PartialEq, Eq, Structural)]
pub struct ContentionStop {
    /// How long the lock was waited for in nanoseconds: the bits of a 64-bit floating-point
    /// number.
    pub duration_ns: u64,
}

// ---------------------------------------------------------------------------------------------
// Layouts

/// GCStart_V2: `Count:u32, Depth:u32, Reason:u32, Type:u32, ClrInstanceID:u16,
/// ClientSequenceNumber:u64`
pub open spec fn gc_start_in(b: Seq<u8>) -> Option<GcStart> {
    if b.len() < 16 {
        None
    } else {
        Some(
            GcStart {
                count: u32_at(b, 0),
                depth: u32_at(b, 4),
                reason: GcReason::numbered(u32_at(b, 8)),
                gc_type: GcType::numbered(u32_at(b, 12)),
            },
        )
    }
}

pub fn decode_gc_start(payload: &[u8]) -> (start: Option<GcStart>)
    ensures
        start == gc_start_in(payload@),
{
    if payload.len() < 16 {
        return None;
    }
    Some(
        GcStart {
            count: load_u32(payload, 0),
            depth: load_u32(payload, 4),
            reason: GcReason::from_u32(load_u32(payload, 8)),
            gc_type: GcType::from_u32(load_u32(payload, 12)),
        },
    )
}

/// GCEnd_V1: `Count:u32, Depth:u32, ClrInstanceID:u16`
pub open spec fn gc_end_in(b: Seq<u8>) -> Option<GcEnd> {
    if b.len() < 8 {
        None
    } else {
        Some(GcEnd { count: u32_at(b, 0), depth: u32_at(b, 4) })
    }
}

pub fn decode_gc_end(payload: &[u8]) -> (end: Option<GcEnd>)
    ensures
        end == gc_end_in(payload@),
{
    if payload.len() < 8 {
        return None;
    }
    Some(GcEnd { count: load_u32(payload, 0), depth: load_u32(payload, 4) })
}

/// GCHeapStats_V1/V2: eight `u64` size/promoted pairs, then finalization and count fields.
/// V2 appends the pinned object heap, which is not needed but must not be misread as something
/// else.
pub open spec fn heap_stats_in(b: Seq<u8>) -> Option<GcHeapStats> {
    if b.len() < 92 {
        None
    } else {
        Some(
            GcHeapStats {
                gen0_size: u64_at(b, 0),
                gen0_promoted: u64_at(b, 8),
                gen1_size: u64_at(b, 16),
                gen1_promoted: u64_at(b, 24),
                gen2_size: u64_at(b, 32),
                gen2_promoted: u64_at(b, 40),
                loh_size: u64_at(b, 48),
                loh_promoted: u64_at(b, 56),
                finalization_promoted_size: u64_at(b, 64),
                finalization_promoted_count: u64_at(b, 72),
                pinned_object_count: u32_at(b, 80),
                sink_block_count: u32_at(b, 84),
                gc_handle_count: u32_at(b, 88),
            },
        )
    }
}

pub fn decode_gc_heap_stats(payload: &[u8]) -> (stats: Option<GcHeapStats>)
    ensures
        stats == heap_stats_in(payload@),
{
    if payload.len() < 92 {
        return None;
    }
    Some(
        GcHeapStats {
            gen0_size: load_u64(payload, 0),
            gen0_promoted: load_u64(payload, 8),
            gen1_size: load_u64(payload, 16),
            gen1_promoted: load_u64(payload, 24),
            gen2_size: load_u64(payload, 32),
            gen2_promoted: load_u64(payload, 40),
            loh_size: load_u64(payload, 48),
            loh_promoted: load_u64(payload, 56),
            finalization_promoted_size: load_u64(payload, 64),
            finalization_promoted_count: load_u64(payload, 72),
            pinned_object_count: load_u32(payload, 80),
            sink_block_count: load_u32(payload, 84),
            gc_handle_count: load_u32(payload, 88),
        },
    )
}

/// GCAllocationTick_V2+: `AllocationAmount:u32, AllocationKind:u32, ClrInstanceID:u16,
/// AllocationAmount64:u64, TypeID:ptr, TypeName:wstr, HeapIndex:u32` then, by version,
/// `Address:ptr` (V3+) and `ObjectSize:u64` (V4+).
///
/// The 64-bit amount is authoritative; the 32-bit one exists for compatibility.
pub open spec fn allocation_tick_in(b: Seq<u8>, pointer_size: int) -> Option<TickModel> {
    if b.len() < 18 + pointer_size {
        None
    } else {
        let name = take_utf16_nul_string(b, 18 + pointer_size);
        match name.result {
            Err(_) => None,
            Ok(s) => if b.len() - name.pos < 4 {
                None
            } else {
                let size_at = name.pos + 4 + pointer_size;
                Some(
                    TickModel {
                        amount: if u64_at(b, 10) > 0 {
                            u64_at(b, 10)
                        } else {
                            u32_at(b, 0) as u64
                        },
                        kind: AllocationKind::numbered(u32_at(b, 4)),
                        name: s,
                        object_size: if b.len() - size_at < 8 {
                            None
                        } else {
                            Some(u64_at(b, size_at))
                        },
                    },
                )
            },
        }
    }
}

/// Decodes an allocation tick. `pointer_size` comes from the trace header: misreading it shifts the
/// type name and yields convincing nonsense.
pub fn decode_allocation_tick(payload: &[u8], pointer_size: usize) -> (tick: Option<
    AllocationTick,
>)
    ensures
        match (tick, allocation_tick_in(payload@, pointer_size as int)) {
            (Some(t), Some(m)) => t@ == m,
            (None, None) => true,
            _ => false,
        },
{
    let mut r = Reader::new(payload);
    let amount32: u32 = match r.u32() {
        Ok(v) => v,
        Err(_) => {
            return None;
        },
    };
    let kind = match r.u32() {
        Ok(v) => AllocationKind::from_u32(v),
        Err(_) => {
            return None;
        },
    };
    if r.skip(2, "ClrInstanceID").is_err() {
        return None;
    }
    let amount64: u64 = match r.u64() {
        Ok(v) => v,
        Err(_) => {
            return None;
        },
    };
    if r.skip(pointer_size, "TypeID").is_err() {
        return None;
    }
    proof {
        units_advance(payload@, r@.pos);
    }
    let name = match r.utf16_nul_string() {
        Ok(s) => s,
        Err(_) => {
            return None;
        },
    };
    if r.skip(4, "HeapIndex").is_err() {
        return None;
    }
    // Trailing fields depend on the event version; absence is normal on older runtimes.
    let object_size = if r.skip(pointer_size, "Address").is_ok() {
        match r.u64() {
            Ok(v) => Some(v),
            Err(_) => None,
        }
    } else {
        None
    };
    Some(
        AllocationTick {
            amount: if amount64 > 0 {
                amount64
            } else {
                amount32 as u64
            },
            kind,
            name,
            object_size,
        },
    )
}

/// ExceptionThrown_V1: `ExceptionType:wstr, ExceptionMessage:wstr, ExceptionEIP:ptr,
/// ExceptionHRESULT:u32, ExceptionFlags:u16, ClrInstanceID:u16`
pub open spec fn exception_in(b: Seq<u8>) -> Option<(Seq<char>, Seq<char>)> {
    let name = take_utf16_nul_string(b, 0);
    let message = take_utf16_nul_string(b, name.pos);
    match (name.result, message.result) {
        (Ok(n), Ok(m)) => Some((n, m)),
        _ => None,
    }
}

pub fn decode_exception_thrown(payload: &[u8]) -> (thrown: Option<ExceptionThrown>)
    ensures
        match (thrown, exception_in(payload@)) {
            (Some(t), Some((n, m))) => t.name@ == n && t.message@ == m,
            (None, None) => true,
            _ => false,
        },
{
    let mut r = Reader::new(payload);
    let name = match r.utf16_nul_string() {
        Ok(s) => s,
        Err(_) => {
            return None;
        },
    };
    match r.utf16_nul_string() {
        Ok(message) => Some(ExceptionThrown { name, message }),
        Err(_) => None,
    }
}

/// ContentionStop_V1: `ContentionFlags:u8, ClrInstanceID:u16, DurationNs:double`
pub open spec fn contention_stop_in(b: Seq<u8>) -> Option<ContentionStop> {
    if b.len() < 11 {
        None
    } else {
        Some(ContentionStop { duration_ns: u64_at(b, 3) })
    }
}

pub fn decode_contention_stop(payload: &[u8]) -> (stop: Option<ContentionStop>)
    ensures
        stop == contention_stop_in(payload@),
{
    if payload.len() < 11 {
        return None;
    }
    Some(ContentionStop { duration_ns: load_u64(payload, 3) })
}

} // verus!
