//! How the runtime writes its events down, and what is read back of them.
use vstd::prelude::*;

use super::events::{AllocationKind, ContentionStop, GcHeapStats, GcReason, GcStart, GcType};
use super::session::{event_in, runtime_event, RuntimeEventModel};
use crate::bytes::{held_is_between, held_u32, held_u64, holds, u32_at, u32_bytes, u64_at, u64_bytes};
use crate::nettrace::blocks::{EventModel, TraceModel};
use crate::nettrace::metadata::MetadataModel;
use crate::nettrace::reader::{utf16_nul_round_trip, wide_bytes};
use crate::text::{decimal, utf16_of};

verus! {

/// A text in UTF-16, with the zero that ends it.
pub open spec fn wide(s: Seq<char>) -> Seq<u8> {
    wide_bytes(utf16_of(s))
}

/// An exception is written as the name of its type and its message, in this order, with a zero
/// behind each, and whatever follows. It reads back as that name and that message.
pub proof fn exceptions_read_back(
    name: Seq<char>,
    message: Seq<char>,
    tail: Seq<u8>,
    timestamp: u64,
    width: int,
)
    requires
        !name.contains('\0'),
        !message.contains('\0'),
    ensures
        event_in(80, wide(name) + wide(message) + tail, timestamp, width) == Some(
            RuntimeEventModel::Exception { name, message },
        ),
{
    let b = wide(name) + wide(message) + tail;
    assert(b =~= Seq::<u8>::empty() + wide(name) + (wide(message) + tail));
    utf16_nul_round_trip(Seq::empty(), name, wide(message) + tail);
    utf16_nul_round_trip(wide(name), message, tail);
}

/// The start of a collection is written as four numbers, and whatever follows. A payload that is
/// too short for them says nothing.
pub proof fn starts_read_back(
    b: Seq<u8>,
    count: u32,
    depth: u32,
    reason: u32,
    gc_type: u32,
    timestamp: u64,
    width: int,
)
    ensures
        holds(b, 0, u32_bytes(count)) && holds(b, 4, u32_bytes(depth)) && holds(
            b,
            8,
            u32_bytes(reason),
        ) && holds(b, 12, u32_bytes(gc_type)) ==> event_in(1, b, timestamp, width) == Some(
            RuntimeEventModel::GcStart(
                GcStart {
                    count,
                    depth,
                    reason: GcReason::numbered(reason),
                    gc_type: GcType::numbered(gc_type),
                },
            ),
        ),
        b.len() < 16 ==> event_in(1, b, timestamp, width) is None,
{
    if holds(b, 0, u32_bytes(count)) && holds(b, 4, u32_bytes(depth)) && holds(
        b,
        8,
        u32_bytes(reason),
    ) && holds(b, 12, u32_bytes(gc_type)) {
        held_u32(b, 0, count);
        held_u32(b, 4, depth);
        held_u32(b, 8, reason);
        held_u32(b, 12, gc_type);
    }
}

/// The reasons for a collection are numbered from zero. A number above them is kept as it is, so no
/// two numbers are taken for one reason.
pub proof fn reasons_are_told_apart(a: u32, b: u32)
    ensures
        GcReason::numbered(a) == GcReason::numbered(b) ==> a == b,
        a >= 14 ==> GcReason::numbered(a) == GcReason::Unknown(a),
        a < 14 ==> !(GcReason::numbered(a) is Unknown),
        a == 0 <==> GcReason::numbered(a) == GcReason::AllocSmall,
        a == 1 <==> GcReason::numbered(a) == GcReason::Induced,
        a == 2 <==> GcReason::numbered(a) == GcReason::LowMemory,
        a == 3 <==> GcReason::numbered(a) == GcReason::Empty,
        a == 4 <==> GcReason::numbered(a) == GcReason::AllocLarge,
        a == 5 <==> GcReason::numbered(a) == GcReason::OutOfSpaceSoh,
        a == 6 <==> GcReason::numbered(a) == GcReason::OutOfSpaceLoh,
        a == 7 <==> GcReason::numbered(a) == GcReason::InducedNotForced,
        a == 8 <==> GcReason::numbered(a) == GcReason::Internal,
        a == 9 <==> GcReason::numbered(a) == GcReason::InducedLowMemory,
        a == 10 <==> GcReason::numbered(a) == GcReason::InducedCompacting,
        a == 11 <==> GcReason::numbered(a) == GcReason::LowMemoryHost,
        a == 12 <==> GcReason::numbered(a) == GcReason::PmFullGc,
        a == 13 <==> GcReason::numbered(a) == GcReason::LowMemoryHostBlocking,
{
}

/// The types of a collection, and the heaps of an allocation, are numbered from zero. A number
/// above them is kept as it is, so no two numbers are taken for one of either.
pub proof fn types_and_heaps_are_told_apart(a: u32, b: u32)
    ensures
        GcType::numbered(a) == GcType::numbered(b) ==> a == b,
        a == 0 <==> GcType::numbered(a) == GcType::Blocking,
        a == 1 <==> GcType::numbered(a) == GcType::Background,
        a == 2 <==> GcType::numbered(a) == GcType::Foreground,
        a > 2 ==> GcType::numbered(a) == GcType::Unknown(a),
        AllocationKind::numbered(a) == AllocationKind::numbered(b) ==> a == b,
        a == 0 <==> AllocationKind::numbered(a) == AllocationKind::Small,
        a == 1 <==> AllocationKind::numbered(a) == AllocationKind::Large,
        a == 2 <==> AllocationKind::numbered(a) == AllocationKind::Pinned,
        a > 2 ==> AllocationKind::numbered(a) == AllocationKind::Unknown(a),
{
}

/// The sizes of a heap are written in order: of each generation and of the large objects first the
/// size and then what was promoted, then the finalized bytes and objects, then the pinned objects,
/// the sink blocks and the handles. Whatever follows is not looked at.
pub proof fn heap_sizes_read_back(b: Seq<u8>, stats: GcHeapStats, timestamp: u64, width: int)
    requires
        holds(b, 0, u64_bytes(stats.gen0_size)),
        holds(b, 8, u64_bytes(stats.gen0_promoted)),
        holds(b, 16, u64_bytes(stats.gen1_size)),
        holds(b, 24, u64_bytes(stats.gen1_promoted)),
        holds(b, 32, u64_bytes(stats.gen2_size)),
        holds(b, 40, u64_bytes(stats.gen2_promoted)),
        holds(b, 48, u64_bytes(stats.loh_size)),
        holds(b, 56, u64_bytes(stats.loh_promoted)),
        holds(b, 64, u64_bytes(stats.finalization_promoted_size)),
        holds(b, 72, u64_bytes(stats.finalization_promoted_count)),
        holds(b, 80, u32_bytes(stats.pinned_object_count)),
        holds(b, 84, u32_bytes(stats.sink_block_count)),
        holds(b, 88, u32_bytes(stats.gc_handle_count)),
    ensures
        event_in(4, b, timestamp, width) == Some(RuntimeEventModel::HeapStats(stats)),
{
    assert(u64_at(b, 0) == stats.gen0_size) by {
        held_u64(b, 0, stats.gen0_size);
    }
    assert(u64_at(b, 8) == stats.gen0_promoted) by {
        held_u64(b, 8, stats.gen0_promoted);
    }
    assert(u64_at(b, 16) == stats.gen1_size) by {
        held_u64(b, 16, stats.gen1_size);
    }
    assert(u64_at(b, 24) == stats.gen1_promoted) by {
        held_u64(b, 24, stats.gen1_promoted);
    }
    assert(u64_at(b, 32) == stats.gen2_size) by {
        held_u64(b, 32, stats.gen2_size);
    }
    assert(u64_at(b, 40) == stats.gen2_promoted) by {
        held_u64(b, 40, stats.gen2_promoted);
    }
    assert(u64_at(b, 48) == stats.loh_size) by {
        held_u64(b, 48, stats.loh_size);
    }
    assert(u64_at(b, 56) == stats.loh_promoted) by {
        held_u64(b, 56, stats.loh_promoted);
    }
    assert(u64_at(b, 64) == stats.finalization_promoted_size) by {
        held_u64(b, 64, stats.finalization_promoted_size);
    }
    assert(u64_at(b, 72) == stats.finalization_promoted_count) by {
        held_u64(b, 72, stats.finalization_promoted_count);
    }
    assert(u32_at(b, 80) == stats.pinned_object_count) by {
        held_u32(b, 80, stats.pinned_object_count);
    }
    assert(u32_at(b, 84) == stats.sink_block_count) by {
        held_u32(b, 84, stats.sink_block_count);
    }
    assert(u32_at(b, 88) == stats.gc_handle_count) by {
        held_u32(b, 88, stats.gc_handle_count);
    }
    assert(b.len() >= 92) by {
        held_u32(b, 88, stats.gc_handle_count);
    }
}

/// A payload that is too short for the sizes of a heap says nothing.
pub proof fn short_heap_sizes_say_nothing(b: Seq<u8>, timestamp: u64, width: int)
    requires
        b.len() < 92,
    ensures
        event_in(4, b, timestamp, width) is None,
{
}

/// An allocation is written as a short amount, its heap, two bytes, the whole amount, a pointer,
/// the name of the type and the number of a heap, and in later versions an address and the size of
/// the object. The whole amount counts, and the short one only where the whole one is zero. The
/// size is known where it was written.
pub proof fn allocations_read_back(
    b: Seq<u8>,
    short_amount: u32,
    heap: u32,
    amount: u64,
    name: Seq<char>,
    size: u64,
    timestamp: u64,
    width: int,
)
    requires
        0 <= width,
        !name.contains('\0'),
        holds(b, 0, u32_bytes(short_amount)),
        holds(b, 4, u32_bytes(heap)),
        holds(b, 10, u64_bytes(amount)),
        holds(b, 18 + width, wide(name)),
        18 + width + wide(name).len() + 4 <= b.len(),
    ensures
        ({
            let said = event_in(10, b, timestamp, width);
            let size_at = 18 + width + wide(name).len() + 4 + width;
            &&& said matches Some(RuntimeEventModel::Allocation(_))
            &&& said->0->Allocation_0.name == name
            &&& said->0->Allocation_0.kind == AllocationKind::numbered(heap)
            &&& amount > 0 ==> said->0->Allocation_0.amount == amount
            &&& amount == 0 ==> said->0->Allocation_0.amount == short_amount
            &&& b.len() < size_at + 8 <==> said->0->Allocation_0.object_size is None
            &&& holds(b, size_at, u64_bytes(size)) ==> said->0->Allocation_0.object_size == Some(
                size,
            )
        }),
{
    let p = 18 + width;
    held_is_between(b, p, wide(name));
    utf16_nul_round_trip(b.take(p), name, b.skip((p + wide(name).len()) as int));
    let size_at = (p + wide(name).len() + 4 + width) as int;
    assert(u32_at(b, 0) == short_amount) by {
        held_u32(b, 0, short_amount);
    }
    assert(u32_at(b, 4) == heap) by {
        held_u32(b, 4, heap);
    }
    assert(u64_at(b, 10) == amount) by {
        held_u64(b, 10, amount);
    }
    assert(holds(b, size_at, u64_bytes(size)) ==> u64_at(b, size_at) == size && size_at + 8
        <= b.len()) by {
        if holds(b, size_at, u64_bytes(size)) {
            held_u64(b, size_at, size);
        }
    }
}

/// An allocation without a name that ends, or without the number of a heap behind it, says nothing.
pub proof fn short_allocations_say_nothing(
    b: Seq<u8>,
    name: Seq<char>,
    timestamp: u64,
    width: int,
)
    requires
        0 <= width,
        !name.contains('\0'),
    ensures
        b.len() < 18 + width ==> event_in(10, b, timestamp, width) is None,
        holds(b, 18 + width, wide(name)) && b.len() < 18 + width + wide(name).len() + 4
            ==> event_in(10, b, timestamp, width) is None,
{
    let p = 18 + width;
    if holds(b, p, wide(name)) {
        held_is_between(b, p, wide(name));
        utf16_nul_round_trip(b.take(p), name, b.skip((p + wide(name).len()) as int));
    }
}

/// The end of a wait for a lock is written as three bytes and how long it took. A payload that is
/// too short says nothing.
pub proof fn waits_read_back(b: Seq<u8>, duration: u64, timestamp: u64, width: int)
    ensures
        holds(b, 3, u64_bytes(duration)) ==> event_in(91, b, timestamp, width) == Some(
            RuntimeEventModel::Contention(ContentionStop { duration_ns: duration }),
        ),
        b.len() < 11 ==> event_in(91, b, timestamp, width) is None,
{
    if holds(b, 3, u64_bytes(duration)) {
        held_u64(b, 3, duration);
    }
}

/// A suspend, a restart and the end of a collection are what they are whatever they carry, and the
/// first two happened when their event did. Nothing else the runtime sends says anything.
pub proof fn bare_events_read_back(id: i32, b: Seq<u8>, timestamp: u64, width: int)
    ensures
        id == 9 ==> event_in(id, b, timestamp, width) == Some(
            RuntimeEventModel::SuspendBegin { timestamp },
        ),
        id == 3 ==> event_in(id, b, timestamp, width) == Some(
            RuntimeEventModel::RestartEnd { timestamp },
        ),
        id == 2 ==> event_in(id, b, timestamp, width) == Some(RuntimeEventModel::GcEnd),
        id != 1 && id != 2 && id != 3 && id != 4 && id != 9 && id != 10 && id != 80 && id != 91
            ==> event_in(id, b, timestamp, width) is None,
{
}

/// An event speaks through the number and the provider that its metadata gives, and through nothing
/// else of it: without metadata, or with that of another provider, it says nothing, and otherwise
/// it says what its number, its payload and its time say. A process has pointers of four to eight
/// bytes.
pub proof fn events_speak_through_their_metadata(
    known: Map<u32, MetadataModel>,
    trace: TraceModel,
    event: EventModel,
)
    ensures
        ({
            let said = runtime_event(known, trace, event);
            let metadata = known[event.metadata_id];
            &&& !known.contains_key(event.metadata_id) ==> said is None
            &&& known.contains_key(event.metadata_id) && metadata.provider_name
                != "Microsoft-Windows-DotNETRuntime"@ ==> said is None
            &&& known.contains_key(event.metadata_id) && metadata.provider_name
                == "Microsoft-Windows-DotNETRuntime"@ && 4 <= trace.pointer_size <= 8 ==> said
                == event_in(
                metadata.event_id,
                event.payload,
                event.timestamp,
                trace.pointer_size as int,
            )
            &&& known.contains_key(event.metadata_id) && metadata.provider_name
                == "Microsoft-Windows-DotNETRuntime"@ && trace.pointer_size < 4 ==> said
                == event_in(metadata.event_id, event.payload, event.timestamp, 4)
            &&& known.contains_key(event.metadata_id) && metadata.provider_name
                == "Microsoft-Windows-DotNETRuntime"@ && trace.pointer_size > 8 ==> said
                == event_in(metadata.event_id, event.payload, event.timestamp, 8)
        }),
{
}

/// Every reason is told in its own words, and an unknown one by its number.
pub proof fn reasons_have_their_words(reason: GcReason)
    ensures
        reason == GcReason::AllocSmall ==> reason.words() == "small alloc"@,
        reason == GcReason::Induced ==> reason.words() == "induced"@,
        reason == GcReason::LowMemory ==> reason.words() == "low memory"@,
        reason == GcReason::Empty ==> reason.words() == "empty"@,
        reason == GcReason::AllocLarge ==> reason.words() == "large alloc"@,
        reason == GcReason::OutOfSpaceSoh ==> reason.words() == "SOH full"@,
        reason == GcReason::OutOfSpaceLoh ==> reason.words() == "LOH full"@,
        reason == GcReason::InducedNotForced ==> reason.words() == "induced (soft)"@,
        reason == GcReason::Internal ==> reason.words() == "internal"@,
        reason == GcReason::InducedLowMemory ==> reason.words() == "induced, low mem"@,
        reason == GcReason::InducedCompacting ==> reason.words() == "induced compact"@,
        reason == GcReason::LowMemoryHost ==> reason.words() == "host low memory"@,
        reason == GcReason::PmFullGc ==> reason.words() == "provisional full"@,
        reason == GcReason::LowMemoryHostBlocking ==> reason.words() == "host low mem (block)"@,
        reason matches GcReason::Unknown(v) ==> reason.words() == "reason "@ + decimal(v as nat),
{
}

} // verus!
