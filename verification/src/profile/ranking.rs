//! What a ranking says of the stacks and the methods it was made from.
use vstd::prelude::*;

use super::history::{
    charged_with_one, charged_with_stack, counts_are_numbers_of_stacks, once_per_stack, profile_of,
};
use super::methods::{method_in, nearest, resolved, MethodModel};
use super::run::CollectModel;
use super::state::{
    charged, charged_hidden, has_row, is_ranking, is_wait, label_of, row_of, ProfileModel, RowModel,
    WAIT_FRAMES,
};
use super::tally::{count_of, counts_are_bounded, place_of, with_one, Counts};
use crate::bytes::{
    held_is_between, held_u32, held_u64, holds, u32_at, u32_bytes, u64_at, u64_bytes,
};
use crate::nettrace::blocks::EventModel;
use crate::nettrace::reader::{utf16_nul_round_trip, wide_bytes};
use crate::nettrace::rows::held_parts;
use crate::text::{text_le, utf16_of};

verus! {

/// A method is written as two ids, its address, its size, two more numbers, and then its namespace,
/// its name and its signature, in this order, with a zero behind each, and whatever follows. It
/// reads back as that.
pub proof fn methods_read_back(b: Seq<u8>, m: MethodModel, tail: Seq<u8>)
    requires
        !m.namespace.contains('\0'),
        !m.name.contains('\0'),
        !m.signature.contains('\0'),
        holds(b, 16, u64_bytes(m.start_address)),
        holds(b, 24, u32_bytes(m.size)),
        holds(
            b,
            36,
            wide_bytes(utf16_of(m.namespace)) + (wide_bytes(utf16_of(m.name)) + (wide_bytes(
                utf16_of(m.signature),
            ) + tail)),
        ),
    ensures
        method_in(b) == Some(m),
{
    let a = wide_bytes(utf16_of(m.namespace));
    let n = wide_bytes(utf16_of(m.name));
    let s = wide_bytes(utf16_of(m.signature));
    held_parts(b, 36, a, n + (s + tail));
    held_is_between(b, 36, a);
    utf16_nul_round_trip(b.take(36), m.namespace, b.skip((36 + a.len()) as int));
    let p = (36 + a.len()) as int;
    held_parts(b, p, n, s + tail);
    held_is_between(b, p, n);
    utf16_nul_round_trip(b.take(p), m.name, b.skip((p + n.len()) as int));
    let q = (p + n.len()) as int;
    held_parts(b, q, s, tail);
    held_is_between(b, q, s);
    utf16_nul_round_trip(b.take(q), m.signature, b.skip((q + s.len()) as int));
    assert(u64_at(b, 16) == m.start_address) by {
        held_u64(b, 16, m.start_address);
    }
    assert(u32_at(b, 24) == m.size) by {
        held_u32(b, 24, m.size);
    }
}

/// A method goes by its namespace, a dot and its name, and by its name alone where it has no
/// namespace.
pub proof fn methods_go_by_their_names(m: MethodModel)
    ensures
        m.namespace.len() == 0 ==> m.qualified_name() == m.name,
        m.namespace.len() > 0 ==> m.qualified_name() == m.namespace + seq!['.'] + m.name,
{
    reveal_strlit(".");
    assert("."@ =~= seq!['.']);
}

/// An address belongs to the method that starts nearest below it, or at it, if that method reaches
/// so far; of several that start at one place, to the last to arrive. Otherwise it belongs to none.
pub proof fn the_nearest_method_answers(methods: Seq<MethodModel>, address: u64, i: int)
    requires
        0 <= i < methods.len(),
        methods[i].start_address <= address,
        forall|j: int|
            0 <= j < methods.len() && (#[trigger] methods[j]).start_address <= address
                ==> methods[j].start_address < methods[i].start_address || methods[j].start_address
                == methods[i].start_address && j <= i,
    ensures
        address < methods[i].start_address + methods[i].size ==> resolved(methods, address)
            == Some(i),
        address >= methods[i].start_address + methods[i].size ==> resolved(methods, address)
            is None,
{
    nearest_is_found(methods, address, methods.len(), i);
}

proof fn nearest_is_found(methods: Seq<MethodModel>, address: u64, n: nat, i: int)
    requires
        0 <= i < n <= methods.len(),
        methods[i].start_address <= address,
        forall|j: int|
            0 <= j < n && (#[trigger] methods[j]).start_address <= address
                ==> methods[j].start_address < methods[i].start_address || methods[j].start_address
                == methods[i].start_address && j <= i,
    ensures
        nearest(methods, address, n) == Some(i),
    decreases n,
{
    if i < n - 1 {
        nearest_is_found(methods, address, (n - 1) as nat, i);
        assert(methods[n - 1].start_address > address || methods[n - 1].start_address
            < methods[i].start_address);
    } else {
        nearest_is_some(methods, address, (n - 1) as nat);
    }
}

proof fn nearest_is_some(methods: Seq<MethodModel>, address: u64, n: nat)
    requires
        n <= methods.len(),
    ensures
        nearest(methods, address, n) matches Some(k) ==> 0 <= k < n && methods[k].start_address
            <= address,
    decreases n,
{
    if n > 0 {
        nearest_is_some(methods, address, (n - 1) as nat);
    }
}

/// An address that no method starts below belongs to none, and goes by the name for native code.
pub proof fn unknown_addresses_are_native(methods: Seq<MethodModel>, address: u64)
    requires
        forall|j: int| 0 <= j < methods.len() ==> !(#[trigger] methods[j]).covers(address),
    ensures
        label_of(methods, address) == "(native / runtime code)"@,
{
    nearest_is_some(methods, address, methods.len());
}

/// The leaves that mean waiting are these and no others. A spinning thread is not waiting.
pub proof fn waits_are_told_by_name(name: Seq<char>)
    ensures
        is_wait(name) <==> (name == "System.Threading.Monitor.Wait"@ || name == "System.Threading.ManualResetEventSlim.Wait"@ || name == "System.Threading.WaitHandle.WaitOneNoCheck"@ || name == "System.Threading.LowLevelLifoSemaphore.Wait"@ || name == "System.Threading.LowLevelLifoSemaphore.WaitForSignal"@ || name == "System.Threading.LowLevelMonitor.Wait"@ || name == "System.Threading.SemaphoreSlim.WaitUntilCountOrTimeout"@ || name == "System.Threading.Thread.Sleep"@ || name == "System.Threading.Thread.SleepInternal"@ || name == "System.Threading.PortableThreadPool+WorkerThread.WorkerThreadStart"@ || name == "System.Threading.PortableThreadPool+GateThread.GateThreadStart"@ || name == "System.IO.FileSystemWatcher+RunningInstance+StaticWatcherRunLoopManager.WatchForFileSystemEventsThreadStart"@ || name == "Microsoft.Extensions.Logging.Console.ConsoleLoggerProcessor.TryDequeue"@ || name == "System.Net.Sockets.SocketAsyncEngine.EventLoop"@),
{
    let frames = WAIT_FRAMES@;
    assert(frames[0]@ == "System.Threading.Monitor.Wait"@);
    assert(frames[1]@ == "System.Threading.ManualResetEventSlim.Wait"@);
    assert(frames[2]@ == "System.Threading.WaitHandle.WaitOneNoCheck"@);
    assert(frames[3]@ == "System.Threading.LowLevelLifoSemaphore.Wait"@);
    assert(frames[4]@ == "System.Threading.LowLevelLifoSemaphore.WaitForSignal"@);
    assert(frames[5]@ == "System.Threading.LowLevelMonitor.Wait"@);
    assert(frames[6]@ == "System.Threading.SemaphoreSlim.WaitUntilCountOrTimeout"@);
    assert(frames[7]@ == "System.Threading.Thread.Sleep"@);
    assert(frames[8]@ == "System.Threading.Thread.SleepInternal"@);
    assert(frames[9]@ == "System.Threading.PortableThreadPool+WorkerThread.WorkerThreadStart"@);
    assert(frames[10]@ == "System.Threading.PortableThreadPool+GateThread.GateThreadStart"@);
    assert(frames[11]@ == "System.IO.FileSystemWatcher+RunningInstance+StaticWatcherRunLoopManager.WatchForFileSystemEventsThreadStart"@);
    assert(frames[12]@ == "Microsoft.Extensions.Logging.Console.ConsoleLoggerProcessor.TryDequeue"@);
    assert(frames[13]@ == "System.Net.Sockets.SocketAsyncEngine.EventLoop"@);
}

/// How many of some stacks are as asked for.
pub open spec fn stacks_where(stacks: Seq<Seq<u64>>, asked: spec_fn(Seq<u64>) -> bool) -> int
    decreases stacks.len(),
{
    if stacks.len() == 0 {
        0
    } else {
        stacks_where(stacks.drop_last(), asked) + if asked(stacks.last()) {
            1int
        } else {
            0
        }
    }
}

/// The self time of a name is the number of stacks whose innermost frame goes by it.
pub proof fn self_time_is_where_stacks_end(
    stacks: Seq<Seq<u64>>,
    methods: Seq<MethodModel>,
    name: Seq<char>,
)
    requires
        stacks.len() < u64::MAX,
    ensures
        row_of(profile_of(stacks), methods, name).self_samples == stacks_where(
            stacks,
            |s: Seq<u64>| s.len() > 0 && label_of(methods, s[0]) == name,
        ),
    decreases stacks.len(),
{
    if stacks.len() > 0 {
        let before = profile_of(stacks.drop_last());
        let frames = stacks.last();
        self_time_is_where_stacks_end(stacks.drop_last(), methods, name);
        counts_are_numbers_of_stacks(stacks.drop_last(), 0);
        if frames.len() > 0 {
            counts_are_bounded(before.self_counts, frames[0]);
            charged_with_one(before.self_counts, methods, name, frames[0]);
        }
    }
}

/// The total time of a name is the number of stacks that a frame of its is on, as long as no stack
/// holds two different addresses of it.
pub proof fn total_time_is_where_stacks_pass(
    stacks: Seq<Seq<u64>>,
    methods: Seq<MethodModel>,
    name: Seq<char>,
)
    requires
        stacks.len() < u64::MAX,
        once_per_stack(stacks, methods, name),
    ensures
        row_of(profile_of(stacks), methods, name).total_samples == stacks_where(
            stacks,
            |s: Seq<u64>|
                exists|i: int| 0 <= i < s.len() && label_of(methods, #[trigger] s[i]) == name,
        ),
    decreases stacks.len(),
{
    if stacks.len() > 0 {
        let earlier = stacks.drop_last();
        let before = profile_of(earlier);
        let frames = stacks.last();
        assert(once_per_stack(earlier, methods, name)) by {
            assert forall|s: int, i: int, j: int|
                0 <= s < earlier.len() && 0 <= i < earlier[s].len() && 0 <= j < earlier[s].len()
                    && label_of(methods, #[trigger] earlier[s][i]) == name && label_of(
                    methods,
                    #[trigger] earlier[s][j],
                ) == name implies earlier[s][i] == earlier[s][j] by {
                assert(stacks[s][i] == earlier[s][i] && stacks[s][j] == earlier[s][j]);
            }
        }
        total_time_is_where_stacks_pass(earlier, methods, name);
        counts_are_numbers_of_stacks(earlier, 0);
        if frames.len() > 0 {
            assert forall|a: u64| #[trigger] count_of(before.total_counts, a) < u64::MAX by {}
            assert forall|i: int, j: int|
                0 <= i < frames.len() && 0 <= j < frames.len() && label_of(
                    methods,
                    #[trigger] frames[i],
                ) == name && label_of(methods, #[trigger] frames[j]) == name implies frames[i]
                == frames[j] by {
                let s = stacks.len() - 1;
                assert(stacks[s][i] == frames[i] && stacks[s][j] == frames[j]);
            }
            charged_with_stack(before.total_counts, frames, frames.len(), methods, name);
        }
    }
}

/// The time that is left out of a ranking is the number of stacks whose innermost frame is a wait,
/// unless waits are asked for, and then there is none.
pub proof fn waiting_time_is_where_stacks_wait(
    stacks: Seq<Seq<u64>>,
    methods: Seq<MethodModel>,
)
    requires
        stacks.len() < u64::MAX,
    ensures
        ({
            let counts = profile_of(stacks).self_counts;
            &&& charged_hidden(counts, methods, true, counts.len()) == 0
            &&& charged_hidden(counts, methods, false, counts.len()) == stacks_where(
                stacks,
                |s: Seq<u64>| s.len() > 0 && is_wait(label_of(methods, s[0])),
            )
        }),
    decreases stacks.len(),
{
    let counts = profile_of(stacks).self_counts;
    nothing_is_hidden(counts, methods, counts.len());
    if stacks.len() > 0 {
        let before = profile_of(stacks.drop_last());
        let frames = stacks.last();
        waiting_time_is_where_stacks_wait(stacks.drop_last(), methods);
        counts_are_numbers_of_stacks(stacks.drop_last(), 0);
        if frames.len() > 0 {
            counts_are_bounded(before.self_counts, frames[0]);
            hidden_with_one(before.self_counts, methods, frames[0]);
        }
    }
}

proof fn nothing_is_hidden(counts: Counts, methods: Seq<MethodModel>, n: nat)
    ensures
        charged_hidden(counts, methods, true, n) == 0,
    decreases n,
{
    if n > 0 {
        nothing_is_hidden(counts, methods, (n - 1) as nat);
    }
}

proof fn hidden_prefix(a: Counts, b: Counts, methods: Seq<MethodModel>, n: nat)
    requires
        n <= a.len(),
        n <= b.len(),
        forall|i: int| 0 <= i < n ==> a[i] == b[i],
    ensures
        charged_hidden(a, methods, false, n) == charged_hidden(b, methods, false, n),
    decreases n,
{
    if n > 0 {
        hidden_prefix(a, b, methods, (n - 1) as nat);
    }
}

proof fn hidden_update(
    counts: Counts,
    methods: Seq<MethodModel>,
    n: nat,
    i: int,
    count: u64,
)
    requires
        0 <= i < n <= counts.len(),
    ensures
        charged_hidden(counts.update(i, (counts[i].0, count)), methods, false, n) == charged_hidden(
            counts,
            methods,
            false,
            n,
        ) + (if is_wait(label_of(methods, counts[i].0)) {
            count - counts[i].1
        } else {
            0
        }),
    decreases n,
{
    let after = counts.update(i, (counts[i].0, count));
    if i == n - 1 {
        hidden_prefix(after, counts, methods, (n - 1) as nat);
    } else {
        hidden_update(counts, methods, (n - 1) as nat, i, count);
    }
}

proof fn hidden_with_one(counts: Counts, methods: Seq<MethodModel>, address: u64)
    requires
        count_of(counts, address) < u64::MAX,
    ensures
        charged_hidden(with_one(counts, address), methods, false, with_one(counts, address).len())
            == charged_hidden(counts, methods, false, counts.len()) + (if is_wait(
            label_of(methods, address),
        ) {
            1int
        } else {
            0
        }),
{
    match place_of(counts, address) {
        Some(i) => {
            hidden_update(counts, methods, counts.len(), i, (counts[i].1 + 1) as u64);
        },
        None => {
            hidden_prefix(with_one(counts, address), counts, methods, counts.len());
        },
    }
}

/// A ranking goes down by self time, where that is equal by total time, and where both are equal up
/// by name. Every name that was sampled and is not left out is in it, unless it is full, and then
/// nothing in it has less self time than what is missing. No wait is in it unless asked for.
pub proof fn rankings_go_down(
    rows: Seq<RowModel>,
    m: ProfileModel,
    methods: Seq<MethodModel>,
    include_waiting: bool,
    limit: int,
    name: Seq<char>,
    k: int,
    l: int,
)
    requires
        is_ranking(rows, m, methods, include_waiting, limit),
        0 <= k < l < rows.len(),
    ensures
        rows.len() <= limit,
        rows[k].self_samples >= rows[l].self_samples,
        rows[k].self_samples == rows[l].self_samples ==> rows[k].total_samples
            >= rows[l].total_samples,
        rows[k].self_samples == rows[l].self_samples && rows[k].total_samples
            == rows[l].total_samples ==> text_le(rows[k].name, rows[l].name),
        rows[k].name != rows[l].name,
        !include_waiting ==> !is_wait(rows[k].name),
        rows[k].self_samples == charged(
            m.self_counts,
            methods,
            rows[k].name,
            m.self_counts.len(),
        ),
        has_row(m, methods, include_waiting, name) ==> rows.contains(row_of(m, methods, name))
            || rows.len() == limit && charged(m.self_counts, methods, name, m.self_counts.len())
            <= rows[k].self_samples,
{
    assert(rows[k] == row_of(m, methods, rows[k].name));
    assert(rows[l] == row_of(m, methods, rows[l].name));
    assert(has_row(m, methods, include_waiting, rows[k].name));
}

/// The methods of a profile are those that events numbered 141 to 144 tell of, of the runtime or of
/// its rundown, as long as they have a name, an address and a size. No other event adds one, and no
/// event takes one away.
pub proof fn methods_come_from_their_events(m: CollectModel, event: EventModel)
    ensures
        ({
            let after = m.absorbed(event).methods;
            let known = m.parser.metadata.contains_key(event.metadata_id);
            let metadata = m.parser.metadata[event.metadata_id];
            let told = known && 141 <= metadata.event_id <= 144 && (metadata.provider_name
                == "Microsoft-Windows-DotNETRuntime"@ || metadata.provider_name
                == "Microsoft-Windows-DotNETRuntimeRundown"@);
            let method = method_in(event.payload);
            let plausible = method is Some && method->0.name.len() > 0 && method->0.start_address
                > 0 && method->0.size > 0;
            &&& told && plausible ==> after == m.methods.push(method->0)
            &&& !(told && plausible) ==> after == m.methods
            &&& m.absorbed(event).parser == m.parser
            &&& m.absorbed(event).state == m.state
            &&& m.absorbed(event).sample_stacks == m.sample_stacks
        }),
{
}

} // verus!
