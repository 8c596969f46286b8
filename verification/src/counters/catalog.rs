//! Presentation rules the wire format does not carry: how to format a value, and which panel a
//! counter belongs to.
//!
//! Display names and units arrive in the payload, so this deliberately holds neither. What it
//! does hold is the knowledge that the runtime is *inconsistent* about units: `gc-heap-size` is
//! decimal MB while `gen-0-size` is raw bytes, and a GC panel wants them on one scale.
use vstd::prelude::*;

use super::sample::{CounterKind, CounterSample, SampleModel};
use crate::text::{decimal, digit, same_text};

verus! {

pub const SYSTEM_RUNTIME: &'static str = "System.Runtime";

pub const ASPNET_HOSTING: &'static str = "Microsoft.AspNetCore.Hosting";

pub const KESTREL: &'static str = "Microsoft-AspNetCore-Server-Kestrel";

pub const NET_HTTP: &'static str = "System.Net.Http";

/// Collections per interval, youngest generation first.
///
/// Increment counters: each reading is how many collections happened during that interval, which
/// is what a timeline of GC activity wants. The panel that reports them as rates instead reads
/// zero on anything but a busy process.
pub const GC_COUNT_COUNTERS: &'static [&'static str; 3] = &[
    "gen-0-gc-count",
    "gen-1-gc-count",
    "gen-2-gc-count",
];

/// The generation sizes, largest-lived first, as they should appear in the GC panel.
pub const GENERATION_COUNTERS: &'static [&'static str; 5] = &[
    "gen-0-size",
    "gen-1-size",
    "gen-2-size",
    "loh-size",
    "poh-size",
];

/// A decimal megabyte.
pub const MEGABYTE: u32 = 1_000_000;

/// Counters the runtime reports in decimal megabytes (bytes / 1,000,000) rather than bytes.
///
/// Everything else carrying a "B" unit is raw. Mixing the two on one axis is wrong by six orders
/// of magnitude, and a heap-size-vs-generation-size chart wants exactly that mix.
pub open spec fn in_megabytes(name: Seq<char>) -> bool {
    name == "working-set"@ || name == "gc-heap-size"@ || name == "gc-committed"@ || name
        == "gen-0-gc-budget"@
}

/// Factor converting a counter's reported value into bytes, for counters that measure memory.
pub open spec fn scale_to_bytes(sample: SampleModel) -> Option<u32> {
    if sample.provider != SYSTEM_RUNTIME@ {
        None
    } else if in_megabytes(sample.name) {
        Some(MEGABYTE)
    } else if sample.units() == "B"@ && sample.kind == CounterKind::Mean {
        Some(1)
    } else {
        None
    }
}

/// Factor converting this counter's reported value into bytes, or `None` if it is not a memory
/// counter. A whole history can be scaled with it consistently.
pub fn byte_scale(sample: &CounterSample) -> (scale: Option<u32>)
    ensures
        scale == scale_to_bytes(sample@),
{
    if !same_text(sample.provider.as_str(), SYSTEM_RUNTIME) {
        return None;
    }
    let name = sample.name.as_str();
    if same_text(name, "working-set") || same_text(name, "gc-heap-size") || same_text(
        name,
        "gc-committed",
    ) || same_text(name, "gen-0-gc-budget") {
        // Decimal MB, matching how the runtime computes it.
        return Some(MEGABYTE);
    }
    if same_text(sample.units(), "B") && sample.kind == CounterKind::Mean {
        return Some(1);
    }
    None
}

/// How a reading is shown.
#[derive(Debug, Clone, Copy, PartialEq, Eq, Structural)]
pub enum Presentation {
    /// A byte size, once multiplied.
    Bytes { scale: u32 },
    Percent,
    Milliseconds,
    BytesPerSecond,
    CountPerSecond,
    CountPerMinute,
    Count,
}

/// How a reading is shown, given whether its rate goes by the minute or more.
pub open spec fn presentation_of(sample: SampleModel, by_minute: bool) -> Presentation {
    match scale_to_bytes(sample) {
        Some(scale) => Presentation::Bytes { scale },
        None => if sample.units() == "%"@ {
            Presentation::Percent
        } else if sample.units() == "ms"@ {
            Presentation::Milliseconds
        } else if sample.units() == "B"@ {
            Presentation::BytesPerSecond
        } else if sample.units() == "MB"@ {
            Presentation::Bytes { scale: MEGABYTE }
        } else if sample.kind == CounterKind::Mean {
            Presentation::Count
        } else if by_minute {
            Presentation::CountPerMinute
        } else {
            Presentation::CountPerSecond
        },
    }
}

/// How a value should read on the dashboard. The GC collection counters are the only ones on a
/// minute window; saying "/s" for them would understate by 60x.
pub fn presentation(sample: &CounterSample, by_minute: bool) -> (p: Presentation)
    ensures
        p == presentation_of(sample@, by_minute),
{
    if let Some(scale) = byte_scale(sample) {
        return Presentation::Bytes { scale };
    }
    let units = sample.units();
    if same_text(units, "%") {
        Presentation::Percent
    } else if same_text(units, "ms") {
        Presentation::Milliseconds
    } else if same_text(units, "B") {
        Presentation::BytesPerSecond
    } else if same_text(units, "MB") {
        Presentation::Bytes { scale: MEGABYTE }
    } else if sample.kind == CounterKind::Mean {
        Presentation::Count
    } else if by_minute {
        Presentation::CountPerMinute
    } else {
        Presentation::CountPerSecond
    }
}

/// A counter is memory if the runtime says so, and then a reading is scaled by what it is in:
/// what the runtime counts in megabytes by a million, whatever else it says of them, and what it
/// counts in bytes by one. Nothing in megabytes is ever taken for bytes, no other provider's
/// counters are memory, and neither is a rate that is not one of the four.
pub proof fn memory_is_scaled_by_its_units(sample: SampleModel)
    ensures
        ({
            let ours = sample.provider == "System.Runtime"@;
            let name = sample.name;
            let scale = scale_to_bytes(sample);
            &&& ours && name == "working-set"@ ==> scale == Some(1_000_000u32)
            &&& ours && name == "gc-heap-size"@ ==> scale == Some(1_000_000u32)
            &&& ours && name == "gc-committed"@ ==> scale == Some(1_000_000u32)
            &&& ours && name == "gen-0-gc-budget"@ ==> scale == Some(1_000_000u32)
            &&& sample.units() == "MB"@ && scale is Some ==> scale->0 == 1_000_000
            &&& ours && sample.units() == "B"@ && sample.kind == CounterKind::Mean ==> scale
                is Some
            &&& scale is Some ==> ours && (scale->0 == 1 || scale->0 == 1_000_000)
            &&& scale == Some(1u32) ==> sample.units() == "B"@ && sample.kind == CounterKind::Mean
            &&& scale == Some(1_000_000u32) ==> name == "working-set"@ || name
                == "gc-heap-size"@ || name == "gc-committed"@ || name == "gen-0-gc-budget"@
        }),
{
    units_differ();
}

/// The units that a reading is told apart by are all different.
proof fn units_differ()
    ensures
        "B"@ != "MB"@,
        "B"@ != "%"@,
        "B"@ != "ms"@,
        "MB"@ != "%"@,
        "MB"@ != "ms"@,
        "%"@ != "ms"@,
{
    reveal_strlit("B");
    reveal_strlit("MB");
    reveal_strlit("%");
    reveal_strlit("ms");
    assert("B"@[0] != "%"@[0]);
    assert("MB"@[0] != "ms"@[0]);
}

/// However a reading comes, megabytes are shown as a size of a million bytes each, and bytes as a
/// size or, where they are not memory of the runtime's, as bytes in a second. A percentage or a
/// number of milliseconds is shown as one unless it is memory. A gauge in any other units is a
/// count, and a rate in any other units is a count by the minute or by the second.
pub proof fn readings_are_shown_in_their_units(sample: SampleModel, by_minute: bool)
    ensures
        ({
            let shown = presentation_of(sample, by_minute);
            let units = sample.units();
            let memory = scale_to_bytes(sample) is Some;
            &&& memory ==> shown is Bytes && Some(shown->scale) == scale_to_bytes(sample)
            &&& units == "MB"@ ==> shown == (Presentation::Bytes { scale: 1_000_000 })
            &&& units == "B"@ && !memory ==> shown == Presentation::BytesPerSecond
            &&& units == "%"@ && !memory ==> shown == Presentation::Percent
            &&& units == "ms"@ && !memory ==> shown == Presentation::Milliseconds
            &&& units != "MB"@ && units != "B"@ && units != "%"@ && units != "ms"@ && !memory ==> {
                &&& sample.kind == CounterKind::Mean ==> shown == Presentation::Count
                &&& sample.kind == CounterKind::Rate && by_minute ==> shown
                    == Presentation::CountPerMinute
                &&& sample.kind == CounterKind::Rate && !by_minute ==> shown
                    == Presentation::CountPerSecond
            }
        }),
{
    units_differ();
    memory_is_scaled_by_its_units(sample);
}

/// Percentage counters can drive a gauge; everything else cannot.
pub fn is_percentage(sample: &CounterSample) -> (yes: bool)
    ensures
        yes == (sample@.units() == "%"@),
{
    same_text(sample.units(), "%")
}

/// A number in decimal, with a comma in front of every three digits but the first ones.
pub open spec fn grouped(n: nat) -> Seq<char>
    decreases n,
{
    if n < 1000 {
        decimal(n)
    } else {
        grouped(n / 1000) + seq![
            ',',
            digit(n / 100 % 10),
            digit(n / 10 % 10),
            digit(n % 10),
        ]
    }
}

fn push_digit(out: &mut String, d: u64)
    requires
        d < 10,
    ensures
        final(out)@ == old(out)@.push(digit(d as nat)),
{
    out.push((48 + d as u8) as char);
}

fn push_grouped(out: &mut String, n: u64)
    ensures
        final(out)@ == old(out)@ + grouped(n as nat),
    decreases n,
{
    let ghost before = out@;
    if n < 1000 {
        crate::text::push_decimal(out, n);
    } else {
        push_grouped(out, n / 1000);
        out.push(',');
        push_digit(out, n / 100 % 10);
        push_digit(out, n / 10 % 10);
        push_digit(out, n % 10);
    }
    assert(out@ =~= before + grouped(n as nat));
}

/// A whole count with thousands separators.
pub fn group_digits(negative: bool, n: u64) -> (s: String)
    ensures
        s@ == (if negative {
            seq!['-'] + grouped(n as nat)
        } else {
            grouped(n as nat)
        }),
{
    let mut s = String::new();
    if negative {
        s.push('-');
    }
    push_grouped(&mut s, n);
    assert(negative ==> s@ =~= seq!['-'] + grouped(n as nat));
    assert(!negative ==> s@ =~= grouped(n as nat));
    s
}

/// The characters of a text that are not commas, in their order.
pub open spec fn without_commas(s: Seq<char>) -> Seq<char>
    decreases s.len(),
{
    if s.len() == 0 {
        s
    } else if s.last() == ',' {
        without_commas(s.drop_last())
    } else {
        without_commas(s.drop_last()).push(s.last())
    }
}

/// Separators change no digit of a number, and they stand before every third digit from its end and
/// nowhere else, never in front of the number.
pub proof fn separators_only_group(n: nat)
    ensures
        without_commas(grouped(n)) == decimal(n),
        grouped(n).len() > 0,
        grouped(n)[0] != ',',
        forall|i: int|
            0 <= i < grouped(n).len() ==> (#[trigger] grouped(n)[i] == ',' <==> (grouped(n).len()
                - i) % 4 == 0),
    decreases n,
{
    decimal_has_no_commas(n);
    if n < 1000 {
        small_numbers_are_short(n);
    } else {
        separators_only_group(n / 1000);
        let front = grouped(n / 1000);
        let whole = grouped(n);
        let a = digit(n / 100 % 10);
        let b = digit(n / 10 % 10);
        let c = digit(n % 10);
        assert(whole =~= front.push(',').push(a).push(b).push(c));
        assert(whole.drop_last() =~= front.push(',').push(a).push(b));
        assert(whole.drop_last().drop_last() =~= front.push(',').push(a));
        assert(whole.drop_last().drop_last().drop_last() =~= front.push(','));
        assert(front.push(',').drop_last() =~= front);
        assert(decimal(n) == decimal(n / 10).push(c));
        assert(decimal(n / 10) == decimal(n / 10 / 10).push(digit(n / 10 % 10)));
        assert(n / 10 / 10 == n / 100);
        assert(decimal(n / 100) == decimal(n / 100 / 10).push(digit(n / 100 % 10)));
        assert(n / 100 / 10 == n / 1000);
        reveal_with_fuel(without_commas, 5);
        assert forall|i: int| 0 <= i < whole.len() implies (#[trigger] whole[i] == ',' <==> (
        whole.len() - i) % 4 == 0) by {
            if i < front.len() {
                assert(whole[i] == front[i]);
            }
        }
    }
}

proof fn small_numbers_are_short(n: nat)
    requires
        n < 1000,
    ensures
        1 <= decimal(n).len() <= 3,
{
    reveal_with_fuel(decimal, 4);
}

proof fn decimal_has_no_commas(n: nat)
    ensures
        decimal(n).len() > 0,
        forall|i: int| 0 <= i < decimal(n).len() ==> #[trigger] decimal(n)[i] != ',',
        without_commas(decimal(n)) == decimal(n),
    decreases n,
{
    if n >= 10 {
        decimal_has_no_commas(n / 10);
        assert(decimal(n).drop_last() =~= decimal(n / 10));
    } else {
        assert(decimal(n).drop_last() =~= Seq::<char>::empty());
        reveal_with_fuel(without_commas, 2);
        assert(without_commas(decimal(n)) =~= decimal(n));
    }
}

} // verus!
