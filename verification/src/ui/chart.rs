//! Time-series plotting.
//!
//! One chart, one series. Two braille series in one plot would share cells and blend into a third
//! colour where they cross; and with the gradient fill these use, height already carries meaning,
//! so a second series would fight the first for it. Side-by-side comparison is the bar chart's job.
use vstd::prelude::*;

use super::graph::{samples_in_cell, Graph, Plot};
use crate::app::{since, Reading, SECOND};
use crate::ipc::commands::text_view;
use crate::text::{decimal, push_decimal};

verus! {

/// The largest power of two that is no more than a number, or one.
pub open spec fn leading_power(n: nat) -> nat
    decreases n,
{
    if n < 2 {
        1
    } else {
        2 * leading_power(n / 2)
    }
}

/// The largest power of two that is no more than a number, or one.
fn leading_power_of(n: u64) -> (p: u64)
    ensures
        p == leading_power(n as nat),
        1 <= p,
        p <= n || p == 1,
    decreases n,
{
    if n < 2 {
        1
    } else {
        2 * leading_power_of(n / 2)
    }
}

/// Half a second, in nanoseconds.
pub const HALF_SECOND: u64 = 500_000_000;

/// Whether a number of seconds and a rest in nanoseconds add up to so nearly half a second that a
/// 64-bit floating-point number cannot tell them from it: numbers of seconds with the leading power
/// `p` stand `p / 2^52` seconds apart, half of which is `p * 1953125 / 2^44` nanoseconds.
pub open spec fn reads_as_half(whole: nat, rest: nat) -> bool {
    let off = if rest < HALF_SECOND {
        HALF_SECOND - rest
    } else {
        rest - HALF_SECOND
    };
    off * 0x1000_0000_0000 < 1_953_125 * leading_power(whole)
}

/// Nanoseconds as whole seconds: to the nearest, and to the even one of two that are equally near.
/// It is the floating-point number of seconds that is rounded.
pub open spec fn rounded_seconds(nanos: u64) -> int {
    let whole = nanos as int / SECOND as int;
    let rest = nanos as int % SECOND as int;
    if reads_as_half(whole as nat, rest as nat) {
        whole + whole % 2
    } else if rest > HALF_SECOND {
        whole + 1
    } else {
        whole
    }
}

/// How many readings a graph draws.
pub open spec fn drawn(readings: int, plot: Plot, width: u16) -> int {
    if readings < width * samples_in_cell(plot) {
        readings
    } else {
        width * samples_in_cell(plot)
    }
}

/// How far back the drawn readings go, once they go back at all.
pub open spec fn span_of(readings: Seq<Reading>, plot: Plot, width: u16) -> Option<Seq<char>> {
    let n = drawn(readings.len() as int, plot, width);
    if n < 2 {
        None
    } else {
        Some(
            "-"@ + decimal(
                rounded_seconds(since(readings.last().at, readings[readings.len() - n].at)) as nat,
            ) + "s"@,
        )
    }
}

/// How far back the drawn trace goes, once it goes back at all.
///
/// Measured from the readings themselves rather than from the sample count and the current rate.
/// The rate can change while a series is on screen, which would make the arithmetic answer
/// confidently wrong about every sample gathered before the change.
pub fn span_label(readings: &[Reading], plot: Plot, width: u16) -> (label: Option<String>)
    ensures
        text_view(label) == span_of(readings@, plot, width),
{
    let room: usize = Graph::capacity(plot, width);
    let n: usize = if readings.len() < room {
        readings.len()
    } else {
        room
    };
    if n < 2 {
        return None;
    }
    let first: u64 = readings[readings.len() - n].at;
    let last: u64 = readings[readings.len() - 1].at;
    let nanos: u64 = if last > first {
        last - first
    } else {
        0
    };
    let whole: u64 = nanos / SECOND;
    let rest: u64 = nanos % SECOND;
    let off: u64 = if rest < HALF_SECOND {
        HALF_SECOND - rest
    } else {
        rest - HALF_SECOND
    };
    let halfway: bool = off as u128 * 0x1000_0000_0000 < 1_953_125 * leading_power_of(whole) as u128;
    let seconds: u64 = if halfway {
        whole + whole % 2
    } else if rest > HALF_SECOND {
        whole + 1
    } else {
        whole
    };
    let mut label = "-".to_owned();
    push_decimal(&mut label, seconds);
    label.append("s");
    assert(label@ =~= "-"@ + decimal(seconds as nat) + "s"@);
    Some(label)
}

} // verus!
