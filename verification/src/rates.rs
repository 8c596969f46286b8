//! The refresh rates that the dashboard steps through.
//!
//! A rate is the time between two readings, in seconds, kept as the bits of a 64-bit
//! floating-point number: nothing here computes with it, and numbers that are not negative are
//! ordered as their bits are.
use vstd::prelude::*;

verus! {

/// A number of seconds: the bits of a 64-bit floating-point number.
#[derive(Debug, Clone, Copy, PartialEq, Eq, Structural)]
pub struct Seconds {
    pub bits: u64,
}

/// How many rates there are to step through.
pub const RUNGS: usize = 7;

/// The rates to step through, fastest first: a quarter second, a half, one, two, three, five and
/// ten seconds.
///
/// Faster than a quarter second and the counters are mostly measuring the runtime's own timer;
/// slower than ten seconds and the graphs stop reading as live.
pub open spec fn rung(i: int) -> Seconds {
    if i <= 0 {
        Seconds { bits: 0x3FD0_0000_0000_0000 }
    } else if i == 1 {
        Seconds { bits: 0x3FE0_0000_0000_0000 }
    } else if i == 2 {
        Seconds { bits: 0x3FF0_0000_0000_0000 }
    } else if i == 3 {
        Seconds { bits: 0x4000_0000_0000_0000 }
    } else if i == 4 {
        Seconds { bits: 0x4008_0000_0000_0000 }
    } else if i == 5 {
        Seconds { bits: 0x4014_0000_0000_0000 }
    } else {
        Seconds { bits: 0x4024_0000_0000_0000 }
    }
}

/// The rates of the ladder, fastest first.
pub fn intervals() -> (rates: [Seconds; 7])
    ensures
        forall|i: int| 0 <= i < RUNGS ==> #[trigger] rates@[i] == rung(i),
{
    [
        Seconds { bits: 0x3FD0_0000_0000_0000 },
        Seconds { bits: 0x3FE0_0000_0000_0000 },
        Seconds { bits: 0x3FF0_0000_0000_0000 },
        Seconds { bits: 0x4000_0000_0000_0000 },
        Seconds { bits: 0x4008_0000_0000_0000 },
        Seconds { bits: 0x4014_0000_0000_0000 },
        Seconds { bits: 0x4024_0000_0000_0000 },
    ]
}

/// The rung closest to a rate; the faster of two that are equally close.
///
/// Between two rungs it is the mean of the two that decides: 0.375, 0.75, 1.5, 2.5, 4 and 7.5.
/// What is negative is closest to the first rung. Distances are floating-point numbers too: above
/// two to the power of 55 and up to 56 those to the last two rungs round to the same one, and of
/// what exceeds two to the power of 57, and of what is no number, all rungs are equally far.
pub open spec fn nearest_rung(rate: Seconds) -> int {
    if rate.bits <= 0x3FD8_0000_0000_0000 {
        0
    } else if rate.bits <= 0x3FE8_0000_0000_0000 {
        1
    } else if rate.bits <= 0x3FF8_0000_0000_0000 {
        2
    } else if rate.bits <= 0x4004_0000_0000_0000 {
        3
    } else if rate.bits <= 0x4010_0000_0000_0000 {
        4
    } else if rate.bits <= 0x401E_0000_0000_0000 {
        5
    } else if rate.bits <= 0x4360_0000_0000_0000 {
        6
    } else if rate.bits <= 0x4370_0000_0000_0000 {
        5
    } else if rate.bits <= 0x4380_0000_0000_0000 {
        6
    } else {
        0
    }
}

/// The rung of the ladder closest to `rate`.
pub fn nearest_interval(rate: Seconds) -> (i: usize)
    ensures
        i == nearest_rung(rate),
        i < RUNGS,
{
    if rate.bits <= 0x3FD8_0000_0000_0000 {
        0
    } else if rate.bits <= 0x3FE8_0000_0000_0000 {
        1
    } else if rate.bits <= 0x3FF8_0000_0000_0000 {
        2
    } else if rate.bits <= 0x4004_0000_0000_0000 {
        3
    } else if rate.bits <= 0x4010_0000_0000_0000 {
        4
    } else if rate.bits <= 0x401E_0000_0000_0000 {
        5
    } else if rate.bits <= 0x4360_0000_0000_0000 {
        6
    } else if rate.bits <= 0x4370_0000_0000_0000 {
        5
    } else if rate.bits <= 0x4380_0000_0000_0000 {
        6
    } else {
        0
    }
}

/// One rung along the ladder from a rate, which need not be on it. The ladder ends at both ends.
pub open spec fn stepped(from: Seconds, faster: bool) -> Seconds {
    let current = nearest_rung(from);
    if faster {
        if current > 0 {
            rung(current - 1)
        } else {
            rung(0)
        }
    } else if current + 1 < RUNGS {
        rung(current + 1)
    } else {
        rung(RUNGS - 1)
    }
}

/// The rate that a step along the ladder asks for.
pub fn step(from: Seconds, faster: bool) -> (next: Seconds)
    ensures
        next == stepped(from, faster),
{
    let ladder = intervals();
    let current: usize = nearest_interval(from);
    if faster {
        ladder[if current > 0 {
            current - 1
        } else {
            0
        }]
    } else {
        ladder[if current + 1 < RUNGS {
            current + 1
        } else {
            RUNGS - 1
        }]
    }
}

/// Every rung is closest to itself, and a rung further along is slower.
pub proof fn the_ladder_ascends(i: int, j: int)
    requires
        0 <= i < RUNGS,
        0 <= j < RUNGS,
    ensures
        nearest_rung(rung(i)) == i,
        i < j <==> rung(i).bits < rung(j).bits,
{
}

/// A step leads to a rung, and the step back leads to where it started, unless it ended at an end
/// of the ladder.
pub proof fn a_step_is_undone_by_the_step_back(i: int, faster: bool)
    requires
        0 <= i < RUNGS,
        faster ==> i > 0,
        !faster ==> i + 1 < RUNGS,
    ensures
        stepped(stepped(rung(i), faster), !faster) == rung(i),
        faster ==> stepped(rung(i), faster).bits < rung(i).bits,
        !faster ==> stepped(rung(i), faster).bits > rung(i).bits,
{
}

/// At an end of the ladder a step further that way changes nothing.
pub proof fn the_ladder_ends()
    ensures
        stepped(rung(0), true) == rung(0),
        stepped(rung(RUNGS - 1), false) == rung(RUNGS - 1),
{
}

/// The nearest rung changes in the middle between two: at three eighths, three quarters, one and a
/// half, two and a half, four, and seven and a half seconds, each of which still counts as the
/// lower one.
pub proof fn rungs_change_in_the_middle(rate: Seconds)
    requires
        rate.bits <= 0x4360_0000_0000_0000,
    ensures
        nearest_rung(rate) <= 0 <==> rate.bits <= 0x3FD8_0000_0000_0000,
        nearest_rung(rate) <= 1 <==> rate.bits <= 0x3FE8_0000_0000_0000,
        nearest_rung(rate) <= 2 <==> rate.bits <= 0x3FF8_0000_0000_0000,
        nearest_rung(rate) <= 3 <==> rate.bits <= 0x4004_0000_0000_0000,
        nearest_rung(rate) <= 4 <==> rate.bits <= 0x4010_0000_0000_0000,
        nearest_rung(rate) <= 5 <==> rate.bits <= 0x401E_0000_0000_0000,
        0 <= nearest_rung(rate) <= 6,
{
}

} // verus!
