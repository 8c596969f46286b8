//! Colour ramps.
//!
//! The graphs colour every cell by how high up the plot it sits, so a quiet trace stays green and
//! a spike burns through amber into red. That needs many more colours than the sixteen ANSI names
//! the rest of the theme sticks to, so ramps are defined in RGB and rendered at whatever depth the
//! terminal actually has.
use vstd::prelude::*;

use super::theme::Color;
use crate::text::{contains_text, holds_text, same_but_for_case, same_ignoring_case};

verus! {

/// How many colours the terminal can show.
#[derive(Debug, Clone, Copy, PartialEq, Eq, Structural)]
pub enum Depth {
    /// 24-bit colour: ramps render exactly.
    True,
    /// The xterm 256-colour palette: ramps snap to the nearest entry.
    Ansi256,
}

impl Default for Depth {
    fn default() -> (depth: Self)
        ensures
            depth == Depth::True,
    {
        Depth::True
    }
}

/// Whether the environment claims 24-bit colour.
pub open spec fn claims_truecolor(colorterm: Option<Seq<char>>, term: Option<Seq<char>>) -> bool {
    ||| colorterm matches Some(value) && (same_but_for_case(value, "truecolor"@)
        || same_but_for_case(value, "24bit"@))
    ||| term matches Some(value) && (holds_text(value, "truecolor"@) || holds_text(
        value,
        "direct"@,
    ))
}

/// A text that may be absent.
pub open spec fn words(s: Option<&str>) -> Option<Seq<char>> {
    match s {
        Some(t) => Some(t@),
        None => None,
    }
}

impl Depth {
    /// What the environment claims this terminal can do.
    ///
    /// `COLORTERM` is the only variable terminals set at all consistently for 24-bit colour;
    /// `TERM` only says so on the handful of entries built with direct-colour support. Anything
    /// else is assumed to be 256-colour, which every terminal worth drawing on has had for
    /// decades, and which a ramp survives being quantised to.
    pub fn from_env(colorterm: Option<&str>, term: Option<&str>) -> (depth: Self)
        ensures
            depth == (if claims_truecolor(words(colorterm), words(term)) {
                Depth::True
            } else {
                Depth::Ansi256
            }),
    {
        let by_colorterm = match colorterm {
            Some(value) => same_ignoring_case(value, "truecolor") || same_ignoring_case(
                value,
                "24bit",
            ),
            None => false,
        };
        let by_term = match term {
            Some(value) => contains_text(value, "truecolor") || contains_text(value, "direct"),
            None => false,
        };
        if by_colorterm || by_term {
            Depth::True
        } else {
            Depth::Ansi256
        }
    }
}

#[derive(Debug, Clone, Copy, PartialEq, Eq, Structural)]
pub struct Rgb(pub u8, pub u8, pub u8);

/// The square of a difference.
pub open spec fn squared(a: int, b: int) -> int {
    (a - b) * (a - b)
}

/// The square of the distance between two colours.
pub open spec fn distance_between(a: Rgb, b: Rgb) -> int {
    squared(a.0 as int, b.0 as int) + squared(a.1 as int, b.1 as int) + squared(
        a.2 as int,
        b.2 as int,
    )
}

/// The six values the xterm colour cube samples each channel at.
pub open spec fn cube_level(i: int) -> u8 {
    if i <= 0 {
        0
    } else if i == 1 {
        95
    } else if i == 2 {
        135
    } else if i == 3 {
        175
    } else if i == 4 {
        215
    } else {
        255
    }
}

/// Which of the six values is closest to a channel; the smaller of two that are equally close.
pub open spec fn nearest_level(v: u8) -> int {
    if v <= 47 {
        0
    } else if v <= 115 {
        1
    } else if v <= 155 {
        2
    } else if v <= 195 {
        3
    } else if v <= 235 {
        4
    } else {
        5
    }
}

/// A colour of the cube.
pub open spec fn cube_colour(r: int, g: int, b: int) -> Rgb {
    Rgb(cube_level(r), cube_level(g), cube_level(b))
}

/// A colour of the grey ramp.
pub open spec fn grey_colour(i: int) -> Rgb {
    Rgb((8 + 10 * i) as u8, (8 + 10 * i) as u8, (8 + 10 * i) as u8)
}

/// The sum of a colour's channels.
pub open spec fn channel_sum(c: Rgb) -> int {
    c.0 + c.1 + c.2
}

/// Which grey of the ramp is closest to a colour.
pub open spec fn nearest_grey(c: Rgb) -> int {
    let average = channel_sum(c) / 3;
    if average < 3 {
        0
    } else if (average - 3) / 10 > 23 {
        23
    } else {
        (average - 3) / 10
    }
}

/// The colour of the cube closest to a colour.
pub open spec fn nearest_cube_colour(c: Rgb) -> Rgb {
    cube_colour(nearest_level(c.0), nearest_level(c.1), nearest_level(c.2))
}

/// Whether a grey is closer to a colour than anything in the cube is.
pub open spec fn is_greyer(c: Rgb) -> bool {
    distance_between(grey_colour(nearest_grey(c)), c) < distance_between(nearest_cube_colour(c), c)
}

/// The entry of the xterm-256 palette closest to a colour: the cube begins at 16, red changing
/// slowest, and the grey ramp at 232.
pub open spec fn palette_entry(c: Rgb) -> int {
    if is_greyer(c) {
        232 + nearest_grey(c)
    } else {
        16 + 36 * nearest_level(c.0) + 6 * nearest_level(c.1) + nearest_level(c.2)
    }
}

/// The colour of an entry of the palette, from 16 on.
pub open spec fn palette_colour(entry: int) -> Rgb {
    if entry >= 232 {
        grey_colour(entry - 232)
    } else {
        cube_colour((entry - 16) / 36, (entry - 16) / 6 % 6, (entry - 16) % 6)
    }
}

fn level(v: u8) -> (i: u8)
    ensures
        i == nearest_level(v),
        i <= 5,
{
    if v <= 47 {
        0
    } else if v <= 115 {
        1
    } else if v <= 155 {
        2
    } else if v <= 195 {
        3
    } else if v <= 235 {
        4
    } else {
        5
    }
}

fn level_value(i: u8) -> (v: u8)
    ensures
        v == cube_level(i as int),
{
    match i {
        0 => 0,
        1 => 95,
        2 => 135,
        3 => 175,
        4 => 215,
        _ => 255,
    }
}

fn square(a: u8, b: u8) -> (d: i32)
    ensures
        d == squared(a as int, b as int),
        0 <= d <= 65025,
{
    let d: i32 = a as i32 - b as i32;
    assert(0 <= d * d <= 65025) by (nonlinear_arith)
        requires
            -255 <= d <= 255,
    ;
    d * d
}

impl Rgb {
    /// Squared distance, for picking the closest palette entry.
    pub fn distance(self, other: Self) -> (d: i32)
        ensures
            d == distance_between(self, other),
    {
        square(self.0, other.0) + square(self.1, other.1) + square(self.2, other.2)
    }

    /// The nearest xterm-256 entry, considering both the colour cube and the grey ramp.
    ///
    /// The grey ramp matters: the cube's darkest non-black step is 95, so quantising a near-black
    /// to the cube alone would brighten it hard enough to be visible as a band.
    pub fn to_ansi256(self) -> (entry: u8)
        ensures
            entry == palette_entry(self),
    {
        let r: u8 = level(self.0);
        let g: u8 = level(self.1);
        let b: u8 = level(self.2);
        let cube = Rgb(level_value(r), level_value(g), level_value(b));

        let average: u32 = (self.0 as u32 + self.1 as u32 + self.2 as u32) / 3;
        let grey_index: u8 = if average < 3 {
            0
        } else if (average - 3) / 10 > 23 {
            23
        } else {
            ((average - 3) / 10) as u8
        };
        let grey_value: u8 = 8 + 10 * grey_index;
        let grey = Rgb(grey_value, grey_value, grey_value);

        if grey.distance(self) < cube.distance(self) {
            232 + grey_index
        } else {
            16 + (36 * r + 6 * g + b)
        }
    }

    /// The colour as a terminal of some depth shows it.
    pub fn to_color(self, depth: Depth) -> (color: Color)
        ensures
            color == (match depth {
                Depth::True => Color::Rgb(self.0, self.1, self.2),
                Depth::Ansi256 => Color::Indexed(palette_entry(self) as u8),
            }),
    {
        match depth {
            Depth::True => Color::Rgb(self.0, self.1, self.2),
            Depth::Ansi256 => Color::Indexed(self.to_ansi256()),
        }
    }
}

/// A three-stop ramp, coolest at the base and hottest at the peak.
#[derive(Debug, Clone, Copy, PartialEq, Eq, Structural)]
pub struct Gradient {
    pub low: Rgb,
    pub mid: Rgb,
    pub high: Rgb,
}

/// A channel at 45 percent of its brightness, to the nearest whole number.
pub open spec fn dimmed(v: u8) -> u8 {
    ((45 * v + 50) / 100) as u8
}

/// A channel 35 percent of the way to white, to the nearest whole number.
pub open spec fn lightened(v: u8) -> u8 {
    ((100 * v + 35 * (255 - v) + 50) / 100) as u8
}

fn dim(v: u8) -> (d: u8)
    ensures
        d == dimmed(v),
        d <= v,
{
    ((45 * v as u32 + 50) / 100) as u8
}

fn lighten(v: u8) -> (l: u8)
    ensures
        l == lightened(v),
        l >= v,
{
    ((100 * v as u32 + 35 * (255 - v as u32) + 50) / 100) as u8
}

impl Gradient {
    pub fn new(low: Rgb, mid: Rgb, high: Rgb) -> (gradient: Self)
        ensures
            gradient == (Gradient { low, mid, high }),
    {
        Gradient { low, mid, high }
    }

    /// Build a ramp around one colour: dimmed at the base, the colour itself in the middle,
    /// lightened at the peak. Used where the hue has to identify something (the generation bars),
    /// so the ramp can only vary brightness.
    pub fn around(base: Rgb) -> (gradient: Self)
        ensures
            gradient.mid == base,
            gradient.low == Rgb(dimmed(base.0), dimmed(base.1), dimmed(base.2)),
            gradient.high == Rgb(lightened(base.0), lightened(base.1), lightened(base.2)),
    {
        Gradient::new(
            Rgb(dim(base.0), dim(base.1), dim(base.2)),
            base,
            Rgb(lighten(base.0), lighten(base.1), lighten(base.2)),
        )
    }

    /// CPU and anything else where more means hotter.
    pub fn flame() -> (gradient: Self)
        ensures
            gradient == (Gradient {
                low: Rgb(0x50, 0xf0, 0x95),
                mid: Rgb(0xf2, 0xe2, 0x66),
                high: Rgb(0xfa, 0x1e, 0x1e),
            }),
    {
        Gradient::new(Rgb(0x50, 0xf0, 0x95), Rgb(0xf2, 0xe2, 0x66), Rgb(0xfa, 0x1e, 0x1e))
    }

    /// Memory. Deliberately a different hue family from [`Gradient::flame`] so a glance tells the
    /// heap chart from the CPU chart without reading either title.
    pub fn cool() -> (gradient: Self)
        ensures
            gradient == (Gradient {
                low: Rgb(0x2d, 0xd4, 0xbf),
                mid: Rgb(0x3b, 0x82, 0xf6),
                high: Rgb(0xa8, 0x55, 0xf7),
            }),
    {
        Gradient::new(Rgb(0x2d, 0xd4, 0xbf), Rgb(0x3b, 0x82, 0xf6), Rgb(0xa8, 0x55, 0xf7))
    }

    /// Throughput: requests and other rates.
    pub fn rate() -> (gradient: Self)
        ensures
            gradient == (Gradient {
                low: Rgb(0xa3, 0xe6, 0x35),
                mid: Rgb(0xfb, 0x92, 0x3c),
                high: Rgb(0xe1, 0x1d, 0x48),
            }),
    {
        Gradient::new(Rgb(0xa3, 0xe6, 0x35), Rgb(0xfb, 0x92, 0x3c), Rgb(0xe1, 0x1d, 0x48))
    }
}

// ---------------------------------------------------------------------------------------------
// The palette

/// Of two numbers the one that is no further from a third has the smaller square.
proof fn closer_is_smaller(a: int, b: int, v: int)
    requires
        -(if b >= v {
            b - v
        } else {
            v - b
        }) <= a - v <= (if b >= v {
            b - v
        } else {
            v - b
        }),
    ensures
        squared(a, v) <= squared(b, v),
{
    let x = a - v;
    let y = b - v;
    assert(x * x <= y * y) by (nonlinear_arith)
        requires
            y >= 0 ==> -y <= x <= y,
            y < 0 ==> y <= x <= -y,
    ;
}

/// Each channel is quantised to the closest of the cube's six values.
proof fn level_is_nearest(v: u8, i: int)
    requires
        0 <= i < 6,
    ensures
        squared(cube_level(nearest_level(v)) as int, v as int) <= squared(
            cube_level(i) as int,
            v as int,
        ),
{
    closer_is_smaller(cube_level(nearest_level(v)) as int, cube_level(i) as int, v as int);
}

/// How a grey's distance to a colour compares to another's.
proof fn greys_compared(c: Rgb, i: int, j: int)
    requires
        0 <= i < 24,
        0 <= j < 24,
    ensures
        distance_between(grey_colour(j), c) - distance_between(grey_colour(i), c) == (10 * (j - i))
            * (3 * (16 + 10 * (i + j)) - 2 * channel_sum(c)),
{
    let p = 8 + 10 * i;
    let q = 8 + 10 * j;
    let (x, y, z) = (c.0 as int, c.1 as int, c.2 as int);
    assert(((q - x) * (q - x) + (q - y) * (q - y) + (q - z) * (q - z)) - ((p - x) * (p - x) + (p
        - y) * (p - y) + (p - z) * (p - z)) == (q - p) * (3 * (p + q) - 2 * (x + y + z)))
        by (nonlinear_arith);
    assert((q - p) * (3 * (p + q) - 2 * (x + y + z)) == (10 * (j - i)) * (3 * (16 + 10 * (i + j))
        - 2 * channel_sum(c)));
}

/// No other grey of the ramp is closer than the one that is picked.
proof fn grey_is_nearest(c: Rgb, j: int)
    requires
        0 <= j < 24,
    ensures
        distance_between(grey_colour(nearest_grey(c)), c) <= distance_between(grey_colour(j), c),
{
    let i = nearest_grey(c);
    let sum = channel_sum(c);
    greys_compared(c, i, j);
    let d = 10 * (j - i);
    let e = 3 * (16 + 10 * (i + j)) - 2 * sum;
    if j > i {
        assert(e >= 0);
        assert(d * e >= 0) by (nonlinear_arith)
            requires
                d >= 0,
                e >= 0,
        ;
    } else if j < i {
        assert(e <= 0);
        assert(d * e >= 0) by (nonlinear_arith)
            requires
                d <= 0,
                e <= 0,
        ;
    }
}

/// A colour is shown as an entry of the cube or the grey ramp, never as one of the sixteen colours
/// that the terminal's own theme defines.
pub proof fn entries_are_inside_the_palette(c: Rgb)
    ensures
        16 <= palette_entry(c) <= 255,
{
}

/// No entry of the palette, from 16 on, is closer to a colour than the one it is shown as.
pub proof fn the_nearest_entry_is_shown(c: Rgb, entry: int)
    requires
        16 <= entry <= 255,
    ensures
        distance_between(palette_colour(palette_entry(c)), c) <= distance_between(
            palette_colour(entry),
            c,
        ),
{
    let (r, g, b) = (nearest_level(c.0), nearest_level(c.1), nearest_level(c.2));
    let shown = 36 * r + 6 * g + b;
    assert(shown / 36 == r && shown / 6 % 6 == g && shown % 6 == b);
    if entry >= 232 {
        grey_is_nearest(c, entry - 232);
    } else {
        let (i, j, k) = ((entry - 16) / 36, (entry - 16) / 6 % 6, (entry - 16) % 6);
        level_is_nearest(c.0, i);
        level_is_nearest(c.1, j);
        level_is_nearest(c.2, k);
        assert(distance_between(nearest_cube_colour(c), c) <= distance_between(
            cube_colour(i, j, k),
            c,
        ));
    }
}

} // verus!
