//! Colours.
//!
//! The background is deliberately left as the terminal's own: the monitor should sit inside the
//! user's colour scheme rather than paint over it, and that also makes light terminals work
//! without a second palette. Text and chrome therefore stick to the sixteen ANSI names, which the
//! terminal theme gets to define. The graphs are the exception (a ramp needs more colours than
//! that), so they carry their own RGB gradients, rendered at whatever depth the terminal has.
use vstd::prelude::*;

use super::gradient::{dimmed, lightened, Depth, Gradient, Rgb};
use super::graph::{next_plot, plot_word, Plot};

verus! {

/// A colour of the terminal.
#[derive(Debug, Clone, Copy, PartialEq, Eq, Structural)]
pub enum Color {
    /// Whatever the terminal writes in by default.
    Reset,
    Red,
    Green,
    Yellow,
    Cyan,
    DarkGray,
    Rgb(u8, u8, u8),
    /// An entry of the 256-colour palette.
    Indexed(u8),
}

/// Base colours for the generation bars, youngest to oldest: cyan, blue, violet, amber for the
/// large object heap and rose for the pinned one. Hue identifies the generation, so each bar's
/// ramp only varies brightness around its own colour.
pub open spec fn generation_colour(i: int) -> Rgb {
    if i == 0 {
        Rgb(0x22, 0xd3, 0xee)
    } else if i == 1 {
        Rgb(0x60, 0xa5, 0xfa)
    } else if i == 2 {
        Rgb(0xc0, 0x84, 0xfc)
    } else if i == 3 {
        Rgb(0xfb, 0xbf, 0x24)
    } else {
        Rgb(0xfb, 0x71, 0x85)
    }
}

#[derive(Debug, Clone, Copy)]
pub struct Theme {
    pub fg: Color,
    pub dim: Color,
    pub border: Color,
    pub title: Color,
    pub accent: Color,
    pub good: Color,
    pub warn: Color,
    pub bad: Color,
    /// CPU and anything else where more means hotter.
    pub cpu: Gradient,
    /// Memory. A different hue family from [`Theme::cpu`], so a glance tells the heap chart from
    /// the CPU chart without reading either title.
    pub heap: Gradient,
    /// Throughput: requests and other rates.
    pub rate: Gradient,
    pub generations: [Rgb; 5],
    pub plot: Plot,
    pub depth: Depth,
}

impl Theme {
    /// The theme on a terminal of some colour depth.
    pub fn new(depth: Depth) -> (theme: Self)
        ensures
            theme.fg == Color::Reset,
            theme.dim == Color::DarkGray,
            theme.border == Color::DarkGray,
            theme.title == Color::Cyan,
            theme.accent == Color::Cyan,
            theme.good == Color::Green,
            theme.warn == Color::Yellow,
            theme.bad == Color::Red,
            theme.cpu == (Gradient {
                low: Rgb(0x50, 0xf0, 0x95),
                mid: Rgb(0xf2, 0xe2, 0x66),
                high: Rgb(0xfa, 0x1e, 0x1e),
            }),
            theme.heap == (Gradient {
                low: Rgb(0x2d, 0xd4, 0xbf),
                mid: Rgb(0x3b, 0x82, 0xf6),
                high: Rgb(0xa8, 0x55, 0xf7),
            }),
            theme.rate == (Gradient {
                low: Rgb(0xa3, 0xe6, 0x35),
                mid: Rgb(0xfb, 0x92, 0x3c),
                high: Rgb(0xe1, 0x1d, 0x48),
            }),
            forall|i: int| 0 <= i < 5 ==> #[trigger] theme.generations@[i] == generation_colour(i),
            theme.plot == Plot::Braille,
            theme.depth == depth,
    {
        Theme {
            fg: Color::Reset,
            dim: Color::DarkGray,
            border: Color::DarkGray,
            title: Color::Cyan,
            accent: Color::Cyan,
            good: Color::Green,
            warn: Color::Yellow,
            bad: Color::Red,
            cpu: Gradient::flame(),
            heap: Gradient::cool(),
            rate: Gradient::rate(),
            generations: [
                Rgb(0x22, 0xd3, 0xee),
                Rgb(0x60, 0xa5, 0xfa),
                Rgb(0xc0, 0x84, 0xfc),
                Rgb(0xfb, 0xbf, 0x24),
                Rgb(0xfb, 0x71, 0x85),
            ],
            plot: Plot::default(),
            depth,
        }
    }

    /// The ramp for one generation bar: its own hue in the middle, darker below, lighter above.
    pub fn generation_gradient(&self, index: usize) -> (gradient: Gradient)
        ensures
            gradient.mid == self.generations@[index as int % 5],
            gradient.low == Rgb(
                dimmed(gradient.mid.0),
                dimmed(gradient.mid.1),
                dimmed(gradient.mid.2),
            ),
            gradient.high == Rgb(
                lightened(gradient.mid.0),
                lightened(gradient.mid.1),
                lightened(gradient.mid.2),
            ),
    {
        Gradient::around(self.generations[index % 5])
    }

    /// Cycle the graph glyph family.
    pub fn cycle_plot(&mut self)
        ensures
            *final(self) == (Theme { plot: next_plot(old(self).plot), ..*old(self) }),
    {
        self.plot = self.plot.next();
    }

    pub fn plot_name(&self) -> (name: &'static str)
        ensures
            name@ == plot_word(self.plot),
    {
        self.plot.name()
    }
}

} // verus!
