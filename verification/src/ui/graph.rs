//! btop-style filled graphs and bars.
//!
//! A line chart interpolates between samples, which invents readings the counter never reported;
//! and the point of these graphs is that the colour changes with height: quiet traces stay cool,
//! spikes burn through the ramp into red. One sample per sub-column, filled from the baseline, is
//! both honest about what arrived and the thing that makes the plot look like btop.
use vstd::prelude::*;

verus! {

/// The unfilled remainder of a meter.
pub const METER_EMPTY: char = '\u{2591}';

/// The glyph family a graph plots with.
#[derive(Debug, Clone, Copy, PartialEq, Eq, Structural)]
pub enum Plot {
    /// Braille dots: two samples per cell at 2x4 sub-cell resolution. The densest option, and the
    /// one with by far the widest font support, so it is the default.
    Braille,
    /// Octants: the same 2x4 resolution packed solid, with no gaps between cells. Better looking
    /// where the font has the glyphs, which is a much shorter list: Unicode 16 added these.
    Octant,
    /// Solid eighth-blocks: one chunky bar per sample. Coarser, but it renders anywhere and reads
    /// clearly on a small terminal.
    Block,
}

impl Default for Plot {
    fn default() -> (plot: Self)
        ensures
            plot == Plot::Braille,
    {
        Plot::Braille
    }
}

/// The family after another.
pub open spec fn next_plot(plot: Plot) -> Plot {
    match plot {
        Plot::Braille => Plot::Block,
        Plot::Block => Plot::Octant,
        Plot::Octant => Plot::Braille,
    }
}

/// What a family is called.
pub open spec fn plot_word(plot: Plot) -> Seq<char> {
    match plot {
        Plot::Braille => "braille"@,
        Plot::Octant => "octant"@,
        Plot::Block => "block"@,
    }
}

/// Samples drawn per terminal column.
pub open spec fn samples_in_cell(plot: Plot) -> int {
    match plot {
        Plot::Block => 1,
        Plot::Braille | Plot::Octant => 2,
    }
}

/// Vertical resolution within one cell.
pub open spec fn rows_in_cell(plot: Plot) -> int {
    match plot {
        Plot::Block => 8,
        Plot::Braille | Plot::Octant => 4,
    }
}

impl Plot {
    /// Samples drawn per terminal column.
    pub fn samples_per_cell(self) -> (n: usize)
        ensures
            n == samples_in_cell(self),
    {
        match self {
            Plot::Block => 1,
            Plot::Braille | Plot::Octant => 2,
        }
    }

    /// Vertical resolution within one cell.
    pub fn rows_per_cell(self) -> (n: usize)
        ensures
            n == rows_in_cell(self),
    {
        match self {
            Plot::Block => 8,
            Plot::Braille | Plot::Octant => 4,
        }
    }

    pub fn next(self) -> (plot: Self)
        ensures
            plot == next_plot(self),
    {
        match self {
            Plot::Braille => Plot::Block,
            Plot::Block => Plot::Octant,
            Plot::Octant => Plot::Braille,
        }
    }

    pub fn name(self) -> (name: &'static str)
        ensures
            name@ == plot_word(self),
    {
        match self {
            Plot::Braille => "braille",
            Plot::Octant => "octant",
            Plot::Block => "block",
        }
    }
}

/// Cycling leads through every family and back to the start.
pub proof fn cycling_returns_to_the_start(plot: Plot)
    ensures
        next_plot(plot) != plot,
        next_plot(next_plot(plot)) != plot,
        next_plot(next_plot(next_plot(plot))) == plot,
{
}

// ---------------------------------------------------------------------------------------------
// Glyphs

/// A block that fills a cell from the bottom by some eighths.
pub open spec fn eighth_block(n: int) -> char {
    if n <= 0 {
        ' '
    } else if n >= 8 {
        '\u{2588}'
    } else {
        (0x2580 + n) as char
    }
}

fn eighths(n: usize) -> (c: char)
    ensures
        c == eighth_block(n as int),
{
    match n {
        0 => ' ',
        1 => '\u{2581}',
        2 => '\u{2582}',
        3 => '\u{2583}',
        4 => '\u{2584}',
        5 => '\u{2585}',
        6 => '\u{2586}',
        7 => '\u{2587}',
        _ => '\u{2588}',
    }
}

/// Whether the bit of a pattern is set, counting from the lowest.
pub open spec fn bit(pattern: u8, n: u8) -> bool {
    (pattern >> n) & 1 == 1
}

/// The braille cell with exactly the dots of a pattern, which lists them row by row from the top.
/// Unicode numbers the dots of the left column first, then those of the right, the lowest row
/// last.
pub open spec fn braille_cell(pattern: u8) -> char {
    (0x2800 + (if bit(pattern, 0) {
        0x01int
    } else {
        0
    }) + (if bit(pattern, 1) {
        0x08int
    } else {
        0
    }) + (if bit(pattern, 2) {
        0x02int
    } else {
        0
    }) + (if bit(pattern, 3) {
        0x10int
    } else {
        0
    }) + (if bit(pattern, 4) {
        0x04int
    } else {
        0
    }) + (if bit(pattern, 5) {
        0x20int
    } else {
        0
    }) + (if bit(pattern, 6) {
        0x40int
    } else {
        0
    }) + (if bit(pattern, 7) {
        0x80int
    } else {
        0
    })) as char
}

/// The entry of ratatui's table of braille symbols for a pattern: the table lists them by bit
/// pattern, row by row.
#[verifier::external_body]
fn braille(pattern: u8) -> (c: char)
    ensures
        c == braille_cell(pattern),
{
    ratatui::symbols::braille::BRAILLE[pattern as usize]
}

/// The entry of ratatui's table of octants for a pattern.
pub uninterp spec fn octant_cell(pattern: u8) -> char;

/// The entry of ratatui's table of octant symbols for a pattern: the table lists them by bit
/// pattern, row by row. Which code point an octant has follows no rule; of the table only the
/// empty and the full cell are spelled out here.
#[verifier::external_body]
fn octant(pattern: u8) -> (c: char)
    ensures
        c == octant_cell(pattern),
        pattern == 0 ==> c == ' ',
        pattern == 255 ==> c == '\u{2588}',
{
    ratatui::symbols::pixel::OCTANTS[pattern as usize]
}

// ---------------------------------------------------------------------------------------------
// Graphs

/// The height of every sub-column: the newest sample stands in the last one, and a shortfall
/// leaves sub-columns empty on the left. Samples that there is no room for are left out.
pub open spec fn column_heights(heights: Seq<usize>, columns: nat) -> Seq<int> {
    Seq::new(
        columns,
        |k: int|
            {
                let i = heights.len() - columns + k;
                if i >= 0 {
                    heights[i] as int
                } else {
                    0
                }
            },
    )
}

/// Whether a dot of a cell is filled. Dots are counted row by row from the top, and the fill is
/// measured from the bottom of a graph `sub_rows` high.
pub open spec fn dot(columns: Seq<int>, sub_rows: int, x: int, y: int, n: int) -> bool {
    columns[2 * x + n % 2] >= sub_rows - (4 * y + n / 2)
}

/// The dots of a cell, each a bit.
pub open spec fn dots(columns: Seq<int>, sub_rows: int, x: int, y: int) -> u8 {
    (if dot(columns, sub_rows, x, y, 0) {
        0x01u8
    } else {
        0
    }) | (if dot(columns, sub_rows, x, y, 1) {
        0x02u8
    } else {
        0
    }) | (if dot(columns, sub_rows, x, y, 2) {
        0x04u8
    } else {
        0
    }) | (if dot(columns, sub_rows, x, y, 3) {
        0x08u8
    } else {
        0
    }) | (if dot(columns, sub_rows, x, y, 4) {
        0x10u8
    } else {
        0
    }) | (if dot(columns, sub_rows, x, y, 5) {
        0x20u8
    } else {
        0
    }) | (if dot(columns, sub_rows, x, y, 6) {
        0x40u8
    } else {
        0
    }) | (if dot(columns, sub_rows, x, y, 7) {
        0x80u8
    } else {
        0
    })
}

/// What stands in a cell, counted from the top left. Empty cells are left alone, so labels drawn
/// under the graph survive.
pub open spec fn cell_at(plot: Plot, columns: Seq<int>, height: int, x: int, y: int) -> Option<
    char,
> {
    match plot {
        Plot::Block => {
            let filled = columns[x] - (height - y - 1) * 8;
            if filled > 0 {
                Some(eighth_block(filled))
            } else {
                None
            }
        },
        Plot::Braille => {
            let pattern = dots(columns, height * 4, x, y);
            if pattern == 0 {
                None
            } else {
                Some(braille_cell(pattern))
            }
        },
        Plot::Octant => {
            let pattern = dots(columns, height * 4, x, y);
            if pattern == 0 {
                None
            } else {
                Some(octant_cell(pattern))
            }
        },
    }
}

/// A filled history graph: newest sample at the right edge, oldest to the left.
///
/// Anchoring "now" to the right edge rather than stretching the samples across the width means a
/// half-filled graph reads as history still accumulating, and the time labels stay true throughout.
pub struct Graph<'a> {
    /// How high each sample reaches, in sub-rows: as many to a cell as the plot has. Oldest first.
    pub heights: &'a [usize],
    pub plot: Plot,
    pub width: u16,
    pub height: u16,
}

impl<'a> Graph<'a> {
    /// How many samples fit across `width` columns.
    pub fn capacity(plot: Plot, width: u16) -> (n: usize)
        ensures
            n == width * samples_in_cell(plot),
    {
        match plot {
            Plot::Block => width as usize,
            Plot::Braille | Plot::Octant => 2 * width as usize,
        }
    }

    /// The height of the sub-column at place `k` of `columns`.
    fn column(&self, columns: usize, k: usize) -> (h: usize)
        requires
            k < columns,
        ensures
            h == column_heights(self.heights@, columns as nat)[k as int],
    {
        let behind: usize = columns - k;
        if self.heights.len() >= behind {
            self.heights[self.heights.len() - behind]
        } else {
            0
        }
    }

    fn is_filled(&self, columns: usize, sub_rows: usize, x: u16, y: u16, n: u8) -> (yes: bool)
        requires
            n < 8,
            self.plot != Plot::Block,
            x < self.width,
            y < self.height,
            columns == 2 * self.width,
            sub_rows == 4 * self.height,
        ensures
            yes == dot(
                column_heights(self.heights@, columns as nat),
                sub_rows as int,
                x as int,
                y as int,
                n as int,
            ),
    {
        let row: usize = 4 * y as usize + (n / 2) as usize;
        self.column(columns, 2 * x as usize + (n % 2) as usize) >= sub_rows - row
    }

    /// The dots of one cell, in the row-major order both symbol tables are indexed by.
    fn pattern(&self, columns: usize, sub_rows: usize, x: u16, y: u16) -> (pattern: u8)
        requires
            self.plot != Plot::Block,
            x < self.width,
            y < self.height,
            columns == 2 * self.width,
            sub_rows == 4 * self.height,
        ensures
            pattern == dots(
                column_heights(self.heights@, columns as nat),
                sub_rows as int,
                x as int,
                y as int,
            ),
    {
        (if self.is_filled(columns, sub_rows, x, y, 0) {
            0x01u8
        } else {
            0
        }) | (if self.is_filled(columns, sub_rows, x, y, 1) {
            0x02u8
        } else {
            0
        }) | (if self.is_filled(columns, sub_rows, x, y, 2) {
            0x04u8
        } else {
            0
        }) | (if self.is_filled(columns, sub_rows, x, y, 3) {
            0x08u8
        } else {
            0
        }) | (if self.is_filled(columns, sub_rows, x, y, 4) {
            0x10u8
        } else {
            0
        }) | (if self.is_filled(columns, sub_rows, x, y, 5) {
            0x20u8
        } else {
            0
        }) | (if self.is_filled(columns, sub_rows, x, y, 6) {
            0x40u8
        } else {
            0
        }) | (if self.is_filled(columns, sub_rows, x, y, 7) {
            0x80u8
        } else {
            0
        })
    }

    /// The glyph for one cell, or `None` where nothing is filled.
    pub fn symbol(&self, cell_x: u16, cell_y: u16) -> (symbol: Option<char>)
        requires
            cell_x < self.width,
            cell_y < self.height,
        ensures
            symbol == cell_at(
                self.plot,
                column_heights(
                    self.heights@,
                    (self.width * samples_in_cell(self.plot)) as nat,
                ),
                self.height as int,
                cell_x as int,
                cell_y as int,
            ),
    {
        let columns: usize = Graph::capacity(self.plot, self.width);
        match self.plot {
            Plot::Block => {
                let base: usize = (self.height as usize - cell_y as usize - 1) * 8;
                let height: usize = self.column(columns, cell_x as usize);
                if height > base {
                    Some(eighths(height - base))
                } else {
                    None
                }
            },
            Plot::Braille => {
                let pattern: u8 = self.pattern(columns, 4 * self.height as usize, cell_x, cell_y);
                if pattern == 0 {
                    None
                } else {
                    Some(braille(pattern))
                }
            },
            Plot::Octant => {
                let pattern: u8 = self.pattern(columns, 4 * self.height as usize, cell_x, cell_y);
                if pattern == 0 {
                    None
                } else {
                    Some(octant(pattern))
                }
            },
        }
    }

    /// The whole graph, row by row from the top.
    pub fn render(&self) -> (rows: Vec<Vec<Option<char>>>)
        ensures
            rows@.len() == self.height,
            forall|y: int|
                0 <= y < self.height ==> (#[trigger] rows@[y])@ == Seq::new(
                    self.width as nat,
                    |x: int|
                        cell_at(
                            self.plot,
                            column_heights(
                                self.heights@,
                                (self.width * samples_in_cell(self.plot)) as nat,
                            ),
                            self.height as int,
                            x,
                            y,
                        ),
                ),
    {
        let ghost columns = column_heights(
            self.heights@,
            (self.width * samples_in_cell(self.plot)) as nat,
        );
        let mut rows: Vec<Vec<Option<char>>> = Vec::new();
        let mut y: u16 = 0;
        while y < self.height
            invariant
                y <= self.height,
                rows@.len() == y,
                columns == column_heights(
                    self.heights@,
                    (self.width * samples_in_cell(self.plot)) as nat,
                ),
                forall|v: int|
                    0 <= v < y ==> (#[trigger] rows@[v])@ == Seq::new(
                        self.width as nat,
                        |x: int| cell_at(self.plot, columns, self.height as int, x, v),
                    ),
            decreases self.height - y,
        {
            let mut row: Vec<Option<char>> = Vec::new();
            let mut x: u16 = 0;
            while x < self.width
                invariant
                    x <= self.width,
                    y < self.height,
                    row@.len() == x,
                    columns == column_heights(
                        self.heights@,
                        (self.width * samples_in_cell(self.plot)) as nat,
                    ),
                    forall|u: int|
                        0 <= u < x ==> #[trigger] row@[u] == cell_at(
                            self.plot,
                            columns,
                            self.height as int,
                            u,
                            y as int,
                        ),
                decreases self.width - x,
            {
                row.push(self.symbol(x, y));
                x += 1;
            }
            assert(row@ =~= Seq::new(
                self.width as nat,
                |x: int| cell_at(self.plot, columns, self.height as int, x, y as int),
            ));
            rows.push(row);
            y += 1;
        }
        rows
    }
}

/// The cells of a bar that fills its area from the bottom up to `filled` eighths, from the top
/// down. The rest of its column shows as the track.
pub open spec fn bar_cell(filled: int, height: int, y: int) -> char {
    let here = filled - (height - y - 1) * 8;
    if here > 0 {
        eighth_block(here)
    } else {
        METER_EMPTY
    }
}

/// What stands in row `y` of a vertical bar, from the top, and whether it is part of the bar
/// rather than of its track.
///
/// The track shades the unfilled remainder. Bars in a group share a scale, so a small one is a
/// sliver at the bottom of its column; without the column drawn behind it, that sliver reads as a
/// stray rule rather than as a bar next to much larger neighbours.
pub fn vertical_bar(filled: usize, height: u16, y: u16) -> (cell: (char, bool))
    requires
        y < height,
    ensures
        cell.0 == bar_cell(filled as int, height as int, y as int),
        cell.1 == (filled > (height - y - 1) * 8),
{
    let base: usize = (height as usize - y as usize - 1) * 8;
    if filled > base {
        (eighths(filled - base), true)
    } else {
        (METER_EMPTY, false)
    }
}

/// What stands in column `x` of a horizontal meter that is filled up to `filled`, and whether it
/// is filled.
pub fn meter(filled: usize, x: usize) -> (cell: (char, bool))
    ensures
        cell.1 == (x < filled),
        cell.0 == (if x < filled {
            eighth_block(8)
        } else {
            METER_EMPTY
        }),
{
    if x < filled {
        (eighths(8), true)
    } else {
        (METER_EMPTY, false)
    }
}

// ---------------------------------------------------------------------------------------------
// What holds of graphs

/// The bits of a cell's dots are exactly its dots.
pub proof fn dots_are_bits(columns: Seq<int>, sub_rows: int, x: int, y: int, n: u8)
    requires
        n < 8,
    ensures
        bit(dots(columns, sub_rows, x, y), n) == dot(columns, sub_rows, x, y, n as int),
{
    let a = dot(columns, sub_rows, x, y, 0);
    let b = dot(columns, sub_rows, x, y, 1);
    let c = dot(columns, sub_rows, x, y, 2);
    let d = dot(columns, sub_rows, x, y, 3);
    let e = dot(columns, sub_rows, x, y, 4);
    let f = dot(columns, sub_rows, x, y, 5);
    let g = dot(columns, sub_rows, x, y, 6);
    let h = dot(columns, sub_rows, x, y, 7);
    let p = dots(columns, sub_rows, x, y);
    assert(((p >> 0u8) & 1 == 1) == a && ((p >> 1u8) & 1 == 1) == b && ((p >> 2u8) & 1 == 1) == c
        && ((p >> 3u8) & 1 == 1) == d && ((p >> 4u8) & 1 == 1) == e && ((p >> 5u8) & 1 == 1) == f
        && ((p >> 6u8) & 1 == 1) == g && ((p >> 7u8) & 1 == 1) == h) by (bit_vector)
        requires
            p == (if a {
                0x01u8
            } else {
                0
            }) | (if b {
                0x02u8
            } else {
                0
            }) | (if c {
                0x04u8
            } else {
                0
            }) | (if d {
                0x08u8
            } else {
                0
            }) | (if e {
                0x10u8
            } else {
                0
            }) | (if f {
                0x20u8
            } else {
                0
            }) | (if g {
                0x40u8
            } else {
                0
            }) | (if h {
                0x80u8
            } else {
                0
            }),
    ;
}

/// History is anchored to the right edge: the newest sample stands in the last sub-column, and
/// each older one just left of the next.
pub proof fn history_is_anchored_right(heights: Seq<usize>, columns: nat, age: int)
    requires
        0 <= age < columns,
    ensures
        column_heights(heights, columns)[columns - 1 - age] == (if age < heights.len() {
            heights[heights.len() - 1 - age] as int
        } else {
            0
        }),
{
}

/// A sample that reaches the top fills every cell of its column, and one of no height fills none.
pub proof fn full_and_empty_columns(plot: Plot, columns: Seq<int>, height: int, x: int, y: int)
    requires
        0 <= x,
        columns.len() == (x + 1) * samples_in_cell(plot),
        0 <= y < height,
    ensures
        (forall|k: int| 0 <= k < columns.len() ==> #[trigger] columns[k] <= 0) ==> cell_at(
            plot,
            columns,
            height,
            x,
            y,
        ) == None::<char>,
        (forall|k: int|
            0 <= k < columns.len() ==> #[trigger] columns[k] >= height * rows_in_cell(plot))
            ==> cell_at(plot, columns, height, x, y) == Some(
            match plot {
                Plot::Block => '\u{2588}',
                Plot::Braille => braille_cell(0xff),
                Plot::Octant => octant_cell(0xff),
            },
        ),
{
    assert((0u8 | 0u8 | 0u8 | 0u8 | 0u8 | 0u8 | 0u8 | 0u8) == 0u8) by (bit_vector);
    assert((0x01u8 | 0x02u8 | 0x04u8 | 0x08u8 | 0x10u8 | 0x20u8 | 0x40u8 | 0x80u8) == 0xffu8)
        by (bit_vector);
    if plot != Plot::Block {
        assert(columns.len() == 2 * x + 2);
        if forall|k: int| 0 <= k < columns.len() ==> #[trigger] columns[k] <= 0 {
            assert(columns[2 * x] <= 0 && columns[2 * x + 1] <= 0);
        }
        if forall|k: int| 0 <= k < columns.len() ==> #[trigger] columns[k] >= height * rows_in_cell(
            plot,
        ) {
            assert(columns[2 * x] >= height * 4 && columns[2 * x + 1] >= height * 4);
        }
    } else {
        assert(columns.len() == x + 1);
    }
}

} // verus!
