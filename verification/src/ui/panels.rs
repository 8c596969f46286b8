//! Reusable dashboard panels: where things stand in them, and what they list.
use vstd::prelude::*;

use crate::counters::catalog;
use crate::text::chars_of;

verus! {

/// A rectangle of the terminal, in cells.
#[derive(Debug, Clone, Copy, PartialEq, Eq, Structural)]
pub struct Area {
    pub x: u16,
    pub y: u16,
    pub width: u16,
    pub height: u16,
}

impl Area {
    /// Whether the area lies within what can be addressed.
    pub open spec fn wf(self) -> bool {
        self.x + self.width <= u16::MAX && self.y + self.height <= u16::MAX
    }

    /// Whether an area lies within this one.
    pub open spec fn holds(self, inner: Area) -> bool {
        &&& self.x <= inner.x
        &&& inner.x + inner.width <= self.x + self.width
        &&& self.y <= inner.y
        &&& inner.y + inner.height <= self.y + self.height
    }
}

/// The smaller of two numbers.
pub open spec fn lesser(a: int, b: int) -> int {
    if a < b {
        a
    } else {
        b
    }
}

/// A number less another, but no less than nothing.
pub open spec fn less(a: int, b: int) -> int {
    if a > b {
        a - b
    } else {
        0
    }
}

// ---------------------------------------------------------------------------------------------
// Lists of numbers

/// The length of the longest text.
pub open spec fn longest(texts: Seq<String>) -> nat
    decreases texts.len(),
{
    if texts.len() == 0 {
        0
    } else if texts.last()@.len() > longest(texts.drop_last()) {
        texts.last()@.len()
    } else {
        longest(texts.drop_last())
    }
}

/// How wide the column of values is: as wide as the longest, within bounds.
pub open spec fn values_width(values: Seq<String>) -> int {
    if values.len() == 0 {
        6
    } else if longest(values) < 4 {
        4
    } else if longest(values) > 14 {
        14
    } else {
        longest(values) as int
    }
}

/// How wide the value column of a list is.
///
/// It is sized to its content rather than fixed, so labels keep as much room as possible: a
/// truncated "Allocation ra" is worse than a narrow number column.
pub fn value_width(values: &Vec<String>) -> (w: u16)
    ensures
        w == values_width(values@),
{
    let mut most: usize = 0;
    let mut i: usize = 0;
    while i < values.len()
        invariant
            i <= values@.len(),
            most == longest(values@.take(i as int)),
        decreases values@.len() - i,
    {
        let letters = chars_of(values[i].as_str());
        let ghost before = values@.take(i as int);
        assert(values@.take(i + 1).drop_last() =~= before);
        if letters.len() > most {
            most = letters.len();
        }
        i += 1;
    }
    assert(values@.take(i as int) =~= values@);
    if values.len() == 0 {
        6
    } else if most < 4 {
        4
    } else if most > 14 {
        14
    } else {
        most as u16
    }
}

// ---------------------------------------------------------------------------------------------
// The generation bars

/// Rows the generation bars give up to the value and label beneath each bar.
pub const BAR_CAPTION_ROWS: u16 = 2;

/// Slot width at which each caption can carry its share of the heap as well as its size.
pub const SHARE_FITS_AT: u16 = 13;

/// How many generations there are, the large and the pinned object heap among them.
pub const GENERATIONS: u16 = 5;

/// Where a slot begins. Dividing by position rather than by a fixed width spreads the leftover
/// columns of an indivisible width across the slots instead of leaving them blank at the right
/// edge.
pub open spec fn slot_start(width: u16, i: int) -> int {
    width * i / GENERATIONS as int
}

/// A generation's place in the panel.
#[derive(Debug, Clone, Copy, PartialEq, Eq, Structural)]
pub struct Slot {
    /// Its share of the width, which the captions are centred in.
    pub x: u16,
    pub width: u16,
    /// Where its bar stands.
    pub bar: Area,
    pub value_y: u16,
    pub label_y: u16,
}

/// The slot of a generation in a panel.
pub open spec fn slot_of(inner: Area, i: int) -> Slot {
    let start = slot_start(inner.width, i);
    let width = slot_start(inner.width, i + 1) - start;
    let padding: int = if width >= 5 {
        1
    } else {
        0
    };
    Slot {
        x: (inner.x + start) as u16,
        width: width as u16,
        bar: Area {
            x: (inner.x + start + padding) as u16,
            y: inner.y,
            width: (width - 2 * padding) as u16,
            height: (inner.height - BAR_CAPTION_ROWS) as u16,
        },
        value_y: (inner.y + inner.height - 2) as u16,
        label_y: (inner.y + inner.height - 1) as u16,
    }
}

/// Whether a panel has room for bars at all.
pub open spec fn has_slots(inner: Area) -> bool {
    inner.height > BAR_CAPTION_ROWS && inner.width >= GENERATIONS
}

/// Where the generation bars stand: side by side, dividing the full width between them, so the
/// panel is as wide as whatever it has been given rather than leaving a gap.
pub fn generation_slots(inner: Area) -> (slots: Option<Vec<Slot>>)
    requires
        inner.wf(),
    ensures
        match slots {
            Some(slots) => has_slots(inner) && slots@ == Seq::new(
                GENERATIONS as nat,
                |i: int| slot_of(inner, i),
            ),
            None => !has_slots(inner),
        },
{
    if inner.height <= BAR_CAPTION_ROWS || inner.width < GENERATIONS {
        return None;
    }
    let mut slots: Vec<Slot> = Vec::new();
    let mut i: u32 = 0;
    while i < 5
        invariant
            i <= 5,
            inner.wf(),
            has_slots(inner),
            slots@.len() == i,
            forall|k: int| 0 <= k < i ==> #[trigger] slots@[k] == slot_of(inner, k),
        decreases 5 - i,
    {
        assert(inner.width * i <= 0x10000 * 5 && inner.width * (i + 1) <= 0x10000 * 5)
            by (nonlinear_arith)
            requires
                i < 5,
        ;
        let start: u32 = inner.width as u32 * i / 5;
        let end: u32 = inner.width as u32 * (i + 1) / 5;
        assert(start == slot_start(inner.width, i as int));
        assert(end == slot_start(inner.width, i + 1));
        assert(start <= end <= inner.width) by (nonlinear_arith)
            requires
                start == inner.width * i / 5,
                end == inner.width * (i + 1) / 5,
                i < 5,
        ;
        let width: u16 = (end - start) as u16;
        // A column of breathing room each side, once there is width to spare for it.
        let padding: u16 = if width >= 5 {
            1
        } else {
            0
        };
        slots.push(
            Slot {
                x: inner.x + start as u16,
                width,
                bar: Area {
                    x: inner.x + start as u16 + padding,
                    y: inner.y,
                    width: width - 2 * padding,
                    height: inner.height - BAR_CAPTION_ROWS,
                },
                value_y: inner.y + inner.height - 2,
                label_y: inner.y + inner.height - 1,
            },
        );
        i += 1;
    }
    assert(slots@ =~= Seq::new(GENERATIONS as nat, |i: int| slot_of(inner, i)));
    Some(slots)
}

/// Whether the captions carry shares: only of a heap that holds anything, and where every slot has
/// room. Deciding per slot would let a width that does not divide evenly give the share to
/// whichever slot got the spare column, which reads as a glitch rather than as a layout.
pub fn shows_shares(width: u16, holds_anything: bool) -> (yes: bool)
    ensures
        yes == (holds_anything && width / GENERATIONS >= SHARE_FITS_AT),
{
    holds_anything && width / GENERATIONS >= SHARE_FITS_AT
}

/// Where a text of some length begins if it is centred, or nothing if it does not fit.
pub fn centred(x: u16, width: u16, length: usize) -> (start: Option<u16>)
    requires
        x + width <= u16::MAX,
    ensures
        match start {
            Some(s) => length <= width && s == x + (width - length) / 2,
            None => length > width,
        },
{
    if length > width as usize {
        None
    } else {
        Some(x + (width - length as u16) / 2)
    }
}

/// The slots tile the panel: the first begins at its left edge, each begins where the one before
/// ends, and the last ends at its right edge. None is empty, and no two differ by more than one
/// column.
pub proof fn slots_tile_the_panel(inner: Area, i: int, j: int)
    requires
        inner.wf(),
        has_slots(inner),
        0 <= i < GENERATIONS,
        0 <= j < GENERATIONS,
    ensures
        slot_of(inner, 0).x == inner.x,
        i + 1 < GENERATIONS ==> slot_of(inner, i + 1).x == slot_of(inner, i).x + slot_of(
            inner,
            i,
        ).width,
        slot_of(inner, GENERATIONS - 1).x + slot_of(inner, GENERATIONS - 1).width == inner.x
            + inner.width,
        slot_of(inner, i).width >= 1,
        slot_of(inner, i).width <= slot_of(inner, j).width + 1,
        inner.holds(slot_of(inner, i).bar),
{
    let w = inner.width as int;
    assert(w * 0 / 5 == 0 && w * 5 / 5 == w);
    assert(w * 1 == w && w * 2 == w + w && w * 3 == w + w + w && w * 4 == w + w + w + w);
    assert(i == 0 || i == 1 || i == 2 || i == 3 || i == 4);
    assert(j == 0 || j == 1 || j == 2 || j == 3 || j == 4);
}

/// Where captions carry shares, every slot has room for one.
pub proof fn shares_fit_everywhere(inner: Area, i: int)
    requires
        inner.wf(),
        has_slots(inner),
        inner.width / GENERATIONS >= SHARE_FITS_AT,
        0 <= i < GENERATIONS,
    ensures
        slot_of(inner, i).width >= SHARE_FITS_AT,
{
    let w = inner.width as int;
    assert(w * 0 == 0 && w * 1 == w && w * 2 == w + w && w * 3 == w + w + w && w * 4 == w + w + w
        + w && w * 5 == w + w + w + w + w);
    assert(i == 0 || i == 1 || i == 2 || i == 3 || i == 4);
}

// ---------------------------------------------------------------------------------------------
// The gauge and the help

/// How a row is divided between a meter and the label behind it.
#[derive(Debug, Clone, Copy, PartialEq, Eq, Structural)]
pub struct Gauge {
    pub meter_width: u16,
    /// How many characters of the label are shown, behind a space.
    pub label_width: u16,
}

/// How a row of a gauge is divided. A label is bounded rather than written straight out: a counter
/// reporting something absurd would otherwise run it past the panel and into whatever is drawn to
/// the right of it.
pub fn gauge(width: u16, label: usize) -> (gauge: Gauge)
    ensures
        gauge.label_width == less(lesser(label + 1, width as int), 1),
        gauge.meter_width == less(width as int, label + 1),
{
    if label < width as usize {
        Gauge { meter_width: width - (label as u16 + 1), label_width: label as u16 }
    } else {
        Gauge {
            meter_width: 0,
            label_width: if width > 0 {
                width - 1
            } else {
                0
            },
        }
    }
}

/// Where a popup of some lines stands: in the middle, no larger than it has to be.
pub open spec fn popup_of(area: Area, lines: int) -> Area {
    let width = lesser(52, less(area.width as int, 4));
    let height = lesser(lines + 2, less(area.height as int, 2));
    Area {
        x: (area.x + (area.width - width) / 2) as u16,
        y: (area.y + (area.height - height) / 2) as u16,
        width: width as u16,
        height: height as u16,
    }
}

/// Where the help stands.
pub fn popup(area: Area, lines: usize) -> (popup: Area)
    requires
        area.wf(),
    ensures
        popup == popup_of(area, lines as int),
        area.holds(popup),
{
    let room: u16 = if area.width > 4 {
        area.width - 4
    } else {
        0
    };
    let width: u16 = if room > 52 {
        52
    } else {
        room
    };
    let rows: u16 = if area.height > 2 {
        area.height - 2
    } else {
        0
    };
    let height: u16 = if rows >= 2 && lines < (rows - 2) as usize {
        lines as u16 + 2
    } else {
        rows
    };
    Area {
        x: area.x + (area.width - width) / 2,
        y: area.y + (area.height - height) / 2,
        width,
        height,
    }
}

// ---------------------------------------------------------------------------------------------
// What the panels list

/// One row of a panel: a label, and the counter whose value stands beside it.
#[derive(Debug, Clone, Copy)]
pub struct StatRow {
    pub label: &'static str,
    pub provider: &'static str,
    pub counter: &'static str,
}

/// The labels and counters of rows.
pub open spec fn row_words(rows: Seq<StatRow>) -> Seq<(Seq<char>, Seq<char>, Seq<char>)> {
    Seq::new(rows.len(), |i: int| (rows[i].label@, rows[i].provider@, rows[i].counter@))
}

fn row(label: &'static str, provider: &'static str, counter: &'static str) -> (r: StatRow)
    ensures
        r.label@ == label@,
        r.provider@ == provider@,
        r.counter@ == counter@,
{
    StatRow { label, provider, counter }
}

/// Rows for the GC activity panel.
pub fn gc_activity_rows() -> (rows: Vec<StatRow>)
    ensures
        row_words(rows@) == seq![
            ("Gen 0 GCs"@, catalog::SYSTEM_RUNTIME@, "gen-0-gc-count"@),
            ("Gen 1 GCs"@, catalog::SYSTEM_RUNTIME@, "gen-1-gc-count"@),
            ("Gen 2 GCs"@, catalog::SYSTEM_RUNTIME@, "gen-2-gc-count"@),
            ("Time in GC"@, catalog::SYSTEM_RUNTIME@, "time-in-gc"@),
            ("Pause time"@, catalog::SYSTEM_RUNTIME@, "total-pause-time-by-gc"@),
            ("Gen 0 budget"@, catalog::SYSTEM_RUNTIME@, "gen-0-gc-budget"@),
        ],
{
    let rows = vec![
        row("Gen 0 GCs", catalog::SYSTEM_RUNTIME, "gen-0-gc-count"),
        row("Gen 1 GCs", catalog::SYSTEM_RUNTIME, "gen-1-gc-count"),
        row("Gen 2 GCs", catalog::SYSTEM_RUNTIME, "gen-2-gc-count"),
        row("Time in GC", catalog::SYSTEM_RUNTIME, "time-in-gc"),
        row("Pause time", catalog::SYSTEM_RUNTIME, "total-pause-time-by-gc"),
        row("Gen 0 budget", catalog::SYSTEM_RUNTIME, "gen-0-gc-budget"),
    ];
    assert(row_words(rows@) =~= seq![
        ("Gen 0 GCs"@, catalog::SYSTEM_RUNTIME@, "gen-0-gc-count"@),
        ("Gen 1 GCs"@, catalog::SYSTEM_RUNTIME@, "gen-1-gc-count"@),
        ("Gen 2 GCs"@, catalog::SYSTEM_RUNTIME@, "gen-2-gc-count"@),
        ("Time in GC"@, catalog::SYSTEM_RUNTIME@, "time-in-gc"@),
        ("Pause time"@, catalog::SYSTEM_RUNTIME@, "total-pause-time-by-gc"@),
        ("Gen 0 budget"@, catalog::SYSTEM_RUNTIME@, "gen-0-gc-budget"@),
    ]);
    rows
}

/// Rows for the memory summary panel.
pub fn memory_rows() -> (rows: Vec<StatRow>)
    ensures
        row_words(rows@) == seq![
            ("Working set"@, catalog::SYSTEM_RUNTIME@, "working-set"@),
            ("Heap size"@, catalog::SYSTEM_RUNTIME@, "gc-heap-size"@),
            ("Committed"@, catalog::SYSTEM_RUNTIME@, "gc-committed"@),
            ("Alloc rate"@, catalog::SYSTEM_RUNTIME@, "alloc-rate"@),
            ("Fragmented"@, catalog::SYSTEM_RUNTIME@, "gc-fragmentation"@),
        ],
{
    let rows = vec![
        row("Working set", catalog::SYSTEM_RUNTIME, "working-set"),
        row("Heap size", catalog::SYSTEM_RUNTIME, "gc-heap-size"),
        row("Committed", catalog::SYSTEM_RUNTIME, "gc-committed"),
        row("Alloc rate", catalog::SYSTEM_RUNTIME, "alloc-rate"),
        row("Fragmented", catalog::SYSTEM_RUNTIME, "gc-fragmentation"),
    ];
    assert(row_words(rows@) =~= seq![
        ("Working set"@, catalog::SYSTEM_RUNTIME@, "working-set"@),
        ("Heap size"@, catalog::SYSTEM_RUNTIME@, "gc-heap-size"@),
        ("Committed"@, catalog::SYSTEM_RUNTIME@, "gc-committed"@),
        ("Alloc rate"@, catalog::SYSTEM_RUNTIME@, "alloc-rate"@),
        ("Fragmented"@, catalog::SYSTEM_RUNTIME@, "gc-fragmentation"@),
    ]);
    rows
}

/// Rows for the runtime panel.
pub fn runtime_rows() -> (rows: Vec<StatRow>)
    ensures
        row_words(rows@) == seq![
            ("TP threads"@, catalog::SYSTEM_RUNTIME@, "threadpool-thread-count"@),
            ("TP queue"@, catalog::SYSTEM_RUNTIME@, "threadpool-queue-length"@),
            ("TP completed"@, catalog::SYSTEM_RUNTIME@, "threadpool-completed-items-count"@),
            ("Lock waits"@, catalog::SYSTEM_RUNTIME@, "monitor-lock-contention-count"@),
            ("Exceptions"@, catalog::SYSTEM_RUNTIME@, "exception-count"@),
            ("Timers"@, catalog::SYSTEM_RUNTIME@, "active-timer-count"@),
        ],
{
    let rows = vec![
        row("TP threads", catalog::SYSTEM_RUNTIME, "threadpool-thread-count"),
        row("TP queue", catalog::SYSTEM_RUNTIME, "threadpool-queue-length"),
        row("TP completed", catalog::SYSTEM_RUNTIME, "threadpool-completed-items-count"),
        row("Lock waits", catalog::SYSTEM_RUNTIME, "monitor-lock-contention-count"),
        row("Exceptions", catalog::SYSTEM_RUNTIME, "exception-count"),
        row("Timers", catalog::SYSTEM_RUNTIME, "active-timer-count"),
    ];
    assert(row_words(rows@) =~= seq![
        ("TP threads"@, catalog::SYSTEM_RUNTIME@, "threadpool-thread-count"@),
        ("TP queue"@, catalog::SYSTEM_RUNTIME@, "threadpool-queue-length"@),
        ("TP completed"@, catalog::SYSTEM_RUNTIME@, "threadpool-completed-items-count"@),
        ("Lock waits"@, catalog::SYSTEM_RUNTIME@, "monitor-lock-contention-count"@),
        ("Exceptions"@, catalog::SYSTEM_RUNTIME@, "exception-count"@),
        ("Timers"@, catalog::SYSTEM_RUNTIME@, "active-timer-count"@),
    ]);
    rows
}

/// Rows for the JIT/assembly panel, shown on the generic dashboard where there is room.
pub fn jit_rows() -> (rows: Vec<StatRow>)
    ensures
        row_words(rows@) == seq![
            ("Methods"@, catalog::SYSTEM_RUNTIME@, "methods-jitted-count"@),
            ("IL bytes"@, catalog::SYSTEM_RUNTIME@, "il-bytes-jitted"@),
            ("Time in JIT"@, catalog::SYSTEM_RUNTIME@, "time-in-jit"@),
            ("Assemblies"@, catalog::SYSTEM_RUNTIME@, "assembly-count"@),
        ],
{
    let rows = vec![
        row("Methods", catalog::SYSTEM_RUNTIME, "methods-jitted-count"),
        row("IL bytes", catalog::SYSTEM_RUNTIME, "il-bytes-jitted"),
        row("Time in JIT", catalog::SYSTEM_RUNTIME, "time-in-jit"),
        row("Assemblies", catalog::SYSTEM_RUNTIME, "assembly-count"),
    ];
    assert(row_words(rows@) =~= seq![
        ("Methods"@, catalog::SYSTEM_RUNTIME@, "methods-jitted-count"@),
        ("IL bytes"@, catalog::SYSTEM_RUNTIME@, "il-bytes-jitted"@),
        ("Time in JIT"@, catalog::SYSTEM_RUNTIME@, "time-in-jit"@),
        ("Assemblies"@, catalog::SYSTEM_RUNTIME@, "assembly-count"@),
    ]);
    rows
}

/// Rows for the ASP.NET request panel.
pub fn request_rows() -> (rows: Vec<StatRow>)
    ensures
        row_words(rows@) == seq![
            ("Rate"@, catalog::ASPNET_HOSTING@, "requests-per-second"@),
            ("Current"@, catalog::ASPNET_HOSTING@, "current-requests"@),
            ("Total"@, catalog::ASPNET_HOSTING@, "total-requests"@),
            ("Failed"@, catalog::ASPNET_HOSTING@, "failed-requests"@),
        ],
{
    let rows = vec![
        row("Rate", catalog::ASPNET_HOSTING, "requests-per-second"),
        row("Current", catalog::ASPNET_HOSTING, "current-requests"),
        row("Total", catalog::ASPNET_HOSTING, "total-requests"),
        row("Failed", catalog::ASPNET_HOSTING, "failed-requests"),
    ];
    assert(row_words(rows@) =~= seq![
        ("Rate"@, catalog::ASPNET_HOSTING@, "requests-per-second"@),
        ("Current"@, catalog::ASPNET_HOSTING@, "current-requests"@),
        ("Total"@, catalog::ASPNET_HOSTING@, "total-requests"@),
        ("Failed"@, catalog::ASPNET_HOSTING@, "failed-requests"@),
    ]);
    rows
}

/// Rows for the Kestrel connection panel.
pub fn connection_rows() -> (rows: Vec<StatRow>)
    ensures
        row_words(rows@) == seq![
            ("Open"@, catalog::KESTREL@, "current-connections"@),
            ("Total"@, catalog::KESTREL@, "total-connections"@),
            ("Conn queue"@, catalog::KESTREL@, "connection-queue-length"@),
            ("Req queue"@, catalog::KESTREL@, "request-queue-length"@),
            ("TLS"@, catalog::KESTREL@, "total-tls-handshakes"@),
            ("WebSockets"@, catalog::KESTREL@, "current-upgraded-requests"@),
        ],
{
    let rows = vec![
        row("Open", catalog::KESTREL, "current-connections"),
        row("Total", catalog::KESTREL, "total-connections"),
        row("Conn queue", catalog::KESTREL, "connection-queue-length"),
        row("Req queue", catalog::KESTREL, "request-queue-length"),
        row("TLS", catalog::KESTREL, "total-tls-handshakes"),
        row("WebSockets", catalog::KESTREL, "current-upgraded-requests"),
    ];
    assert(row_words(rows@) =~= seq![
        ("Open"@, catalog::KESTREL@, "current-connections"@),
        ("Total"@, catalog::KESTREL@, "total-connections"@),
        ("Conn queue"@, catalog::KESTREL@, "connection-queue-length"@),
        ("Req queue"@, catalog::KESTREL@, "request-queue-length"@),
        ("TLS"@, catalog::KESTREL@, "total-tls-handshakes"@),
        ("WebSockets"@, catalog::KESTREL@, "current-upgraded-requests"@),
    ]);
    rows
}

} // verus!
