//! What the shapes on the screens show of the numbers they are drawn from.
use vstd::prelude::*;
use vstd::view::View as _;

use super::chart::{leading_power, rounded_seconds, span_of};
use super::dashboard::{
    detail_parts, hint_width, hints, platform, shown_hints, status_of, Details,
};
use super::gradient::{dimmed, lightened, palette_colour};
use super::graph::{
    bar_cell, bit, braille_cell, cell_at, dots, dots_are_bits, rows_in_cell, samples_in_cell, Plot,
};
use super::investigate::{collection_parts, findings};
use super::keys::{action_of, restyled, KeyCode, KeyEvent};
use super::lines::{fitted, part, width_of, PartModel, Tone};
use super::panels::{has_slots, longest, popup_of, slot_of, values_width, Area};
use super::picker::{shown_name, with_reason, Reasons, Skipped};
use super::profile::footer_of;
use super::theme::Theme;
use crate::app::{uptime_words, AppModel, Reading, StatusModel, View};
use crate::ipc::commands::InfoModel;
use crate::runtime::events::GcReason;
use crate::runtime::state::Collection;
use crate::text::{decimal, is_space, trimming_keeps_the_middle};

verus! {

/// A column of blocks fills its cells from the bottom, eight steps to a cell: a cell below the
/// height is full, one above it is empty, and the one that the height lies in shows as many eighths
/// as reach into it.
pub proof fn blocks_fill_from_the_bottom(columns: Seq<int>, height: int, x: int, y: int)
    requires
        0 <= y < height,
    ensures
        ({
            let below = 8 * (height - 1 - y);
            let cell = cell_at(Plot::Block, columns, height, x, y);
            &&& columns[x] <= below ==> cell is None
            &&& columns[x] >= below + 8 ==> cell == Some('\u{2588}')
            &&& columns[x] == below + 1 ==> cell == Some('\u{2581}')
            &&& columns[x] == below + 2 ==> cell == Some('\u{2582}')
            &&& columns[x] == below + 3 ==> cell == Some('\u{2583}')
            &&& columns[x] == below + 4 ==> cell == Some('\u{2584}')
            &&& columns[x] == below + 5 ==> cell == Some('\u{2585}')
            &&& columns[x] == below + 6 ==> cell == Some('\u{2586}')
            &&& columns[x] == below + 7 ==> cell == Some('\u{2587}')
        }),
{
    assert((height - y - 1) * 8 == 8 * (height - 1 - y));
}

/// A bar fills its column as a graph of blocks does, over a shaded track.
pub proof fn bars_stand_on_the_bottom(filled: int, height: int, y: int)
    requires
        0 <= y < height,
    ensures
        ({
            let below = 8 * (height - 1 - y);
            &&& filled <= below ==> bar_cell(filled, height, y) == '\u{2591}'
            &&& filled >= below + 8 ==> bar_cell(filled, height, y) == '\u{2588}'
            &&& filled == below + 4 ==> bar_cell(filled, height, y) == '\u{2584}'
            &&& below < filled < below + 8 ==> bar_cell(filled, height, y) as int == 0x2580 + (
            filled - below)
        }),
{
    assert((height - y - 1) * 8 == 8 * (height - 1 - y));
}

/// A dot is filled if the column of its sample is higher than where the dot stands. Of the eight
/// dots of a cell, two to a row from the top, the left ones belong to the older sample of the cell
/// and the right ones to the newer.
pub proof fn dots_fill_from_the_bottom(columns: Seq<int>, height: int, x: int, y: int, n: u8)
    requires
        0 <= y < height,
        n < 8,
    ensures
        ({
            let column = columns[2 * x + n % 2];
            let below = 4 * (height - 1 - y) + (3 - n / 2);
            bit(dots(columns, height * 4, x, y), n) <==> column > below
        }),
{
    dots_are_bits(columns, height * 4, x, y, n);
    assert(height * 4 - (4 * y + n as int / 2) == 4 * (height - 1 - y) + (3 - n as int / 2) + 1);
}

/// The dots of a cell are shown as those of one braille sign: the upper three of the left column
/// come first in its number, then the upper three of the right, then the lowest of each.
pub proof fn braille_signs_number_their_dots(pattern: u8)
    ensures
        ({
            let sign = braille_cell(pattern) as int - 0x2800;
            let one = |n: u8, worth: int| if bit(pattern, n) { worth } else { 0 };
            sign == one(0, 1) + one(2, 2) + one(4, 4) + one(1, 8) + one(3, 16) + one(5, 32) + one(
                6,
                64,
            ) + one(7, 128)
        }),
{
}

/// A cell holds two samples of four steps each, except that blocks hold one of eight.
pub proof fn cells_hold_samples(plot: Plot)
    ensures
        samples_in_cell(plot) * rows_in_cell(plot) == 8,
        plot == Plot::Block <==> samples_in_cell(plot) == 1,
{
}

/// A ramp around a colour goes from 45 percent of it to 35 percent of the way from it to white,
/// each to the nearest whole number.
pub proof fn ramps_dim_and_lighten(v: u8)
    ensures
        -50 <= 100 * dimmed(v) - 45 * v <= 50,
        dimmed(v) <= v,
        -50 <= 100 * lightened(v) - (100 * v + 35 * (255 - v)) <= 50,
        lightened(v) >= v,
{
}

/// The palette from sixteen on: a cube of six levels, of which the first is nothing and the others
/// go from 95 up by 40, red slowest and blue fastest, and then greys from 8 up by ten.
pub proof fn the_palette_is_a_cube_and_greys(r: int, g: int, b: int, i: int)
    requires
        0 <= r < 6,
        0 <= g < 6,
        0 <= b < 6,
        0 <= i < 24,
    ensures
        ({
            let c = palette_colour(16 + 36 * r + 6 * g + b);
            &&& c.0 == (if r == 0 { 0 } else { 55 + 40 * r })
            &&& c.1 == (if g == 0 { 0 } else { 55 + 40 * g })
            &&& c.2 == (if b == 0 { 0 } else { 55 + 40 * b })
            &&& palette_colour(232 + i).0 == 8 + 10 * i
            &&& palette_colour(232 + i).1 == 8 + 10 * i
            &&& palette_colour(232 + i).2 == 8 + 10 * i
        }),
{
    let n = 36 * r + 6 * g + b;
    assert(n / 36 == r && n / 6 % 6 == g && n % 6 == b) by (nonlinear_arith)
        requires
            n == 36 * r + 6 * g + b,
            0 <= r < 6,
            0 <= g < 6,
            0 <= b < 6,
    ;
}

/// A bar stands in its slot with a column free on either side where the slot is at least five wide,
/// and without where it is not. It takes all rows but the last two, which hold its value and then
/// its label.
pub proof fn bars_stand_in_their_slots(inner: Area, i: int)
    requires
        inner.wf(),
        has_slots(inner),
        0 <= i < 5,
    ensures
        ({
            let s = slot_of(inner, i);
            &&& s.x == inner.x + inner.width * i / 5
            &&& s.x + s.width == inner.x + inner.width * (i + 1) / 5
            &&& s.width >= 5 ==> s.bar.x == s.x + 1 && s.bar.width == s.width - 2
            &&& s.width < 5 ==> s.bar.x == s.x && s.bar.width == s.width
            &&& s.bar.y == inner.y
            &&& s.bar.height == inner.height - 2
            &&& s.value_y == inner.y + inner.height - 2
            &&& s.label_y == inner.y + inner.height - 1
        }),
{
    super::panels::slots_tile_the_panel(inner, i, i);
    let w = inner.width as int;
    assert(0 <= w * i / 5 <= w * (i + 1) / 5 <= w) by (nonlinear_arith)
        requires
            0 <= i < 5,
            0 <= w,
    ;
}

/// A popup is as wide as fifty-two columns and as high as its lines and a border, unless the screen
/// leaves less beside a margin, and stands in the middle of it, or half a cell off.
pub proof fn popups_stand_in_the_middle(area: Area, lines: int)
    requires
        area.wf(),
        0 <= lines,
    ensures
        ({
            let p = popup_of(area, lines);
            let left = p.x - area.x;
            let right = area.width - p.width - left;
            let above = p.y - area.y;
            let below = area.height - p.height - above;
            &&& area.width >= 56 ==> p.width == 52
            &&& 4 <= area.width < 56 ==> p.width == area.width - 4
            &&& area.width < 4 ==> p.width == 0
            &&& area.height >= lines + 4 ==> p.height == lines + 2
            &&& 2 <= area.height < lines + 4 ==> p.height == area.height - 2
            &&& 0 <= right - left <= 1
            &&& 0 <= below - above <= 1
        }),
{
}

/// A session that is live is shown as paused if it is, else as stalled if it is, else by how many
/// counters there are. One that is not is shown by its state alone.
pub proof fn states_are_shown(m: AppModel, stalled: bool)
    ensures
        ({
            let shown = status_of(m, stalled);
            &&& m.status == StatusModel::Live && m.paused ==> shown.text == "paused"@
            &&& m.status == StatusModel::Live && !m.paused && stalled ==> shown.text == "stalled"@
            &&& m.status == StatusModel::Live && !m.paused && !stalled ==> shown.text == decimal(
                m.counters.len(),
            ) + " counters"@ && shown.tone == Tone::Good
            &&& m.status == StatusModel::Ended ==> shown.text == "process exited"@
            &&& m.status == StatusModel::Connecting ==> shown.text == "connecting\u{2026}"@
            &&& m.status matches StatusModel::Failed(error) ==> shown.text == error && shown.tone
                == Tone::Bad
            &&& shown.tone == Tone::Bad <==> m.status is Failed
        }),
{
}

/// A collection is listed by its number, its generation and its reason. Its generation is the
/// warmer the older, and its reason stands out if and only if memory was short.
pub proof fn collections_are_listed(gc: Collection)
    ensures
        ({
            let parts = collection_parts(gc);
            let short = gc.reason == GcReason::LowMemory || gc.reason == GcReason::OutOfSpaceSoh
                || gc.reason == GcReason::OutOfSpaceLoh || gc.reason == GcReason::InducedLowMemory
                || gc.reason == GcReason::LowMemoryHost || gc.reason
                == GcReason::LowMemoryHostBlocking;
            &&& parts.len() == 3
            &&& parts[0].text == "#"@ + decimal(gc.count as nat)
            &&& parts[1].text == "gen"@ + decimal(gc.generation as nat)
            &&& gc.generation == 0 <==> parts[1].tone == Tone::Good
            &&& gc.generation == 1 <==> parts[1].tone == Tone::Accent
            &&& gc.generation >= 2 <==> parts[1].tone == Tone::Warn
            &&& parts[2].text == gc.reason.words()
            &&& parts[2].tone == Tone::Bad <==> short
            &&& !short ==> parts[2].tone == Tone::Dim
        }),
{
}

/// How wide some hints are together.
pub open spec fn hints_width(hints: Seq<(Seq<char>, Seq<char>)>) -> int
    decreases hints.len(),
{
    if hints.len() == 0 {
        0
    } else {
        hints[0].0.len() + hints[0].1.len() + 3 + hints_width(hints.skip(1))
    }
}

/// The hints that are shown are as many of the first as fit together, two parts for each, and no
/// more would fit.
pub proof fn hints_are_dropped_from_the_right(
    hints: Seq<(Seq<char>, Seq<char>)>,
    width: int,
) -> (n: int)
    requires
        width >= 0,
    ensures
        0 <= n <= hints.len(),
        shown_hints(hints, width).len() == 2 * n,
        hints_width(hints.take(n)) <= width,
        n < hints.len() ==> hints_width(hints.take(n + 1)) > width,
        forall|k: int|
            0 <= k < n ==> shown_hints(hints, width)[2 * k].text == " "@ + (#[trigger] hints[k]).0
                && shown_hints(hints, width)[2 * k + 1].text == " "@ + hints[k].1 + " "@,
    decreases hints.len(),
{
    let shown = shown_hints(hints, width);
    if hints.len() == 0 {
        assert(hints.take(0) =~= hints);
        0
    } else if hint_width(hints[0]) > width {
        assert(hints.take(0).len() == 0);
        assert(hints.take(1).skip(1) =~= Seq::<(Seq<char>, Seq<char>)>::empty());
        reveal_with_fuel(hints_width, 2);
        0
    } else {
        let rest = hints.skip(1);
        let left = width - hint_width(hints[0]);
        let m = hints_are_dropped_from_the_right(rest, left);
        let n = m + 1;
        assert(hints.take(n).skip(1) =~= rest.take(m));
        if n < hints.len() {
            assert(hints.take(n + 1).skip(1) =~= rest.take(m + 1));
        }
        assert forall|k: int| 0 <= k < n implies shown[2 * k].text == " "@ + (
        #[trigger] hints[k]).0 && shown[2 * k + 1].text == " "@ + hints[k].1 + " "@ by {
            if k > 0 {
                let later = shown_hints(rest, left);
                assert(rest[k - 1] == hints[k]);
                assert(shown[2 * k] == later[2 * (k - 1)]);
                assert(shown[2 * k + 1] == later[2 * (k - 1) + 1]);
            }
        }
        n
    }
}

proof fn leading_powers_are_small(n: nat)
    ensures
        1 <= leading_power(n),
        n >= 1 ==> leading_power(n) <= n,
    decreases n,
{
    if n >= 2 {
        leading_powers_are_small(n / 2);
    }
}

/// Seconds are rounded to the nearest whole number, give or take the two microseconds that a
/// floating-point number may not be able to tell apart.
pub proof fn seconds_are_rounded(nanos: u64)
    ensures
        ({
            let shown = rounded_seconds(nanos) * 1_000_000_000;
            let off = if shown >= nanos {
                shown - nanos
            } else {
                nanos - shown
            };
            &&& off <= 500_000_000 + 2_100
            &&& rounded_seconds(nanos) >= 0
        }),
{
    let whole = nanos as int / 1_000_000_000;
    leading_powers_are_small(whole as nat);
    assert(whole <= 18_446_744_073);
}

/// The span of a graph reaches back from the newest reading to the oldest that is drawn: as many
/// readings as there are, or as fit. With fewer than two there is none.
pub proof fn spans_reach_back_to_what_is_drawn(
    readings: Seq<Reading>,
    plot: Plot,
    width: u16,
    oldest: int,
)
    requires
        0 <= oldest < readings.len(),
        readings.len() - oldest == (if readings.len() <= width * samples_in_cell(plot) {
            readings.len() as int
        } else {
            width * samples_in_cell(plot)
        }),
        readings[oldest].at <= readings.last().at,
    ensures
        readings.len() - oldest < 2 ==> span_of(readings, plot, width) is None,
        readings.len() - oldest >= 2 ==> span_of(readings, plot, width) == Some(
            "-"@ + decimal(
                rounded_seconds((readings.last().at - readings[oldest].at) as u64) as nat,
            ) + "s"@,
        ),
{
}

/// Some details with two spaces in front of each.
pub open spec fn spaced_details(details: Seq<PartModel>) -> Seq<PartModel>
    decreases details.len(),
{
    if details.len() == 0 {
        Seq::empty()
    } else {
        seq![part("  "@, Tone::Dim), details[0]] + spaced_details(details.skip(1))
    }
}

/// Where all details fit, all of them are shown, in order.
pub proof fn what_fits_is_shown(
    parts: Seq<PartModel>,
    used: nat,
    details: Seq<PartModel>,
    width: nat,
)
    requires
        used + width_of(spaced_details(details)) <= width,
    ensures
        fitted(parts, used, details, width) == parts + spaced_details(details),
    decreases details.len(),
{
    if details.len() == 0 {
        assert(parts + spaced_details(details) =~= parts);
    } else {
        let d = details[0];
        let rest = details.skip(1);
        let two = seq![part("  "@, Tone::Dim), d];
        reveal_strlit("  ");
        assert(two.drop_last() =~= seq![part("  "@, Tone::Dim)]);
        assert(two.drop_last().drop_last() =~= Seq::<PartModel>::empty());
        reveal_with_fuel(width_of, 3);
        assert(width_of(two) == 2 + d.text.len());
        widths_add_up(two, spaced_details(rest));
        let longer = parts.push(part("  "@, Tone::Dim)).push(d);
        what_fits_is_shown(longer, used + d.text.len() + 2, rest, width);
        assert(longer + spaced_details(rest) =~= parts + spaced_details(details));
    }
}

proof fn widths_add_up(a: Seq<PartModel>, b: Seq<PartModel>)
    ensures
        width_of(a + b) == width_of(a) + width_of(b),
    decreases b.len(),
{
    if b.len() == 0 {
        assert(a + b =~= a);
    } else {
        assert((a + b).drop_last() =~= a + b.drop_last());
        widths_add_up(a, b.drop_last());
    }
}

/// The column of values is as wide as the longest of them, but no narrower than four and no wider
/// than fourteen, and six wide where there are none.
pub proof fn values_fit_their_column(values: Seq<String>, i: int)
    requires
        0 <= i < values.len(),
    ensures
        4 <= values_width(values) <= 14,
        values[i]@.len() <= 14 ==> values[i]@.len() <= values_width(values),
        (forall|k: int| 0 <= k < values.len() ==> (#[trigger] values[k])@.len() <= 4)
            ==> values_width(values) == 4,
        values_width(Seq::<String>::empty()) == 6,
{
    longest_is_longest(values, i);
    if forall|k: int| 0 <= k < values.len() ==> (#[trigger] values[k])@.len() <= 4 {
        longest_is_some(values, 4);
    }
}

proof fn longest_is_longest(values: Seq<String>, i: int)
    requires
        0 <= i < values.len(),
    ensures
        values[i]@.len() <= longest(values),
    decreases values.len(),
{
    if i < values.len() - 1 {
        longest_is_longest(values.drop_last(), i);
    }
}

proof fn longest_is_some(values: Seq<String>, most: nat)
    requires
        forall|k: int| 0 <= k < values.len() ==> (#[trigger] values[k])@.len() <= most,
    ensures
        longest(values) <= most,
    decreases values.len(),
{
    if values.len() > 0 {
        assert(values[values.len() - 1]@.len() <= most);
        assert forall|k: int| 0 <= k < values.drop_last().len() implies (
        #[trigger] values.drop_last()[k])@.len() <= most by {
            assert(values[k]@.len() <= most);
        }
        longest_is_some(values.drop_last(), most);
    }
}

/// Once something was seen, the header tells how much was allocated, then how many collections of
/// all generations there were, and then, if the application stood still, for how long. Before that
/// it tells nothing.
pub proof fn findings_are_told_in_order(
    m: AppModel,
    allocated: Seq<char>,
    paused: Option<Seq<char>>,
)
    ensures
        ({
            let told = findings(m, allocated, paused);
            let collections = m.runtime.gc_counts[0] + m.runtime.gc_counts[1]
                + m.runtime.gc_counts[2];
            &&& m.runtime.events_seen == 0 ==> told.len() == 0
            &&& m.runtime.events_seen > 0 ==> {
                &&& told.len() == if paused is Some { 6int } else { 4 }
                &&& told[1].text == allocated + " allocated"@
                &&& told[3].text == decimal(collections as nat) + " GCs"@
                &&& paused is Some ==> told[5].text == paused->0 + " ms paused"@
            }
        }),
{
}

/// The keys to run a profile again and to change what it shows are named once it has come to an
/// end, well or not, and not before. How to go back and how to quit are always named.
pub proof fn profile_keys_are_named(m: AppModel)
    ensures
        ({
            let named = footer_of(m);
            let over = m.profile_phase is Done || m.profile_phase is Failed;
            &&& named.len() == if over { 8int } else { 4 }
            &&& named[0].text == " c / Esc"@
            &&& named[named.len() - 2].text == "q"@
            &&& over ==> named[2].text == "r"@ && named[4].text == "w"@
            &&& over && m.profile_show_waiting ==> named[5].text == " hide parked  "@
            &&& over && !m.profile_show_waiting ==> named[5].text == " show parked  "@
        }),
{
}

/// Where a process runs is told by its system and its architecture with a space between them, and
/// by the one that is known where the other is not.
pub proof fn platforms_are_told(os: Seq<char>, arch: Seq<char>)
    requires
        os.len() > 0 ==> !is_space(os[0]) && !is_space(os.last()),
        arch.len() > 0 ==> !is_space(arch[0]) && !is_space(arch.last()),
    ensures
        os.len() > 0 && arch.len() > 0 ==> platform(os, arch) == os + " "@ + arch,
        os.len() > 0 && arch.len() == 0 ==> platform(os, arch) == os,
        os.len() == 0 && arch.len() > 0 ==> platform(os, arch) == arch,
{
    reveal_strlit(" ");
    let none = Seq::<char>::empty();
    let both = os + " "@ + arch;
    assert(is_space(' '));
    if os.len() > 0 && arch.len() > 0 {
        trimming_keeps_the_middle(none, both, none);
        assert(none + both + none =~= both);
    } else if os.len() > 0 {
        trimming_keeps_the_middle(none, os, " "@);
        assert(none + os + " "@ =~= both);
    } else if arch.len() > 0 {
        trimming_keeps_the_middle(" "@, arch, none);
        assert(" "@ + arch + none =~= both);
    }
}

/// A process goes by its entry assembly if the system only knows it by its host, and by what the
/// system calls it otherwise.
pub proof fn hosted_processes_go_by_their_assembly(name: Seq<char>, info: InfoModel)
    ensures
        shown_name(name, None) == name,
        name != "dotnet"@ ==> shown_name(name, Some(info)) == name,
        info.assembly_name is None || info.assembly_name->0.len() == 0 ==> shown_name(
            name,
            Some(info),
        ) == name,
        name == "dotnet"@ && info.assembly_name is Some && info.assembly_name->0.len() > 0
            ==> shown_name(name, Some(info)) == info.assembly_name->0,
{
}

/// A reason that was not met is not told, and one that was is told with its count, behind a comma
/// where another stands before it.
pub proof fn reasons_are_told_with_their_counts(said: Seq<char>, n: usize, reason: Seq<char>)
    ensures
        n == 0 ==> with_reason(said, n, reason) == said,
        n > 0 && said.len() == 0 ==> with_reason(said, n, reason) == decimal(n as nat) + " "@
            + reason,
        n > 0 && said.len() > 0 ==> with_reason(said, n, reason) == said + ", "@ + decimal(
            n as nat,
        ) + " "@ + reason,
{
}

/// A detail that does not fit is left out, and those behind it are shown as if it were not there.
/// One that fits is shown behind two spaces, and leaves so much less room.
pub proof fn details_are_taken_one_by_one(
    parts: Seq<PartModel>,
    used: nat,
    detail: PartModel,
    rest: Seq<PartModel>,
    width: nat,
)
    ensures
        used + 2 + detail.text.len() > width ==> fitted(parts, used, seq![detail] + rest, width)
            == fitted(parts, used, rest, width),
        used + 2 + detail.text.len() <= width ==> fitted(parts, used, seq![detail] + rest, width)
            == fitted(
            parts.push(part("  "@, Tone::Dim)).push(detail),
            used + 2 + detail.text.len(),
            rest,
            width,
        ),
{
    assert((seq![detail] + rest).skip(1) =~= rest);
}

/// Graphs are drawn in braille, then in blocks, then in octants, and then in braille again. Only M
/// on the dashboard changes that, and nothing else of the theme changes.
pub proof fn plots_go_round(theme: Theme, m: AppModel, key: KeyEvent)
    ensures
        ({
            let after = restyled(theme, action_of(m, key));
            let turns = !m.show_help && m.view == View::Dashboard && key.code == KeyCode::Char(
                'm',
            );
            &&& turns && theme.plot == Plot::Braille ==> after.plot == Plot::Block
            &&& turns && theme.plot == Plot::Block ==> after.plot == Plot::Octant
            &&& turns && theme.plot == Plot::Octant ==> after.plot == Plot::Braille
            &&& !turns ==> after == theme
            &&& after == (Theme { plot: after.plot, ..theme })
        }),
{
}

/// The footer names seven keys: to quit, for help, to investigate, to profile, to detach, to pause,
/// and to change how graphs are drawn, which it shows as they are drawn now.
pub proof fn seven_keys_are_named(plot: Plot)
    ensures
        ({
            let named = hints(plot);
            &&& named.len() == 7
            &&& named[0] == ("q"@, "quit"@)
            &&& named[1] == ("?"@, "help"@)
            &&& named[2] == ("i"@, "investigate"@)
            &&& named[3] == ("c"@, "cpu"@)
            &&& named[4] == ("d"@, "detach"@)
            &&& named[5] == ("p"@, "pause"@)
            &&& named[6].0 == "m"@
            &&& plot == Plot::Braille ==> named[6].1 == "braille"@
            &&& plot == Plot::Block ==> named[6].1 == "block"@
            &&& plot == Plot::Octant ==> named[6].1 == "octant"@
        }),
{
}

/// The header tells of the framework first, if it is known, then of the kind of process, then of
/// where it runs, if anything is known of that, and last of how long it has been watched.
pub proof fn details_come_in_order(details: Details)
    ensures
        ({
            let told = detail_parts(details);
            let framework: int = if details.framework is Some { 1 } else { 0 };
            let place: int = if details.os@.len() > 0 || details.arch@.len() > 0 { 1 } else { 0 };
            &&& told.len() == 2 + framework + place
            &&& details.framework is Some ==> told[0].text == details.framework->0@
            &&& details.aspnet ==> told[framework].text == "ASP.NET Core"@
            &&& !details.aspnet ==> told[framework].text == ".NET"@
            &&& place == 1 ==> told[framework + 1].text == platform(details.os@, details.arch@)
            &&& told.last().text == uptime_words(details.uptime as nat)
        }),
{
}

/// What was left out is counted by all four reasons, and told in this order: stale, of another
/// process, of another user, and too long.
pub proof fn all_reasons_are_told(s: Skipped, words: Reasons)
    ensures
        s.all() == s.stale + s.mismatched + s.foreign + s.too_long,
        s.listed(words) == with_reason(
            with_reason(
                with_reason(
                    with_reason(Seq::empty(), s.stale, words.stale),
                    s.mismatched,
                    words.mismatched,
                ),
                s.foreign,
                words.foreign,
            ),
            s.too_long,
            words.too_long,
        ),
{
}

} // verus!
