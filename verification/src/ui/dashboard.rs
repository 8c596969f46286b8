//! The dashboard: a header, a body chosen by process type, and a footer.
use vstd::prelude::*;
use vstd::view::View as _;

use super::graph::{plot_word, Plot};
use super::lines::{
    details_fit, part, part_models, push_fitting, push_text, width_of, Part, PartModel, Tone,
};
use crate::app::{format_uptime, uptime_words, App, AppModel, Status, StatusModel};
use crate::text::{chars_of, decimal, push_decimal, trim, trimmed_end, trimmed_start};

verus! {

/// Below this the layout cannot show anything useful.
pub const MIN_WIDTH: u16 = 64;

pub const MIN_HEIGHT: u16 = 20;

/// Height the generation bars need before they are worth showing at all.
pub const BARS_HEIGHT: u16 = 9;

/// Smallest chart that still conveys a trend.
pub const MIN_CHART_HEIGHT: u16 = 6;

// ---------------------------------------------------------------------------------------------
// The header

/// What the header says of a process beyond its name and pid, the most important first.
pub struct Details {
    pub framework: Option<String>,
    pub aspnet: bool,
    pub os: String,
    pub arch: String,
    /// How long the dashboard has been attached, in seconds.
    pub uptime: u64,
}

/// Where a process runs: operating system and architecture, as far as they are known.
pub open spec fn platform(os: Seq<char>, arch: Seq<char>) -> Seq<char> {
    trimmed_end(trimmed_start(os + " "@ + arch))
}

/// The runtime's version, if it is known.
pub open spec fn framework_detail(framework: Option<String>) -> Seq<PartModel> {
    match framework {
        Some(label) => seq![part(label@, Tone::Plain)],
        None => Seq::empty(),
    }
}

/// Which kind of process it is.
pub open spec fn kind_words(aspnet: bool) -> Seq<char> {
    if aspnet {
        "ASP.NET Core"@
    } else {
        ".NET"@
    }
}

/// Where the process runs, if anything is known of that.
pub open spec fn platform_detail(os: Seq<char>, arch: Seq<char>) -> Seq<PartModel> {
    if os.len() > 0 || arch.len() > 0 {
        seq![part(platform(os, arch), Tone::Dim)]
    } else {
        Seq::empty()
    }
}

/// The details of a header, the least important last.
pub open spec fn detail_parts(details: Details) -> Seq<PartModel> {
    framework_detail(details.framework).push(part(kind_words(details.aspnet), Tone::Dim))
        + platform_detail(details.os@, details.arch@) + seq![
        part(uptime_words(details.uptime as nat), Tone::Dim),
    ]
}

/// The part of a header that is always there.
pub open spec fn identity_parts(name: Seq<char>, pid: u32) -> Seq<PartModel> {
    seq![
        part(name, Tone::Strong),
        part("  pid "@, Tone::Dim),
        part(decimal(pid as nat), Tone::Plain),
    ]
}

/// The header: detail is built up only while it fits, so a narrow terminal drops the least
/// important parts rather than truncating mid-word.
pub open spec fn header_of(name: Seq<char>, pid: u32, details: Details, width: nat) -> Seq<
    PartModel,
> {
    super::lines::fitted(
        identity_parts(name, pid),
        width_of(identity_parts(name, pid)),
        detail_parts(details),
        width,
    )
}

fn details_of(details: &Details) -> (parts: Vec<Part>)
    ensures
        part_models(parts@) == detail_parts(*details),
{
    let mut parts: Vec<Part> = Vec::new();
    if let Some(label) = &details.framework {
        push_text(&mut parts, label.as_str(), Tone::Plain);
    }
    assert(part_models(parts@) =~= framework_detail(details.framework));
    push_text(
        &mut parts,
        if details.aspnet {
            "ASP.NET Core"
        } else {
            ".NET"
        },
        Tone::Dim,
    );
    let ghost first = part_models(parts@);
    if !details.os.as_str().is_empty() || !details.arch.as_str().is_empty() {
        let mut place = String::new();
        place.append(details.os.as_str());
        place.append(" ");
        place.append(details.arch.as_str());
        assert(place@ =~= details.os@ + " "@ + details.arch@);
        push_text(&mut parts, trim(place.as_str()).as_str(), Tone::Dim);
    }
    assert(part_models(parts@) =~= first + platform_detail(details.os@, details.arch@));
    push_text(&mut parts, format_uptime(details.uptime).as_str(), Tone::Dim);
    assert(part_models(parts@) =~= detail_parts(*details));
    parts
}

/// The header of the dashboard. The refresh rate is not among its details: it is the one piece of
/// state you need to read the graphs at all, so it stands in the border, where nothing drops it.
pub fn header(name: &str, pid: u32, details: &Details, width: u16) -> (parts: Vec<Part>)
    ensures
        part_models(parts@) == header_of(name@, pid, *details, width as nat),
{
    let letters = chars_of(name);
    let mut digits = String::new();
    push_decimal(&mut digits, pid as u64);
    assert(digits@ =~= decimal(pid as nat));
    let mut parts: Vec<Part> = Vec::new();
    push_text(&mut parts, name, Tone::Strong);
    push_text(&mut parts, "  pid ", Tone::Dim);
    push_text(&mut parts, digits.as_str(), Tone::Plain);
    let ghost base = identity_parts(name@, pid);
    assert(part_models(parts@) =~= base);
    proof {
        reveal_strlit("  pid ");
        reveal_with_fuel(width_of, 4);
        assert(width_of(base) == name@.len() + 6 + decimal(pid as nat).len());
    }
    let pid_letters = chars_of(digits.as_str());
    let extra = details_of(details);
    let taken: usize = letters.len();
    if taken <= width as usize && pid_letters.len() <= width as usize {
        push_fitting(&mut parts, taken + 6 + pid_letters.len(), &extra, width as usize);
    } else {
        proof {
            nothing_fits(base, width_of(base), part_models(extra@), width as nat);
        }
    }
    parts
}

/// Nothing is added to what is too wide already.
proof fn nothing_fits(parts: Seq<PartModel>, used: nat, details: Seq<PartModel>, width: nat)
    requires
        used > width,
    ensures
        super::lines::fitted(parts, used, details, width) == parts,
    decreases details.len(),
{
    if details.len() > 0 {
        nothing_fits(parts, used, details.skip(1), width);
    }
}

// ---------------------------------------------------------------------------------------------
// The footer

/// The keys that the footer names, the least useful last. Help comes second despite reading oddly
/// there, because it is the hint that gets you to all the others. The refresh rate is absent on
/// purpose: the header carries it at every width.
pub open spec fn hints(plot: Plot) -> Seq<(Seq<char>, Seq<char>)> {
    seq![
        ("q"@, "quit"@),
        ("?"@, "help"@),
        ("i"@, "investigate"@),
        ("c"@, "cpu"@),
        ("d"@, "detach"@),
        ("p"@, "pause"@),
        ("m"@, plot_word(plot)),
    ]
}

/// How wide a hint is.
pub open spec fn hint_width(hint: (Seq<char>, Seq<char>)) -> nat {
    hint.0.len() + hint.1.len() + 3
}

/// The hints that fit: a narrow terminal drops whole hints from the right rather than clipping one
/// in half.
pub open spec fn shown_hints(hints: Seq<(Seq<char>, Seq<char>)>, width: int) -> Seq<PartModel>
    decreases hints.len(),
{
    if hints.len() == 0 || hint_width(hints[0]) > width {
        Seq::empty()
    } else {
        seq![
            part(" "@ + hints[0].0, Tone::Accent),
            part(" "@ + hints[0].1 + " "@, Tone::Dim),
        ] + shown_hints(hints.skip(1), width - hint_width(hints[0]))
    }
}

/// The models of hints.
pub open spec fn hint_models(hints: Seq<(&'static str, &'static str)>) -> Seq<
    (Seq<char>, Seq<char>),
> {
    Seq::new(hints.len(), |i: int| (hints[i].0@, hints[i].1@))
}

/// The left half of the footer: the keys, as far as they fit.
pub fn footer(plot: Plot, width: u16) -> (parts: Vec<Part>)
    ensures
        part_models(parts@) == shown_hints(hints(plot), width as int),
{
    let all: Vec<(&'static str, &'static str)> = vec![
        ("q", "quit"),
        ("?", "help"),
        ("i", "investigate"),
        ("c", "cpu"),
        ("d", "detach"),
        ("p", "pause"),
        ("m", plot.name()),
    ];
    let ghost model = hint_models(all@);
    assert(model =~= hints(plot));
    let ghost goal = shown_hints(model, width as int);
    let mut parts: Vec<Part> = Vec::new();
    let mut left: usize = width as usize;
    let mut i: usize = 0;
    assert(model.skip(0) =~= model);
    assert(part_models(parts@) + goal =~= goal);
    while i < all.len()
        invariant
            i <= all@.len(),
            model == hint_models(all@),
            goal == shown_hints(hints(plot), width as int),
            goal == part_models(parts@) + shown_hints(model.skip(i as int), left as int),
        decreases all@.len() - i,
    {
        let (key, label) = all[i];
        let key_letters = chars_of(key);
        let label_letters = chars_of(label);
        let ghost rest = model.skip(i as int);
        assert(rest[0] == (key@, label@));
        assert(rest.skip(1) =~= model.skip(i + 1));
        if key_letters.len() > left || label_letters.len() > left - key_letters.len() || 3 > left
            - key_letters.len() - label_letters.len() {
            assert(part_models(parts@) + shown_hints(rest, left as int) =~= part_models(parts@));
            return parts;
        }
        let ghost before = part_models(parts@);
        let mut first = " ".to_owned();
        first.append(key);
        let mut second = " ".to_owned();
        second.append(label);
        second.append(" ");
        assert(second@ =~= " "@ + label@ + " "@);
        push_text(&mut parts, first.as_str(), Tone::Accent);
        push_text(&mut parts, second.as_str(), Tone::Dim);
        let ghost taken = hint_width(rest[0]);
        assert(before + shown_hints(rest, left as int) =~= part_models(parts@) + shown_hints(
            rest.skip(1),
            left - taken,
        ));
        left = left - key_letters.len() - label_letters.len() - 3;
        i += 1;
    }
    assert(model.skip(i as int) =~= Seq::<(Seq<char>, Seq<char>)>::empty());
    assert(part_models(parts@) + shown_hints(model.skip(i as int), left as int) =~= part_models(
        parts@,
    ));
    parts
}

/// The state of a session as the footer shows it. A live one is shown by what ails it, if anything
/// does; `stalled` says that samples have stopped arriving.
pub open spec fn status_of(m: AppModel, stalled: bool) -> PartModel {
    match m.status {
        StatusModel::Connecting => part("connecting\u{2026}"@, Tone::Warn),
        StatusModel::Live => if m.paused {
            part("paused"@, Tone::Warn)
        } else if stalled {
            part("stalled"@, Tone::Warn)
        } else {
            part(decimal(m.counters.len()) + " counters"@, Tone::Good)
        },
        StatusModel::Ended => part("process exited"@, Tone::Warn),
        StatusModel::Failed(error) => part(error, Tone::Bad),
    }
}

/// The right half of the footer.
pub fn status(app: &App, stalled: bool) -> (line: Part)
    ensures
        line@ == status_of(app@, stalled),
{
    match &app.status {
        Status::Connecting => Part { text: "connecting\u{2026}".to_owned(), tone: Tone::Warn },
        Status::Live => {
            if app.paused {
                Part { text: "paused".to_owned(), tone: Tone::Warn }
            } else if stalled {
                Part { text: "stalled".to_owned(), tone: Tone::Warn }
            } else {
                let mut text = String::new();
                push_decimal(&mut text, app.counter_count() as u64);
                text.append(" counters");
                assert(text@ =~= decimal(app@.counters.len()) + " counters"@);
                Part { text, tone: Tone::Good }
            }
        },
        Status::Ended => Part { text: "process exited".to_owned(), tone: Tone::Warn },
        Status::Failed(error) => Part { text: error.clone(), tone: Tone::Bad },
    }
}

// ---------------------------------------------------------------------------------------------
// The body

/// How wide the column of numbers is beside a chart: fixed, but never more than a third.
pub fn stats_width(width: u16) -> (w: u16)
    ensures
        w == (if width / 3 < 30 {
            width / 3
        } else {
            30
        }),
{
    if width / 3 < 30 {
        width / 3
    } else {
        30
    }
}

/// Whether there is room for the generation bars. On a short terminal they would squeeze the chart
/// out of existence entirely, so they are dropped and the trend is kept, which is the more useful
/// of the two.
pub fn shows_bars(height: u16) -> (yes: bool)
    ensures
        yes <==> height - BARS_HEIGHT >= MIN_CHART_HEIGHT,
{
    height >= BARS_HEIGHT + MIN_CHART_HEIGHT
}

/// Whether there is room for the gauge: only once the chart has enough of its own.
pub fn shows_gauge(height: u16) -> (yes: bool)
    ensures
        yes <==> height - 3 >= MIN_CHART_HEIGHT,
{
    height >= MIN_CHART_HEIGHT + 3
}

// ---------------------------------------------------------------------------------------------
// What holds of the header and the footer

/// A header that shows more than the name and pid fits into the terminal.
pub proof fn a_header_with_details_fits(name: Seq<char>, pid: u32, details: Details, width: nat)
    ensures
        header_of(name, pid, details, width) == identity_parts(name, pid) || width_of(
            header_of(name, pid, details, width),
        ) <= width,
{
    let base = identity_parts(name, pid);
    if width_of(base) <= width {
        details_fit(base, width_of(base), detail_parts(details), width);
    } else {
        nothing_fits(base, width_of(base), detail_parts(details), width);
    }
}

/// The hints fit into the footer.
pub proof fn hints_fit(hints: Seq<(Seq<char>, Seq<char>)>, width: int)
    requires
        width >= 0,
    ensures
        width_of(shown_hints(hints, width)) <= width,
    decreases hints.len(),
{
    if hints.len() > 0 && hint_width(hints[0]) <= width {
        let rest = shown_hints(hints.skip(1), width - hint_width(hints[0]));
        let first = seq![
            part(" "@ + hints[0].0, Tone::Accent),
            part(" "@ + hints[0].1 + " "@, Tone::Dim),
        ];
        hints_fit(hints.skip(1), width - hint_width(hints[0]));
        widths_add(first, rest);
        reveal_strlit(" ");
        reveal_with_fuel(width_of, 3);
    }
}

/// The width of two runs of parts, one after the other.
proof fn widths_add(a: Seq<PartModel>, b: Seq<PartModel>)
    ensures
        width_of(a + b) == width_of(a) + width_of(b),
    decreases b.len(),
{
    if b.len() == 0 {
        assert(a + b =~= a);
    } else {
        assert((a + b).drop_last() =~= a + b.drop_last());
        widths_add(a, b.drop_last());
    }
}

} // verus!
