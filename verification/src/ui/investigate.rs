//! The investigation screen: what is allocating, why collections are happening, what is throwing,
//! and what is blocking.
use vstd::prelude::*;
use vstd::view::View as _;

use super::lines::{part, part_models, push_number, push_text, Part, PartModel, Tone};
use crate::app::{format_uptime, since, uptime_words, App, AppModel, SECOND};
use crate::runtime::state::Collection;
use crate::text::{decimal, push_decimal};

verus! {

pub const MIN_WIDTH: u16 = 64;

pub const MIN_HEIGHT: u16 = 16;

/// What the body of the screen shows.
#[derive(Debug, Clone, Copy, PartialEq, Eq, Structural)]
pub enum Body {
    /// Why there is nothing to show.
    Error,
    /// That nothing has happened yet.
    Waiting,
    Findings,
}

/// What the body of the screen shows. A failure comes first; "quiet" is told from "not started".
pub fn body(app: &App) -> (body: Body)
    ensures
        body == (if app@.runtime_error is Some {
            Body::Error
        } else if app@.runtime.events_seen == 0 {
            Body::Waiting
        } else {
            Body::Findings
        }),
{
    match &app.runtime_error {
        Some(_) => Body::Error,
        None => {
            if app.runtime.is_empty() {
                Body::Waiting
            } else {
                Body::Findings
            }
        },
    }
}

/// How wide the right-hand column is: fixed, but never more than a third.
pub fn collections_width(width: u16) -> (w: u16)
    ensures
        w == (if width / 3 < 34 {
            width / 3
        } else {
            34
        }),
{
    if width / 3 < 34 {
        width / 3
    } else {
        34
    }
}

/// What has been found so far, in the header. `allocated` is how much was seen allocated, and
/// `paused` how long the application stood still, if it did, both in words.
pub open spec fn findings(
    m: AppModel,
    allocated: Seq<char>,
    paused: Option<Seq<char>>,
) -> Seq<PartModel> {
    if m.runtime.events_seen == 0 {
        Seq::empty()
    } else {
        let collections = m.runtime.gc_counts[0] + m.runtime.gc_counts[1] + m.runtime.gc_counts[2];
        let found = seq![
            part("   "@, Tone::Dim),
            part(allocated + " allocated"@, Tone::Plain),
            part("  "@, Tone::Dim),
            part(decimal(collections as nat) + " GCs"@, Tone::Plain),
        ];
        match paused {
            Some(time) => found + seq![
                part("  "@, Tone::Dim),
                part(time + " ms paused"@, Tone::Plain),
            ],
            None => found,
        }
    }
}

/// The header of the screen.
pub open spec fn header_of(
    m: AppModel,
    name: Seq<char>,
    allocated: Seq<char>,
    paused: Option<Seq<char>>,
    now: u64,
) -> Seq<PartModel> {
    let elapsed = match m.investigating_since {
        Some(at) => since(now, at),
        None => 0,
    };
    seq![
        part("Investigating "@, Tone::Dim),
        part(name, Tone::Strong),
        part("  pid "@, Tone::Dim),
        part(decimal(m.process.pid as nat), Tone::Plain),
    ] + findings(m, allocated, paused) + seq![
        part("   sampling "@, Tone::Dim),
        part(uptime_words((elapsed / SECOND) as nat), Tone::Dim),
    ]
}

/// The header of the screen.
pub fn header(app: &App, name: &str, allocated: &str, paused: Option<&str>, now: u64) -> (parts: Vec<
    Part,
>)
    requires
        app.wf(),
    ensures
        part_models(parts@) == header_of(
            app@,
            name@,
            allocated@,
            super::gradient::words(paused),
            now,
        ),
{
    let mut parts: Vec<Part> = Vec::new();
    push_text(&mut parts, "Investigating ", Tone::Dim);
    push_text(&mut parts, name, Tone::Strong);
    push_text(&mut parts, "  pid ", Tone::Dim);
    push_number(&mut parts, app.process.pid as u64, Tone::Plain);
    let ghost opening = part_models(parts@);
    assert(opening =~= seq![
        part("Investigating "@, Tone::Dim),
        part(name@, Tone::Strong),
        part("  pid "@, Tone::Dim),
        part(decimal(app@.process.pid as nat), Tone::Plain),
    ]);
    if !app.runtime.is_empty() {
        let mut sum = allocated.to_owned();
        sum.append(" allocated");
        let mut collections = String::new();
        push_decimal(&mut collections, app.runtime.total_gcs());
        collections.append(" GCs");
        push_text(&mut parts, "   ", Tone::Dim);
        push_text(&mut parts, sum.as_str(), Tone::Plain);
        push_text(&mut parts, "  ", Tone::Dim);
        push_text(&mut parts, collections.as_str(), Tone::Plain);
        if let Some(time) = paused {
            let mut stood = time.to_owned();
            stood.append(" ms paused");
            push_text(&mut parts, "  ", Tone::Dim);
            push_text(&mut parts, stood.as_str(), Tone::Plain);
        }
    }
    assert(part_models(parts@) =~= opening + findings(
        app@,
        allocated@,
        super::gradient::words(paused),
    ));
    push_text(&mut parts, "   sampling ", Tone::Dim);
    push_text(&mut parts, format_uptime(app.investigating_for(now) / SECOND).as_str(), Tone::Dim);
    assert(part_models(parts@) =~= header_of(
        app@,
        name@,
        allocated@,
        super::gradient::words(paused),
        now,
    ));
    parts
}

/// How a collection is listed, but for its pause: its number, its generation and its reason.
/// Generation is the cost signal (gen 2 collections are the expensive ones), and a collection
/// under pressure stands out.
pub open spec fn collection_parts(gc: Collection) -> Seq<PartModel> {
    seq![
        part("#"@ + decimal(gc.count as nat), Tone::Dim),
        part(
            "gen"@ + decimal(gc.generation as nat),
            if gc.generation == 0 {
                Tone::Good
            } else if gc.generation == 1 {
                Tone::Accent
            } else {
                Tone::Warn
            },
        ),
        part(
            gc.reason.words(),
            if gc.reason.under_pressure() {
                Tone::Bad
            } else {
                Tone::Dim
            },
        ),
    ]
}

/// One row of the list of collections, but for its pause.
pub fn collection_row(gc: &Collection) -> (parts: Vec<Part>)
    ensures
        part_models(parts@) == collection_parts(*gc),
{
    let mut number = "#".to_owned();
    push_decimal(&mut number, gc.count as u64);
    let mut generation = "gen".to_owned();
    push_decimal(&mut generation, gc.generation as u64);
    let mut parts: Vec<Part> = Vec::new();
    push_text(&mut parts, number.as_str(), Tone::Dim);
    push_text(
        &mut parts,
        generation.as_str(),
        match gc.generation {
            0 => Tone::Good,
            1 => Tone::Accent,
            _ => Tone::Warn,
        },
    );
    push_text(
        &mut parts,
        gc.reason.label().as_str(),
        if gc.reason.is_pressure() {
            Tone::Bad
        } else {
            Tone::Dim
        },
    );
    assert(part_models(parts@) =~= collection_parts(*gc));
    parts
}

} // verus!
