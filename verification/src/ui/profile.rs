//! The CPU profile screen: collect for a fixed window, then show the hot methods.
//!
//! Unlike every other screen this one is not live. Method names arrive only when the session
//! stops, so the screen has three states (collecting, resolving, done) and says which it is in.
use vstd::prelude::*;
use vstd::view::View as _;

use super::lines::{part, part_models, push_text, Part, PartModel, Tone};
use crate::app::{App, AppModel, ProfilePhase};

verus! {

pub const MIN_WIDTH: u16 = 64;

pub const MIN_HEIGHT: u16 = 14;

/// The keys that are worth naming: a profile can be run again, and its filter toggled, once it has
/// come to an end.
pub open spec fn footer_of(m: AppModel) -> Seq<PartModel> {
    let back = seq![part(" c / Esc"@, Tone::Accent), part(" back  "@, Tone::Dim)];
    let again = seq![
        part("r"@, Tone::Accent),
        part(" again  "@, Tone::Dim),
        part("w"@, Tone::Accent),
        part(
            if m.profile_show_waiting {
                " hide parked  "@
            } else {
                " show parked  "@
            },
            Tone::Dim,
        ),
    ];
    let quit = seq![part("q"@, Tone::Accent), part(" quit"@, Tone::Dim)];
    if m.profile_phase is Done || m.profile_phase is Failed {
        back + again + quit
    } else {
        back + quit
    }
}

/// The footer of the screen.
pub fn footer(app: &App) -> (parts: Vec<Part>)
    ensures
        part_models(parts@) == footer_of(app@),
{
    let over = match app.profile_phase {
        ProfilePhase::Done | ProfilePhase::Failed(_) => true,
        _ => false,
    };
    let mut parts: Vec<Part> = Vec::new();
    push_text(&mut parts, " c / Esc", Tone::Accent);
    push_text(&mut parts, " back  ", Tone::Dim);
    if over {
        push_text(&mut parts, "r", Tone::Accent);
        push_text(&mut parts, " again  ", Tone::Dim);
        push_text(&mut parts, "w", Tone::Accent);
        push_text(
            &mut parts,
            if app.profile_show_waiting {
                " hide parked  "
            } else {
                " show parked  "
            },
            Tone::Dim,
        );
    }
    push_text(&mut parts, "q", Tone::Accent);
    push_text(&mut parts, " quit", Tone::Dim);
    assert(part_models(parts@) =~= footer_of(app@));
    parts
}

/// What the results are headed by.
pub fn title(app: &App) -> (title: &'static str)
    ensures
        title@ == (if app@.profile_show_waiting {
            "Hot methods (including parked threads)"@
        } else {
            "Hot methods"@
        }),
{
    if app.profile_show_waiting {
        "Hot methods (including parked threads)"
    } else {
        "Hot methods"
    }
}

/// How many methods are listed in an area of some height, below the heading.
pub fn listed_rows(rows: usize, height: u16) -> (n: usize)
    ensures
        n == (if height == 0 {
            0
        } else if rows < height - 1 {
            rows as int
        } else {
            height - 1
        }),
{
    if height == 0 {
        0
    } else if rows < (height - 1) as usize {
        rows
    } else {
        (height - 1) as usize
    }
}

} // verus!
