//! Lines of text in several colours, built up only while they fit.
use vstd::prelude::*;

use super::theme::{Color, Theme};
use crate::text::{chars_of, decimal, push_decimal};

verus! {

/// What a piece of text is for, which decides its colour.
#[derive(Debug, Clone, Copy, PartialEq, Eq, Structural)]
pub enum Tone {
    /// Whatever the terminal writes in by default.
    Plain,
    Dim,
    Accent,
    /// The accent, in bold.
    Strong,
    Good,
    Warn,
    Bad,
}

/// A piece of text in one colour.
#[derive(Debug, Clone)]
pub struct Part {
    pub text: String,
    pub tone: Tone,
}

/// A [`Part`] over sequences.
pub struct PartModel {
    pub text: Seq<char>,
    pub tone: Tone,
}

impl View for Part {
    type V = PartModel;

    open spec fn view(&self) -> PartModel {
        PartModel { text: self.text@, tone: self.tone }
    }
}

/// The models of a list of parts.
pub open spec fn part_models(parts: Seq<Part>) -> Seq<PartModel> {
    Seq::new(parts.len(), |i: int| parts[i]@)
}

/// How many characters parts take.
pub open spec fn width_of(parts: Seq<PartModel>) -> nat
    decreases parts.len(),
{
    if parts.len() == 0 {
        0
    } else {
        width_of(parts.drop_last()) + parts.last().text.len()
    }
}

impl Theme {
    /// The colour of a tone.
    pub fn ink(&self, tone: Tone) -> (color: Color)
        ensures
            color == (match tone {
                Tone::Plain => self.fg,
                Tone::Dim => self.dim,
                Tone::Accent | Tone::Strong => self.accent,
                Tone::Good => self.good,
                Tone::Warn => self.warn,
                Tone::Bad => self.bad,
            }),
    {
        match tone {
            Tone::Plain => self.fg,
            Tone::Dim => self.dim,
            Tone::Accent | Tone::Strong => self.accent,
            Tone::Good => self.good,
            Tone::Warn => self.warn,
            Tone::Bad => self.bad,
        }
    }
}

/// A part.
pub open spec fn part(text: Seq<char>, tone: Tone) -> PartModel {
    PartModel { text, tone }
}

/// Add a part that says `text`.
pub fn push_text(parts: &mut Vec<Part>, text: &str, tone: Tone)
    ensures
        part_models(final(parts)@) == part_models(old(parts)@).push(part(text@, tone)),
{
    parts.push(Part { text: text.to_owned(), tone });
    assert(part_models(parts@) =~= part_models(old(parts)@).push(part(text@, tone)));
}

/// Add a part that says a number.
pub fn push_number(parts: &mut Vec<Part>, n: u64, tone: Tone)
    ensures
        part_models(final(parts)@) == part_models(old(parts)@).push(
            part(decimal(n as nat), tone),
        ),
{
    let mut text = String::new();
    push_decimal(&mut text, n);
    assert(text@ =~= decimal(n as nat));
    parts.push(Part { text, tone });
    assert(part_models(parts@) =~= part_models(old(parts)@).push(part(decimal(n as nat), tone)));
}

/// The parts with those details behind them that fit into `width`, each after two spaces. `used`
/// is how much of the width is taken already. A detail that does not fit is left out whole, and
/// one further on may still fit.
pub open spec fn fitted(
    parts: Seq<PartModel>,
    used: nat,
    details: Seq<PartModel>,
    width: nat,
) -> Seq<PartModel>
    decreases details.len(),
{
    if details.len() == 0 {
        parts
    } else {
        let detail = details[0];
        let needed = detail.text.len() + 2;
        if used + needed <= width {
            fitted(
                parts.push(part("  "@, Tone::Dim)).push(detail),
                used + needed,
                details.skip(1),
                width,
            )
        } else {
            fitted(parts, used, details.skip(1), width)
        }
    }
}

/// Add the details that fit.
pub fn push_fitting(parts: &mut Vec<Part>, used: usize, details: &Vec<Part>, width: usize)
    ensures
        part_models(final(parts)@) == fitted(
            part_models(old(parts)@),
            used as nat,
            part_models(details@),
            width as nat,
        ),
{
    let ghost all = part_models(details@);
    let ghost goal = fitted(part_models(parts@), used as nat, all, width as nat);
    let mut taken: usize = used;
    let mut i: usize = 0;
    assert(all.skip(0) =~= all);
    while i < details.len()
        invariant
            i <= details@.len(),
            all == part_models(details@),
            fitted(part_models(parts@), taken as nat, all.skip(i as int), width as nat) == goal,
        decreases details@.len() - i,
    {
        let detail = &details[i];
        let letters = chars_of(detail.text.as_str());
        let length: usize = letters.len();
        assert(all.skip(i as int)[0] == detail@);
        assert(all.skip(i as int).skip(1) =~= all.skip(i + 1));
        if taken <= width && length <= width - taken && 2 <= width - taken - length {
            push_text(parts, "  ", Tone::Dim);
            push_text(parts, detail.text.as_str(), detail.tone);
            taken += length + 2;
        }
        i += 1;
    }
    assert(all.skip(i as int) =~= Seq::<PartModel>::empty());
}

/// Details never make a line wider than it may be.
pub proof fn details_fit(
    parts: Seq<PartModel>,
    used: nat,
    details: Seq<PartModel>,
    width: nat,
)
    requires
        used == width_of(parts),
        used <= width,
    ensures
        width_of(fitted(parts, used, details, width)) <= width,
    decreases details.len(),
{
    reveal_strlit("  ");
    if details.len() > 0 {
        let detail = details[0];
        let needed = detail.text.len() + 2;
        if used + needed <= width {
            let spaced = parts.push(part("  "@, Tone::Dim));
            let longer = spaced.push(detail);
            assert(spaced.drop_last() =~= parts);
            assert(longer.drop_last() =~= spaced);
            assert(width_of(spaced) == width_of(parts) + 2);
            assert(width_of(longer) == width_of(spaced) + detail.text.len());
            details_fit(longer, used + needed, details.skip(1), width);
        } else {
            details_fit(parts, used, details.skip(1), width);
        }
    }
}

/// Details are shown whole or not at all: what stands in the line stood there before, is a detail,
/// or separates two.
pub proof fn details_are_whole(
    parts: Seq<PartModel>,
    used: nat,
    details: Seq<PartModel>,
    width: nat,
    k: int,
)
    requires
        0 <= k < fitted(parts, used, details, width).len(),
    ensures
        ({
            let shown = fitted(parts, used, details, width)[k];
            ||| parts.contains(shown)
            ||| details.contains(shown)
            ||| shown == part("  "@, Tone::Dim)
        }),
    decreases details.len(),
{
    if details.len() > 0 {
        let detail = details[0];
        let needed = detail.text.len() + 2;
        let rest = details.skip(1);
        let (taken, next) = if used + needed <= width {
            (parts.push(part("  "@, Tone::Dim)).push(detail), used + needed)
        } else {
            (parts, used)
        };
        details_are_whole(taken, next, rest, width, k);
        let shown = fitted(parts, used, details, width)[k];
        if rest.contains(shown) {
            let i = choose|i: int| 0 <= i < rest.len() && rest[i] == shown;
            assert(details[i + 1] == shown);
        } else if taken.contains(shown) {
            let i = choose|i: int| 0 <= i < taken.len() && taken[i] == shown;
            if i < parts.len() {
                assert(parts[i] == shown);
            } else if i == parts.len() + 1 {
                assert(details[0] == shown);
            }
        }
    } else {
        assert(parts.contains(parts[k]));
    }
}

/// A terminal that is too small for a screen, in words. The numbers are columns and rows.
pub open spec fn too_small_words(
    min_width: u16,
    min_height: u16,
    width: u16,
    height: u16,
) -> Seq<char> {
    "Terminal too small\nneed "@ + decimal(min_width as nat) + "x"@ + decimal(min_height as nat)
        + ", have "@ + decimal(width as nat) + "x"@ + decimal(height as nat)
}

/// What to say instead of drawing on a terminal that cannot show anything useful.
pub fn too_small(min_width: u16, min_height: u16, width: u16, height: u16) -> (message: Option<
    String,
>)
    ensures
        match message {
            Some(s) => (width < min_width || height < min_height) && s@ == too_small_words(
                min_width,
                min_height,
                width,
                height,
            ),
            None => width >= min_width && height >= min_height,
        },
{
    if width >= min_width && height >= min_height {
        return None;
    }
    let mut s = "Terminal too small\nneed ".to_owned();
    push_decimal(&mut s, min_width as u64);
    s.append("x");
    push_decimal(&mut s, min_height as u64);
    s.append(", have ");
    push_decimal(&mut s, width as u64);
    s.append("x");
    push_decimal(&mut s, height as u64);
    assert(s@ =~= too_small_words(min_width, min_height, width, height));
    Some(s)
}

} // verus!
