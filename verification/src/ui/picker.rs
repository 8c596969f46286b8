//! The startup screen: choose a .NET process to attach to.
use vstd::prelude::*;

use super::keys::{KeyCode, KeyEvent};
use crate::ipc::commands::{framework_words, text_view, version_numbers, InfoModel, ProcessInfo};
use crate::ipc::discovery::{Discovery, DotnetProcess};
use crate::text::{decimal, push_decimal};

verus! {

pub struct Entry {
    pub process: DotnetProcess,
    /// Best-effort: a process can exit between discovery and the identity query.
    pub info: Option<ProcessInfo>,
}

/// What stands for a runtime that is not known.
pub const UNKNOWN: &'static str = "\u{2014}";

/// The name worth showing of a process.
pub open spec fn shown_name(process_name: Seq<char>, info: Option<InfoModel>) -> Seq<char> {
    match info {
        Some(info) => match info.assembly_name {
            Some(assembly) if assembly.len() > 0 && process_name == "dotnet"@ => assembly,
            _ => process_name,
        },
        None => process_name,
    }
}

/// The runtime that a process says it runs on.
pub open spec fn shown_runtime(info: Option<InfoModel>) -> Seq<char> {
    match info {
        Some(info) => match info.clr_version {
            Some(raw) => match version_numbers(raw) {
                Some((major, minor)) => framework_words(major, minor),
                None => UNKNOWN@,
            },
            None => UNKNOWN@,
        },
        None => UNKNOWN@,
    }
}

/// An identity that may be absent.
pub open spec fn info_view(info: Option<ProcessInfo>) -> Option<InfoModel> {
    match info {
        Some(i) => Some(i@),
        None => None,
    }
}

impl Entry {
    /// The name worth showing.
    ///
    /// Discovery often yields "dotnet" for framework-dependent apps launched via the host, but
    /// the runtime knows its own entry assembly, which is what a person is actually looking for.
    pub fn display_name(&self) -> (name: &str)
        ensures
            name@ == shown_name(self.process.name@, info_view(self.info)),
    {
        match &self.info {
            Some(info) => info.display_name(self.process.name.as_str()),
            None => self.process.name.as_str(),
        }
    }

    pub fn runtime(&self) -> (label: String)
        ensures
            label@ == shown_runtime(info_view(self.info)),
    {
        match &self.info {
            Some(info) => match info.framework_label() {
                Some(label) => label,
                None => UNKNOWN.to_owned(),
            },
            None => UNKNOWN.to_owned(),
        }
    }
}

// ---------------------------------------------------------------------------------------------
// What was left out

/// What discovery deliberately left out, so the picker can say so rather than appear incomplete.
#[derive(Debug, Clone, Copy, PartialEq, Eq, Structural)]
pub struct Skipped {
    pub stale: usize,
    pub mismatched: usize,
    pub foreign: usize,
    pub too_long: usize,
}

/// One reason with a count, if it was met, after what was said before.
pub open spec fn with_reason(said: Seq<char>, n: usize, reason: Seq<char>) -> Seq<char> {
    if n == 0 {
        said
    } else if said.len() == 0 {
        decimal(n as nat) + " "@ + reason
    } else {
        said + ", "@ + decimal(n as nat) + " "@ + reason
    }
}

/// The four reasons for leaving a socket out.
pub struct Reasons {
    pub stale: Seq<char>,
    pub mismatched: Seq<char>,
    pub foreign: Seq<char>,
    pub too_long: Seq<char>,
}

impl Skipped {
    /// All sockets that were left out.
    pub open spec fn all(self) -> nat {
        (self.stale + self.mismatched + self.foreign + self.too_long) as nat
    }

    /// The reasons that were met, each with its count.
    pub open spec fn listed(self, words: Reasons) -> Seq<char> {
        let stale = with_reason(Seq::empty(), self.stale, words.stale);
        let mismatched = with_reason(stale, self.mismatched, words.mismatched);
        let foreign = with_reason(mismatched, self.foreign, words.foreign);
        with_reason(foreign, self.too_long, words.too_long)
    }
}

fn push_reason(said: &mut String, n: usize, reason: &str)
    ensures
        final(said)@ == with_reason(old(said)@, n, reason@),
{
    let ghost before = said@;
    if n > 0 {
        if !said.as_str().is_empty() {
            said.append(", ");
        }
        push_decimal(said, n as u64);
        said.append(" ");
        said.append(reason);
        assert(said@ =~= with_reason(before, n, reason@));
    }
}

/// The words of the picker for the four reasons.
pub open spec fn picker_words() -> Reasons {
    Reasons {
        stale: "stale"@,
        mismatched: "pid-reused"@,
        foreign: "other users"@,
        too_long: "path too long"@,
    }
}

/// The words of a listing for the four reasons.
pub open spec fn listing_words() -> Reasons {
    Reasons {
        stale: "stale"@,
        mismatched: "reusing a dead process's pid"@,
        foreign: "owned by another user"@,
        too_long: "with an over-long socket path"@,
    }
}

impl Skipped {
    /// What a discovery left out.
    pub fn of(discovery: &Discovery) -> (skipped: Self)
        ensures
            skipped == (Skipped {
                stale: discovery.stale,
                mismatched: discovery.mismatched,
                foreign: discovery.foreign,
                too_long: discovery.too_long,
            }),
    {
        Skipped {
            stale: discovery.stale,
            mismatched: discovery.mismatched,
            foreign: discovery.foreign,
            too_long: discovery.too_long,
        }
    }

    pub fn total(&self) -> (n: usize)
        requires
            self.all() <= usize::MAX,
        ensures
            n == self.all(),
    {
        self.stale + self.mismatched + self.foreign + self.too_long
    }

    /// How many sockets were left out, and why, in a few words.
    pub fn describe(&self) -> (s: String)
        requires
            self.all() <= usize::MAX,
        ensures
            s@ == decimal(self.all()) + " sockets skipped ("@ + self.listed(picker_words()) + ")"@,
    {
        let mut parts = String::new();
        push_reason(&mut parts, self.stale, "stale");
        push_reason(&mut parts, self.mismatched, "pid-reused");
        push_reason(&mut parts, self.foreign, "other users");
        push_reason(&mut parts, self.too_long, "path too long");
        assert(parts@ =~= self.listed(picker_words()));
        let mut s = String::new();
        push_decimal(&mut s, self.total() as u64);
        s.append(" sockets skipped (");
        s.append(parts.as_str());
        s.append(")");
        assert(s@ =~= decimal(self.all()) + " sockets skipped ("@ + self.listed(picker_words())
            + ")"@);
        s
    }

    /// What was left out in the words of a listing, or nothing if nothing was.
    pub fn report(&self) -> (s: Option<String>)
        requires
            self.all() <= usize::MAX,
        ensures
            text_view(s) == (if self.all() == 0 {
                None
            } else {
                Some(
                    "Skipped "@ + decimal(self.all()) + " sockets: "@ + self.listed(
                        listing_words(),
                    ) + "."@,
                )
            }),
    {
        if self.total() == 0 {
            return None;
        }
        let mut parts = String::new();
        push_reason(&mut parts, self.stale, "stale");
        push_reason(&mut parts, self.mismatched, "reusing a dead process's pid");
        push_reason(&mut parts, self.foreign, "owned by another user");
        push_reason(&mut parts, self.too_long, "with an over-long socket path");
        assert(parts@ =~= self.listed(listing_words()));
        let mut s = "Skipped ".to_owned();
        push_decimal(&mut s, self.total() as u64);
        s.append(" sockets: ");
        s.append(parts.as_str());
        s.append(".");
        assert(s@ =~= "Skipped "@ + decimal(self.all()) + " sockets: "@ + self.listed(
            listing_words(),
        ) + "."@);
        Some(s)
    }
}

// ---------------------------------------------------------------------------------------------
// The picker

pub struct Picker {
    pub entries: Vec<Entry>,
    pub skipped: Skipped,
    /// The entry that is picked out, if there is any.
    pub selection: Option<usize>,
    pub cancelled: bool,
}

/// What a key leads to.
#[derive(Debug, Clone, Copy, PartialEq, Eq, Structural)]
pub enum Step {
    /// The picker stays open.
    Stay,
    /// The entry that is picked out was chosen.
    Chosen,
    /// The user left.
    Cancelled,
}

/// A place moved along a list, which it does not leave.
pub open spec fn moved(place: usize, delta: int, len: int) -> int {
    if place + delta < 0 {
        0
    } else if place + delta > len - 1 {
        len - 1
    } else {
        place + delta
    }
}

impl Picker {
    /// An entry is picked out if and only if there is one.
    pub open spec fn wf(&self) -> bool {
        match self.selection {
            Some(i) => i < self.entries@.len(),
            None => self.entries@.len() == 0,
        }
    }

    /// Whether a picker differs from another at most in which entry is picked out.
    pub open spec fn same_list(&self, other: &Picker) -> bool {
        &&& self.entries == other.entries
        &&& self.skipped == other.skipped
        &&& self.cancelled == other.cancelled
    }

    pub fn new(discovery: Discovery, entries: Vec<Entry>) -> (picker: Self)
        ensures
            picker.wf(),
            picker.entries == entries,
            picker.skipped.stale == discovery.stale,
            picker.skipped.mismatched == discovery.mismatched,
            picker.skipped.foreign == discovery.foreign,
            picker.skipped.too_long == discovery.too_long,
            entries@.len() > 0 ==> picker.selection == Some(0usize),
            !picker.cancelled,
    {
        let selection = if entries.len() > 0 {
            Some(0)
        } else {
            None
        };
        Picker { entries, skipped: Skipped::of(&discovery), selection, cancelled: false }
    }

    pub fn selected(&self) -> (entry: Option<&Entry>)
        requires
            self.wf(),
        ensures
            match (entry, self.selection) {
                (Some(e), Some(i)) => *e == self.entries@[i as int],
                (None, None) => true,
                _ => false,
            },
            entry is None <==> self.entries@.len() == 0,
    {
        match self.selection {
            Some(i) => Some(&self.entries[i]),
            None => None,
        }
    }

    pub fn move_by(&mut self, delta: isize)
        requires
            old(self).wf(),
        ensures
            final(self).wf(),
            final(self).same_list(old(self)),
            match (old(self).selection, final(self).selection) {
                (Some(i), Some(j)) => j == moved(i, delta as int, old(self).entries@.len() as int),
                (None, None) => true,
                _ => false,
            },
    {
        if let Some(current) = self.selection {
            let last: usize = self.entries.len() - 1;
            let next: i128 = current as i128 + delta as i128;
            self.selection =
            Some(
                if next < 0 {
                    0
                } else if next > last as i128 {
                    last
                } else {
                    next as usize
                },
            );
        }
    }

    pub fn select_first(&mut self)
        requires
            old(self).wf(),
        ensures
            final(self).wf(),
            final(self).same_list(old(self)),
            old(self).entries@.len() > 0 ==> final(self).selection == Some(0usize),
    {
        if self.entries.len() > 0 {
            self.selection = Some(0);
        }
    }

    pub fn select_last(&mut self)
        requires
            old(self).wf(),
        ensures
            final(self).wf(),
            final(self).same_list(old(self)),
            old(self).entries@.len() > 0 ==> (final(self).selection matches Some(i) && i == old(
                self,
            ).entries@.len() - 1),
    {
        if self.entries.len() > 0 {
            self.selection = Some(self.entries.len() - 1);
        }
    }

    /// React to a key. Enter on an empty list does nothing: there is nothing to attach to.
    pub fn press(&mut self, key: KeyEvent) -> (step: Step)
        requires
            old(self).wf(),
        ensures
            final(self).wf(),
            step == step_of(key, old(self).entries@.len() as int),
            final(self).entries == old(self).entries,
            final(self).skipped == old(self).skipped,
            final(self).cancelled == (old(self).cancelled || step == Step::Cancelled),
            match (old(self).selection, final(self).selection) {
                (Some(i), Some(j)) => j == place_after(
                    key,
                    i,
                    old(self).entries@.len() as int,
                ),
                (None, None) => true,
                _ => false,
            },
    {
        if !key.pressed {
            return Step::Stay;
        }
        match key.code {
            KeyCode::Char('q') | KeyCode::Esc => {
                self.cancelled = true;
                return Step::Cancelled;
            },
            KeyCode::Char('c') => {
                if key.control {
                    self.cancelled = true;
                    return Step::Cancelled;
                }
            },
            KeyCode::Enter => {
                if self.entries.len() > 0 {
                    return Step::Chosen;
                }
            },
            KeyCode::Up | KeyCode::Char('k') => self.move_by(-1),
            KeyCode::Down | KeyCode::Char('j') => self.move_by(1),
            KeyCode::PageUp => self.move_by(-10),
            KeyCode::PageDown => self.move_by(10),
            KeyCode::Home => self.select_first(),
            KeyCode::End => self.select_last(),
            _ => {},
        }
        Step::Stay
    }
}

/// What a key leads to, with `len` entries to choose from.
pub open spec fn step_of(key: KeyEvent, len: int) -> Step {
    if !key.pressed {
        Step::Stay
    } else {
        match key.code {
            KeyCode::Esc => Step::Cancelled,
            KeyCode::Enter => if len > 0 {
                Step::Chosen
            } else {
                Step::Stay
            },
            KeyCode::Char(c) => if c == 'q' || (c == 'c' && key.control) {
                Step::Cancelled
            } else {
                Step::Stay
            },
            _ => Step::Stay,
        }
    }
}

/// Where a key moves the selection.
pub open spec fn place_after(key: KeyEvent, place: usize, len: int) -> int {
    if !key.pressed {
        place as int
    } else {
        match key.code {
            KeyCode::Up => moved(place, -1, len),
            KeyCode::Down => moved(place, 1, len),
            KeyCode::PageUp => moved(place, -10, len),
            KeyCode::PageDown => moved(place, 10, len),
            KeyCode::Home => 0,
            KeyCode::End => len - 1,
            KeyCode::Char(c) => if c == 'k' {
                moved(place, -1, len)
            } else if c == 'j' {
                moved(place, 1, len)
            } else {
                place as int
            },
            _ => place as int,
        }
    }
}

} // verus!
