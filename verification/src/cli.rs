//! The command line: which process is meant, and the lines that are printed.
use vstd::prelude::*;
use vstd::slice::slice_subrange;

use crate::ipc::commands::text_view;
use crate::ipc::discovery::DotnetProcess;
use crate::text::{
    chars_of, contains_text, decimal, holds_text, lowercase, push_decimal, same_text, text_of,
    texts_occur_in_what_holds_them, to_lowercase,
};

verus! {

/// What the `Debug` format makes of a text.
pub uninterp spec fn debug_text(s: Seq<char>) -> Seq<char>;

/// The `Debug` format of `str`: the text in quotation marks, with whatever would not print
/// escaped.
#[verifier::external_body]
fn quoted(s: &str) -> (out: String)
    ensures
        out@ == debug_text(s@),
{
    format!("{s:?}")
}

// ---------------------------------------------------------------------------------------------
// Which process is meant

/// How far looking for a process got.
pub enum Target {
    /// None was asked for.
    Unasked,
    /// The process at this place is meant.
    Found(usize),
    /// No process is meant, which is said in these words.
    Missing(String),
    /// No process goes by the name. Framework-dependent apps are launched through the host, so
    /// their process name is just "dotnet" and matching on it is useless: ask the runtimes for
    /// their entry assembly instead. Only worth the round trips once the cheap match has come up
    /// empty.
    AskAssemblies,
    /// The processes at these places may be meant. Identical process names are the common case, so
    /// ask for what distinguishes them.
    Ambiguous(Vec<usize>),
}

/// The names of processes.
pub open spec fn process_names(processes: Seq<DotnetProcess>) -> Seq<Option<Seq<char>>> {
    Seq::new(processes.len(), |i: int| Some(processes[i].name@))
}

/// The entry assemblies of processes, as far as they are known.
pub open spec fn assembly_names(assemblies: Seq<Option<String>>) -> Seq<Option<Seq<char>>> {
    Seq::new(assemblies.len(), |i: int| text_view(assemblies[i]))
}

/// Whether a name holds what was asked for, whatever the case.
pub open spec fn is_meant(name: Option<Seq<char>>, asked: Seq<char>) -> bool {
    match name {
        Some(text) => holds_text(lowercase(text), lowercase(asked)),
        None => false,
    }
}

/// The places of the first `n` names that hold what was asked for.
pub open spec fn meant(names: Seq<Option<Seq<char>>>, asked: Seq<char>, n: nat) -> Seq<int>
    decreases n,
{
    if n == 0 {
        Seq::empty()
    } else {
        let before = meant(names, asked, (n - 1) as nat);
        if is_meant(names[n - 1], asked) {
            before.push(n - 1)
        } else {
            before
        }
    }
}

/// The places of a list.
pub open spec fn places(list: Seq<usize>) -> Seq<int> {
    Seq::new(list.len(), |i: int| list[i] as int)
}

/// Where a process is, counting from place `i` on.
pub open spec fn pid_place(processes: Seq<DotnetProcess>, pid: u32, i: int) -> Option<int>
    decreases processes.len() - i,
{
    if i < 0 || i >= processes.len() {
        None
    } else if processes[i].pid == pid {
        Some(i)
    } else {
        pid_place(processes, pid, i + 1)
    }
}

/// What is said where no process has a pid.
pub open spec fn no_such_pid(pid: u32) -> Seq<char> {
    "no attachable .NET process with pid "@ + decimal(pid as nat)
        + ". It may not be a .NET process, may have exited, or may belong to another user."@
}

/// What is said where no process goes by a name.
pub open spec fn no_such_name(asked: Seq<char>) -> Seq<char> {
    "no attachable .NET process whose name or entry assembly contains "@ + debug_text(
        lowercase(asked),
    ) + ". Run `countercow ps` to see what is available."@
}

/// What to look for by name.
pub open spec fn by_name(processes: Seq<DotnetProcess>, asked: Seq<char>) -> Seq<int> {
    meant(process_names(processes), asked, processes.len())
}

fn pick(names: &Vec<Option<String>>, asked: &str) -> (found: Vec<usize>)
    ensures
        places(found@) == meant(assembly_names(names@), asked@, names@.len()),
        forall|k: int| 0 <= k < found@.len() ==> (#[trigger] found@[k]) < names@.len(),
{
    let needle = to_lowercase(asked);
    let mut found: Vec<usize> = Vec::new();
    let mut i: usize = 0;
    assert(places(found@) =~= Seq::<int>::empty());
    while i < names.len()
        invariant
            i <= names@.len(),
            needle@ == lowercase(asked@),
            places(found@) == meant(assembly_names(names@), asked@, i as nat),
            forall|k: int| 0 <= k < found@.len() ==> (#[trigger] found@[k]) < names@.len(),
        decreases names@.len() - i,
    {
        let hit = match &names[i] {
            Some(name) => contains_text(to_lowercase(name.as_str()).as_str(), needle.as_str()),
            None => false,
        };
        let ghost before = found@;
        if hit {
            found.push(i);
            assert(places(found@) =~= places(before).push(i as int));
        }
        i += 1;
    }
    found
}

/// Look for the process that was asked for, by pid or else by name, among those that were found.
pub fn resolve_target(processes: &Vec<DotnetProcess>, pid: Option<u32>, name: Option<&str>) -> (
    target: Target)
    ensures
        match (pid, name) {
            (Some(pid), _) => match pid_place(processes@, pid, 0) {
                Some(i) => target matches Target::Found(j) && i == j && i < processes@.len(),
                None => target matches Target::Missing(words) && words@ == no_such_pid(pid),
            },
            (None, Some(asked)) => {
                let found = by_name(processes@, asked@);
                if found.len() == 0 {
                    target is AskAssemblies
                } else if found.len() == 1 {
                    target matches Target::Found(j) && j == found[0] && j < processes@.len()
                } else {
                    target matches Target::Ambiguous(list) && places(list@) == found
                }
            },
            (None, None) => target is Unasked,
        },
{
    if let Some(wanted) = pid {
        let mut i: usize = 0;
        while i < processes.len()
            invariant
                i <= processes@.len(),
                pid == Some(wanted),
                pid_place(processes@, wanted, i as int) == pid_place(processes@, wanted, 0),
            decreases processes@.len() - i,
        {
            if processes[i].pid == wanted {
                return Target::Found(i);
            }
            i += 1;
        }
        let mut words = "no attachable .NET process with pid ".to_owned();
        push_decimal(&mut words, wanted as u64);
        words.append(
            ". It may not be a .NET process, may have exited, or may belong to another user.",
        );
        assert(words@ =~= no_such_pid(wanted));
        return Target::Missing(words);
    }
    let asked = match name {
        Some(asked) => asked,
        None => {
            return Target::Unasked;
        },
    };
    let mut names: Vec<Option<String>> = Vec::new();
    let mut i: usize = 0;
    while i < processes.len()
        invariant
            i <= processes@.len(),
            names@.len() == i,
            forall|k: int|
                0 <= k < i ==> text_view(#[trigger] names@[k]) == Some(processes@[k].name@),
        decreases processes@.len() - i,
    {
        names.push(Some(processes[i].name.clone()));
        i += 1;
    }
    assert(assembly_names(names@) =~= process_names(processes@));
    let found = pick(&names, asked);
    proof {
        assert(places(found@).len() == found@.len());
        if found@.len() > 0 {
            assert(places(found@)[0] == found@[0]);
        }
    }
    if found.len() == 0 {
        Target::AskAssemblies
    } else if found.len() == 1 {
        Target::Found(found[0])
    } else {
        Target::Ambiguous(found)
    }
}

/// Look for the process that was asked for by its entry assembly, after no process name held it.
/// `assemblies` holds what each process said its entry assembly is, if it answered.
pub fn resolve_by_assembly(assemblies: &Vec<Option<String>>, name: &str) -> (target: Target)
    ensures
        ({
            let found = meant(assembly_names(assemblies@), name@, assemblies@.len());
            if found.len() == 0 {
                target matches Target::Missing(words) && words@ == no_such_name(name@)
            } else if found.len() == 1 {
                target matches Target::Found(j) && j == found[0] && j < assemblies@.len()
            } else {
                target matches Target::Ambiguous(list) && places(list@) == found
            }
        }),
{
    let found = pick(assemblies, name);
    proof {
        assert(places(found@).len() == found@.len());
        if found@.len() > 0 {
            assert(places(found@)[0] == found@[0]);
        }
    }
    if found.len() == 0 {
        let mut words =
            "no attachable .NET process whose name or entry assembly contains ".to_owned();
        words.append(quoted(to_lowercase(name).as_str()).as_str());
        words.append(". Run `countercow ps` to see what is available.");
        assert(words@ =~= no_such_name(name@));
        Target::Missing(words)
    } else if found.len() == 1 {
        Target::Found(found[0])
    } else {
        Target::Ambiguous(found)
    }
}

/// A process that may be meant: its name, what it said its entry assembly is, and its pid.
pub struct Candidate {
    pub name: String,
    pub assembly: Option<String>,
    pub pid: u32,
}

/// What distinguishes a candidate: its entry assembly, where that says more than its name.
pub open spec fn candidate_words(c: Candidate) -> Seq<char> {
    (match text_view(c.assembly) {
        Some(assembly) if assembly.len() > 0 && assembly != c.name@ => assembly,
        _ => c.name@,
    }) + " (pid "@ + decimal(c.pid as nat) + ")"@
}

/// The first `n` candidates, one after the other.
pub open spec fn candidate_list(candidates: Seq<Candidate>, n: nat) -> Seq<char>
    decreases n,
{
    if n == 0 {
        Seq::empty()
    } else if n == 1 {
        candidate_words(candidates[0])
    } else {
        candidate_list(candidates, (n - 1) as nat) + ", "@ + candidate_words(candidates[n - 1])
    }
}

/// What is said where several processes may be meant.
pub open spec fn ambiguity_words(asked: Seq<char>, candidates: Seq<Candidate>) -> Seq<char> {
    debug_text(lowercase(asked)) + " matches "@ + decimal(candidates.len()) + " processes: "@
        + candidate_list(candidates, candidates.len()) + ". Use --pid to pick one."@
}

/// Say that several processes may be meant.
pub fn ambiguity(name: &str, candidates: &Vec<Candidate>) -> (words: String)
    ensures
        words@ == ambiguity_words(name@, candidates@),
{
    let mut list = String::new();
    let mut i: usize = 0;
    assert(list@ =~= Seq::<char>::empty());
    while i < candidates.len()
        invariant
            i <= candidates@.len(),
            list@ == candidate_list(candidates@, i as nat),
        decreases candidates@.len() - i,
    {
        let ghost before = list@;
        let candidate = &candidates[i];
        let label = match &candidate.assembly {
            Some(assembly) => {
                if !assembly.as_str().is_empty() && !same_text(
                    assembly.as_str(),
                    candidate.name.as_str(),
                ) {
                    assembly.as_str()
                } else {
                    candidate.name.as_str()
                }
            },
            None => candidate.name.as_str(),
        };
        let mut one = label.to_owned();
        one.append(" (pid ");
        push_decimal(&mut one, candidate.pid as u64);
        one.append(")");
        assert(one@ =~= candidate_words(*candidate));
        if i > 0 {
            list.append(", ");
        }
        list.append(one.as_str());
        assert(list@ =~= candidate_list(candidates@, (i + 1) as nat)) by {
            if i == 0 {
                assert(before =~= Seq::<char>::empty());
            }
        }
        i += 1;
    }
    let mut words = quoted(to_lowercase(name).as_str());
    words.append(" matches ");
    push_decimal(&mut words, candidates.len() as u64);
    words.append(" processes: ");
    words.append(list.as_str());
    words.append(". Use --pid to pick one.");
    assert(words@ =~= ambiguity_words(name@, candidates@));
    words
}

/// A process is picked by name exactly where its name, or its entry assembly, holds what was asked
/// for.
pub proof fn exactly_the_meant_are_picked(
    names: Seq<Option<Seq<char>>>,
    asked: Seq<char>,
    n: nat,
    i: int,
)
    requires
        n <= names.len(),
    ensures
        meant(names, asked, n).contains(i) <==> 0 <= i < n && is_meant(names[i], asked),
    decreases n,
{
    if n > 0 {
        let before = meant(names, asked, (n - 1) as nat);
        exactly_the_meant_are_picked(names, asked, (n - 1) as nat, i);
        if is_meant(names[n - 1], asked) {
            let after = before.push(n - 1);
            assert(after[before.len() as int] == n - 1);
            if before.contains(i) {
                let k = choose|k: int| 0 <= k < before.len() && before[k] == i;
                assert(after[k] == i);
            }
            if after.contains(i) {
                let k = choose|k: int| 0 <= k < after.len() && after[k] == i;
                if k < before.len() {
                    assert(before[k] == i);
                }
            }
        }
    }
}

// ---------------------------------------------------------------------------------------------
// Lines

/// A text of at most `max` characters: a longer one is cut short, with a mark that it is.
pub open spec fn truncated(s: Seq<char>, max: nat) -> Seq<char> {
    if s.len() <= max {
        s
    } else if max == 0 {
        seq!['\u{2026}']
    } else {
        s.take(max - 1).push('\u{2026}')
    }
}

pub fn truncate(s: &str, max: usize) -> (out: String)
    ensures
        out@ == truncated(s@, max as nat),
{
    let letters = chars_of(s);
    if letters.len() <= max {
        return s.to_owned();
    }
    let kept: usize = if max > 0 {
        max - 1
    } else {
        0
    };
    let mut out = text_of(slice_subrange(letters.as_slice(), 0, kept));
    out.push('\u{2026}');
    assert(out@ =~= truncated(s@, max as nat));
    out
}

/// Some spaces.
pub open spec fn spaces(n: int) -> Seq<char> {
    if n > 0 {
        Seq::new(n as nat, |i: int| ' ')
    } else {
        Seq::empty()
    }
}

/// A text at the right of a field.
pub open spec fn right_aligned(s: Seq<char>, width: nat) -> Seq<char> {
    spaces(width - s.len()) + s
}

/// A text at the left of a field.
pub open spec fn left_aligned(s: Seq<char>, width: nat) -> Seq<char> {
    s + spaces(width - s.len())
}

fn push_spaces(out: &mut String, n: usize)
    ensures
        final(out)@ == old(out)@ + spaces(n as int),
{
    let ghost before = out@;
    let mut i: usize = 0;
    assert(before + spaces(0) =~= before);
    while i < n
        invariant
            i <= n,
            out@ == before + spaces(i as int),
        decreases n - i,
    {
        out.push(' ');
        i += 1;
        assert(out@ =~= before + spaces(i as int));
    }
}

fn push_right(out: &mut String, s: &str, width: usize)
    ensures
        final(out)@ == old(out)@ + right_aligned(s@, width as nat),
{
    let ghost before = out@;
    let letters = chars_of(s);
    if letters.len() < width {
        push_spaces(out, width - letters.len());
    }
    out.append(s);
    assert(out@ =~= before + right_aligned(s@, width as nat));
}

fn push_left(out: &mut String, s: &str, width: usize)
    ensures
        final(out)@ == old(out)@ + left_aligned(s@, width as nat),
{
    let ghost before = out@;
    let letters = chars_of(s);
    out.append(s);
    if letters.len() < width {
        push_spaces(out, width - letters.len());
    }
    assert(out@ =~= before + left_aligned(s@, width as nat));
}

/// A line of the listing: three columns.
pub open spec fn listing_line(pid: Seq<char>, name: Seq<char>, command: Seq<char>) -> Seq<char> {
    right_aligned(pid, 7) + "  "@ + left_aligned(name, 24) + "  "@ + command
}

fn line(pid: &str, name: &str, command: &str) -> (out: String)
    ensures
        out@ == listing_line(pid@, name@, command@),
{
    let mut out = String::new();
    push_right(&mut out, pid, 7);
    out.append("  ");
    push_left(&mut out, name, 24);
    out.append("  ");
    out.append(command);
    assert(out@ =~= listing_line(pid@, name@, command@));
    out
}

/// The heading of the listing.
pub fn listing_heading() -> (out: String)
    ensures
        out@ == listing_line("PID"@, "NAME"@, "COMMAND"@),
{
    line("PID", "NAME", "COMMAND")
}

/// A process in the listing.
pub fn listing_row(process: &DotnetProcess) -> (out: String)
    ensures
        out@ == listing_line(
            decimal(process.pid as nat),
            truncated(process.name@, 24),
            process.command@,
        ),
{
    let mut pid = String::new();
    push_decimal(&mut pid, process.pid as u64);
    assert(pid@ =~= decimal(process.pid as nat));
    line(pid.as_str(), truncate(process.name.as_str(), 24).as_str(), process.command.as_str())
}

/// A sample as it is printed: where it comes from, its value, and what that is measured in.
pub open spec fn sample_line(
    provider: Seq<char>,
    name: Seq<char>,
    value: Seq<char>,
    suffix: Seq<char>,
) -> Seq<char> {
    "  "@ + left_aligned(provider + "/"@ + name, 38) + " "@ + right_aligned(value, 16) + suffix
}

/// A sample as it is printed. `value` and `suffix` are spelled out.
pub fn sample_row(provider: &str, name: &str, value: &str, suffix: &str) -> (out: String)
    ensures
        out@ == sample_line(provider@, name@, value@, suffix@),
{
    let mut source = provider.to_owned();
    source.append("/");
    source.append(name);
    let mut out = "  ".to_owned();
    push_left(&mut out, source.as_str(), 38);
    out.append(" ");
    push_right(&mut out, value, 16);
    out.append(suffix);
    assert(out@ =~= sample_line(provider@, name@, value@, suffix@));
    out
}

/// A name that is cut short is no longer than it may be, and says that it was cut.
pub proof fn cut_names_fit(s: Seq<char>, max: nat)
    requires
        max > 0,
    ensures
        truncated(s, max).len() <= max,
        s.len() > max ==> truncated(s, max).last() == '\u{2026}',
        s.len() <= max ==> truncated(s, max) == s,
{
}

/// A text in a field stands at its own end of it, with spaces up to the other end, and one that is
/// too long for the field stands as it is.
pub proof fn texts_stand_at_their_end(s: Seq<char>, width: nat, i: int)
    requires
        0 <= i < width - s.len(),
    ensures
        right_aligned(s, width).len() == width,
        right_aligned(s, width).skip(width - s.len()) == s,
        right_aligned(s, width)[i] == ' ',
        left_aligned(s, width).len() == width,
        left_aligned(s, width).take(s.len() as int) == s,
        left_aligned(s, width)[s.len() + i] == ' ',
{
    assert(right_aligned(s, width).skip(width - s.len()) =~= s);
    assert(left_aligned(s, width).take(s.len() as int) =~= s);
}

/// A text that fills its field or more is not padded.
pub proof fn long_texts_are_not_padded(s: Seq<char>, width: nat)
    requires
        width <= s.len(),
    ensures
        right_aligned(s, width) == s,
        left_aligned(s, width) == s,
{
    assert(right_aligned(s, width) =~= s);
    assert(left_aligned(s, width) =~= s);
}

/// Where pids and names are not too long for their columns, the pid ends with the seventh, the name
/// begins with the tenth, and the command begins with the thirty-sixth column.
pub proof fn listings_are_in_columns(pid: Seq<char>, name: Seq<char>, command: Seq<char>)
    requires
        pid.len() <= 7,
        name.len() <= 24,
    ensures
        ({
            let line = listing_line(pid, name, command);
            &&& line.subrange(7 - pid.len(), 7) == pid
            &&& line.subrange(9, (9 + name.len()) as int) == name
            &&& line.skip(35) == command
        }),
{
    reveal_strlit("  ");
    let line = listing_line(pid, name, command);
    assert(line.subrange(7 - pid.len(), 7) =~= pid);
    assert(line.subrange(9, (9 + name.len()) as int) =~= name);
    assert(line.skip(35) =~= command);
}

/// A name that is cut short keeps its start: all but the last of the characters there is room for.
pub proof fn cut_names_keep_their_start(s: Seq<char>, max: nat)
    requires
        0 < max < s.len(),
    ensures
        truncated(s, max).len() == max,
        truncated(s, max).drop_last() == s.take(max - 1),
{
    assert(truncated(s, max).drop_last() =~= s.take(max - 1));
}

/// A process is found by its pid where it first stands in the list, and not at all if it does not.
pub proof fn the_first_of_a_pid_is_found(processes: Seq<DotnetProcess>, pid: u32, start: int)
    requires
        0 <= start <= processes.len(),
    ensures
        match pid_place(processes, pid, start) {
            Some(i) => {
                &&& start <= i < processes.len()
                &&& processes[i].pid == pid
                &&& forall|j: int| start <= j < i ==> (#[trigger] processes[j]).pid != pid
            },
            None => forall|j: int|
                start <= j < processes.len() ==> (#[trigger] processes[j]).pid != pid,
        },
    decreases processes.len() - start,
{
    if start < processes.len() {
        the_first_of_a_pid_is_found(processes, pid, start + 1);
    }
}

/// A process is meant if what was asked for occurs anywhere in its name, both in lower case. One
/// whose name is not known is not.
pub proof fn the_meant_hold_what_was_asked_for(
    name: Seq<char>,
    asked: Seq<char>,
    before: Seq<char>,
    behind: Seq<char>,
)
    ensures
        lowercase(name) == before + lowercase(asked) + behind ==> is_meant(Some(name), asked),
        lowercase(name).len() < lowercase(asked).len() ==> !is_meant(Some(name), asked),
        !is_meant(None, asked),
{
    texts_occur_in_what_holds_them(before, lowercase(asked), behind);
}

/// A candidate is told by its entry assembly where it has one that is not just its name, and by its
/// name otherwise, with its pid behind.
pub proof fn candidates_are_told_apart(c: Candidate)
    ensures
        ({
            let pid = " (pid "@ + decimal(c.pid as nat) + ")"@;
            let words = candidate_words(c);
            &&& c.assembly is None ==> words =~= c.name@ + pid
            &&& c.assembly is Some && (c.assembly->0@.len() == 0 || c.assembly->0@ == c.name@)
                ==> words =~= c.name@ + pid
            &&& c.assembly is Some && c.assembly->0@.len() > 0 && c.assembly->0@ != c.name@
                ==> words =~= c.assembly->0@ + pid
        }),
{
}

} // verus!
