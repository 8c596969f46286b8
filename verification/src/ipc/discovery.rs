//! Finding attachable .NET processes.
//!
//! The runtime advertises a diagnostic endpoint as a Unix socket named
//! `{tempdir}dotnet-diagnostic-{pid}-{key}-socket`. Two things make naive enumeration wrong:
//!
//! 1. `{tempdir}` is `$TMPDIR`, not `/tmp`. On macOS that is a per-user sandbox directory, so
//!    globbing `/tmp` finds nothing at all even with many .NET processes running.
//! 2. Sockets outlive their process when it dies uncleanly. On a normal developer machine the
//!    large majority of these files are stale, and a recycled PID can collide with one.
//!
//! `{key}` is the process start time, which allows rejecting a stale socket whose PID has been
//! reused.
use vstd::prelude::*;
use vstd::slice::slice_subrange;

use crate::order::{is_order, order_covers, ranks, sorted_order, Ranked};
use crate::text::{
    before_first, chars_of, find_char, find_last_char, find_word, first_place, last_place,
    lowercase, nth_word, number_of, parse_number, same_text, strip_prefix, strip_suffix,
    text_at_most, text_le, text_le_antisymmetric, text_le_total, text_le_transitive, text_of, to_lowercase, without_prefix,
    without_suffix,
};

verus! {

pub const SOCKET_PREFIX: &'static str = "dotnet-diagnostic-";

pub const SOCKET_SUFFIX: &'static str = "-socket";

/// `sun_path` is 104 bytes on macOS and 108 on Linux; use the smaller bound everywhere so a
/// path that would fail on macOS is reported the same way on Linux.
pub const SUN_PATH_MAX: usize = 104;

// ---------------------------------------------------------------------------------------------
// Names and keys

/// The pid and the key in a socket's name.
pub open spec fn socket_name(name: Seq<char>) -> Option<(u32, u64)> {
    match without_prefix(name, SOCKET_PREFIX@) {
        None => None,
        Some(tail) => match without_suffix(tail, SOCKET_SUFFIX@) {
            None => None,
            Some(middle) => {
                let dash = first_place(middle, '-');
                if dash == middle.len() {
                    None
                } else {
                    let pid = number_of(before_first(middle, '-'), u32::MAX as nat);
                    let key = number_of(middle.skip(dash + 1), u64::MAX as nat);
                    match (pid, key) {
                        (Some(p), Some(k)) => Some((p as u32, k as u64)),
                        _ => None,
                    }
                }
            },
        },
    }
}

/// Split `dotnet-diagnostic-{pid}-{key}-socket` into its parts.
///
/// Returns `None` for anything else, which includes the `dotnet-diagnostic-dsrouter-*` sockets
/// used for mobile/WASM bridging: those have a non-numeric first field and are not supported.
pub fn parse_socket_name(name: &str) -> (parts: Option<(u32, u64)>)
    ensures
        parts == socket_name(name@),
{
    let chars = chars_of(name);
    let tail = match strip_prefix(chars.as_slice(), SOCKET_PREFIX) {
        Some(t) => t,
        None => {
            return None;
        },
    };
    let middle = match strip_suffix(tail, SOCKET_SUFFIX) {
        Some(m) => m,
        None => {
            return None;
        },
    };
    let dash: usize = find_char(middle, '-');
    if dash == middle.len() {
        return None;
    }
    let pid_text = slice_subrange(middle, 0, dash);
    let key_text = slice_subrange(middle, dash + 1, middle.len());
    assert(pid_text@ =~= before_first(middle@, '-'));
    assert(key_text@ =~= middle@.skip(dash + 1));
    match (parse_number(pid_text, u32::MAX as u64), parse_number(key_text, u64::MAX)) {
        (Some(pid), Some(key)) => Some((pid as u32, key)),
        _ => None,
    }
}

/// The start time in a `/proc/{pid}/stat` line: field 22. The name in field 2 can itself contain
/// spaces and parentheses, so the fields are counted from behind the *last* closing one.
pub open spec fn stat_start_key(stat: Seq<char>) -> Option<u64> {
    match last_place(stat, ')') {
        None => None,
        Some(i) => match nth_word(stat.skip(i + 1), 0, 19) {
            None => None,
            Some(word) => match number_of(word, u64::MAX as nat) {
                None => None,
                Some(n) => Some(n as u64),
            },
        },
    }
}

/// The start time of a process in jiffies since boot, out of its `/proc/{pid}/stat`.
pub fn parse_stat_start_key(stat: &str) -> (key: Option<u64>)
    ensures
        key == stat_start_key(stat@),
{
    let chars = chars_of(stat);
    match find_last_char(chars.as_slice(), ')') {
        None => None,
        Some(i) => {
            assert(i < chars.len());
            let rest = slice_subrange(chars.as_slice(), i + 1, chars.len());
            assert(rest@ =~= stat@.skip(i + 1));
            // Fields now begin at the third, so the twenty-second is nineteen behind it.
            match find_word(rest, 19) {
                None => None,
                Some(word) => parse_number(word, u64::MAX),
            }
        },
    }
}

/// The name of an executable file without its extension. Only extensions that really are ones
/// count: names like "CrimeRate.VectorTileApi" keep their dots.
pub open spec fn executable_name(file: Seq<char>) -> Seq<char> {
    match without_suffix(file, ".exe"@) {
        Some(stem) => stem,
        None => match without_suffix(file, ".dll"@) {
            Some(stem) => stem,
            None => file,
        },
    }
}

/// The best display name of a process: that of its executable where it is known, else what the OS
/// calls it. Linux truncates the latter to 15 characters.
pub fn display_name(file: Option<&str>, os_name: &str) -> (name: String)
    ensures
        name@ == (match file {
            Some(f) => executable_name(f@),
            None => os_name@,
        }),
{
    match file {
        Some(f) => {
            let chars = chars_of(f);
            match strip_suffix(chars.as_slice(), ".exe") {
                Some(stem) => text_of(stem),
                None => match strip_suffix(chars.as_slice(), ".dll") {
                    Some(stem) => text_of(stem),
                    None => f.to_owned(),
                },
            }
        },
        None => os_name.to_owned(),
    }
}

/// Arguments with single spaces between them.
pub open spec fn joined(args: Seq<String>) -> Seq<char>
    decreases args.len(),
{
    if args.len() == 0 {
        Seq::empty()
    } else if args.len() == 1 {
        args[0]@
    } else {
        joined(args.drop_last()) + seq![' '] + args.last()@
    }
}

/// The command line of a process, or the path of its executable when arguments are unavailable.
pub fn display_command(args: &Vec<String>, executable: Option<&str>) -> (command: String)
    ensures
        command@ == (if args@.len() > 0 {
            joined(args@)
        } else {
            match executable {
                Some(path) => path@,
                None => Seq::empty(),
            }
        }),
{
    if args.is_empty() {
        return match executable {
            Some(path) => path.to_owned(),
            None => String::new(),
        };
    }
    let mut command = args[0].clone();
    let mut i: usize = 1;
    while i < args.len()
        invariant
            1 <= i <= args@.len(),
            command@ == joined(args@.take(i as int)),
        decreases args@.len() - i,
    {
        command.push(' ');
        command.append(args[i].as_str());
        proof {
            let longer = args@.take(i + 1);
            assert(longer.drop_last() =~= args@.take(i as int));
            assert(command@ =~= joined(longer));
        }
        i += 1;
    }
    assert(args@.take(args@.len() as int) =~= args@);
    command
}

/// Where the runtime puts diagnostic sockets: `$TMPDIR` if set, else `/tmp`.
///
/// Getting this wrong is silent: one simply finds no processes.
pub fn ipc_root(tmpdir: Option<Vec<u8>>) -> (root: Vec<u8>)
    ensures
        root@ == (match tmpdir {
            Some(dir) if dir@.len() > 0 => dir@,
            _ => seq![47u8, 116u8, 109u8, 112u8],
        }),
{
    match tmpdir {
        Some(dir) => {
            if dir.is_empty() {
                vec![47, 116, 109, 112]
            } else {
                dir
            }
        },
        None => vec![47, 116, 109, 112],
    }
}

// ---------------------------------------------------------------------------------------------
// Which endpoints to offer

/// What the OS says of a live process.
#[derive(Debug, Clone)]
pub struct LiveProcess {
    /// Who it belongs to, where that can be told.
    pub user: Option<u32>,
    /// The value the runtime uses as the socket's disambiguation key, where that can be told. The
    /// units differ per OS.
    pub start_key: Option<u64>,
    pub name: String,
    pub command: String,
}

/// A diagnostic socket that was found on disk.
#[derive(Debug, Clone)]
pub struct Endpoint {
    pub pid: u32,
    pub key: u64,
    /// The socket's path, byte for byte.
    pub path: Vec<u8>,
    /// When the socket was last written, in nanoseconds.
    pub modified: i128,
    /// The process with this pid, if there is one.
    pub process: Option<LiveProcess>,
}

#[derive(Debug, Clone)]
pub struct DotnetProcess {
    pub pid: u32,
    /// The socket's path, byte for byte.
    pub socket: Vec<u8>,
    /// Best display name: executable name where available, else the OS process name.
    pub name: String,
    /// Full command line, or the executable path when arguments are unavailable.
    pub command: String,
    /// Whether the socket's key matched the process's real start time.
    pub start_key_verified: bool,
}

/// Why nothing could be found out.
#[derive(Debug, Clone, PartialEq, Eq)]
pub enum DiscoveryError {
    /// The directory of sockets could not be read; both are in words.
    UnreadableRoot { path: String, source: String },
}

impl DiscoveryError {
    pub open spec fn words(self) -> Seq<char> {
        match self {
            DiscoveryError::UnreadableRoot { path, source } => {
                "cannot read the diagnostic socket directory "@ + path@ + ": "@ + source@
            },
        }
    }

    pub fn describe(&self) -> (s: String)
        ensures
            s@ == self.words(),
    {
        match self {
            DiscoveryError::UnreadableRoot { path, source } => {
                let mut s = "cannot read the diagnostic socket directory ".to_owned();
                s.append(path.as_str());
                s.append(": ");
                s.append(source.as_str());
                s
            },
        }
    }
}

/// Everything discovery found, including what it deliberately skipped.
#[derive(Debug)]
pub struct Discovery {
    pub processes: Vec<DotnetProcess>,
    /// Sockets whose PID no longer exists.
    pub stale: usize,
    /// Sockets whose PID is alive but whose start key disagrees: almost certainly PID reuse.
    pub mismatched: usize,
    /// Sockets owned by another user, which cannot be connected to.
    pub foreign: usize,
    /// Sockets whose path is too long for `sun_path`.
    pub too_long: usize,
}

impl Default for Discovery {
    fn default() -> (d: Self)
        ensures
            d.processes@.len() == 0,
            d.stale == 0,
            d.mismatched == 0,
            d.foreign == 0,
            d.too_long == 0,
    {
        Discovery { processes: Vec::new(), stale: 0, mismatched: 0, foreign: 0, too_long: 0 }
    }
}

/// What an endpoint is good for.
#[derive(Debug, Clone, Copy, PartialEq, Eq, Structural)]
pub enum Verdict {
    Stale,
    Foreign,
    TooLong,
    Mismatched,
    /// It can be connected to, and its key matched.
    Verified,
    /// It can be connected to, but the process's start time cannot be told.
    Unverified,
}

/// Judges an endpoint on behalf of the user `own`, if that is known.
pub open spec fn verdict_of(e: Endpoint, own: Option<u32>) -> Verdict {
    match e.process {
        None => Verdict::Stale,
        Some(p) => if own is Some && p.user is Some && own != p.user {
            Verdict::Foreign
        } else if e.path@.len() > SUN_PATH_MAX {
            Verdict::TooLong
        } else {
            match p.start_key {
                Some(actual) => if actual != e.key {
                    Verdict::Mismatched
                } else {
                    Verdict::Verified
                },
                None => Verdict::Unverified,
            }
        },
    }
}

fn judge(e: &Endpoint, own: Option<u32>) -> (v: Verdict)
    ensures
        v == verdict_of(*e, own),
{
    let p = match &e.process {
        None => {
            return Verdict::Stale;
        },
        Some(p) => p,
    };
    // Sockets are mode 0600, so another user's endpoint is visible but unusable.
    if let (Some(mine), Some(theirs)) = (own, p.user) {
        if mine != theirs {
            return Verdict::Foreign;
        }
    }
    if e.path.len() > SUN_PATH_MAX {
        return Verdict::TooLong;
    }
    // The key is the process start time. A mismatch means this socket belongs to a dead process
    // whose PID has since been reused.
    match p.start_key {
        Some(actual) => if actual != e.key {
            Verdict::Mismatched
        } else {
            Verdict::Verified
        },
        None => Verdict::Unverified,
    }
}

pub open spec fn is_usable(v: Verdict) -> bool {
    v == Verdict::Verified || v == Verdict::Unverified
}

/// How many of the first `n` endpoints got a verdict.
pub open spec fn tally(es: Seq<Endpoint>, own: Option<u32>, v: Verdict, n: nat) -> nat
    decreases n,
{
    if n == 0 {
        0
    } else {
        tally(es, own, v, (n - 1) as nat) + (if verdict_of(es[n - 1], own) == v {
            1nat
        } else {
            0nat
        })
    }
}

/// Whether endpoint `i` is to be preferred to endpoint `j`: a verified one to one that is not, else
/// the more recently written, else the one that was found first.
pub open spec fn preferred(es: Seq<Endpoint>, own: Option<u32>, i: int, j: int) -> bool {
    let vi = verdict_of(es[i], own) == Verdict::Verified;
    let vj = verdict_of(es[j], own) == Verdict::Verified;
    if vi != vj {
        vi
    } else if es[i].modified != es[j].modified {
        es[i].modified > es[j].modified
    } else {
        i < j
    }
}

/// Whether endpoint `i` is the best one of its process among the first `n`.
pub open spec fn is_best(es: Seq<Endpoint>, own: Option<u32>, i: int, n: int) -> bool {
    &&& 0 <= i < n
    &&& is_usable(verdict_of(es[i], own))
    &&& forall|j: int|
        0 <= j < n && j != i && is_usable(verdict_of(#[trigger] es[j], own)) && es[j].pid
            == es[i].pid ==> preferred(es, own, i, j)
}

/// Whether a process is offered through an endpoint.
pub open spec fn offers(p: DotnetProcess, e: Endpoint, own: Option<u32>) -> bool {
    &&& e.process is Some
    &&& p.pid == e.pid
    &&& p.socket@ == e.path@
    &&& p.name@ == e.process->0.name@
    &&& p.command@ == e.process->0.command@
    &&& p.start_key_verified == (verdict_of(e, own) == Verdict::Verified)
}

/// Whether a process is offered through the best endpoint it has.
pub open spec fn well_offered(p: DotnetProcess, es: Seq<Endpoint>, own: Option<u32>) -> bool {
    exists|i: int| #[trigger] is_best(es, own, i, es.len() as int) && offers(p, es[i], own)
}

/// Whether a process is offered through endpoint `i`.
pub open spec fn reaches(
    processes: Seq<DotnetProcess>,
    es: Seq<Endpoint>,
    own: Option<u32>,
    i: int,
) -> bool {
    exists|k: int| 0 <= k < processes.len() && offers(#[trigger] processes[k], es[i], own)
}

/// Whether two processes are different ones, and listed in the right order.
pub open spec fn in_order(p: DotnetProcess, q: DotnetProcess) -> bool {
    &&& p.pid != q.pid
    &&& listed_before(p.name@, p.pid, q.name@, q.pid)
}

/// The order in which processes are listed: by name, in lower case, then by pid.
pub open spec fn listed_before(name: Seq<char>, pid: u32, other: Seq<char>, other_pid: u32) -> bool {
    let a = lowercase(name);
    let b = lowercase(other);
    text_le(a, b) && (a == b ==> pid < other_pid)
}

fn prefers(es: &Vec<Endpoint>, own: Option<u32>, i: usize, j: usize) -> (yes: bool)
    requires
        i < es@.len(),
        j < es@.len(),
    ensures
        yes == preferred(es@, own, i as int, j as int),
{
    let vi: bool = judge(&es[i], own) == Verdict::Verified;
    let vj: bool = judge(&es[j], own) == Verdict::Verified;
    if vi != vj {
        vi
    } else if es[i].modified != es[j].modified {
        es[i].modified > es[j].modified
    } else {
        i < j
    }
}

/// Whether `best` holds the best endpoint of each process among the first `n`, and nothing else.
spec fn holds_best(es: Seq<Endpoint>, own: Option<u32>, best: Seq<usize>, n: int) -> bool {
    &&& forall|k: int| 0 <= k < best.len() ==> is_best(es, own, #[trigger] best[k] as int, n)
    &&& forall|k: int, l: int|
        0 <= k < l < best.len() ==> es[#[trigger] best[k] as int].pid != es[#[trigger] best[l] as int].pid
    &&& forall|j: int|
        0 <= j < n && is_usable(verdict_of(#[trigger] es[j], own)) ==> exists|k: int|
            0 <= k < best.len() && es[#[trigger] best[k] as int].pid == es[j].pid
}

fn place_of_pid(es: &Vec<Endpoint>, best: &Vec<usize>, pid: u32) -> (place: Option<usize>)
    requires
        forall|k: int| 0 <= k < best@.len() ==> #[trigger] best@[k] < es@.len(),
    ensures
        match place {
            Some(k) => k < best@.len() && es@[best@[k as int] as int].pid == pid,
            None => forall|k: int|
                0 <= k < best@.len() ==> es@[#[trigger] best@[k] as int].pid != pid,
        },
{
    let mut k: usize = 0;
    while k < best.len()
        invariant
            k <= best@.len(),
            forall|l: int| 0 <= l < best@.len() ==> #[trigger] best@[l] < es@.len(),
            forall|l: int| 0 <= l < k ==> es@[#[trigger] best@[l] as int].pid != pid,
        decreases best@.len() - k,
    {
        if es[best[k]].pid == pid {
            return Some(k);
        }
        k += 1;
    }
    None
}

proof fn preferred_transitive(es: Seq<Endpoint>, own: Option<u32>, i: int, j: int, k: int)
    requires
        preferred(es, own, i, j),
        preferred(es, own, j, k),
    ensures
        preferred(es, own, i, k),
{
}

/// A process can have several sockets on disk; this keeps only the best one of each.
fn best_endpoints(es: &Vec<Endpoint>, own: Option<u32>) -> (best: Vec<usize>)
    ensures
        holds_best(es@, own, best@, es@.len() as int),
{
    let mut best: Vec<usize> = Vec::new();
    let mut i: usize = 0;
    while i < es.len()
        invariant
            i <= es@.len(),
            holds_best(es@, own, best@, i as int),
        decreases es@.len() - i,
    {
        let ghost before = best@;
        let v = judge(&es[i], own);
        if v == Verdict::Verified || v == Verdict::Unverified {
            assert forall|k: int| 0 <= k < best@.len() implies #[trigger] best@[k] < es@.len() by {
                assert(is_best(es@, own, best@[k] as int, i as int));
            }
            match place_of_pid(es, &best, es[i].pid) {
                Some(k) => {
                    let rival: usize = best[k];
                    assert(is_best(es@, own, before[k as int] as int, i as int));
                    if prefers(es, own, i, rival) {
                        best.set(k, i);
                        proof {
                            replaced_best(es@, own, before, i as int, k as int);
                        }
                    } else {
                        proof {
                            kept_best(es@, own, before, i as int, k as int);
                        }
                    }
                },
                None => {
                    best.push(i);
                    proof {
                        added_best(es@, own, before, i);
                    }
                },
            }
        } else {
            proof {
                passed_over(es@, own, before, i as int);
            }
        }
        i += 1;
    }
    best
}

proof fn passed_over(es: Seq<Endpoint>, own: Option<u32>, best: Seq<usize>, i: int)
    requires
        0 <= i < es.len(),
        holds_best(es, own, best, i),
        !is_usable(verdict_of(es[i], own)),
    ensures
        holds_best(es, own, best, i + 1),
{
    assert forall|k: int| 0 <= k < best.len() implies is_best(
        es,
        own,
        #[trigger] best[k] as int,
        i + 1,
    ) by {
        assert(is_best(es, own, best[k] as int, i));
    }
}

proof fn kept_best(es: Seq<Endpoint>, own: Option<u32>, best: Seq<usize>, i: int, k: int)
    requires
        0 <= i < es.len(),
        holds_best(es, own, best, i),
        0 <= k < best.len(),
        es[best[k] as int].pid == es[i].pid,
        !preferred(es, own, i, best[k] as int),
    ensures
        holds_best(es, own, best, i + 1),
{
    assert(is_best(es, own, best[k] as int, i));
    assert forall|l: int| 0 <= l < best.len() implies is_best(
        es,
        own,
        #[trigger] best[l] as int,
        i + 1,
    ) by {
        assert(is_best(es, own, best[l] as int, i));
        if l != k {
            assert(es[best[l] as int].pid != es[best[k] as int].pid);
        }
    }
}

proof fn replaced_best(es: Seq<Endpoint>, own: Option<u32>, best: Seq<usize>, i: int, k: int)
    requires
        0 <= i < es.len() <= usize::MAX,
        holds_best(es, own, best, i),
        is_usable(verdict_of(es[i], own)),
        0 <= k < best.len(),
        es[best[k] as int].pid == es[i].pid,
        preferred(es, own, i, best[k] as int),
    ensures
        holds_best(es, own, best.update(k, i as usize), i + 1),
{
    let after = best.update(k, i as usize);
    let rival = best[k] as int;
    assert(is_best(es, own, rival, i));
    assert forall|l: int| 0 <= l < after.len() implies is_best(
        es,
        own,
        #[trigger] after[l] as int,
        i + 1,
    ) by {
        if l == k {
            assert forall|j: int|
                0 <= j < i + 1 && j != i && is_usable(verdict_of(#[trigger] es[j], own))
                    && es[j].pid == es[i].pid implies preferred(es, own, i, j) by {
                if j != rival {
                    preferred_transitive(es, own, i, rival, j);
                }
            }
        } else {
            assert(is_best(es, own, best[l] as int, i));
            assert(es[best[l] as int].pid != es[best[k] as int].pid);
        }
    }
    assert forall|a: int, b: int| 0 <= a < b < after.len() implies es[#[trigger] after[a] as int].pid
        != es[#[trigger] after[b] as int].pid by {
        assert(es[best[a] as int].pid != es[best[b] as int].pid);
    }
    assert forall|j: int| 0 <= j < i + 1 && is_usable(verdict_of(#[trigger] es[j], own)) implies exists|
        l: int,
    |
        0 <= l < after.len() && es[#[trigger] after[l] as int].pid == es[j].pid by {
        if j == i {
            assert(es[after[k] as int].pid == es[i].pid);
        } else {
            let l = choose|l: int| 0 <= l < best.len() && es[#[trigger] best[l] as int].pid == es[j].pid;
            assert(es[after[l] as int].pid == es[j].pid);
        }
    }
}

proof fn added_best(es: Seq<Endpoint>, own: Option<u32>, best: Seq<usize>, i: usize)
    requires
        0 <= i < es.len(),
        holds_best(es, own, best, i as int),
        is_usable(verdict_of(es[i as int], own)),
        forall|k: int| 0 <= k < best.len() ==> es[#[trigger] best[k] as int].pid != es[i as int].pid,
    ensures
        holds_best(es, own, best.push(i), i + 1),
{
    let after = best.push(i);
    assert forall|l: int| 0 <= l < after.len() implies is_best(
        es,
        own,
        #[trigger] after[l] as int,
        i + 1,
    ) by {
        if l < best.len() {
            assert(is_best(es, own, best[l] as int, i as int));
        } else {
            assert forall|j: int|
                0 <= j < i + 1 && j != i && is_usable(verdict_of(#[trigger] es[j], own))
                    && es[j].pid == es[i as int].pid implies preferred(es, own, i as int, j) by {
                let l = choose|l: int|
                    0 <= l < best.len() && es[#[trigger] best[l] as int].pid == es[j].pid;
            }
        }
    }
    assert forall|j: int| 0 <= j < i + 1 && is_usable(verdict_of(#[trigger] es[j], own)) implies exists|
        l: int,
    |
        0 <= l < after.len() && es[#[trigger] after[l] as int].pid == es[j].pid by {
        if j == i {
            assert(es[after[best.len() as int] as int].pid == es[i as int].pid);
        } else {
            let l = choose|l: int| 0 <= l < best.len() && es[#[trigger] best[l] as int].pid == es[j].pid;
            assert(es[after[l] as int].pid == es[j].pid);
        }
    }
}

/// What the listing of processes goes by.
struct Listing {
    names: Vec<String>,
    pids: Vec<u32>,
}

impl Ranked for Listing {
    closed spec fn count(&self) -> nat {
        if self.names@.len() == self.pids@.len() {
            self.names@.len()
        } else {
            0
        }
    }

    closed spec fn at_most(&self, i: int, j: int) -> bool {
        &&& text_le(self.names@[i]@, self.names@[j]@)
        &&& self.names@[i]@ == self.names@[j]@ ==> self.pids@[i] <= self.pids@[j]
    }

    proof fn total(&self, i: int, j: int) {
        text_le_total(self.names@[i]@, self.names@[j]@);
        text_le_total(self.names@[i]@, self.names@[i]@);
    }

    proof fn transitive(&self, i: int, j: int, k: int) {
        text_le_transitive(self.names@[i]@, self.names@[j]@, self.names@[k]@);
        if self.names@[i]@ == self.names@[k]@ {
            text_le_antisymmetric(self.names@[i]@, self.names@[j]@);
        }
    }

    fn may_precede(&self, i: usize, j: usize) -> (yes: bool) {
        if same_text(self.names[i].as_str(), self.names[j].as_str()) {
            proof {
                text_le_total(self.names@[i as int]@, self.names@[i as int]@);
            }
            self.pids[i] <= self.pids[j]
        } else {
            text_at_most(self.names[i].as_str(), self.names[j].as_str())
        }
    }
}

fn count_verdict(es: &Vec<Endpoint>, own: Option<u32>, v: Verdict) -> (n: usize)
    ensures
        n == tally(es@, own, v, es@.len()),
{
    let mut n: usize = 0;
    let mut i: usize = 0;
    while i < es.len()
        invariant
            i <= es@.len(),
            n <= i,
            n == tally(es@, own, v, i as nat),
        decreases es@.len() - i,
    {
        if judge(&es[i], own) == v {
            n += 1;
        }
        i += 1;
    }
    n
}

/// The processes to offer, out of the sockets found on disk: stale, reused and unreachable
/// endpoints are counted, and each process is offered once, through its best endpoint.
pub fn attachable(es: &Vec<Endpoint>, own: Option<u32>) -> (found: Discovery)
    ensures
        found.stale == tally(es@, own, Verdict::Stale, es@.len()),
        found.foreign == tally(es@, own, Verdict::Foreign, es@.len()),
        found.too_long == tally(es@, own, Verdict::TooLong, es@.len()),
        found.mismatched == tally(es@, own, Verdict::Mismatched, es@.len()),
        forall|k: int|
            0 <= k < found.processes@.len() ==> well_offered(
                #[trigger] found.processes@[k],
                es@,
                own,
            ),
        forall|i: int| #[trigger]
            is_best(es@, own, i, es@.len() as int) ==> reaches(found.processes@, es@, own, i),
        forall|k: int, l: int|
            0 <= k < l < found.processes@.len() ==> in_order(
                #[trigger] found.processes@[k],
                #[trigger] found.processes@[l],
            ),
{
    let best = best_endpoints(es, own);
    let listing = list_best(es, own, &best);
    let order = sorted_order(&listing, best.len());
    let mut processes: Vec<DotnetProcess> = Vec::new();
    let mut k: usize = 0;
    while k < order.len()
        invariant
            k <= order@.len(),
            holds_best(es@, own, best@, es@.len() as int),
            is_order(&listing, order@, 0, best@.len() as int),
            processes@.len() == k,
            forall|l: int|
                0 <= l < k ==> offers(
                    #[trigger] processes@[l],
                    es@[best@[order@[l] as int] as int],
                    own,
                ),
        decreases order@.len() - k,
    {
        let i: usize = best[order[k]];
        assert(is_best(es@, own, best@[order@[k as int] as int] as int, es@.len() as int));
        let verified: bool = judge(&es[i], own) == Verdict::Verified;
        if let Some(p) = &es[i].process {
            let offered = DotnetProcess {
                pid: es[i].pid,
                socket: es[i].path.clone(),
                name: p.name.clone(),
                command: p.command.clone(),
                start_key_verified: verified,
            };
            assert(offered.socket@ =~= es@[i as int].path@);
            processes.push(offered);
        }
        k += 1;
    }
    proof {
        all_offered(es@, own, best@, &listing, order@, processes@);
    }
    Discovery {
        processes,
        stale: count_verdict(es, own, Verdict::Stale),
        mismatched: count_verdict(es, own, Verdict::Mismatched),
        foreign: count_verdict(es, own, Verdict::Foreign),
        too_long: count_verdict(es, own, Verdict::TooLong),
    }
}

/// Whether a listing goes by the names and pids of these endpoints.
spec fn lists(listing: &Listing, es: Seq<Endpoint>, best: Seq<usize>) -> bool {
    &&& listing.names@.len() == best.len()
    &&& listing.pids@.len() == best.len()
    &&& forall|k: int|
        0 <= k < best.len() ==> (#[trigger] listing.names@[k])@ == lowercase(
            es[best[k] as int].process->0.name@,
        )
    &&& forall|k: int|
        0 <= k < best.len() ==> #[trigger] listing.pids@[k] == es[best[k] as int].pid
}

fn list_best(es: &Vec<Endpoint>, own: Option<u32>, best: &Vec<usize>) -> (listing: Listing)
    requires
        holds_best(es@, own, best@, es@.len() as int),
    ensures
        lists(&listing, es@, best@),
        listing.count() == best@.len(),
{
    let mut names: Vec<String> = Vec::new();
    let mut pids: Vec<u32> = Vec::new();
    let mut k: usize = 0;
    while k < best.len()
        invariant
            k <= best@.len(),
            holds_best(es@, own, best@, es@.len() as int),
            names@.len() == k,
            pids@.len() == k,
            forall|l: int|
                0 <= l < k ==> (#[trigger] names@[l])@ == lowercase(
                    es@[best@[l] as int].process->0.name@,
                ),
            forall|l: int| 0 <= l < k ==> #[trigger] pids@[l] == es@[best@[l] as int].pid,
        decreases best@.len() - k,
    {
        assert(is_best(es@, own, best@[k as int] as int, es@.len() as int));
        let e = &es[best[k]];
        if let Some(p) = &e.process {
            names.push(to_lowercase(p.name.as_str()));
            pids.push(e.pid);
        }
        k += 1;
    }
    Listing { names, pids }
}

proof fn all_offered(
    es: Seq<Endpoint>,
    own: Option<u32>,
    best: Seq<usize>,
    listing: &Listing,
    order: Seq<usize>,
    processes: Seq<DotnetProcess>,
)
    requires
        holds_best(es, own, best, es.len() as int),
        lists(listing, es, best),
        is_order(listing, order, 0, best.len() as int),
        processes.len() == order.len(),
        forall|l: int|
            0 <= l < order.len() ==> offers(
                #[trigger] processes[l],
                es[best[order[l] as int] as int],
                own,
            ),
    ensures
        forall|k: int| 0 <= k < processes.len() ==> well_offered(#[trigger] processes[k], es, own),
        forall|i: int| #[trigger]
            is_best(es, own, i, es.len() as int) ==> reaches(processes, es, own, i),
        forall|k: int, l: int|
            0 <= k < l < processes.len() ==> in_order(
                #[trigger] processes[k],
                #[trigger] processes[l],
            ),
{
    let n = es.len() as int;
    assert forall|k: int| 0 <= k < processes.len() implies well_offered(
        #[trigger] processes[k],
        es,
        own,
    ) by {
        let i = best[order[k] as int] as int;
        assert(is_best(es, own, i, n));
        assert(offers(processes[k], es[i], own));
    }
    assert forall|i: int| #[trigger] is_best(es, own, i, n) implies reaches(
        processes,
        es,
        own,
        i,
    ) by {
        assert(is_usable(verdict_of(es[i], own)));
        let b = choose|b: int| 0 <= b < best.len() && es[#[trigger] best[b] as int].pid == es[i].pid;
        best_is_unique(es, own, i, best[b] as int);
        let k = order_covers(listing, order, best.len() as int, b);
        assert(offers(processes[k], es[best[order[k] as int] as int], own));
    }
    assert forall|k: int, l: int| 0 <= k < l < processes.len() implies in_order(
        #[trigger] processes[k],
        #[trigger] processes[l],
    ) by {
        let a = order[k] as int;
        let b = order[l] as int;
        assert(offers(processes[k], es[best[a] as int], own));
        assert(offers(processes[l], es[best[b] as int], own));
        places_differ(es, own, best, listing, a, b);
        assert(ranks(listing, a, b));
    }
}

proof fn best_is_unique(es: Seq<Endpoint>, own: Option<u32>, i: int, j: int)
    requires
        is_best(es, own, i, es.len() as int),
        is_best(es, own, j, es.len() as int),
        es[i].pid == es[j].pid,
    ensures
        i == j,
{
    if i != j {
        assert(is_usable(verdict_of(es[i], own)));
        assert(is_usable(verdict_of(es[j], own)));
        assert(preferred(es, own, i, j));
        assert(preferred(es, own, j, i));
    }
}

proof fn places_differ(
    es: Seq<Endpoint>,
    own: Option<u32>,
    best: Seq<usize>,
    listing: &Listing,
    a: int,
    b: int,
)
    requires
        holds_best(es, own, best, es.len() as int),
        lists(listing, es, best),
        0 <= a < best.len(),
        0 <= b < best.len(),
        a != b,
    ensures
        es[best[a] as int].pid != es[best[b] as int].pid,
        listing.names@[a]@ == lowercase(es[best[a] as int].process->0.name@),
        listing.names@[b]@ == lowercase(es[best[b] as int].process->0.name@),
        listing.pids@[a] == es[best[a] as int].pid,
        listing.pids@[b] == es[best[b] as int].pid,
{
}

/// Every socket is accounted for: it is counted under one of the reasons to skip it, or it can be
/// used.
pub proof fn every_endpoint_is_accounted_for(es: Seq<Endpoint>, own: Option<u32>, n: nat)
    ensures
        tally(es, own, Verdict::Stale, n) + tally(es, own, Verdict::Foreign, n) + tally(
            es,
            own,
            Verdict::TooLong,
            n,
        ) + tally(es, own, Verdict::Mismatched, n) + tally(es, own, Verdict::Verified, n) + tally(
            es,
            own,
            Verdict::Unverified,
            n,
        ) == n,
    decreases n,
{
    if n > 0 {
        every_endpoint_is_accounted_for(es, own, (n - 1) as nat);
    }
}

/// A process is never offered through a socket that a dead process left behind: the process is
/// there, it belongs to the user as far as is known, and it started when the socket says, again as
/// far as is known.
pub proof fn recycled_pids_are_not_offered(
    p: DotnetProcess,
    es: Seq<Endpoint>,
    own: Option<u32>,
)
    requires
        well_offered(p, es, own),
    ensures
        exists|i: int|
            {
                &&& 0 <= i < es.len()
                &&& #[trigger] offers(p, es[i], own)
                &&& es[i].path@.len() <= SUN_PATH_MAX
                &&& es[i].process->0.start_key matches Some(key) ==> key == es[i].key
                &&& own is Some && es[i].process->0.user is Some ==> own == es[i].process->0.user
                &&& p.start_key_verified <==> es[i].process->0.start_key is Some
            },
{
    let i = choose|i: int| #[trigger]
        is_best(es, own, i, es.len() as int) && offers(p, es[i], own);
    assert(offers(p, es[i], own));
}

} // verus!
