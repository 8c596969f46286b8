//! How messages, replies and names are written down, and what is read back of them.
use vstd::prelude::*;

use super::commands::{
    identity_at, identity_of, older_query, predates, provider_bytes, providers_bytes,
    trace_payload, version_numbers, CommandError, InfoModel, ProcessInfo, ProviderModel,
};
use super::decode::{piece, piece_guid, piece_string, piece_u32, piece_u64, string_round_trip};
use super::discovery::{
    executable_name, in_order, is_usable, joined, preferred, socket_name, stat_start_key,
    verdict_of, DotnetProcess, Endpoint, Verdict,
};
use super::encode::{bool_bytes, string_bytes, unit_bytes};
use super::frame::{
    message_at, message_bytes, name_of_hresult, response_of, IpcError, IpcFault, MessageModel,
};
use crate::bytes::{
    held_in_longer, held_is_between, held_u32, held_u64, holds, u16_bytes, u32_bytes, u64_bytes,
};
use crate::nettrace::reader::Stream;
use crate::nettrace::rows::held_parts;
use crate::text::{
    all_digits, are_words, before_first, decimal, decimals_read_back, first_place,
    first_place_unique, is_digit, last_place_is_last, lowercase, number_of, spaced, text_le,
    text_le_antisymmetric, utf16_of,
    without_prefix, without_suffix, words_are_counted,
};

verus! {

// ---------------------------------------------------------------------------------------------
// Messages

/// A message starts with the letters that say what it is and a zero, then the size of all of it,
/// the header included, the command set, the command, and two zeros. Behind these twenty bytes
/// stands the payload as it is.
pub proof fn messages_are_laid_out(command_set: u8, command_id: u8, payload: Seq<u8>)
    requires
        20 + payload.len() <= u16::MAX,
    ensures
        ({
            let b = message_bytes(command_set, command_id, payload);
            &&& b.len() == 20 + payload.len()
            &&& b.take(14) == seq![
                68u8, 79, 84, 78, 69, 84, 95, 73, 80, 67, 95, 86, 49, 0,
            ]
            &&& b[14] + 0x100 * b[15] == 20 + payload.len()
            &&& b[16] == command_set
            &&& b[17] == command_id
            &&& b[18] == 0 && b[19] == 0
            &&& b.skip(20) == payload
        }),
{
    let b = message_bytes(command_set, command_id, payload);
    assert(b.take(14) =~= seq![68u8, 79, 84, 78, 69, 84, 95, 73, 80, 67, 95, 86, 49, 0]);
    assert(b.skip(20) =~= payload);
}

/// A reply of the server's that is an error carries its number in four bytes, lowest first, and
/// zero stands for one that carries less. Any other reply succeeds if its command says so, whoever
/// sends it, and then its payload is the answer; and if not, it was not expected.
pub proof fn replies_are_told_apart(m: MessageModel, hresult: u32)
    ensures
        m.command_set == 0xFF && m.command_id == 0xFF && holds(m.payload, 0, u32_bytes(hresult))
            ==> response_of(m) == Err::<Seq<u8>, _>(IpcFault::Server(hresult)),
        m.command_set == 0xFF && m.command_id == 0xFF && m.payload.len() < 4 ==> response_of(m)
            == Err::<Seq<u8>, _>(IpcFault::Server(0)),
        m.command_id == 0 ==> response_of(m) == Ok::<_, IpcFault>(m.payload),
        m.command_id != 0 && !(m.command_set == 0xFF && m.command_id == 0xFF) ==> response_of(m)
            == Err::<Seq<u8>, _>(
            IpcFault::UnexpectedResponse { command_set: m.command_set, command_id: m.command_id },
        ),
{
    if holds(m.payload, 0, u32_bytes(hresult)) {
        held_u32(m.payload, 0, hresult);
    }
}

/// A text is written as how many units it has, the zero behind them counted, the units, and the
/// zero.
pub proof fn texts_are_laid_out(s: Seq<char>, i: int)
    requires
        utf16_of(s).len() < u32::MAX,
        0 <= i < utf16_of(s).len(),
    ensures
        ({
            let b = string_bytes(s);
            let n = utf16_of(s).len() as int;
            &&& b.len() == 4 + 2 * (n + 1)
            &&& b.take(4) == u32_bytes((n + 1) as u32)
            &&& b[4 + 2 * i] == utf16_of(s)[i] % 0x100
            &&& b[4 + 2 * i + 1] == utf16_of(s)[i] / 0x100
            &&& b[4 + 2 * n] == 0 && b[4 + 2 * n + 1] == 0
        }),
{
    let units = utf16_of(s);
    let b = string_bytes(s);
    units_are_laid_out(units, i);
    assert(b.take(4) =~= u32_bytes((units.len() + 1) as u32));
    assert(b[4 + 2 * i] == unit_bytes(units)[2 * i]);
    assert(b[4 + 2 * i + 1] == unit_bytes(units)[2 * i + 1]);
    assert(b[(4 + 2 * units.len()) as int] == u16_bytes(0)[0]);
    assert(b[(4 + 2 * units.len() + 1) as int] == u16_bytes(0)[1]);
}

proof fn units_are_laid_out(units: Seq<u16>, i: int)
    requires
        0 <= i < units.len(),
    ensures
        unit_bytes(units).len() == 2 * units.len(),
        unit_bytes(units)[2 * i] == units[i] % 0x100,
        unit_bytes(units)[2 * i + 1] == units[i] / 0x100,
    decreases units.len(),
{
    let front = units.drop_last();
    if front.len() > 0 {
        let k = if i < front.len() {
            i
        } else {
            0
        };
        units_are_laid_out(front, k);
        if i < front.len() {
            assert(unit_bytes(units)[2 * i] == unit_bytes(front)[2 * i]);
            assert(unit_bytes(units)[2 * i + 1] == unit_bytes(front)[2 * i + 1]);
        }
    } else {
        assert(unit_bytes(front) =~= Seq::<u8>::empty());
    }
}

// ---------------------------------------------------------------------------------------------
// Requests for a session

/// A request for a session says in this order: the size of the buffer, that the stream is to be
/// nettrace, whether there is to be a rundown, how many providers there are, and of each provider
/// the keywords, the level, the name and the filter.
pub proof fn session_requests_are_laid_out(
    buffer: u32,
    rundown: bool,
    providers: Seq<ProviderModel>,
    k: int,
)
    requires
        providers.len() <= u32::MAX,
        0 <= k < providers.len(),
    ensures
        ({
            let b = trace_payload(buffer, rundown, providers);
            let before = 13 + providers_bytes(providers.take(k)).len();
            let p = providers[k];
            &&& holds(b, 0, u32_bytes(buffer))
            &&& holds(b, 4, u32_bytes(1))
            &&& b[8] == if rundown { 1u8 } else { 0u8 }
            &&& holds(b, 9, u32_bytes(providers.len() as u32))
            &&& b.len() == 13 + providers_bytes(providers).len()
            &&& holds(
                b,
                before as int,
                u64_bytes(p.keywords) + u32_bytes(p.level) + string_bytes(p.name) + string_bytes(
                    p.filter_data,
                ),
            )
            &&& providers_bytes(providers.take(k + 1)).len() == providers_bytes(
                providers.take(k),
            ).len() + 12 + string_bytes(p.name).len() + string_bytes(p.filter_data).len()
            &&& providers_bytes(providers.take(0)).len() == 0
        }),
{
    let b = trace_payload(buffer, rundown, providers);
    let all = providers_bytes(providers);
    let head = u32_bytes(buffer) + u32_bytes(1) + bool_bytes(rundown) + u32_bytes(
        providers.len() as u32,
    );
    let none = Seq::<u8>::empty();
    heads_are_laid_out(buffer, rundown, providers.len() as u32);
    assert(b == head + all);
    assert(none + head + all =~= b);
    held_in_longer(none, head, all, 0, u32_bytes(buffer));
    held_in_longer(none, head, all, 4, u32_bytes(1));
    held_in_longer(none, head, all, 9, u32_bytes(providers.len() as u32));
    assert(b[8] == head[8]);
    providers_stand_in_order(providers, k);
    assert(head + all + none =~= b);
    held_in_longer(
        head,
        all,
        none,
        providers_bytes(providers.take(k)).len() as int,
        provider_bytes(providers[k]),
    );
    assert(providers.take(k + 1).drop_last() =~= providers.take(k));
    assert(providers.take(0) =~= Seq::<ProviderModel>::empty());
}

proof fn heads_are_laid_out(buffer: u32, rundown: bool, count: u32)
    ensures
        ({
            let head = u32_bytes(buffer) + u32_bytes(1) + bool_bytes(rundown) + u32_bytes(count);
            &&& head.len() == 13
            &&& holds(head, 0, u32_bytes(buffer))
            &&& holds(head, 4, u32_bytes(1))
            &&& head[8] == if rundown { 1u8 } else { 0u8 }
            &&& holds(head, 9, u32_bytes(count))
        }),
{
    let head = u32_bytes(buffer) + u32_bytes(1) + bool_bytes(rundown) + u32_bytes(count);
    assert(head.subrange(0, 4) =~= u32_bytes(buffer));
    assert(head.subrange(4, 8) =~= u32_bytes(1));
    assert(head.subrange(9, 13) =~= u32_bytes(count));
}

proof fn providers_stand_in_order(providers: Seq<ProviderModel>, k: int)
    requires
        0 <= k < providers.len(),
    ensures
        holds(
            providers_bytes(providers),
            providers_bytes(providers.take(k)).len() as int,
            provider_bytes(providers[k]),
        ),
    decreases providers.len(),
{
    let front = providers.drop_last();
    let before = providers_bytes(front);
    let last = provider_bytes(providers.last());
    let all = providers_bytes(providers);
    if k == providers.len() - 1 {
        assert(providers.take(k) =~= front);
        assert(all.subrange(before.len() as int, all.len() as int) =~= last);
    } else {
        providers_stand_in_order(front, k);
        assert(front.take(k) =~= providers.take(k));
        let p = providers_bytes(providers.take(k)).len() as int;
        let part = provider_bytes(providers[k]);
        assert(all.subrange(p, (p + part.len()) as int) =~= before.subrange(
            p,
            (p + part.len()) as int,
        ));
    }
}

// ---------------------------------------------------------------------------------------------
// Replies to identity queries

proof fn held_text(b: Seq<u8>, p: int, s: Seq<char>, rest: Seq<u8>)
    requires
        utf16_of(s).len() < u32::MAX,
        holds(b, p, string_bytes(s) + rest),
    ensures
        piece_string(b, p) == piece(s, (p + string_bytes(s).len()) as int),
        holds(b, (p + string_bytes(s).len()) as int, rest),
{
    held_parts(b, p, string_bytes(s), rest);
    held_is_between(b, p, string_bytes(s));
    string_round_trip(b.take(p), s, b.skip((p + string_bytes(s).len()) as int));
}

/// Whether the texts of an identity can be written.
pub open spec fn identity_fits(m: InfoModel) -> bool {
    &&& utf16_of(m.command_line).len() < u32::MAX
    &&& utf16_of(m.os).len() < u32::MAX
    &&& utf16_of(m.arch).len() < u32::MAX
    &&& m.assembly_name is Some ==> utf16_of(m.assembly_name->0).len() < u32::MAX
    &&& m.clr_version is Some ==> utf16_of(m.clr_version->0).len() < u32::MAX
    &&& m.runtime_identifier is Some ==> utf16_of(m.runtime_identifier->0).len() < u32::MAX
}

/// What all replies to an identity query say: the process, a cookie of sixteen bytes, the command
/// line, the system and the architecture, and whatever follows.
pub open spec fn identity_bytes(m: InfoModel, cookie: Seq<u8>, rest: Seq<u8>) -> Seq<u8> {
    u64_bytes(m.pid) + (cookie + (string_bytes(m.command_line) + (string_bytes(m.os) + (
    string_bytes(m.arch) + rest))))
}

proof fn identities_read_back(
    b: Seq<u8>,
    p: int,
    m: InfoModel,
    cookie: Seq<u8>,
    rest: Seq<u8>,
)
    requires
        identity_fits(m),
        cookie.len() == 16,
        holds(b, p, identity_bytes(m, cookie, rest)),
    ensures
        identity_at(b, p).result == Ok::<_, super::decode::TruncatedPayload>(
            InfoModel {
                assembly_name: None,
                clr_version: None,
                runtime_identifier: None,
                ..m
            },
        ),
        holds(b, identity_at(b, p).pos, rest),
{
    let t5 = string_bytes(m.arch) + rest;
    let t4 = string_bytes(m.os) + t5;
    let t3 = string_bytes(m.command_line) + t4;
    let t2 = cookie + t3;
    held_parts(b, p, u64_bytes(m.pid), t2);
    assert(piece_u64(b, p) == piece(m.pid, p + 8)) by {
        held_u64(b, p, m.pid);
    }
    held_parts(b, p + 8, cookie, t3);
    assert(piece_guid(b, p + 8) == piece(cookie, p + 24));
    held_text(b, p + 24, m.command_line, t4);
    let q = (p + 24 + string_bytes(m.command_line).len()) as int;
    held_text(b, q, m.os, t5);
    let r = (q + string_bytes(m.os).len()) as int;
    held_text(b, r, m.arch, rest);
}

/// The reply to the oldest identity query reads back as what it says, with nothing of what only
/// later ones say.
pub proof fn first_identities_read_back(
    b: Seq<u8>,
    m: InfoModel,
    cookie: Seq<u8>,
    rest: Seq<u8>,
)
    requires
        identity_fits(m),
        cookie.len() == 16,
        holds(b, 0, identity_bytes(m, cookie, rest)),
    ensures
        identity_of(0, b) == Ok::<_, super::decode::TruncatedPayload>(
            InfoModel {
                assembly_name: None,
                clr_version: None,
                runtime_identifier: None,
                ..m
            },
        ),
{
    identities_read_back(b, 0, m, cookie, rest);
}

/// The reply to the second identity query adds the assembly and the version of the runtime, in this
/// order.
pub proof fn second_identities_read_back(
    b: Seq<u8>,
    m: InfoModel,
    cookie: Seq<u8>,
    assembly: Seq<char>,
    version: Seq<char>,
    rest: Seq<u8>,
)
    requires
        identity_fits(m),
        m.assembly_name == Some(assembly),
        m.clr_version == Some(version),
        cookie.len() == 16,
        holds(
            b,
            0,
            identity_bytes(m, cookie, string_bytes(assembly) + (string_bytes(version) + rest)),
        ),
    ensures
        identity_of(4, b) == Ok::<_, super::decode::TruncatedPayload>(
            InfoModel { runtime_identifier: None, ..m },
        ),
{
    identities_read_back(b, 0, m, cookie, string_bytes(assembly) + (string_bytes(version) + rest));
    let p = identity_at(b, 0).pos;
    held_text(b, p, assembly, string_bytes(version) + rest);
    held_text(b, (p + string_bytes(assembly).len()) as int, version, rest);
}

/// The reply to the newest identity query leads with a number that is passed over, and adds the
/// assembly, the version of the runtime and its identifier, in this order.
pub proof fn third_identities_read_back(
    b: Seq<u8>,
    lead: u32,
    m: InfoModel,
    cookie: Seq<u8>,
    assembly: Seq<char>,
    version: Seq<char>,
    identifier: Seq<char>,
    rest: Seq<u8>,
)
    requires
        identity_fits(m),
        m.assembly_name == Some(assembly),
        m.clr_version == Some(version),
        m.runtime_identifier == Some(identifier),
        cookie.len() == 16,
        holds(b, 0, u32_bytes(lead)),
        holds(
            b,
            4,
            identity_bytes(
                m,
                cookie,
                string_bytes(assembly) + (string_bytes(version) + (string_bytes(identifier)
                    + rest)),
            ),
        ),
    ensures
        identity_of(8, b) == Ok::<_, super::decode::TruncatedPayload>(m),
{
    let last = string_bytes(identifier) + rest;
    let more = string_bytes(assembly) + (string_bytes(version) + last);
    assert(piece_u32(b, 0) == piece(lead, 4)) by {
        held_u32(b, 0, lead);
    }
    identities_read_back(b, 4, m, cookie, more);
    let p = identity_at(b, 4).pos;
    held_text(b, p, assembly, string_bytes(version) + last);
    let q = (p + string_bytes(assembly).len()) as int;
    held_text(b, q, version, last);
    held_text(b, (q + string_bytes(version).len()) as int, identifier, rest);
}

/// Identity queries walk down from the newest to the oldest, one at a time, and no further.
pub proof fn queries_walk_down(command_id: u8)
    ensures
        command_id == 8 ==> older_query(command_id) == Some(4u8),
        command_id == 4 ==> older_query(command_id) == Some(0u8),
        command_id != 8 && command_id != 4 ==> older_query(command_id) is None,
{
}

// ---------------------------------------------------------------------------------------------
// Names and numbers

proof fn parts_at(front: Seq<char>, c: char, rest: Seq<char>)
    requires
        all_digits(front),
        !is_digit(c),
    ensures
        first_place(front + seq![c] + rest, c) == front.len(),
        before_first(front + seq![c] + rest, c) == front,
        (front + seq![c] + rest).skip((front.len() + 1) as int) == rest,
{
    let all = front + seq![c] + rest;
    assert forall|i: int| 0 <= i < front.len() implies all[i] != c by {
        assert(is_digit(front[i]));
    }
    first_place_unique(all, c, front.len() as int);
    assert(all.take(front.len() as int) =~= front);
    assert(all.skip((front.len() + 1) as int) =~= rest);
}

/// A socket that is named after a process and a key reads back as that process and that key, for
/// all processes and keys.
pub proof fn socket_names_read_back(pid: u32, key: u64)
    ensures
        socket_name(
            "dotnet-diagnostic-"@ + (decimal(pid as nat) + seq!['-'] + decimal(key as nat))
                + "-socket"@,
        ) == Some((pid, key)),
{
    let prefix = "dotnet-diagnostic-"@;
    let suffix = "-socket"@;
    let middle = decimal(pid as nat) + seq!['-'] + decimal(key as nat);
    let name = prefix + middle + suffix;
    assert(name.take(prefix.len() as int) =~= prefix);
    let tail = name.skip(prefix.len() as int);
    assert(tail =~= middle + suffix);
    assert(tail.skip(tail.len() - suffix.len()) =~= suffix);
    assert(tail.take(tail.len() - suffix.len()) =~= middle);
    decimals_read_back(pid as nat, u32::MAX as nat);
    decimals_read_back(key as nat, u64::MAX as nat);
    parts_at(decimal(pid as nat), '-', decimal(key as nat));
}

/// A name that does not start and end as sockets do is not one.
pub proof fn other_names_are_no_sockets(name: Seq<char>)
    requires
        without_prefix(name, "dotnet-diagnostic-"@) is None || without_suffix(name, "-socket"@)
            is None,
    ensures
        socket_name(name) is None,
{
    let prefix = "dotnet-diagnostic-"@;
    let suffix = "-socket"@;
    if let Some(tail) = without_prefix(name, prefix) {
        if suffix.len() <= tail.len() {
            assert(tail.skip(tail.len() - suffix.len()) =~= name.skip(name.len() - suffix.len()));
        }
    }
}

/// The start of a process is the twentieth word behind the last closing bracket of its line,
/// whatever stands before that bracket, spaces and brackets included.
pub proof fn starts_are_counted_from_the_bracket(front: Seq<char>, words: Seq<Seq<char>>, key: u64)
    requires
        are_words(words),
        words.len() >= 20,
        words[19] == decimal(key as nat),
        !spaced(words).contains(')'),
    ensures
        stat_start_key(front + seq![')'] + spaced(words)) == Some(key),
{
    let stat = front + seq![')'] + spaced(words);
    last_place_is_last(front, ')', spaced(words));
    assert(stat.skip((front.len() + 1) as int) =~= Seq::<char>::empty() + spaced(words));
    words_are_counted(Seq::empty(), words, 19);
    decimals_read_back(key as nat, u64::MAX as nat);
}

/// The first two numbers of a version are its own, whatever follows another dot, a dash or a plus.
/// A version of one number has zero for the second.
pub proof fn versions_read_back(major: u32, minor: u32, more: Seq<char>)
    requires
        more.len() > 0 ==> more[0] == '.' || more[0] == '-' || more[0] == '+',
    ensures
        version_numbers(decimal(major as nat) + seq!['.'] + decimal(minor as nat) + more) == Some(
            (major, minor),
        ),
        version_numbers(decimal(major as nat)) == Some((major, 0u32)),
{
    let a = decimal(major as nat);
    let b = decimal(minor as nat);
    decimals_read_back(major as nat, u32::MAX as nat);
    decimals_read_back(minor as nat, u32::MAX as nat);
    let raw = a + seq!['.'] + b + more;
    let n = (a.len() + 1 + b.len()) as int;
    let head = a + seq!['.'] + b;
    assert(raw.take(n) =~= head);
    no_sign_before(raw, a, b, '+', n);
    let once = before_first(raw, '+');
    no_sign_before(once, a, b, '-', n);
    let core = before_first(once, '-');
    assert forall|i: int| 0 <= i < n implies core[i] == head[i] by {
        assert(core.take(n)[i] == head[i]);
    }
    let rest = core.skip((a.len() + 1) as int);
    assert(core =~= a + seq!['.'] + rest);
    parts_at(a, '.', rest);
    assert(rest.take(b.len() as int) =~= b);
    assert forall|i: int| 0 <= i < b.len() implies rest[i] != '.' by {
        assert(rest[i] == b[i]);
        assert(is_digit(b[i]));
    }
    assert(rest.len() > b.len() ==> rest[b.len() as int] == '.') by {
        if rest.len() > b.len() {
            assert(rest[b.len() as int] == core[n]);
            assert(core[n] == raw[n]);
            assert(raw[n] == more[0]);
            crate::text::first_place_is_first(raw, '+');
            crate::text::first_place_is_first(once, '-');
        }
    }
    first_place_unique(rest, '.', b.len() as int);
    plain_numbers_stand_alone(a);
}

/// A sign behind the first `n` characters cuts off none of them.
proof fn no_sign_before(s: Seq<char>, a: Seq<char>, b: Seq<char>, sign: char, n: int)
    requires
        all_digits(a),
        all_digits(b),
        sign == '+' || sign == '-',
        n == a.len() + 1 + b.len(),
        n <= s.len(),
        s.take(n) == a + seq!['.'] + b,
    ensures
        n <= before_first(s, sign).len() <= s.len(),
        before_first(s, sign).take(n) == a + seq!['.'] + b,
        forall|i: int| 0 <= i < before_first(s, sign).len() ==> before_first(s, sign)[i] == s[i],
{
    crate::text::first_place_is_first(s, sign);
    let m = first_place(s, sign);
    if m < n {
        assert(s[m] == s.take(n)[m]);
        if m < a.len() {
            assert(is_digit(a[m]));
        } else if m > a.len() {
            assert(is_digit(b[m - a.len() - 1]));
        }
    }
    assert(before_first(s, sign).take(n) =~= s.take(n));
}

proof fn plain_numbers_stand_alone(a: Seq<char>)
    requires
        all_digits(a),
    ensures
        before_first(before_first(a, '+'), '-') == a,
        first_place(a, '.') == a.len(),
        before_first(a, '.') == a,
{
    assert forall|i: int| 0 <= i < a.len() implies a[i] != '+' && a[i] != '-' && a[i] != '.' by {
        assert(is_digit(a[i]));
    }
    first_place_unique(a, '+', a.len() as int);
    first_place_unique(a, '-', a.len() as int);
    first_place_unique(a, '.', a.len() as int);
    assert(a.take(a.len() as int) =~= a);
}

/// A file that is named as a program or a library goes by the name without that, once, and any
/// other by the name it has.
pub proof fn executables_go_by_their_stems(stem: Seq<char>)
    ensures
        executable_name(stem + ".exe"@) == stem,
        executable_name(stem + ".dll"@) == stem,
        without_suffix(stem, ".exe"@) is None && without_suffix(stem, ".dll"@) is None
            ==> executable_name(stem) == stem,
{
    reveal_strlit(".exe");
    reveal_strlit(".dll");
    let a = stem + ".exe"@;
    let b = stem + ".dll"@;
    assert(a.skip(a.len() - 4) =~= ".exe"@);
    assert(a.take(a.len() - 4) =~= stem);
    assert(b.skip(b.len() - 4) =~= ".dll"@);
    assert(b.take(b.len() - 4) =~= stem);
    assert(".dll"@[1] != ".exe"@[1]);
}

// ---------------------------------------------------------------------------------------------
// Endpoints

/// An endpoint can be used if its process is there, is not known to be another user's, and is not
/// known to have started at another time, and if its path is at most 104 bytes long. It is verified
/// if the start of its process is known.
pub proof fn endpoints_are_judged(e: Endpoint, own: Option<u32>)
    ensures
        ({
            let v = verdict_of(e, own);
            let p = e.process->0;
            let foreign = own is Some && p.user is Some && own->0 != p.user->0;
            let fits = e.path@.len() <= 104;
            &&& e.process is None <==> v == Verdict::Stale
            &&& e.process is Some && foreign <==> v == Verdict::Foreign
            &&& e.process is Some && !foreign && !fits <==> v == Verdict::TooLong
            &&& e.process is Some && !foreign && fits && p.start_key is Some && p.start_key->0
                != e.key <==> v == Verdict::Mismatched
            &&& e.process is Some && !foreign && fits && p.start_key == Some(e.key) <==> v
                == Verdict::Verified
            &&& e.process is Some && !foreign && fits && p.start_key is None <==> v
                == Verdict::Unverified
            &&& is_usable(v) <==> e.process is Some && !foreign && fits && (p.start_key is Some
                ==> p.start_key->0 == e.key)
        }),
{
}

/// Of two endpoints exactly one is to be preferred. A verified one is preferred to one that is not,
/// whenever they were written; of two alike, the one that was written later; and of two written at
/// once, the one that was found first.
pub proof fn one_endpoint_is_preferred(es: Seq<Endpoint>, own: Option<u32>, i: int, j: int)
    requires
        0 <= i < es.len(),
        0 <= j < es.len(),
        i != j,
    ensures
        preferred(es, own, i, j) <==> !preferred(es, own, j, i),
        ({
            let vi = verdict_of(es[i], own) == Verdict::Verified;
            let vj = verdict_of(es[j], own) == Verdict::Verified;
            &&& vi && !vj ==> preferred(es, own, i, j)
            &&& vi == vj && es[i].modified > es[j].modified ==> preferred(es, own, i, j)
            &&& vi == vj && es[i].modified == es[j].modified && i < j ==> preferred(es, own, i, j)
        }),
{
}

/// The failures that have names go by them, and no others do.
pub proof fn failures_go_by_their_names(hresult: u32)
    ensures
        hresult == 0x8000_4005 ==> name_of_hresult(hresult) == Some("E_FAIL"@),
        hresult == 0x8007_0057 ==> name_of_hresult(hresult) == Some("E_INVALIDARG"@),
        hresult == 0x8007_007A ==> name_of_hresult(hresult) == Some("E_INSUFFICIENT_BUFFER"@),
        hresult == 0x8000_00CB ==> name_of_hresult(hresult) == Some("ENVVAR_NOT_FOUND"@),
        hresult == 0x8013_1371 ==> name_of_hresult(hresult) == Some("RUNTIME_UNINITIALIZED"@),
        hresult == 0x8013_1384 ==> name_of_hresult(hresult) == Some("BAD_ENCODING"@),
        hresult == 0x8013_1385 ==> name_of_hresult(hresult) == Some("UNKNOWN_COMMAND"@),
        hresult == 0x8013_1386 ==> name_of_hresult(hresult) == Some("UNKNOWN_MAGIC"@),
        hresult == 0x8013_1387 ==> name_of_hresult(hresult) == Some("UNKNOWN_ERROR"@),
        hresult == 0x8013_135B ==> name_of_hresult(hresult) == Some("NOT_YET_AVAILABLE"@),
        hresult == 0x8013_1515 ==> name_of_hresult(hresult) == Some("E_NOTSUPPORTED"@),
        hresult == 0x8013_136A ==> name_of_hresult(hresult) == Some("PROFILER_ALREADY_ACTIVE"@),
        name_of_hresult(hresult) is Some <==> (hresult == 0x8000_4005 || hresult == 0x8007_0057 || hresult == 0x8007_007A || hresult == 0x8000_00CB || hresult == 0x8013_1371 || hresult == 0x8013_1384 || hresult == 0x8013_1385 || hresult == 0x8013_1386 || hresult == 0x8013_1387 || hresult == 0x8013_135B || hresult == 0x8013_1515 || hresult == 0x8013_136A),
{
}

/// A name is a socket's only if it is the prefix, a number, a dash, a number and the suffix. The
/// first number has no dash in it, so anything else in its place makes the name another.
pub proof fn sockets_are_named_after_numbers(name: Seq<char>, pid: u32, key: u64)
    requires
        socket_name(name) == Some((pid, key)),
    ensures
        exists|a: Seq<char>, b: Seq<char>|
            {
                &&& name == "dotnet-diagnostic-"@ + (#[trigger] (a + seq!['-'] + b)) + "-socket"@
                &&& number_of(a, u32::MAX as nat) == Some(pid as nat)
                &&& number_of(b, u64::MAX as nat) == Some(key as nat)
                &&& !a.contains('-')
            },
{
    let prefix = "dotnet-diagnostic-"@;
    let suffix = "-socket"@;
    let tail = without_prefix(name, prefix)->0;
    let middle = without_suffix(tail, suffix)->0;
    let a = before_first(middle, '-');
    let b = middle.skip(first_place(middle, '-') + 1);
    crate::text::first_place_is_first(middle, '-');
    assert(middle =~= a + seq!['-'] + b);
    assert(name =~= prefix + tail);
    assert(tail =~= middle + suffix);
    assert(name =~= prefix + (a + seq!['-'] + b) + suffix);
    assert(!a.contains('-')) by {
        if a.contains('-') {
            let k = choose|k: int| 0 <= k < a.len() && a[k] == '-';
            assert(middle[k] == '-');
        }
    }
}

/// A message that does not start as messages do, or says that it is smaller than its own header, is
/// refused, and what it says is told.
pub proof fn bad_messages_are_refused(s: Stream)
    requires
        s.valid(),
        s.left() >= 20,
    ensures
        ({
            let start = s.data.subrange(s.at, s.at + 14);
            let magic = seq![68u8, 79, 84, 78, 69, 84, 95, 73, 80, 67, 95, 86, 49, 0];
            let size = s.data[s.at + 14] + 0x100 * s.data[s.at + 15];
            &&& start != magic ==> message_at(s).result == Err::<MessageModel, _>(
                IpcFault::BadMagic(start),
            )
            &&& start == magic && size < 20 ==> message_at(s).result == Err::<MessageModel, _>(
                IpcFault::ShortMessage(size as u16),
            )
            &&& start == magic && size >= 20 && s.left() >= size ==> message_at(s).result is Ok
                && message_at(s).stream == s.after(size)
            &&& start == magic && size > s.left() && s.open ==> message_at(s).stream == s
                && message_at(s).result == Err::<MessageModel, _>(
                IpcFault::Incomplete { missing: (size - s.left()) as nat },
            )
        }),
{
    let h = s.data.subrange(s.at, s.at + 20);
    assert(h.take(14) =~= s.data.subrange(s.at, s.at + 14));
    assert(crate::ipc::frame::MAGIC@ =~= seq![
        68u8, 79, 84, 78, 69, 84, 95, 73, 80, 67, 95, 86, 49, 0,
    ]);
    assert(h[14] == s.data[s.at + 14] && h[15] == s.data[s.at + 15]);
}

/// A runtime predates a query exactly if it answers that it does not know the command. No other
/// answer, and no other failure, leads to an older query.
pub proof fn only_unknown_commands_predate(
    answer: core::result::Result<ProcessInfo, CommandError>,
)
    ensures
        predates(answer) <==> answer == Err::<ProcessInfo, _>(
            CommandError::Ipc(IpcError::Server(0x8013_1385)),
        ),
{
}

/// Arguments are joined in order, with one space between two.
pub proof fn arguments_are_joined_in_order(args: Seq<String>, last: String)
    ensures
        args.len() == 0 ==> joined(args.push(last)) == last@,
        args.len() > 0 ==> joined(args.push(last)) == joined(args) + seq![' '] + last@,
{
    assert(args.push(last).drop_last() =~= args);
}

/// Processes are listed by name, in lower case, and processes of one name by pid.
pub proof fn processes_are_listed_by_name(p: DotnetProcess, q: DotnetProcess)
    requires
        in_order(p, q),
    ensures
        text_le(lowercase(p.name@), lowercase(q.name@)),
        lowercase(p.name@) == lowercase(q.name@) ==> p.pid < q.pid,
        !in_order(q, p),
{
    if in_order(q, p) {
        text_le_antisymmetric(lowercase(q.name@), lowercase(p.name@));
    }
}

} // verus!
