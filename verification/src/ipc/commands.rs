//! The Diagnostics IPC commands: process identity, and starting/stopping an EventPipe session.
//!
//! What goes out and what the answers mean is settled here; sending and receiving is left to
//! whoever holds the socket.
use vstd::prelude::*;
use vstd::slice::slice_subrange;

use super::decode::{
    piece_guid, piece_string, piece_u32, piece_u64, PayloadReader, TruncatedPayload,
};
use super::encode::{bool_bytes, string_bytes, PayloadWriter};
use super::frame::{
    command_set, encode_message, eventpipe, message_bytes, process, IpcError, IpcFault,
    HEADER_SIZE, UNKNOWN_COMMAND,
};
use super::transport::ConnectError;
use crate::bytes::{u32_bytes, u64_bytes};
use crate::text::{
    before_first, chars_of, decimal, find_char, first_place, number_of, parse_number, push_decimal,
    same_text,
};

verus! {

#[derive(Debug, Clone)]
pub enum CommandError {
    Connect(ConnectError),
    Ipc(IpcError),
    Payload(TruncatedPayload),
}

impl CommandError {
    /// The error in words.
    pub open spec fn words(self) -> Seq<char> {
        match self {
            CommandError::Connect(e) => e.words(),
            CommandError::Ipc(e) => e@.words(),
            CommandError::Payload(e) => e.words(),
        }
    }

    /// The error in words, for a person to read.
    pub fn describe(&self) -> (s: String)
        ensures
            s@ == self.words(),
    {
        match self {
            CommandError::Connect(e) => e.describe(),
            CommandError::Ipc(e) => e.describe(),
            CommandError::Payload(e) => e.describe(),
        }
    }
}

impl From<ConnectError> for CommandError {
    fn from(e: ConnectError) -> (r: Self) {
        CommandError::Connect(e)
    }
}

impl vstd::std_specs::convert::FromSpecImpl<ConnectError> for CommandError {
    open spec fn obeys_from_spec() -> bool {
        true
    }

    open spec fn from_spec(e: ConnectError) -> Self {
        CommandError::Connect(e)
    }
}

impl From<IpcError> for CommandError {
    fn from(e: IpcError) -> (r: Self) {
        CommandError::Ipc(e)
    }
}

impl vstd::std_specs::convert::FromSpecImpl<IpcError> for CommandError {
    open spec fn obeys_from_spec() -> bool {
        true
    }

    open spec fn from_spec(e: IpcError) -> Self {
        CommandError::Ipc(e)
    }
}

impl From<TruncatedPayload> for CommandError {
    fn from(e: TruncatedPayload) -> (r: Self) {
        CommandError::Payload(e)
    }
}

impl vstd::std_specs::convert::FromSpecImpl<TruncatedPayload> for CommandError {
    open spec fn obeys_from_spec() -> bool {
        true
    }

    open spec fn from_spec(e: TruncatedPayload) -> Self {
        CommandError::Payload(e)
    }
}

// ---------------------------------------------------------------------------------------------
// Process identity

/// What the runtime reports about itself.
#[derive(Debug, Clone)]
pub struct ProcessInfo {
    pub pid: u64,
    pub command_line: String,
    pub os: String,
    pub arch: String,
    /// Entry assembly name, a far better display name than "dotnet". Absent on ProcessInfo v1.
    pub assembly_name: Option<String>,
    /// e.g. "9.0.7", or "6.0.0-preview.6.12345". Absent on ProcessInfo v1.
    pub clr_version: Option<String>,
    /// e.g. "osx-arm64". ProcessInfo v3 only.
    pub runtime_identifier: Option<String>,
}

/// A [`ProcessInfo`] over sequences.
pub struct InfoModel {
    pub pid: u64,
    pub command_line: Seq<char>,
    pub os: Seq<char>,
    pub arch: Seq<char>,
    pub assembly_name: Option<Seq<char>>,
    pub clr_version: Option<Seq<char>>,
    pub runtime_identifier: Option<Seq<char>>,
}

/// A text that may be absent.
pub open spec fn text_view(s: Option<String>) -> Option<Seq<char>> {
    match s {
        Some(t) => Some(t@),
        None => None,
    }
}

impl View for ProcessInfo {
    type V = InfoModel;

    open spec fn view(&self) -> InfoModel {
        InfoModel {
            pid: self.pid,
            command_line: self.command_line@,
            os: self.os@,
            arch: self.arch@,
            assembly_name: text_view(self.assembly_name),
            clr_version: text_view(self.clr_version),
            runtime_identifier: text_view(self.runtime_identifier),
        }
    }
}

pub open spec fn blank_info() -> InfoModel {
    InfoModel {
        pid: 0,
        command_line: Seq::empty(),
        os: Seq::empty(),
        arch: Seq::empty(),
        assembly_name: None,
        clr_version: None,
        runtime_identifier: None,
    }
}

impl Default for ProcessInfo {
    fn default() -> (info: Self)
        ensures
            info@ == blank_info(),
    {
        ProcessInfo {
            pid: 0,
            command_line: String::new(),
            os: String::new(),
            arch: String::new(),
            assembly_name: None,
            clr_version: None,
            runtime_identifier: None,
        }
    }
}

/// The part of a version that is compared: neither build metadata nor prerelease.
pub open spec fn version_core(raw: Seq<char>) -> Seq<char> {
    before_first(before_first(raw, '+'), '-')
}

/// The first two numbers of a version. A missing second one counts as zero.
pub open spec fn version_numbers(raw: Seq<char>) -> Option<(u32, u32)> {
    let core = version_core(raw);
    let dot = first_place(core, '.');
    let major = number_of(before_first(core, '.'), u32::MAX as nat);
    let minor = if dot == core.len() {
        Some(0nat)
    } else {
        number_of(before_first(core.skip(dot + 1), '.'), u32::MAX as nat)
    };
    match (major, minor) {
        (Some(a), Some(b)) => Some((a as u32, b as u32)),
        _ => None,
    }
}

fn parse_version(raw: &str) -> (numbers: Option<(u32, u32)>)
    ensures
        numbers == version_numbers(raw@),
{
    let chars = chars_of(raw);
    let all = chars.as_slice();
    let released = slice_subrange(all, 0, find_char(all, '+'));
    assert(released@ =~= before_first(raw@, '+'));
    let core = slice_subrange(released, 0, find_char(released, '-'));
    assert(core@ =~= version_core(raw@));
    let dot: usize = find_char(core, '.');
    let major_text = slice_subrange(core, 0, dot);
    assert(major_text@ =~= before_first(core@, '.'));
    let major = parse_number(major_text, u32::MAX as u64);
    let minor = if dot == core.len() {
        Some(0u64)
    } else {
        let rest = slice_subrange(core, dot + 1, core.len());
        assert(rest@ =~= core@.skip(dot + 1));
        let minor_text = slice_subrange(rest, 0, find_char(rest, '.'));
        assert(minor_text@ =~= before_first(rest@, '.'));
        parse_number(minor_text, u32::MAX as u64)
    };
    match (major, minor) {
        (Some(a), Some(b)) => Some((a as u32, b as u32)),
        _ => None,
    }
}

/// The label of a framework version.
pub open spec fn framework_words(major: u32, minor: u32) -> Seq<char> {
    "net"@ + decimal(major as nat) + "."@ + decimal(minor as nat)
}

impl ProcessInfo {
    /// Major/minor of the CLR version, for gating counters that only exist on newer runtimes.
    pub fn clr_major_minor(&self) -> (numbers: Option<(u32, u32)>)
        ensures
            numbers == (match self@.clr_version {
                Some(raw) => version_numbers(raw),
                None => None,
            }),
    {
        match &self.clr_version {
            Some(raw) => parse_version(raw.as_str()),
            None => None,
        }
    }

    /// A short label like "net9.0" for the dashboard header.
    pub fn framework_label(&self) -> (label: Option<String>)
        ensures
            text_view(label) == (match self@.clr_version {
                Some(raw) => match version_numbers(raw) {
                    Some((major, minor)) => Some(framework_words(major, minor)),
                    None => None,
                },
                None => None,
            }),
    {
        match self.clr_major_minor() {
            Some((major, minor)) => {
                let mut s = "net".to_owned();
                push_decimal(&mut s, major as u64);
                s.append(".");
                push_decimal(&mut s, minor as u64);
                Some(s)
            },
            None => None,
        }
    }

    /// The name worth showing, given the OS-level process name.
    ///
    /// Framework-dependent apps are launched through the host, so the OS only knows them as
    /// "dotnet"; the runtime knows its own entry assembly, which is what a person recognises.
    /// A self-contained app has a real executable name already, and that wins.
    pub fn display_name<'a>(&'a self, process_name: &'a str) -> (name: &'a str)
        ensures
            name@ == (match self@.assembly_name {
                Some(assembly) if assembly.len() > 0 && process_name@ == "dotnet"@ => assembly,
                _ => process_name@,
            }),
    {
        match &self.assembly_name {
            Some(assembly) => {
                if !assembly.as_str().is_empty() && same_text(process_name, "dotnet") {
                    assembly.as_str()
                } else {
                    process_name
                }
            },
            None => process_name,
        }
    }
}

/// The part of an identity reply that all versions have, from `p` on.
pub open spec fn identity_at(b: Seq<u8>, p: int) -> super::decode::Piece<InfoModel> {
    let pid = piece_u64(b, p);
    let cookie = piece_guid(b, pid.pos);
    let command = piece_string(b, cookie.pos);
    let os = piece_string(b, command.pos);
    let arch = piece_string(b, os.pos);
    if let Err(e) = pid.result {
        super::decode::Piece { result: Err(e), pos: pid.pos }
    } else if let Err(e) = cookie.result {
        super::decode::Piece { result: Err(e), pos: cookie.pos }
    } else if let Err(e) = command.result {
        super::decode::Piece { result: Err(e), pos: command.pos }
    } else if let Err(e) = os.result {
        super::decode::Piece { result: Err(e), pos: os.pos }
    } else if let Err(e) = arch.result {
        super::decode::Piece { result: Err(e), pos: arch.pos }
    } else {
        super::decode::Piece {
            result: Ok(
                InfoModel {
                    pid: pid.result->Ok_0,
                    command_line: command.result->Ok_0,
                    os: os.result->Ok_0,
                    arch: arch.result->Ok_0,
                    ..blank_info()
                },
            ),
            pos: arch.pos,
        }
    }
}

/// The reply to an identity query. v3 leads with a version field; v2 and v3 add the assembly and
/// the runtime version, and v3 the runtime identifier.
pub open spec fn identity_of(command_id: u8, b: Seq<u8>) -> core::result::Result<
    InfoModel,
    TruncatedPayload,
> {
    let lead = piece_u32(b, 0);
    let start = if command_id == process::PROCESS_INFO3 {
        lead.pos
    } else {
        0
    };
    let common = identity_at(b, start);
    if command_id == process::PROCESS_INFO3 && lead.result is Err {
        Err(lead.result->Err_0)
    } else if let Err(e) = common.result {
        Err(e)
    } else if command_id == process::PROCESS_INFO2 || command_id == process::PROCESS_INFO3 {
        let assembly = piece_string(b, common.pos);
        let clr = piece_string(b, assembly.pos);
        let identifier = piece_string(b, clr.pos);
        if let Err(e) = assembly.result {
            Err(e)
        } else if let Err(e) = clr.result {
            Err(e)
        } else if command_id == process::PROCESS_INFO2 {
            Ok(
                InfoModel {
                    assembly_name: Some(assembly.result->Ok_0),
                    clr_version: Some(clr.result->Ok_0),
                    ..common.result->Ok_0
                },
            )
        } else if let Err(e) = identifier.result {
            Err(e)
        } else {
            Ok(
                InfoModel {
                    assembly_name: Some(assembly.result->Ok_0),
                    clr_version: Some(clr.result->Ok_0),
                    runtime_identifier: Some(identifier.result->Ok_0),
                    ..common.result->Ok_0
                },
            )
        }
    } else {
        Ok(common.result->Ok_0)
    }
}

fn read_identity(r: &mut PayloadReader<'_>) -> (info: core::result::Result<
    ProcessInfo,
    TruncatedPayload,
>)
    requires
        old(r).wf(),
    ensures
        final(r).wf(),
        final(r)@.bytes == old(r)@.bytes,
        ({
            let want = identity_at(old(r)@.bytes, old(r)@.pos);
            &&& match (info, want.result) {
                (Ok(i), Ok(m)) => i@ == m,
                (Err(e), Err(f)) => e == f,
                _ => false,
            }
            &&& final(r)@.pos == want.pos
        }),
{
    let mut info = ProcessInfo::default();
    info.pid = r.u64()?;
    // The runtime cookie is not needed.
    let _cookie = r.guid()?;
    info.command_line = r.string()?;
    info.os = r.string()?;
    info.arch = r.string()?;
    Ok(info)
}

/// Read the reply to an identity query.
pub fn parse_process_info(command_id: u8, payload: &[u8]) -> (info: core::result::Result<
    ProcessInfo,
    TruncatedPayload,
>)
    ensures
        match (info, identity_of(command_id, payload@)) {
            (Ok(i), Ok(m)) => i@ == m,
            (Err(e), Err(f)) => e == f,
            _ => false,
        },
{
    let mut r = PayloadReader::new(payload);
    // v3 leads with a version field; v2 and v1 start straight at the pid.
    if command_id == process::PROCESS_INFO3 {
        let _version: u32 = r.u32()?;
    }
    let mut info = read_identity(&mut r)?;
    if command_id == process::PROCESS_INFO2 || command_id == process::PROCESS_INFO3 {
        info.assembly_name = Some(r.string()?);
        info.clr_version = Some(r.string()?);
    }
    if command_id == process::PROCESS_INFO3 {
        info.runtime_identifier = Some(r.string()?);
    }
    Ok(info)
}

/// What to do next about a process's identity.
#[derive(Debug, Clone)]
pub enum IdentityStep {
    /// Ask on a connection of its own: the runtime closes the socket after an error reply.
    Ask(u8),
    Found(ProcessInfo),
    Failed(CommandError),
}

/// The version of the identity query to start with.
pub fn first_identity_query() -> (command_id: u8)
    ensures
        command_id == process::PROCESS_INFO3,
{
    process::PROCESS_INFO3
}

/// The query to fall back to from one that the runtime does not know.
pub open spec fn older_query(command_id: u8) -> Option<u8> {
    if command_id == process::PROCESS_INFO3 {
        Some(process::PROCESS_INFO2)
    } else if command_id == process::PROCESS_INFO2 {
        Some(process::PROCESS_INFO)
    } else {
        None
    }
}

/// Whether an answer says that the runtime predates the query.
pub open spec fn predates(answer: core::result::Result<ProcessInfo, CommandError>) -> bool {
    answer matches Err(CommandError::Ipc(IpcError::Server(hresult))) && hresult == UNKNOWN_COMMAND
}

/// What follows the answer to an identity query: ProcessInfo3, then 2, then 1.
///
/// Older runtimes answer `UNKNOWN_COMMAND` for versions they predate, so the queries walk down.
/// Any other answer is final.
pub fn after_identity_answer(
    command_id: u8,
    answer: core::result::Result<ProcessInfo, CommandError>,
) -> (step: IdentityStep)
    ensures
        step == (if predates(answer) && older_query(command_id) is Some {
            IdentityStep::Ask(older_query(command_id)->0)
        } else {
            match answer {
                Ok(info) => IdentityStep::Found(info),
                Err(e) => IdentityStep::Failed(e),
            }
        }),
{
    match answer {
        Ok(info) => IdentityStep::Found(info),
        Err(CommandError::Ipc(IpcError::Server(hresult))) => {
            if hresult == UNKNOWN_COMMAND && command_id == process::PROCESS_INFO3 {
                IdentityStep::Ask(process::PROCESS_INFO2)
            } else if hresult == UNKNOWN_COMMAND && command_id == process::PROCESS_INFO2 {
                IdentityStep::Ask(process::PROCESS_INFO)
            } else {
                IdentityStep::Failed(CommandError::Ipc(IpcError::Server(hresult)))
            }
        },
        Err(e) => IdentityStep::Failed(e),
    }
}

/// An identity query, as it goes out.
pub fn identity_request(command_id: u8) -> (message: core::result::Result<Vec<u8>, IpcError>)
    ensures
        message is Ok,
        message->Ok_0@ == message_bytes(command_set::PROCESS, command_id, Seq::empty()),
{
    let payload: Vec<u8> = Vec::new();
    encode_message(command_set::PROCESS, command_id, payload.as_slice())
}

// ---------------------------------------------------------------------------------------------
// Sessions

/// One EventSource/EventCounter provider to subscribe to.
#[derive(Debug, Clone)]
pub struct Provider {
    pub name: String,
    pub keywords: u64,
    pub level: u32,
    /// Semicolon-separated `key=value` pairs, e.g. `EventCounterIntervalSec=1`.
    pub filter_data: String,
}

#[derive(Debug, Clone)]
pub struct TraceConfig {
    pub circular_buffer_mb: u32,
    /// Whether the session ends with a map of every method that was loaded. Pure overhead for
    /// counters.
    pub request_rundown: bool,
    pub providers: Vec<Provider>,
}

/// A [`Provider`] over sequences.
pub struct ProviderModel {
    pub name: Seq<char>,
    pub keywords: u64,
    pub level: u32,
    pub filter_data: Seq<char>,
}

impl View for Provider {
    type V = ProviderModel;

    open spec fn view(&self) -> ProviderModel {
        ProviderModel {
            name: self.name@,
            keywords: self.keywords,
            level: self.level,
            filter_data: self.filter_data@,
        }
    }
}

/// The models of a list of providers.
pub open spec fn provider_models(providers: Seq<Provider>) -> Seq<ProviderModel> {
    Seq::new(providers.len(), |i: int| providers[i]@)
}

/// A provider in its stored form.
pub open spec fn provider_bytes(p: ProviderModel) -> Seq<u8> {
    u64_bytes(p.keywords) + u32_bytes(p.level) + string_bytes(p.name) + string_bytes(p.filter_data)
}

/// Providers in their stored form.
pub open spec fn providers_bytes(providers: Seq<ProviderModel>) -> Seq<u8>
    decreases providers.len(),
{
    if providers.len() == 0 {
        Seq::empty()
    } else {
        providers_bytes(providers.drop_last()) + provider_bytes(providers.last())
    }
}

/// NetTrace. The alternative (NetPerf V3 = 0) is still accepted by the runtime but is not
/// exercised by any shipping tool.
pub const FORMAT_NETTRACE: u32 = 1;

/// The payload that asks for a session.
pub open spec fn trace_payload(
    circular_buffer_mb: u32,
    request_rundown: bool,
    providers: Seq<ProviderModel>,
) -> Seq<u8> {
    u32_bytes(circular_buffer_mb) + u32_bytes(FORMAT_NETTRACE) + bool_bytes(request_rundown)
        + u32_bytes((providers.len() % 0x1_0000_0000) as u32) + providers_bytes(providers)
}

impl TraceConfig {
    pub open spec fn payload(self) -> Seq<u8> {
        trace_payload(
            self.circular_buffer_mb,
            self.request_rundown,
            provider_models(self.providers@),
        )
    }

    pub fn to_payload(&self) -> (bytes: Vec<u8>)
        ensures
            bytes@ == self.payload(),
    {
        let ghost all = provider_models(self.providers@);
        let mut w = PayloadWriter::new();
        w.u32(self.circular_buffer_mb);
        w.u32(FORMAT_NETTRACE);
        w.bool(self.request_rundown);
        w.u32((self.providers.len() as u64 % 0x1_0000_0000) as u32);
        let ghost head = w@;
        let mut i: usize = 0;
        assert(all.take(0) =~= Seq::<ProviderModel>::empty());
        assert(head + Seq::<u8>::empty() =~= head);
        while i < self.providers.len()
            invariant
                i <= self.providers@.len(),
                all == provider_models(self.providers@),
                w@ == head + providers_bytes(all.take(i as int)),
            decreases self.providers@.len() - i,
        {
            let provider = &self.providers[i];
            let ghost before = w@;
            w.u64(provider.keywords);
            w.u32(provider.level);
            w.string(provider.name.as_str());
            w.string(provider.filter_data.as_str());
            proof {
                assert(w@ =~= before + provider_bytes(provider@));
                let longer = all.take(i + 1);
                assert(longer.drop_last() =~= all.take(i as int));
                assert(longer.last() == provider@);
                assert(w@ =~= head + providers_bytes(longer));
            }
            i += 1;
        }
        assert(all.take(all.len() as int) =~= all);
        assert(w@ =~= self.payload());
        w.into_bytes()
    }
}

/// The request that starts a session with CollectTracing2, which every runtime from .NET 5 onwards
/// accepts. Everything after the response to it is nettrace, on the *same* socket.
pub fn start_request(config: &TraceConfig) -> (message: core::result::Result<Vec<u8>, IpcError>)
    ensures
        match message {
            Ok(bytes) => {
                &&& HEADER_SIZE + config.payload().len() <= u16::MAX
                &&& bytes@ == message_bytes(
                    command_set::EVENTPIPE,
                    eventpipe::COLLECT_TRACING2,
                    config.payload(),
                )
            },
            Err(e) => {
                &&& HEADER_SIZE + config.payload().len() > u16::MAX
                &&& e@ == IpcFault::PayloadTooLarge(config.payload().len())
            },
        },
{
    encode_message(
        command_set::EVENTPIPE,
        eventpipe::COLLECT_TRACING2,
        config.to_payload().as_slice(),
    )
}

/// The id of a session, out of the response that started it.
pub fn parse_session_id(payload: &[u8]) -> (id: core::result::Result<u64, TruncatedPayload>)
    ensures
        id == piece_u64(payload@, 0).result,
{
    let mut r = PayloadReader::new(payload);
    r.u64()
}

/// The request that stops a session. It must go out on a *new* connection: the protocol allows one
/// command per connection.
pub fn stop_request(session_id: u64) -> (message: core::result::Result<Vec<u8>, IpcError>)
    ensures
        message is Ok,
        message->Ok_0@ == message_bytes(
            command_set::EVENTPIPE,
            eventpipe::STOP_TRACING,
            u64_bytes(session_id),
        ),
{
    let mut w = PayloadWriter::new();
    w.u64(session_id);
    let payload = w.into_bytes();
    assert(payload@ =~= u64_bytes(session_id));
    encode_message(command_set::EVENTPIPE, eventpipe::STOP_TRACING, payload.as_slice())
}

} // verus!
