//! The CPU profiling session.
//!
//! Unlike counters and runtime events, this one cannot report as it goes. Stack frames arrive as
//! bare instruction pointers, and the table that maps them to method names is emitted by the
//! runtime's *rundown*, which is delivered when the session stops. So a profile is necessarily
//! "collect for a fixed window, then resolve", not a live view.
use vstd::prelude::*;

use crate::bytes::{load_u32, u32_at};
use crate::ipc::commands::{provider_models, Provider, ProviderModel, TraceConfig};

pub mod event_id;

verus! {

/// Emits one sample per thread per millisecond, each carrying a stack.
pub const SAMPLE_PROFILER: &'static str = "Microsoft-DotNETCore-SampleProfiler";

/// Method load events for anything jitted while the session runs.
pub const RUNTIME_PROVIDER: &'static str = "Microsoft-Windows-DotNETRuntime";

/// Where the bulk of the method table arrives, at session stop.
pub const RUNDOWN_PROVIDER: &'static str = "Microsoft-Windows-DotNETRuntimeRundown";

/// Jit keyword: method load/unload events.
pub const KEYWORD_JIT: u64 = 0x10;

/// Loader keyword: module and assembly loads.
pub const KEYWORD_LOADER: u64 = 0x8;

/// Samples arrive at ~13,000/second on a busy app, so the buffer needs real headroom.
pub const CIRCULAR_BUFFER_MB: u32 = 256;

/// What a thread was doing when it was sampled.
///
/// The profiler samples every thread, including ones parked in a wait. Without this distinction a
/// hot-method list is dominated by whatever thread sits blocked the longest: technically the most
/// sampled code, and completely useless.
#[derive(Debug, Clone, Copy, PartialEq, Eq, Structural)]
pub enum SampleType {
    /// The runtime could not walk the stack.
    Error,
    /// In native code: a syscall, a wait, the GC, or a P/Invoke.
    External,
    /// Executing managed code: the samples that answer "what is burning CPU".
    Managed,
    Unknown(u32),
}

impl SampleType {
    /// The type a number stands for.
    pub open spec fn numbered(value: u32) -> SampleType {
        if value == 0 {
            SampleType::Error
        } else if value == 1 {
            SampleType::External
        } else if value == 2 {
            SampleType::Managed
        } else {
            SampleType::Unknown(value)
        }
    }

    /// The type a payload holds.
    pub open spec fn held_by(payload: Seq<u8>) -> SampleType {
        if payload.len() < 4 {
            SampleType::Unknown(u32::MAX)
        } else {
            SampleType::numbered(u32_at(payload, 0))
        }
    }

    pub fn from_u32(value: u32) -> (t: Self)
        ensures
            t == SampleType::numbered(value),
    {
        match value {
            0 => SampleType::Error,
            1 => SampleType::External,
            2 => SampleType::Managed,
            other => SampleType::Unknown(other),
        }
    }

    /// The `ThreadSample` payload is a single `u32` sample type.
    pub fn from_payload(payload: &[u8]) -> (t: Self)
        ensures
            t == SampleType::held_by(payload@),
    {
        if payload.len() < 4 {
            SampleType::Unknown(u32::MAX)
        } else {
            SampleType::from_u32(load_u32(payload, 0))
        }
    }
}

/// The session to ask for. Without rundown, every stack frame is an unresolvable address.
pub fn trace_config() -> (config: TraceConfig)
    ensures
        config.circular_buffer_mb == CIRCULAR_BUFFER_MB,
        config.request_rundown,
        provider_models(config.providers@) == seq![
            ProviderModel {
                name: SAMPLE_PROFILER@,
                keywords: 0,
                level: 4,
                filter_data: Seq::empty(),
            },
            ProviderModel {
                name: RUNTIME_PROVIDER@,
                keywords: KEYWORD_JIT | KEYWORD_LOADER,
                level: 5,
                filter_data: Seq::empty(),
            },
        ],
{
    let mut providers: Vec<Provider> = Vec::new();
    providers.push(
        Provider {
            name: SAMPLE_PROFILER.to_owned(),
            keywords: 0,
            level: 4,
            filter_data: String::new(),
        },
    );
    providers.push(
        Provider {
            name: RUNTIME_PROVIDER.to_owned(),
            keywords: KEYWORD_JIT | KEYWORD_LOADER,
            level: 5,
            filter_data: String::new(),
        },
    );
    assert(provider_models(providers@) =~= seq![providers@[0]@, providers@[1]@]);
    TraceConfig { circular_buffer_mb: CIRCULAR_BUFFER_MB, request_rundown: true, providers }
}

} // verus!
