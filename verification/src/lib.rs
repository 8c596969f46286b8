//! The core of a terminal monitor for .NET processes: the diagnostics IPC protocol, the nettrace
//! stream format, the counters, runtime events and CPU samples it carries, and the state the
//! screens are drawn from.
pub mod app;
pub mod bytes;
pub mod cli;
pub mod counters;
pub mod ipc;
pub mod names;
pub mod nettrace;
pub mod order;
pub mod profile;
pub mod rates;
pub mod runtime;
pub mod text;
pub mod ui;
