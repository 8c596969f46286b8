//! A client for the .NET Diagnostics IPC protocol.
pub mod encode;
pub mod decode;
pub mod frame;
pub mod transport;
pub mod commands;
pub mod discovery;
pub mod wire;
