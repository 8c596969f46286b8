//! The investigation session: GC, allocation, exception and contention events.
pub mod events;
pub mod history;
pub mod session;
pub mod state;
pub mod wire;
