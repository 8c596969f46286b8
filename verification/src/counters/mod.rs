//! Event counters: what they report, and how a session delivers them.
pub mod sample;
pub mod catalog;
pub mod session;
