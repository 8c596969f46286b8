//! CPU profiling: samples, stacks, the method rundown, and hot-method ranking.
pub mod methods;
pub mod samples;
pub mod session;
pub mod tally;
pub mod state;
pub mod history;
pub mod ranking;
pub mod run;
