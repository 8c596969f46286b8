//! What the interactive screens decide: colours, plots, layouts, texts and keys. Drawing itself is
//! left to whoever owns the terminal.
pub mod chart;
pub mod conduct;
pub mod dashboard;
pub mod gradient;
pub mod graph;
pub mod investigate;
pub mod keys;
pub mod lines;
pub mod panels;
pub mod picker;
pub mod profile;
pub mod sessions;
pub mod shapes;
pub mod theme;
