//! A parser for the nettrace stream format emitted by .NET EventPipe.
//!
//! Targets nettrace V4 framing with V5 metadata tags, which covers .NET Core 3.0 through .NET 10.
pub mod blocks;
pub mod event;
pub mod fastserial;
pub mod metadata;
pub mod objects;
pub mod payload;
pub mod reader;
pub mod records;
pub mod rows;
pub mod stacks;
pub mod values;
