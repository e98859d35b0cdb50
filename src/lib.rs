//! A terminal-rendering engine: a grid of character cells, escape-sequence diffs between
//! frames, generation-checked pools for grapheme clusters and hyperlinks, capability
//! negotiation from device responses, and a double-buffered renderer with hit testing.

pub mod error;
pub mod text;
pub mod scan;
pub mod cell;
pub mod grid;
pub mod buffer;
pub mod pool;
pub mod grapheme;
pub mod link;
pub mod terminal;
pub mod geometry;
pub mod renderer;
pub mod mem_registry;
pub mod utf8;
pub mod ansi;
pub mod rope;
pub mod syntax_style;
