//! Streaming log output for a terminal tool: raw text fragments are reassembled
//! into lines, completed lines scroll into a history above a live viewport, and a
//! cancellable update loop decides what to draw on every tick.

pub mod content;
pub mod line_buffer;
pub mod lines;
pub mod new;
pub mod repo;
pub mod text;
pub mod term;
