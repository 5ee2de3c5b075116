//! Prints a bounded prefix of each input: its first lines or its first bytes,
//! with an optional file header and line numbers.
//!
//! - `units` reads byte-count expressions such as `10KB` and line counts.
//! - `render` writes decimal numbers, line marks and file headers.
//! - `prefix` is the bounded reader, fed a line or a byte at a time.
//! - `args` turns option values into a mode and arguments into inputs.
//! - `laws` states what holds of every output.

pub mod render;
pub mod units;
pub mod prefix;
pub mod args;
pub mod laws;
