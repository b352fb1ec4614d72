//! Run one command over a registered set of repositories and present the
//! outcome in a terminal.
//!
//! The library holds the rules: how a table is laid out and truncated, what
//! the progress display draws on each tick and what is reported afterwards,
//! how the paginated selection moves, and how the repository list is kept.
//! Every drawing function returns the writes to queue, in order, as plain
//! values; performing them is left to the caller.

pub mod cli_options;
pub mod command;
pub mod config;
pub mod parallel_run;
pub mod path;
pub mod serial_run;
pub mod terminal;
pub mod text;
pub mod tui;
