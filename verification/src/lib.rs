//! Commands of a background task runner: starting, listing, following, stopping, restarting
//! and cleaning up tasks, and the interactive mode.
//!
//! A command is a state machine. Its function returns the first [`protocol::Step`]: a request
//! together with the state behind it, or the end. Whoever carries the request out hands the
//! reply to `resume`, which gives the next step. The contracts say which step follows from
//! which reply; the `law_` functions say what that means for whole runs.

pub mod cleanup;
pub mod error;
pub mod excerpt;
pub mod list;
pub mod log;
pub mod lookup;
pub mod protocol;
pub mod restart;
pub mod shell;
pub mod spawn;
pub mod status;
pub mod status_filter;
pub mod stop;
pub mod stored;
pub mod task;
pub mod text;
pub mod tui;
